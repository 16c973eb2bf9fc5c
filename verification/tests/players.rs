//! Players on the bus and on macOS.
use lyrica::player::macos::{
    choose_snapshot, command_script, control_script, emit_diff_events, enabled_sources,
    parse_probe_output, probe_script, MacOsPlayer, Snapshot, Source,
};
use lyrica::player::mpris::{
    control_call, display_name, player_state, read_position, read_status, read_track,
    select_player, MetaValue, Metadata, Monitor, PlayerCall, Reading,
};
use lyrica::player::{can_interpolate, interpolate, PlaybackStatus, PlayerControl, PlayerEvent, Track};
use lyrica::time::Duration;

fn at(ms: u64) -> Duration {
    Duration::from_millis(ms)
}

fn track(id: &str) -> Track {
    Track {
        id: id.to_string(),
        title: "Song".to_string(),
        artist: "Singer".to_string(),
        album: None,
        duration: None,
    }
}

fn names(list: &[&str]) -> Vec<String> {
    list.iter().map(|s| s.to_string()).collect()
}

fn show(events: &[PlayerEvent]) -> Vec<String> {
    events
        .iter()
        .map(|e| match e {
            PlayerEvent::TrackChanged(t) => format!("track {}", t.id),
            PlayerEvent::PlaybackStateChanged(s) => format!("{:?}", s),
            PlayerEvent::Seeked(p) => format!("seek {}", p.as_millis()),
            PlayerEvent::PlayerQuit => "quit".to_string(),
        })
        .collect()
}

#[test]
fn choosing_a_player_on_the_bus() {
    let bus = names(&[
        "org.freedesktop.DBus",
        "org.mpris.MediaPlayer2.firefox",
        ":1.5",
        "org.mpris.MediaPlayer2.Spotify",
    ]);
    assert_eq!(select_player(&bus, "", false).as_deref(), Some("org.mpris.MediaPlayer2.firefox"));
    assert_eq!(select_player(&bus, "", true).as_deref(), Some("org.mpris.MediaPlayer2.firefox"));
    assert_eq!(select_player(&bus, "SPOT", false).as_deref(), Some("org.mpris.MediaPlayer2.Spotify"));
    assert_eq!(select_player(&bus, "vlc", false).as_deref(), Some("org.mpris.MediaPlayer2.firefox"));
    assert_eq!(select_player(&bus, "vlc", true), None);
    assert_eq!(select_player(&names(&["org.freedesktop.DBus"]), "", false), None);
    assert_eq!(select_player(&Vec::new(), "x", false), None);
}

#[test]
fn display_names() {
    assert_eq!(display_name("org.mpris.MediaPlayer2.vlc"), "vlc");
    for name in ["", "vlc", "org.mpris.MediaPlayer2.", "org.mpris.MediaPlayer2.org.mpris.MediaPlayer2.x"] {
        assert_eq!(display_name(name), name.trim_start_matches("org.mpris.MediaPlayer2."));
    }
    let s = player_state("org.mpris.MediaPlayer2.vlc", Some(track("1")), PlaybackStatus::Paused, at(5));
    assert_eq!((s.player_name.as_str(), s.status, s.position), ("vlc", PlaybackStatus::Paused, at(5)));
    assert!(s.track.is_some());
}

fn value(text: Option<&str>, list: Option<&[&str]>, signed: Option<i64>, unsigned: Option<u64>) -> MetaValue {
    MetaValue { text: text.map(|s| s.to_string()), list: list.map(names), signed, unsigned }
}

fn metadata(entries: Vec<(&str, MetaValue)>) -> Option<Metadata> {
    Some(Metadata { entries: entries.into_iter().map(|(k, v)| (k.to_string(), v)).collect() })
}

#[test]
fn reading_a_track() {
    let t = read_track(metadata(vec![
        ("mpris:trackid", value(Some("/track/1"), None, None, None)),
        ("xesam:title", value(Some("Song"), None, None, None)),
        ("xesam:artist", value(None, Some(&["A", "B"]), None, None)),
        ("xesam:album", value(Some("Album"), None, None, None)),
        ("mpris:length", value(None, None, Some(61_000_000), None)),
    ]))
    .unwrap();
    assert_eq!(t.id, "/track/1");
    assert_eq!(t.title, "Song");
    assert_eq!(t.artist, "A, B");
    assert_eq!(t.album.as_deref(), Some("Album"));
    assert_eq!(t.duration, Some(at(61_000)));
    // An artist may be a single text, a length unsigned or negative.
    let t = read_track(metadata(vec![
        ("xesam:artist", value(Some("Only"), None, None, None)),
        ("mpris:length", value(None, None, None, Some(2_000))),
    ]))
    .unwrap();
    assert_eq!((t.id.as_str(), t.title.as_str(), t.artist.as_str()), ("", "", "Only"));
    assert_eq!(t.duration, Some(at(2)));
    let length = |v: MetaValue| {
        read_track(metadata(vec![("xesam:title", value(Some("x"), None, None, None)), ("mpris:length", v)]))
            .unwrap()
            .duration
    };
    assert_eq!(length(value(None, None, Some(-5), None)), Some(at(0)));
    assert_eq!(length(value(None, None, None, Some(u64::MAX))), Some(at(0)));
    assert_eq!(length(value(Some("long"), None, None, None)), None);
    assert!(read_track(None).is_none());
    assert!(read_track(metadata(Vec::new())).is_none());
    assert!(read_track(metadata(vec![("xesam:album", value(Some("x"), None, None, None))])).is_none());
}

#[test]
fn reading_status_and_position() {
    assert_eq!(read_status(Some("Playing".to_string())), PlaybackStatus::Playing);
    assert_eq!(read_status(Some("Paused".to_string())), PlaybackStatus::Paused);
    assert_eq!(read_status(Some("playing".to_string())), PlaybackStatus::Stopped);
    assert_eq!(read_status(None), PlaybackStatus::Stopped);
    assert_eq!(read_position(Some(1_500_000)), at(1_500));
    assert_eq!(read_position(Some(-1)), at(0));
    assert_eq!(read_position(None), at(0));
}

fn reading(t: Option<Track>, status: PlaybackStatus) -> Option<Reading> {
    Some(Reading { track: t, status })
}

#[test]
fn monitoring_a_player() {
    let first = Reading { track: Some(track("1")), status: PlaybackStatus::Playing };
    let (mut m, events) = Monitor::start(at(0), first);
    assert_eq!(show(&events), vec!["track 1", "Playing"]);
    let (events, gone) = m.on_tick(at(1_000), reading(Some(track("1")), PlaybackStatus::Playing));
    assert!(events.is_empty() && !gone);
    // A jump of more than two seconds is a seek.
    let (events, _) = m.on_tick(at(3_000), reading(Some(track("1")), PlaybackStatus::Playing));
    assert!(events.is_empty());
    let (events, _) = m.on_tick(at(5_001), reading(Some(track("1")), PlaybackStatus::Playing));
    assert_eq!(show(&events), vec!["seek 5001"]);
    let (events, _) = m.on_tick(at(100), reading(Some(track("2")), PlaybackStatus::Paused));
    assert_eq!(show(&events), vec!["seek 100", "track 2", "Paused"]);
    // A track without an id is no new track.
    let (events, _) = m.on_signal(None, reading(Some(track("")), PlaybackStatus::Paused));
    assert!(events.is_empty());
    let (events, _) = m.on_signal(Some(at(9_000)), reading(None, PlaybackStatus::Stopped));
    assert_eq!(show(&events), vec!["seek 9000", "Stopped"]);
    assert_eq!(m.last_position, at(9_000));
}

#[test]
fn a_player_is_gone_after_five_failures() {
    let first = Reading { track: None, status: PlaybackStatus::Stopped };
    let (mut m, events) = Monitor::start(at(0), first);
    assert_eq!(show(&events), vec!["Stopped"]);
    for _ in 0..4 {
        assert!(!m.on_tick(at(0), None).1);
    }
    assert!(!m.on_signal(None, reading(None, PlaybackStatus::Stopped)).1);
    for _ in 0..4 {
        assert!(!m.on_signal(None, None).1);
    }
    assert!(m.on_tick(at(0), None).1);
}

#[test]
fn calls_for_controls() {
    for (control, method) in [
        (PlayerControl::PlayPause, "PlayPause"),
        (PlayerControl::Play, "Play"),
        (PlayerControl::Pause, "Pause"),
        (PlayerControl::Stop, "Stop"),
        (PlayerControl::Next, "Next"),
        (PlayerControl::Previous, "Previous"),
    ] {
        assert!(matches!(control_call(control, "/1"), PlayerCall::Plain(m) if m == method));
    }
    match control_call(PlayerControl::SeekTo(at(2)), "/1") {
        PlayerCall::SetPosition(id, us) => assert_eq!((id.as_str(), us), ("/1", 2_000)),
        other => panic!("{:?}", other),
    }
    match control_call(PlayerControl::SeekTo(Duration::from_nanos(u128::MAX)), "") {
        PlayerCall::SetPosition(_, us) => assert_eq!(us, i64::MAX),
        other => panic!("{:?}", other),
    }
}

#[test]
fn positions_between_polls() {
    assert_eq!(interpolate(PlaybackStatus::Playing, at(5), at(7)), at(12));
    assert_eq!(interpolate(PlaybackStatus::Paused, at(5), at(7)), at(5));
    assert!(!can_interpolate(PlaybackStatus::Playing, Duration::from_nanos(u128::MAX), at(1)));
    assert!(can_interpolate(PlaybackStatus::Stopped, Duration::from_nanos(u128::MAX), at(1)));
}

#[test]
fn sources_to_probe() {
    assert_eq!(enabled_sources("", true), vec![Source::Spotify, Source::Music]);
    assert_eq!(enabled_sources("spot", false), vec![Source::Spotify, Source::Music]);
    assert_eq!(enabled_sources("SPOT", true), vec![Source::Spotify]);
    assert_eq!(enabled_sources("vlc", true), Vec::<Source>::new());
    assert_eq!(Source::Music.display_name(), "Music");
    assert_eq!(Source::Spotify.process_name(), "Spotify");
    assert!(Source::Music.matches_preferred("mus"));
    assert!(!Source::Music.matches_preferred("spotify"));
}

#[test]
fn scripts() {
    assert_eq!(command_script(Source::Spotify, "playpause"), "tell application \"Spotify\" to playpause");
    let cases = [
        (Source::Music, PlayerControl::PlayPause, "playpause"),
        (Source::Music, PlayerControl::Play, "play"),
        (Source::Music, PlayerControl::Pause, "pause"),
        (Source::Music, PlayerControl::Stop, "stop"),
        (Source::Spotify, PlayerControl::Stop, "pause"),
        (Source::Music, PlayerControl::Next, "next track"),
        (Source::Music, PlayerControl::Previous, "previous track"),
        (Source::Music, PlayerControl::SeekTo(at(1_500)), "set player position to 1.5"),
    ];
    for (src, control, verb) in cases {
        assert_eq!(
            control_script(src, control, "1.5"),
            format!("tell application \"{}\" to {}", src.display_name(), verb)
        );
    }
}

#[test]
fn probe_scripts() {
    let expected = |app: &str, dur: &str, id: &str| {
        format!(
            r#"tell application "System Events"
    if not (exists process "{app}") then return "not_running"
end tell
tell application "{app}"
    try
        set ps to player state as text
    on error
        return "stopped"
    end try
    if ps is "stopped" then return "stopped"
    try
        set t to current track
    on error
        return "stopped"
    end try
    set dur to {dur}
    set pos to player position
    return "ok|" & ps & "|" & (name of t) & "|" & (artist of t) & "|" & (album of t) & "|" & dur & "|" & pos & "|" & ({id})
end tell"#
        )
    };
    assert_eq!(probe_script(Source::Spotify), expected("Spotify", "duration of t", "id of t"));
    assert_eq!(
        probe_script(Source::Music),
        expected("Music", "(duration of t) * 1000", "persistent ID of t")
    );
}

#[test]
fn probe_output() {
    for raw in ["not_running", "stopped\n", "", "  ", "error|x", "okay|x"] {
        assert!(parse_probe_output(raw).is_none(), "{:?}", raw);
    }
    let f = parse_probe_output("ok|playing|Song|Singer|Album|200000|12.5|spotify:track:a|b\n").unwrap();
    assert_eq!((f.state.as_str(), f.title.as_str(), f.artist.as_str()), ("playing", "Song", "Singer"));
    assert_eq!((f.duration_ms.as_str(), f.position_s.as_str()), ("200000", "12.5"));
    assert_eq!(f.id, "spotify:track:a|b");
    let s = f.snapshot(Source::Spotify, Some(200_000), 12_500_000).unwrap();
    assert_eq!((s.status, s.position), (PlaybackStatus::Playing, at(12_500)));
    assert_eq!(s.track.duration, Some(at(200_000)));
    assert_eq!(s.track.album.as_deref(), Some("Album"));
    let f = parse_probe_output("ok|fast forwarding|Song||").unwrap();
    assert_eq!((f.duration_ms.as_str(), f.position_s.as_str(), f.id.as_str()), ("0", "0", ""));
    let s = f.snapshot(Source::Music, None, 0).unwrap();
    assert_eq!((s.status, s.track.album, s.track.duration), (PlaybackStatus::Stopped, None, None));
    let f = parse_probe_output("ok|paused|||Album|1|2|3").unwrap();
    assert!(f.snapshot(Source::Music, None, 0).is_none());
    let f = parse_probe_output("ok").unwrap();
    assert_eq!(f.state, "");
}

fn snap(source: Source, status: PlaybackStatus, ms: u64, id: &str) -> Snapshot {
    Snapshot { source, status, position: at(ms), track: track(id) }
}

#[test]
fn choosing_a_snapshot() {
    let snaps = vec![
        snap(Source::Spotify, PlaybackStatus::Paused, 0, "a"),
        snap(Source::Music, PlaybackStatus::Playing, 0, "b"),
    ];
    let pick = |p: &str, strict: bool| choose_snapshot(&snaps, p, strict).map(|s| s.source);
    assert_eq!(pick("", false), Some(Source::Music));
    assert_eq!(pick("", true), Some(Source::Music));
    assert_eq!(pick("spotify", false), Some(Source::Spotify));
    assert_eq!(pick("vlc", false), Some(Source::Music));
    assert_eq!(pick("vlc", true), None);
    let paused = vec![snap(Source::Spotify, PlaybackStatus::Paused, 0, "a")];
    assert_eq!(choose_snapshot(&paused, "", false).map(|s| s.source), Some(Source::Spotify));
    assert!(choose_snapshot(&Vec::new(), "", false).is_none());
    // A stopped source counts only where it is preferred.
    let stopped = vec![snap(Source::Spotify, PlaybackStatus::Stopped, 0, "a")];
    assert!(choose_snapshot(&stopped, "", false).is_none());
    assert!(choose_snapshot(&stopped, "music", false).is_none());
    assert_eq!(choose_snapshot(&stopped, "spotify", false).map(|s| s.source), Some(Source::Spotify));
    let mixed = vec![
        snap(Source::Spotify, PlaybackStatus::Stopped, 0, "a"),
        snap(Source::Music, PlaybackStatus::Paused, 0, "b"),
    ];
    assert_eq!(choose_snapshot(&mixed, "", false).map(|s| s.source), Some(Source::Music));
}

#[test]
fn events_from_snapshots() {
    let play = |ms: u64, id: &str| Some(snap(Source::Spotify, PlaybackStatus::Playing, ms, id));
    let events = |a: Option<Snapshot>, b: Option<Snapshot>| show(&emit_diff_events(&a, &b));
    assert!(events(play(1_000, "a"), play(1_500, "a")).is_empty());
    assert!(events(play(1_000, "a"), play(2_300, "a")).is_empty());
    assert_eq!(events(play(1_000, "a"), play(2_301, "a")), vec!["seek 2301"]);
    assert_eq!(events(play(9_000, "a"), play(0, "b")), vec!["track b"]);
    let paused = Some(snap(Source::Spotify, PlaybackStatus::Paused, 1_000, "a"));
    assert_eq!(events(play(1_000, "a"), paused.clone()), vec!["Paused"]);
    assert_eq!(events(paused.clone(), play(1_000, "a")), vec!["Playing"]);
    assert_eq!(events(paused, play(1_801, "a")), vec!["Playing", "seek 1801"]);
    let other = Some(snap(Source::Music, PlaybackStatus::Paused, 0, "a"));
    assert_eq!(events(play(1_000, "a"), other.clone()), vec!["track a", "Paused"]);
    assert_eq!(events(None, other), vec!["track a", "Paused"]);
    assert_eq!(events(play(0, "a"), None), vec!["quit"]);
    assert!(events(None, None).is_empty());
}

#[test]
fn polling() {
    let mut p = MacOsPlayer::new("spot", true, at(0));
    assert_eq!((p.preferred_player.as_str(), p.strict), ("spot", true));
    assert_eq!(p.position(at(50)), at(0));
    assert!(p.on_poll(None, at(100)).is_empty());
    // The first snapshot gives no events.
    let first = snap(Source::Spotify, PlaybackStatus::Playing, 1_000, "a");
    assert!(p.on_poll(Some(first), at(500)).is_empty());
    assert!(p.can_predict());
    assert!(p.position_fits(at(700)));
    assert_eq!(p.position(at(700)), at(1_200));
    assert_eq!(show(&p.on_poll(None, at(1_000))), vec!["quit"]);
    let again = snap(Source::Spotify, PlaybackStatus::Paused, 3_000, "a");
    assert_eq!(show(&p.on_poll(Some(again), at(1_500))), vec!["track a", "Paused"]);
    assert_eq!(p.position(at(9_000)), at(3_000));
}

#[test]
fn states_of_snapshots() {
    let s = MacOsPlayer::current_state(Some(snap(Source::Music, PlaybackStatus::Playing, 7, "a")));
    assert_eq!((s.player_name.as_str(), s.status, s.position), ("Music", PlaybackStatus::Playing, at(7)));
    assert_eq!(s.track.unwrap().id, "a");
    let s = MacOsPlayer::current_state(None);
    assert_eq!((s.player_name.as_str(), s.status, s.position), ("", PlaybackStatus::Stopped, at(0)));
    assert!(s.track.is_none());
}

#[test]
fn a_run_of_polls() {
    let play = |ms: u64, id: &str| Some(snap(Source::Music, PlaybackStatus::Playing, ms, id));
    let polls = [None, None, play(0, "a"), play(500, "a"), play(0, "b"), None, None, play(9, "c")];
    let mut p = MacOsPlayer::new("", false, at(0));
    let mut seen = Vec::new();
    for (i, poll) in polls.iter().enumerate() {
        seen.push(show(&p.on_poll(poll.clone(), at(500 * i as u64))));
    }
    let expected: Vec<Vec<&str>> = vec![
        vec![], vec![], vec![], vec![], vec!["track b"], vec!["quit"], vec![], vec!["track c", "Playing"],
    ];
    assert_eq!(seen, expected);
    for j in 3..polls.len() {
        assert_eq!(seen[j], show(&emit_diff_events(&polls[j - 1], &polls[j])));
    }
}
