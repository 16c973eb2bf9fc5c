//! The lyrics lifecycle.
use lyrica::display::SchedulerCommand;
use lyrica::lyrics::{lrc, Lyrics};
use lyrica::player::{PlaybackStatus, PlayerControl, PlayerEvent, PlayerState, Track};
use lyrica::scheduler::{Action, LyricsSearchResult, Scheduler, SearchOutcome};
use lyrica::time::Duration;

fn at(ms: u64) -> Duration {
    Duration::from_millis(ms)
}

fn track(id: &str, title: &str) -> Track {
    Track {
        id: id.to_string(),
        title: title.to_string(),
        artist: "Singer".to_string(),
        album: Some("Album".to_string()),
        duration: Some(at(200_000)),
    }
}

fn song() -> Lyrics {
    lrc::parse("[00:01.00]one\n[00:02.00]two\n[00:03.00]three").unwrap()
}

fn playing(t: Track, cached: Option<Lyrics>) -> Scheduler {
    let mut s = Scheduler::new();
    let state = PlayerState {
        status: PlaybackStatus::Playing,
        position: at(500),
        track: Some(t),
        player_name: "p".to_string(),
    };
    s.start(state, cached);
    s.follow_clock(at(0));
    s
}

fn result(id: &str, title: &str, outcome: SearchOutcome) -> LyricsSearchResult {
    LyricsSearchResult {
        track_id: id.to_string(),
        title: title.to_string(),
        artist: "Singer".to_string(),
        outcome,
    }
}

#[test]
fn a_new_scheduler_is_idle() {
    let s = Scheduler::new();
    assert!(s.state.track.is_none());
    assert!(s.state.lyrics.is_none());
    assert_eq!(s.state.status, PlaybackStatus::Stopped);
    assert_eq!(s.line_timer, None);
    assert!(!s.wants_ticks());
}

#[test]
fn start_searches_unless_cached() {
    let mut s = Scheduler::new();
    let state = |t: Option<Track>| PlayerState {
        status: PlaybackStatus::Paused,
        position: at(700),
        track: t,
        player_name: String::new(),
    };
    let (order, shown) = s.start(state(Some(track("1", "Song"))), None);
    let order = order.unwrap();
    assert_eq!(order.track_id, "1");
    assert_eq!(order.request.title, "Song");
    assert_eq!(order.request.artist, "Singer");
    assert_eq!(order.request.album.as_deref(), Some("Album"));
    assert_eq!(order.request.duration, Some(at(200_000)));
    assert_eq!(shown.status, PlaybackStatus::Paused);
    assert_eq!(shown.playback_position, at(700));
    let mut cached = song();
    cached.offset_ms = 40;
    let (order, shown) = Scheduler::new().start(state(Some(track("1", "Song"))), Some(cached));
    assert!(order.is_none());
    assert_eq!(shown.lyrics.unwrap().lines.len(), 3);
    assert_eq!(shown.offset_ms, 40);
    let (order, shown) = Scheduler::new().start(state(None), None);
    assert!(order.is_none());
    assert!(shown.track.is_none());
}

#[test]
fn position_follows_the_clock_while_playing() {
    let mut s = playing(track("1", "Song"), Some(song()));
    assert!(s.wants_ticks());
    assert_eq!(s.on_tick(at(250)).playback_position, at(750));
    assert_eq!(s.on_tick(at(1_000)).playback_position, at(1_500));
    let (_, shown) =
        s.on_player_event(PlayerEvent::PlaybackStateChanged(PlaybackStatus::Paused), None, at(1_100));
    assert_eq!(shown.playback_position, at(1_600));
    assert_eq!(s.line_timer, None);
    assert_eq!(s.on_tick(at(9_000)).playback_position, at(1_600));
    s.on_player_event(PlayerEvent::PlaybackStateChanged(PlaybackStatus::Playing), None, at(10_000));
    assert_eq!(s.line_timer, Some(at(10_400)));
    assert_eq!(s.on_tick(at(10_100)).playback_position, at(1_700));
}

#[test]
fn the_timer_shows_the_next_line() {
    let mut s = playing(track("1", "Song"), Some(song()));
    let shown = s.refresh(at(0));
    assert_eq!((shown.current_line_index, shown.next_line_index), (None, Some(0)));
    assert_eq!(s.line_timer, Some(at(500)));
    let shown = s.on_line_timer(at(500));
    assert_eq!((shown.current_line_index, shown.next_line_index), (Some(0), Some(1)));
    assert_eq!(s.line_timer, Some(at(1_500)));
    let shown = s.on_line_timer(at(2_500));
    assert_eq!((shown.current_line_index, shown.next_line_index), (Some(2), None));
    assert_eq!(s.line_timer, None);
}

#[test]
fn seeking_moves_the_position() {
    let mut s = playing(track("1", "Song"), Some(song()));
    let (order, shown) = s.on_player_event(PlayerEvent::Seeked(at(2_100)), None, at(300));
    assert!(order.is_none());
    assert_eq!(shown.playback_position, at(2_100));
    assert_eq!(shown.current_line_index, Some(1));
    assert_eq!(s.line_timer, Some(at(1_200)));
}

#[test]
fn a_new_track_starts_over() {
    let mut s = playing(track("1", "Song"), Some(song()));
    s.refresh(at(2_000));
    let (order, shown) = s.on_player_event(PlayerEvent::TrackChanged(track("2", "Next")), None, at(2_500));
    assert_eq!(order.unwrap().request.title, "Next");
    assert_eq!(shown.playback_position, at(0));
    assert!(shown.lyrics.is_none());
    assert_eq!((shown.current_line_index, shown.next_line_index), (None, None));
    let (order, shown) =
        s.on_player_event(PlayerEvent::TrackChanged(track("3", "Third")), Some(song()), at(3_000));
    assert!(order.is_none());
    assert_eq!(shown.next_line_index, Some(0));
    assert_eq!(s.line_timer, Some(at(4_000)));
}

#[test]
fn quitting_clears_everything() {
    let mut s = playing(track("1", "Song"), Some(song()));
    s.refresh(at(1_000));
    let (_, shown) = s.on_player_event(PlayerEvent::PlayerQuit, None, at(2_000));
    assert!(shown.track.is_none());
    assert!(shown.lyrics.is_none());
    assert_eq!(shown.playback_position, at(0));
    assert_eq!(shown.status, PlaybackStatus::Stopped);
    assert_eq!(shown.current_line_index, None);
    assert_eq!(s.line_timer, None);
}

#[test]
fn search_results_are_applied_and_stored() {
    let mut s = playing(track("1", "Song"), None);
    let (entry, shown) = s.on_search_result(result("1", "Other title", SearchOutcome::Found(song())), at(1_000));
    let entry = entry.unwrap();
    assert_eq!((entry.title.as_str(), entry.artist.as_str()), ("Other title", "Singer"));
    assert_eq!(entry.lyrics.lines.len(), 3);
    assert_eq!(shown.playback_position, at(1_500));
    assert_eq!(shown.current_line_index, Some(0));
    let (entry, shown) = s.on_search_result(result("1", "Song", SearchOutcome::NotFound), at(1_100));
    assert!(entry.is_none());
    assert!(shown.lyrics.is_some());
    let (entry, shown) = s.on_search_result(result("1", "Song", SearchOutcome::Failed), at(1_200));
    assert!(entry.is_none());
    assert!(shown.lyrics.is_some());
}

#[test]
fn stale_search_results_are_dropped() {
    let mut s = playing(track("1", "Song"), None);
    let (entry, shown) = s.on_search_result(result("2", "Song", SearchOutcome::Found(song())), at(10));
    assert!(entry.is_none());
    assert!(shown.lyrics.is_none());
    // Without ids the title and the artist decide.
    let (entry, _) = s.on_search_result(result("", "Wrong", SearchOutcome::Found(song())), at(20));
    assert!(entry.is_none());
    let (entry, _) = s.on_search_result(result("", "Song", SearchOutcome::Found(song())), at(30));
    assert!(entry.is_some());
    // Nothing plays.
    s.on_player_event(PlayerEvent::PlayerQuit, None, at(40));
    let (entry, shown) = s.on_search_result(result("", "", SearchOutcome::Found(song())), at(50));
    assert!(entry.is_none());
    assert!(shown.lyrics.is_none());
}

#[test]
fn search_commands() {
    let mut s = playing(track("1", "Song"), Some(song()));
    match s.on_command(SchedulerCommand::ResearchCurrent, at(10)) {
        Action::Search(o) => {
            assert_eq!(o.track_id, "1");
            assert_eq!(o.request.album.as_deref(), Some("Album"));
        }
        other => panic!("{:?}", other),
    }
    let cmd = SchedulerCommand::SearchCustom { title: "T".to_string(), artist: "A".to_string() };
    match s.on_command(cmd, at(20)) {
        Action::Search(o) => {
            assert_eq!(o.track_id, "1");
            assert_eq!((o.request.title.as_str(), o.request.artist.as_str()), ("T", "A"));
            assert!(o.request.album.is_none());
            assert!(o.request.duration.is_none());
        }
        other => panic!("{:?}", other),
    }
    let mut idle = Scheduler::new();
    assert!(matches!(idle.on_command(SchedulerCommand::ResearchCurrent, at(0)), Action::Nothing));
    let cmd = SchedulerCommand::SearchCustom { title: "T".to_string(), artist: "A".to_string() };
    match idle.on_command(cmd, at(0)) {
        Action::Search(o) => assert_eq!(o.track_id, ""),
        other => panic!("{:?}", other),
    }
}

#[test]
fn lyrics_can_be_set_by_hand() {
    let mut s = playing(track("1", "Song"), None);
    let cmd = SchedulerCommand::SetLyrics { lrc_text: "[00:00.10]mine".to_string() };
    match s.on_command(cmd, at(0)) {
        Action::Store(e) => {
            assert_eq!((e.title.as_str(), e.artist.as_str()), ("Song", "Singer"));
            assert_eq!(e.lyrics.lines[0].content, "mine");
        }
        other => panic!("{:?}", other),
    }
    let shown = s.refresh(at(5));
    assert_eq!(shown.current_line_index, Some(0));
    match s.on_command(SchedulerCommand::ApplyLyrics { lyrics: song() }, at(10)) {
        Action::Store(e) => assert_eq!(e.lyrics.lines.len(), 3),
        other => panic!("{:?}", other),
    }
    // Without a track nothing is stored.
    let mut idle = Scheduler::new();
    assert!(matches!(idle.on_command(SchedulerCommand::ApplyLyrics { lyrics: song() }, at(0)), Action::Nothing));
    assert!(idle.refresh(at(0)).lyrics.is_some());
}

#[test]
fn offset_commands() {
    let mut s = playing(track("1", "Song"), Some(song()));
    match s.on_command(SchedulerCommand::AdjustOffset { delta_ms: 600 }, at(0)) {
        Action::Store(e) => assert_eq!(e.lyrics.offset_ms, 600),
        other => panic!("{:?}", other),
    }
    let shown = s.refresh(at(0));
    assert_eq!(shown.offset_ms, 600);
    assert_eq!(shown.current_line_index, Some(0));
    s.on_command(SchedulerCommand::AdjustOffset { delta_ms: -600 }, at(0));
    assert_eq!(s.refresh(at(0)).offset_ms, 0);
    s.on_command(SchedulerCommand::SetOffset { offset_ms: -5 }, at(0));
    assert_eq!(s.refresh(at(0)).offset_ms, -5);
    assert!(s.offset_fits(&SchedulerCommand::AdjustOffset { delta_ms: i64::MAX }));
    assert!(!s.offset_fits(&SchedulerCommand::AdjustOffset { delta_ms: i64::MIN }));
    let mut idle = Scheduler::new();
    assert!(matches!(idle.on_command(SchedulerCommand::SetOffset { offset_ms: 5 }, at(0)), Action::Nothing));
    assert_eq!(idle.refresh(at(0)).offset_ms, 0);
}

#[test]
fn control_commands() {
    let mut s = playing(track("1", "Song"), None);
    let table = [
        (SchedulerCommand::PlayPause, PlayerControl::PlayPause),
        (SchedulerCommand::Play, PlayerControl::Play),
        (SchedulerCommand::Pause, PlayerControl::Pause),
        (SchedulerCommand::Stop, PlayerControl::Stop),
        (SchedulerCommand::Next, PlayerControl::Next),
        (SchedulerCommand::Previous, PlayerControl::Previous),
        (SchedulerCommand::SeekTo { position_ms: 30_000 }, PlayerControl::SeekTo(at(30_000))),
    ];
    for (cmd, control) in table {
        match s.on_command(cmd, at(0)) {
            Action::Control(c) => assert_eq!(c, control),
            other => panic!("{:?}", other),
        }
    }
}

#[test]
fn positions_beyond_the_range_are_noticed() {
    let mut s = playing(track("1", "Song"), None);
    assert!(s.position_fits(at(1_000)));
    s.state.playback_position = Duration::from_nanos(u128::MAX);
    assert!(!s.position_fits(at(1_000)));
    s.state.status = PlaybackStatus::Paused;
    assert!(s.position_fits(at(1_000)));
}

#[test]
fn the_timer_waits_for_an_offset_beyond_the_start() {
    let mut s = playing(track("1", "Song"), Some(song()));
    s.on_command(SchedulerCommand::SetOffset { offset_ms: -5_000 }, at(0));
    s.refresh(at(0));
    // The first line, at one second, is due at six.
    assert_eq!(s.line_timer, Some(at(5_500)));
    let shown = s.on_line_timer(at(5_500));
    assert_eq!((shown.current_line_index, shown.next_line_index), (Some(0), Some(1)));
}

#[test]
fn offset_commands_add_up() {
    let offset = |cmds: Vec<SchedulerCommand>| {
        let mut s = playing(track("1", "Song"), Some(song()));
        let mut stored = None;
        for cmd in cmds {
            if let Action::Store(e) = s.on_command(cmd, at(0)) {
                stored = Some(e.lyrics.offset_ms);
            }
        }
        (s.refresh(at(0)).offset_ms, stored)
    };
    let adjust = |delta_ms: i64| SchedulerCommand::AdjustOffset { delta_ms };
    assert_eq!(offset(vec![adjust(300), adjust(-50)]), (250, Some(250)));
    assert_eq!(offset(vec![adjust(250)]), (250, Some(250)));
    assert_eq!(offset(vec![adjust(9), SchedulerCommand::SetOffset { offset_ms: 7 }]), (7, Some(7)));
}
