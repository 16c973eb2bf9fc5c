//! The answers of the HTTP API.
use lyrica::display::{DisplayState, SchedulerCommand};
use lyrica::lyrics::{lrc, LyricsSource};
use lyrica::player::{PlaybackStatus, Track};
use lyrica::server::{
    command_answer, current_line_known, get_current_line, get_lyrics, get_status, post_control,
    post_offset, post_select, post_set_lyrics, search_answer, search_refused, search_request,
    Decision, SearchBody,
};
use lyrica::single::Single;
use lyrica::time::Duration;

fn state() -> DisplayState {
    let mut s = DisplayState::default();
    s.track = Some(Track {
        id: "1".to_string(),
        title: "Song Name".to_string(),
        artist: "Artist".to_string(),
        album: Some("Album".to_string()),
        duration: None,
    });
    s.status = PlaybackStatus::Playing;
    s.playback_position = Duration::from_millis(12_750);
    let mut l = lrc::parse("[00:12.00]First line\n[00:15.00]Second line").unwrap();
    l.lines[0].translation = Some("translated".to_string());
    s.lyrics = Some(l);
    s.current_line_index = Some(0);
    s.next_line_index = Some(1);
    s
}

fn refused(d: Decision) -> String {
    match d {
        Decision::Refuse(r) => {
            assert!(!r.ok);
            r.message
        }
        other => panic!("{:?}", other),
    }
}

fn sent(d: Decision) -> (SchedulerCommand, String) {
    match d {
        Decision::Send(c, m) => (c, m),
        other => panic!("{:?}", other),
    }
}

#[test]
fn status_answer() {
    let r = get_status(&state());
    assert_eq!(r.track_title.as_deref(), Some("Song Name"));
    assert_eq!(r.track_artist.as_deref(), Some("Artist"));
    assert_eq!(r.track_album.as_deref(), Some("Album"));
    assert_eq!(r.playback_status, "playing");
    assert_eq!(r.position_ms, 12_750);
    assert!(r.has_lyrics);
    let r = get_status(&DisplayState::default());
    assert_eq!(r.track_title, None);
    assert_eq!(r.playback_status, "stopped");
    assert!(!r.has_lyrics);
    let mut s = state();
    s.status = PlaybackStatus::Paused;
    s.playback_position = Duration::from_nanos(u128::MAX);
    let r = get_status(&s);
    assert_eq!(r.playback_status, "paused");
    assert_eq!(r.position_ms, std::time::Duration::MAX.as_millis() as u64);
}

#[test]
fn lyrics_answer() {
    let r = get_lyrics(&state());
    assert_eq!(r.current_line_index, Some(0));
    assert_eq!(r.lines.len(), 2);
    assert_eq!((r.lines[0].position_ms, r.lines[0].content.as_str()), (12_000, "First line"));
    assert_eq!(r.lines[0].translation.as_deref(), Some("translated"));
    assert_eq!(r.lines[1].translation, None);
    assert!(get_lyrics(&DisplayState::default()).lines.is_empty());
}

#[test]
fn current_line_answer() {
    let r = get_current_line(&state());
    assert_eq!(r.content.as_deref(), Some("First line"));
    assert_eq!(r.translation.as_deref(), Some("translated"));
    assert_eq!(r.position_ms, 12_750);
    assert_eq!((r.elapsed_ms, r.span_ms), (750, 3_000));
    // Never beyond the end of the line, never before its start.
    let mut s = state();
    s.playback_position = Duration::from_secs(99);
    let r = get_current_line(&s);
    assert_eq!((r.elapsed_ms, r.span_ms), (3_000, 3_000));
    s.playback_position = Duration::from_secs(1);
    assert_eq!(get_current_line(&s).elapsed_ms, 0);
    // The last line has no end.
    s.next_line_index = None;
    let r = get_current_line(&s);
    assert_eq!((r.elapsed_ms, r.span_ms), (0, 0));
    let r = get_current_line(&DisplayState::default());
    assert_eq!((r.content, r.translation, r.span_ms), (None, None, 0));
    s.current_line_index = Some(2);
    assert!(!current_line_known(&s));
    s.current_line_index = Some(1);
    assert!(current_line_known(&s));
    s.next_line_index = Some(7);
    assert!(!current_line_known(&s));
}

#[test]
fn search_terms() {
    let body = |t: Option<&str>, a: Option<&str>| SearchBody {
        title: t.map(|s| s.to_string()),
        artist: a.map(|s| s.to_string()),
    };
    let r = search_request(body(Some("T"), Some("A")), &state()).unwrap();
    assert_eq!((r.title.as_str(), r.artist.as_str()), ("T", "A"));
    assert!(r.album.is_none() && r.duration.is_none());
    let r = search_request(body(None, Some("")), &state()).unwrap();
    assert_eq!((r.title.as_str(), r.artist.as_str()), ("Song Name", "Artist"));
    let r = search_request(body(Some("T"), None), &DisplayState::default()).unwrap();
    assert_eq!((r.title.as_str(), r.artist.as_str()), ("T", ""));
    assert!(search_request(body(None, Some("A")), &DisplayState::default()).is_none());
    let r = search_refused();
    assert_eq!((r.ok, r.count, r.results.len()), (false, 0, 0));
}

#[test]
fn search_results_answer() {
    let mut a = lrc::parse("[00:01.00]a\n[00:02.00]b\n[00:03.00]c\n[00:04.00]d").unwrap();
    a.lines[1].content = String::new();
    a.metadata.source = LyricsSource::NetEase;
    a.metadata.title = Some("T".to_string());
    a.metadata.quality = Single { bits: 0.7f32.to_bits() };
    let b = lrc::parse("").unwrap();
    let list = vec![a, b];
    let r = search_answer(&list);
    assert!(r.ok);
    assert_eq!(r.count, 2);
    let item = &r.results[0];
    assert_eq!((item.index, item.source.as_str(), item.line_count), (0, "NetEase", 4));
    assert_eq!(item.title.as_deref(), Some("T"));
    assert_eq!(item.artist, None);
    assert_eq!(f32::from_bits(item.quality.bits), 0.7);
    assert_eq!(item.preview, vec!["a", "c", "d"]);
    assert_eq!(r.results[1].index, 1);
    assert!(r.results[1].preview.is_empty());
    // Each index can be selected.
    let (cmd, message) = sent(post_select(&list, r.results[0].index));
    match cmd {
        SchedulerCommand::ApplyLyrics { lyrics } => assert_eq!(lyrics.lines.len(), 4),
        other => panic!("{:?}", other),
    }
    assert_eq!(message, "Applied lyrics candidate #0");
    assert_eq!(refused(post_select(&list, 2)), "Index 2 out of range, 2 candidates available");
}

#[test]
fn setting_lyrics() {
    assert_eq!(refused(post_set_lyrics(" \n".to_string())), "LRC text is empty");
    let (cmd, message) = sent(post_set_lyrics("[00:01.00]x".to_string()));
    match cmd {
        SchedulerCommand::SetLyrics { lrc_text } => assert_eq!(lrc_text, "[00:01.00]x"),
        other => panic!("{:?}", other),
    }
    assert_eq!(message, "Lyrics set");
}

#[test]
fn setting_the_offset() {
    assert!(matches!(
        sent(post_offset(Some(0), Some(5))),
        (SchedulerCommand::SetOffset { offset_ms: 0 }, m) if m == "Offset updated"
    ));
    assert!(matches!(
        sent(post_offset(None, Some(100))),
        (SchedulerCommand::AdjustOffset { delta_ms: 100 }, m) if m == "Offset updated"
    ));
    assert_eq!(refused(post_offset(None, None)), "Provide 'set' or 'adjust' field");
}

#[test]
fn playback_control() {
    let (cmd, message) = sent(post_control("play-pause", 0).unwrap());
    assert!(matches!(cmd, SchedulerCommand::PlayPause));
    assert_eq!(message, "PlayPause sent");
    for (path, message) in [
        ("play", "Play sent"),
        ("pause", "Pause sent"),
        ("stop", "Stop sent"),
        ("next", "Next sent"),
        ("previous", "Previous sent"),
    ] {
        assert_eq!(sent(post_control(path, 0).unwrap()).1, message);
    }
    let (cmd, _) = sent(post_control("seek", 30_000).unwrap());
    assert!(matches!(cmd, SchedulerCommand::SeekTo { position_ms: 30_000 }));
    assert!(post_control("rewind", 0).is_none());
}

#[test]
fn answers_to_commands() {
    let r = command_answer("Lyrics set".to_string(), None);
    assert!(r.ok);
    assert_eq!(r.message, "Lyrics set");
    let r = command_answer("Lyrics set".to_string(), Some("channel closed".to_string()));
    assert!(!r.ok);
    assert_eq!(r.message, "Failed: channel closed");
}
