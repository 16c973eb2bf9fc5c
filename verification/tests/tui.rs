//! The terminal front end.
use lyrica::display::{DisplayState, SchedulerCommand};
use lyrica::lyrics::{lrc, Lyrics, LyricsSource};
use lyrica::player::{PlaybackStatus, Track};
use lyrica::time::Duration;
use lyrica::tui::view::{
    centered_rect, header_text, render_lyrics, results_height, results_title, search_input,
    search_results, status_text, LyricsView,
};
use lyrica::tui::{Effect, Key, TuiMode, TuiState};

fn at(ms: u64) -> Duration {
    Duration::from_millis(ms)
}

fn shown() -> DisplayState {
    let mut s = DisplayState::default();
    s.track = Some(Track {
        id: "1".to_string(),
        title: "Song".to_string(),
        artist: "Singer".to_string(),
        album: None,
        duration: None,
    });
    s
}

fn press(t: &mut TuiState, key: Key) -> Effect {
    assert!(t.key_fits(&shown(), key));
    t.on_key(&shown(), key, false, at(1_000))
}

fn status(t: &TuiState) -> Option<&str> {
    t.status_message.as_ref().map(|(m, _)| m.as_str())
}

fn candidate(source: LyricsSource, text: &str) -> Lyrics {
    let mut l = lrc::parse(text).unwrap();
    l.metadata.source = source;
    l
}

#[test]
fn keys_of_the_lyrics_view() {
    let mut t = TuiState::new();
    assert!(matches!(press(&mut t, Key::Char('q')), Effect::Quit));
    assert!(matches!(press(&mut t, Key::Char('r')), Effect::Send(SchedulerCommand::ResearchCurrent)));
    assert_eq!(status(&t), Some("Re-searching..."));
    for (c, delta, text) in [
        ('+', 100, "Offset: 100ms"),
        ('=', 100, "Offset: 100ms"),
        ('-', -100, "Offset: -100ms"),
        (']', 500, "Offset: 500ms"),
        ('[', -500, "Offset: -500ms"),
    ] {
        match press(&mut t, Key::Char(c)) {
            Effect::Send(SchedulerCommand::AdjustOffset { delta_ms }) => assert_eq!(delta_ms, delta),
            other => panic!("{:?}", other),
        }
        assert_eq!(status(&t), Some(text));
    }
    match press(&mut t, Key::Char('0')) {
        Effect::Send(SchedulerCommand::SetOffset { offset_ms }) => assert_eq!(offset_ms, 0),
        other => panic!("{:?}", other),
    }
    assert_eq!(status(&t), Some("Offset reset to 0ms"));
    assert!(matches!(press(&mut t, Key::Char('x')), Effect::Nothing));
    assert!(matches!(press(&mut t, Key::Enter), Effect::Nothing));
    assert!(t.mode == TuiMode::Lyrics);
}

#[test]
fn offsets_out_of_range_are_noticed() {
    let t = TuiState::new();
    let mut s = shown();
    s.offset_ms = i64::MAX - 50;
    assert!(!t.key_fits(&s, Key::Char('+')));
    assert!(t.key_fits(&s, Key::Char('-')));
    assert!(t.key_fits(&s, Key::Char('q')));
}

#[test]
fn search_dialog() {
    let mut t = TuiState::new();
    press(&mut t, Key::Char('s'));
    assert!(t.mode == TuiMode::SearchInput);
    assert_eq!((t.search_title.as_str(), t.search_artist.as_str()), ("Song", "Singer"));
    press(&mut t, Key::Char('!'));
    press(&mut t, Key::Tab);
    press(&mut t, Key::Backspace);
    assert_eq!((t.search_title.as_str(), t.search_artist.as_str()), ("Song!", "Singe"));
    press(&mut t, Key::BackTab);
    assert_eq!(t.search_focus, 0);
    press(&mut t, Key::BackTab);
    assert_eq!(t.search_focus, 1);
    press(&mut t, Key::Tab);
    t.on_key(&shown(), Key::Char('u'), true, at(0));
    assert_eq!(t.search_title, "");
    press(&mut t, Key::Backspace);
    assert_eq!(t.search_title, "");
    // Without a title there is no search.
    assert!(matches!(press(&mut t, Key::Enter), Effect::Nothing));
    press(&mut t, Key::Char('u'));
    match press(&mut t, Key::Enter) {
        Effect::Search(r) => {
            assert_eq!((r.title.as_str(), r.artist.as_str()), ("u", "Singe"));
            assert!(r.album.is_none() && r.duration.is_none());
        }
        other => panic!("{:?}", other),
    }
    assert!(t.searching);
    assert_eq!(status(&t), Some("Searching..."));
    // One search at a time.
    assert!(matches!(press(&mut t, Key::Enter), Effect::Nothing));
    press(&mut t, Key::Esc);
    assert!(t.mode == TuiMode::Lyrics);
    let mut t = TuiState::new();
    t.on_key(&DisplayState::default(), Key::Char('/'), false, at(0));
    assert_eq!((t.search_title.as_str(), t.search_artist.as_str()), ("", ""));
}

#[test]
fn typing_and_backspace_cancel_out() {
    let mut t = TuiState::new();
    press(&mut t, Key::Char('s'));
    let before = format!("{:?}", t);
    press(&mut t, Key::Char('é'));
    press(&mut t, Key::Backspace);
    assert_eq!(format!("{:?}", t), before);
}

#[test]
fn search_without_results() {
    let mut t = TuiState::new();
    t.mode = TuiMode::SearchInput;
    t.searching = true;
    t.on_results(Vec::new(), at(0));
    assert!(!t.searching);
    assert!(t.mode == TuiMode::Lyrics);
    assert_eq!(status(&t), Some("No results found"));
}

#[test]
fn choosing_a_result() {
    let mut t = TuiState::new();
    t.on_results(
        vec![
            candidate(LyricsSource::Kugou, "[00:01.00]a"),
            candidate(LyricsSource::QQMusic, "[00:01.00]b"),
        ],
        at(0),
    );
    assert!(t.mode == TuiMode::SearchResults);
    assert_eq!(status(&t), Some("2 candidates found"));
    assert_eq!(t.selected, Some(0));
    press(&mut t, Key::Up);
    assert_eq!(t.selected, Some(0));
    press(&mut t, Key::Char('j'));
    press(&mut t, Key::Down);
    assert_eq!(t.selected, Some(1));
    press(&mut t, Key::Char('k'));
    assert_eq!(t.selected, Some(0));
    press(&mut t, Key::Down);
    match press(&mut t, Key::Enter) {
        Effect::Send(SchedulerCommand::ApplyLyrics { lyrics }) => assert_eq!(lyrics.lines[0].content, "b"),
        other => panic!("{:?}", other),
    }
    assert!(t.mode == TuiMode::Lyrics);
    assert_eq!(status(&t), Some("Applied lyrics from QQ Music"));
    t.mode = TuiMode::SearchResults;
    press(&mut t, Key::Char('/'));
    assert!(t.mode == TuiMode::SearchInput);
    t.mode = TuiMode::SearchResults;
    press(&mut t, Key::Esc);
    assert!(t.mode == TuiMode::Lyrics);
}

#[test]
fn status_messages_expire() {
    let mut t = TuiState::new();
    assert!(!t.expire_status(at(99_000)));
    t.set_status("x".to_string(), at(1_000));
    assert!(!t.expire_status(at(4_000)));
    assert!(t.expire_status(at(4_001)));
    assert_eq!(status(&t), None);
}

#[test]
fn header_and_status_bar() {
    assert_eq!(header_text(&shown()), "Song - Singer");
    assert_eq!(header_text(&DisplayState::default()), "No track playing");
    let mut t = TuiState::new();
    let mut s = shown();
    s.status = PlaybackStatus::Playing;
    s.playback_position = at(65_999);
    assert_eq!(
        status_text(&s, &t),
        " ▶ 01:05 | s:search  r:re-search  +/-:offset  0:reset  q:quit"
    );
    s.offset_ms = 100;
    t.set_status("hello".to_string(), at(0));
    assert_eq!(status_text(&s, &t), format!(" ▶ {:02}:{:02} [offset:{:+}ms] | hello", 1, 5, 100));
    s.offset_ms = -5;
    s.status = PlaybackStatus::Paused;
    s.playback_position = at(6_000_000);
    assert_eq!(status_text(&s, &t), " ⏸ 100:00 [offset:-5ms] | hello");
    s.status = PlaybackStatus::Stopped;
    s.offset_ms = 0;
    assert_eq!(status_text(&s, &t), " ⏹ 100:00 | hello");
}

#[test]
fn lyrics_window() {
    let mut s = shown();
    assert!(matches!(
        render_lyrics(&s, 10),
        LyricsView::Message("No lyrics found. Press 's' to search manually.")
    ));
    assert!(matches!(
        render_lyrics(&DisplayState::default(), 10),
        LyricsView::Message("Waiting for lyrics...")
    ));
    let text: String = (0..9).map(|i| format!("[00:0{}.00]l{}\n", i, i)).collect();
    s.lyrics = Some(lrc::parse(&text).unwrap());
    s.lyrics.as_mut().unwrap().lines[4].translation = Some("t".to_string());
    let window = |s: &DisplayState, h: u16| match render_lyrics(s, h) {
        LyricsView::Rows(rows) => {
            rows.iter().map(|r| (r.content.clone(), r.current)).collect::<Vec<(String, bool)>>()
        }
        LyricsView::Message(m) => panic!("{}", m),
    };
    let names = |v: &[(String, bool)]| v.iter().map(|r| r.0.clone()).collect::<Vec<String>>().join(" ");
    let v = window(&s, 4);
    assert_eq!(names(&v), "l0 l1 l2 l3");
    assert!(v.iter().all(|r| !r.1));
    s.current_line_index = Some(4);
    let v = window(&s, 4);
    assert_eq!(names(&v), "l2 l3 l4 l5");
    assert_eq!(v.iter().map(|r| r.1).collect::<Vec<bool>>(), vec![false, false, true, false]);
    s.current_line_index = Some(8);
    assert_eq!(names(&window(&s, 4)), "l6 l7 l8");
    assert_eq!(names(&window(&s, 0)), "");
    assert_eq!(names(&window(&s, 100)), "l0 l1 l2 l3 l4 l5 l6 l7 l8");
    s.current_line_index = Some(4);
    match render_lyrics(&s, 1) {
        LyricsView::Rows(rows) => assert_eq!(rows[0].translation.as_deref(), Some("t")),
        LyricsView::Message(m) => panic!("{}", m),
    }
}

#[test]
fn input_dialog_text() {
    let mut t = TuiState::new();
    t.search_title = "T".to_string();
    t.search_artist = "A".to_string();
    let v = search_input(&t);
    assert_eq!((v.title.as_str(), v.artist.as_str()), ("  T▎", "  A"));
    assert!(v.title_active && !v.artist_active && !v.searching);
    t.search_focus = 1;
    t.searching = true;
    let v = search_input(&t);
    assert_eq!((v.title.as_str(), v.artist.as_str()), ("  T", "  A▎"));
    assert!(!v.title_active && v.artist_active && v.searching);
}

#[test]
fn result_list_text() {
    let mut t = TuiState::new();
    let mut first = candidate(LyricsSource::Lrclib, "[00:01.00]a\n[00:02.00]b");
    first.metadata.title = Some("Song".to_string());
    first.lines[0].content = String::new();
    let mut list = vec![first];
    for _ in 0..9 {
        list.push(candidate(LyricsSource::Local, ""));
    }
    t.on_results(list, at(0));
    let rows = search_results(&t);
    assert_eq!(rows[0], format!(" {:>2}. [{}] {} - {} ({} lines) │ {}", 1, "LRCLIB", "Song", "?", 2, "b"));
    assert_eq!(rows[9], format!(" {:>2}. [{}] {} - {} ({} lines) │ {}", 10, "Local", "?", "?", 0, ""));
    assert_eq!(
        results_title(&t),
        " 10 results — ↑↓:navigate  Enter:select  Esc:cancel  s:new search "
    );
    assert_eq!(results_height(&t, 40), 14);
    assert_eq!(results_height(&t, 17), 13);
    assert_eq!(results_height(&t, 3), 0);
}

#[test]
fn dialog_sizes() {
    let p = centered_rect(60, 9, 40);
    assert_eq!((p.above, p.height, p.side_percent, p.percent), (15, 9, 20, 60));
    assert_eq!(centered_rect(80, 9, 4).above, 0);
}
