//! Calls of the front ends.
use crate::display::{opt_lyrics, DisplayState, GtkDisplay, SchedulerCommand};
use crate::laws::server::in_millis;
use crate::lyrics::{line_models, Lyrics};
use crate::player::opt_track;
use crate::provider::group::lyrics_models;
use crate::server::{
    answer_lines, answer_models, command_answer, current_line_known, current_line_valid, current_of,
    get_current_line, get_lyrics, get_status, item_models, items_of, post_control, post_offset,
    post_select, post_set_lyrics, search_answer, search_refused, search_request, status_of,
    CommandResponse, CurrentLineResponse, Decision, LyricsResponse, SearchBody, SearchResponse,
    StatusResponse,
};
use crate::provider::SearchRequest;
use crate::text::{decimal, texts, trimmed};
use crate::time::Duration;
use crate::tui::view::{
    candidate_rows, centered_rect, header, header_text, render_lyrics, results_height,
    results_title, row_models, rows, search_input, search_results, status_bar, status_text,
    window_end, window_start, InputView, LyricsView, PopupSizes,
};
use crate::tui::{fresh, key_pressed, with_results, Effect, Key, TuiMode, TuiState};
use crate::scheduler::Scheduler;
use vstd::prelude::*;

verus! {

// ---------------------------------------------------------------------------
// Terminal
// ---------------------------------------------------------------------------

/// The terminal front end starts afresh, and a key does what it does in the
/// present view.
pub proof fn law_terminal(
    fresh_one: TuiState,
    t: &mut TuiState,
    shown: &DisplayState,
    key: Key,
    control: bool,
    now: Duration,
    r: Effect,
)
    requires
        call_ensures(TuiState::new, (), fresh_one),
        call_ensures(TuiState::on_key, (t, shown, key, control, now), r),
    ensures
        fresh_one@ == fresh(),
        final(t)@ == key_pressed(old(t)@, shown@, key, control, now@).0,
        r@ == key_pressed(old(t)@, shown@, key, control, now@).1,
{
}

/// What is typed in the search dialog goes to the end of the active field.
pub proof fn law_typed(
    t: &mut TuiState,
    shown: &DisplayState,
    c: char,
    now: Duration,
    r: Effect,
)
    requires
        call_ensures(TuiState::on_key, (t, shown, Key::Char(c), false, now), r),
        old(t).mode == TuiMode::SearchInput,
    ensures
        old(t).search_focus == 0 ==> final(t).search_title@ == old(t).search_title@.push(c)
            && final(t).search_artist@ == old(t).search_artist@,
        old(t).search_focus != 0 ==> final(t).search_artist@ == old(t).search_artist@.push(c)
            && final(t).search_title@ == old(t).search_title@,
        final(t).mode == old(t).mode,
        final(t).search_focus == old(t).search_focus,
        final(t).selected == old(t).selected,
        final(t).searching == old(t).searching,
        lyrics_models(final(t).candidates@) == lyrics_models(old(t).candidates@),
        r is Nothing,
{
    assert(r@ is Nothing);
}

/// The selected candidate is sent to be applied.
pub proof fn law_applied(
    t: &mut TuiState,
    shown: &DisplayState,
    i: usize,
    now: Duration,
    r: Effect,
)
    requires
        call_ensures(TuiState::on_key, (t, shown, Key::Enter, false, now), r),
        old(t).mode == TuiMode::SearchResults,
        old(t).selected == Some(i),
        i < old(t).candidates@.len(),
    ensures
        r is Send,
        r->Send_0 is ApplyLyrics,
        r->Send_0->ApplyLyrics_lyrics@ == old(t).candidates@[i as int]@,
        final(t).mode == TuiMode::Lyrics,
{
    assert(lyrics_models(old(t).candidates@)[i as int] == old(t).candidates@[i as int]@);
    crate::laws::tui::law_applying(old(t)@, shown@, i, false, now@);
    assert(r@ is Send);
}

/// The results of a search are listed, and a message goes away after its time
/// and no sooner.
pub proof fn law_messages(
    t: &mut TuiState,
    results: Vec<Lyrics>,
    u: &mut TuiState,
    now: Duration,
    r: (),
    gone: bool,
)
    requires
        call_ensures(TuiState::on_results, (t, results, now), r),
        call_ensures(TuiState::expire_status, (u, now), gone),
    ensures
        final(t)@ == with_results(old(t)@, lyrics_models(results@), now@),
        old(u).status_message matches Some(m) ==> gone == (now@ > m.1@ + 3_000_000_000),
        old(u).status_message is None ==> !gone,
        gone ==> final(u).status_message is None,
        !gone ==> final(u)@ == old(u)@,
        final(u).mode == old(u).mode,
        final(u).search_title@ == old(u).search_title@,
        final(u).search_artist@ == old(u).search_artist@,
        final(u).selected == old(u).selected,
{
    if old(u).status_message is Some {
        assert(old(u)@.status is Some);
    } else {
        assert(old(u)@.status is None);
    }
    if gone {
        assert(final(u)@.status is None);
    }
}

/// What is drawn of the state: the header, the status bar, and the rows around
/// the current line, or a note where there are no lyrics.
pub proof fn law_drawn(
    state: &DisplayState,
    tui: &TuiState,
    height: u16,
    top: String,
    bar: String,
    view: LyricsView,
)
    requires
        call_ensures(header_text, (state,), top),
        call_ensures(status_text, (state, tui), bar),
        call_ensures(render_lyrics, (state, height), view),
    ensures
        top@ == header(state@),
        bar@ == status_bar(state@, tui@.status),
        state.lyrics matches Some(l) ==> view is Rows && row_models(view->Rows_0@) == rows(
            l@.lines,
            state.current_line_index,
            window_start(state.current_line_index, height),
            window_end(state.current_line_index, height, l@.lines.len() as int),
        ),
        state.lyrics is None && state.track is Some ==> view is Message && view->Message_0@
            == "No lyrics found. Press 's' to search manually."@,
        state.lyrics is None && state.track is None ==> view is Message && view->Message_0@
            == "Waiting for lyrics..."@,
{
    if state.lyrics is Some {
        assert(state@.lyrics is Some);
    } else {
        assert(state@.lyrics is None);
    }
    if state.track is Some {
        assert(state@.track is Some);
    } else {
        assert(state@.track is None);
    }
}

/// What is drawn of the dialogs: the fields with a cursor in the active one, and
/// the candidates with their number above them.
pub proof fn law_dialogs(tui: &TuiState, input: InputView, list: Vec<String>, title: String)
    requires
        call_ensures(search_input, (tui,), input),
        call_ensures(search_results, (tui,), list),
        call_ensures(results_title, (tui,), title),
    ensures
        input.title_active == (tui.search_focus == 0),
        input.artist_active == (tui.search_focus == 1),
        tui.search_focus == 0 ==> input.title@ == "  "@ + tui.search_title@ + "▎"@,
        tui.search_focus != 0 ==> input.title@ == "  "@ + tui.search_title@,
        tui.search_focus == 1 ==> input.artist@ == "  "@ + tui.search_artist@ + "▎"@,
        tui.search_focus != 1 ==> input.artist@ == "  "@ + tui.search_artist@,
        input.searching == tui.searching,
        texts(list@) == candidate_rows(lyrics_models(tui.candidates@)),
        title@ == " "@ + decimal(tui.candidates@.len())
            + " results — ↑↓:navigate  Enter:select  Esc:cancel  s:new search "@,
{
    assert(lyrics_models(tui.candidates@).len() == tui.candidates@.len());
}

/// A dialog stands in the middle of the screen, as far as it fits.
pub proof fn law_popup(
    percent: u16,
    height: u16,
    screen: u16,
    r: PopupSizes,
    tui: &TuiState,
    list: u16,
)
    requires
        percent <= 100,
        call_ensures(centered_rect, (percent, height, screen), r),
        call_ensures(results_height, (tui, screen), list),
        tui.candidates@.len() < 65532,
    ensures
        r.height == height,
        r.percent == percent,
        2 * r.side_percent <= 100 - percent < 2 * r.side_percent + 2,
        height <= screen ==> 2 * r.above <= screen - height < 2 * r.above + 2,
        height > screen ==> r.above == 0,
        tui.candidates@.len() + 8 <= screen ==> list == tui.candidates@.len() + 4,
        tui.candidates@.len() + 8 > screen && screen >= 4 ==> list == screen - 4,
{
    assert(lyrics_models(tui.candidates@).len() == tui.candidates@.len());
}

// ---------------------------------------------------------------------------
// HTTP API
// ---------------------------------------------------------------------------

/// All lines are answered, with the current one.
pub proof fn law_get_lyrics(s: &DisplayState, r: LyricsResponse)
    requires
        call_ensures(get_lyrics, (s,), r),
    ensures
        r.current_line_index == s.current_line_index,
        s.lyrics matches Some(l) ==> answer_models(r.lines@) == answer_lines(line_models(l.lines@)),
        s.lyrics matches Some(l) ==> r.lines@.len() == l.lines@.len(),
        s.lyrics is None ==> r.lines@.len() == 0,
{
    assert(answer_models(r.lines@).len() == r.lines@.len());
    if let Some(l) = s.lyrics {
        assert(s@.lyrics == Some(l@));
        assert(line_models(l.lines@).len() == l.lines@.len());
    } else {
        assert(s@.lyrics is None);
    }
}

/// Each line is answered with its time in milliseconds, its text and its
/// translation.
pub proof fn law_get_lyrics_line(s: &DisplayState, r: LyricsResponse, l: Lyrics, i: int)
    requires
        call_ensures(get_lyrics, (s,), r),
        s.lyrics == Some(l),
        0 <= i < l.lines@.len(),
        in_millis(l.lines@[i].position@),
    ensures
        i < r.lines@.len(),
        r.lines@[i].position_ms == l.lines@[i].position@ / 1_000_000,
        r.lines@[i].content@ == l.lines@[i].content@,
        crate::text::opt_text(r.lines@[i].translation) == crate::text::opt_text(
            l.lines@[i].translation,
        ),
{
    let models = line_models(l.lines@);
    law_get_lyrics(s, r);
    crate::laws::server::law_answer_lines(models, i);
    assert(models[i] == l.lines@[i]@);
    assert(answer_models(r.lines@)[i] == r.lines@[i]@);
}

/// A search without a title is none, and its answer says so; any other lists
/// all that was found.
pub proof fn law_search_answers(
    body: SearchBody,
    s: &DisplayState,
    candidates: &Vec<Lyrics>,
    request: Option<SearchRequest>,
    refused: SearchResponse,
    found: SearchResponse,
)
    requires
        call_ensures(search_request, (body, s), request),
        call_ensures(search_refused, (), refused),
        call_ensures(search_answer, (candidates,), found),
    ensures
        crate::server::opt_request(request) == crate::server::search_for(
            crate::text::opt_text(body.title),
            crate::text::opt_text(body.artist),
            opt_track(s.track),
        ),
        !refused.ok && refused.count == 0 && refused.results@.len() == 0,
        found.ok && found.count == candidates@.len() && found.results@.len() == candidates@.len(),
        item_models(found.results@) == items_of(lyrics_models(candidates@)),
{
    assert(item_models(found.results@).len() == found.results@.len());
    assert(lyrics_models(candidates@).len() == candidates@.len());
}

/// A candidate is selected by its index in the last results.
pub proof fn law_post_select(results: &Vec<Lyrics>, index: usize, r: Decision)
    requires
        call_ensures(post_select, (results, index), r),
    ensures
        index < results@.len() ==> r is Send && r->Send_0 is ApplyLyrics
            && r->Send_0->ApplyLyrics_lyrics@ == results@[index as int]@,
        index >= results@.len() ==> r is Refuse && !r->Refuse_0.ok,
{
    crate::laws::server::law_selection(lyrics_models(results@), index);
    if index < results@.len() {
        assert(lyrics_models(results@)[index as int] == results@[index as int]@);
    }
}

/// Lyrics are set from text that is not blank, and offsets set or adjusted.
pub proof fn law_post_settings(
    lrc: String,
    set: Option<i64>,
    adjust: Option<i64>,
    a: Decision,
    b: Decision,
)
    requires
        call_ensures(post_set_lyrics, (lrc,), a),
        call_ensures(post_offset, (set, adjust), b),
    ensures
        trimmed(lrc@).len() > 0 ==> a is Send && a->Send_0 is SetLyrics
            && a->Send_0->SetLyrics_lrc_text@ == lrc@,
        trimmed(lrc@).len() == 0 ==> a is Refuse && !a->Refuse_0.ok,
        set matches Some(n) ==> b is Send && b->Send_0@ == (SchedulerCommand::SetOffset {
            offset_ms: n,
        })@,
        set is None ==> (adjust matches Some(n) ==> b is Send && b->Send_0@ == (
        SchedulerCommand::AdjustOffset { delta_ms: n })@),
        set is None && adjust is None ==> b is Refuse && !b->Refuse_0.ok,
{
}

/// A seek goes to the position given, and an unknown control is none.
pub proof fn law_post_control(
    path: &str,
    position_ms: u64,
    r: Option<Decision>,
)
    requires
        call_ensures(post_control, (path, position_ms), r),
    ensures
        path@ == "seek"@ ==> r is Some && r->0 is Send && r->0->Send_0@ == (
        SchedulerCommand::SeekTo { position_ms })@ && r->0->Send_1@ == "SeekTo"@ + " sent"@,
        path@ == "play-pause"@ ==> r is Some && r->0 is Send && r->0->Send_0 is PlayPause,
        path@ == "play"@ ==> r is Some && r->0 is Send && r->0->Send_0 is Play,
        path@ == "pause"@ ==> r is Some && r->0 is Send && r->0->Send_0 is Pause,
        path@ == "stop"@ ==> r is Some && r->0 is Send && r->0->Send_0 is Stop,
        path@ == "next"@ ==> r is Some && r->0 is Send && r->0->Send_0 is Next,
        path@ == "previous"@ ==> r is Some && r->0 is Send && r->0->Send_0 is Previous,
        path@ != "play-pause"@ && path@ != "play"@ && path@ != "pause"@ && path@ != "stop"@ && path@
            != "next"@ && path@ != "previous"@ && path@ != "seek"@ ==> r is None,
{
    crate::laws::server::law_control(path@, position_ms);
}

/// The answer to a command tells of success, or of the failure.
pub proof fn law_command_answer(
    message: String,
    reason: String,
    sent: CommandResponse,
    failed: CommandResponse,
)
    requires
        call_ensures(command_answer, (message, None), sent),
        call_ensures(command_answer, (message, Some(reason)), failed),
    ensures
        sent.ok && sent.message@ == message@,
        !failed.ok && failed.message@ == "Failed: "@ + reason@,
{
}

/// A copy of a state shows the same.
pub proof fn law_state_copied(s: &DisplayState, r: DisplayState)
    requires
        call_ensures(DisplayState::clone, (s,), r),
    ensures
        opt_track(r.track) == opt_track(s.track),
        opt_lyrics(r.lyrics) == opt_lyrics(s.lyrics),
        r.current_line_index == s.current_line_index,
        r.next_line_index == s.next_line_index,
        r.playback_position@ == s.playback_position@,
        r.status == s.status,
        r.offset_ms == s.offset_ms,
{
}

/// The status and the current line are answered from the state.
pub proof fn law_get_status(
    s: &DisplayState,
    status: StatusResponse,
    known: bool,
    line: CurrentLineResponse,
)
    requires
        call_ensures(get_status, (s,), status),
        call_ensures(current_line_known, (s,), known),
        call_ensures(get_current_line, (s,), line),
    ensures
        status@ == status_of(s@),
        in_millis(s.playback_position@) ==> status.position_ms == s.playback_position@ / 1_000_000,
        status.has_lyrics == s.lyrics is Some,
        s.track matches Some(t) ==> status.track_title is Some && status.track_title->0@ == t.title@
            && status.track_artist is Some && status.track_artist->0@ == t.artist@,
        s.track is None ==> status.track_title is None && status.track_artist is None,
        known == current_line_valid(s@),
        line@ == current_of(s@),
{
    assert(status@.position_ms == status.position_ms);
    assert(status@.has_lyrics == status.has_lyrics);
    assert(status@.track_title == crate::text::opt_text(status.track_title));
    assert(status@.track_artist == crate::text::opt_text(status.track_artist));
    if s.lyrics is Some {
        assert(s@.lyrics is Some);
    } else {
        assert(s@.lyrics is None);
    }
    if s.track is Some {
        assert(s@.track is Some);
    } else {
        assert(s@.track is None);
    }
}

/// A key and an offset fit as long as 64 bits hold the offset that comes of
/// them.
pub proof fn law_fitting(
    t: &TuiState,
    shown: &DisplayState,
    s: &Scheduler,
    delta_ms: i64,
    key: bool,
    offset: bool,
)
    requires
        call_ensures(TuiState::key_fits, (t, shown, Key::Char('+')), key),
        call_ensures(
            Scheduler::offset_fits,
            (s, &SchedulerCommand::AdjustOffset { delta_ms }),
            offset,
        ),
    ensures
        t.mode == TuiMode::Lyrics ==> key == (shown.offset_ms + 100 <= i64::MAX),
        t.mode != TuiMode::Lyrics ==> key,
        s.state.lyrics matches Some(l) ==> offset == (i64::MIN <= l.offset_ms + delta_ms
            <= i64::MAX),
        s.state.lyrics is None ==> offset,
{
    if let Some(l) = s.state.lyrics {
        assert(s@.state.lyrics == Some(l@));
    } else {
        assert(s@.state.lyrics is None);
    }
}

/// The overlay says why it cannot be shown.
pub proof fn law_overlay(d: &GtkDisplay, r: &'static str)
    requires
        call_ensures(GtkDisplay::unavailable, (d,), r),
    ensures
        r@ == "GTK display not yet implemented"@,
{
}

} // verus!
