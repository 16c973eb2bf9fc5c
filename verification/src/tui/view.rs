//! What is drawn, as text and sizes.
use super::TuiState;
use crate::display::{DisplayModel, DisplayState};
use crate::lyrics::{line_models, LineModel, Lyrics, LyricsLine, LyricsModel};
use crate::player::PlaybackStatus;
use crate::text::{
    copy_opt, decimal, empty_text, opt_text, push_decimal, push_signed, push_two_digits,
    signed_decimal, texts, two_digits,
};
use crate::time::NANOS_PER_SEC;
use vstd::prelude::*;

verus! {

// ---------------------------------------------------------------------------
// Header and status bar
// ---------------------------------------------------------------------------

/// The text of the header: what is playing.
pub open spec fn header(state: DisplayModel) -> Seq<char> {
    match state.track {
        Some(t) => t.title + " - "@ + t.artist,
        None => "No track playing"@,
    }
}

/// The text of the header: what is playing.
pub fn header_text(state: &DisplayState) -> (r: String)
    ensures
        r@ == header(state@),
{
    match &state.track {
        Some(t) => {
            let mut out = t.title.clone();
            out.append(" - ");
            out.append(t.artist.as_str());
            out
        },
        None => "No track playing".to_owned(),
    }
}

/// The sign for a playback status.
pub open spec fn status_icon(status: PlaybackStatus) -> Seq<char> {
    match status {
        PlaybackStatus::Playing => "▶"@,
        PlaybackStatus::Paused => "⏸"@,
        PlaybackStatus::Stopped => "⏹"@,
    }
}

/// The offset where there is one, with its sign.
pub open spec fn offset_note(offset_ms: i64) -> Seq<char> {
    if offset_ms > 0 {
        " [offset:+"@ + signed_decimal(offset_ms as int) + "ms]"@
    } else if offset_ms < 0 {
        " [offset:"@ + signed_decimal(offset_ms as int) + "ms]"@
    } else {
        Seq::empty()
    }
}

/// The keys of the lyrics view.
pub open spec fn key_help() -> Seq<char> {
    "s:search  r:re-search  +/-:offset  0:reset  q:quit"@
}

/// The text of the status bar: status, minutes and seconds, offset, and the
/// status message or else the keys.
pub open spec fn status_bar(state: DisplayModel, message: Option<(Seq<char>, nat)>) -> Seq<char> {
    let secs = state.position / (NANOS_PER_SEC as nat);
    " "@ + status_icon(state.status) + " "@ + two_digits(secs / 60) + ":"@ + two_digits(secs % 60)
        + offset_note(state.offset_ms) + " | "@ + match message {
        Some((msg, _)) => msg,
        None => key_help(),
    }
}

/// Appends the offset where there is one, with its sign.
fn push_offset(out: &mut String, offset_ms: i64)
    ensures
        final(out)@ == old(out)@ + offset_note(offset_ms),
{
    if offset_ms != 0 {
        if offset_ms > 0 {
            out.append(" [offset:+");
        } else {
            out.append(" [offset:");
        }
        push_signed(out, offset_ms);
        out.append("ms]");
    }
    assert(out@ =~= old(out)@ + offset_note(offset_ms));
}

/// The text of the status bar.
pub fn status_text(state: &DisplayState, tui: &TuiState) -> (r: String)
    ensures
        r@ == status_bar(state@, tui@.status),
{
    let secs: u64 = state.playback_position.as_secs();
    let mut out = " ".to_owned();
    out.append(
        match state.status {
            PlaybackStatus::Playing => "▶",
            PlaybackStatus::Paused => "⏸",
            PlaybackStatus::Stopped => "⏹",
        },
    );
    out.append(" ");
    push_two_digits(&mut out, (secs / 60) as u128);
    out.append(":");
    push_two_digits(&mut out, (secs % 60) as u128);
    push_offset(&mut out, state.offset_ms);
    out.append(" | ");
    match &tui.status_message {
        Some((msg, _)) => out.append(msg.as_str()),
        None => out.append("s:search  r:re-search  +/-:offset  0:reset  q:quit"),
    }
    out
}

// ---------------------------------------------------------------------------
// Lyrics
// ---------------------------------------------------------------------------

/// One line of the lyrics view.
#[derive(Debug)]
pub struct LineRow {
    pub content: String,
    pub translation: Option<String>,
    /// Whether this is the current line.
    pub current: bool,
}

/// One line of the lyrics view, as plain values.
#[verifier::ext_equal]
pub struct RowModel {
    pub content: Seq<char>,
    pub translation: Option<Seq<char>>,
    pub current: bool,
}

impl View for LineRow {
    type V = RowModel;

    open spec fn view(&self) -> RowModel {
        RowModel {
            content: self.content@,
            translation: opt_text(self.translation),
            current: self.current,
        }
    }
}

/// What the lyrics view shows.
#[derive(Debug)]
pub enum LyricsView {
    Message(&'static str),
    Rows(Vec<LineRow>),
}

/// What is said where there are no lyrics.
pub open spec fn no_lyrics_note(state: DisplayModel) -> Seq<char> {
    if state.track is Some {
        "No lyrics found. Press 's' to search manually."@
    } else {
        "Waiting for lyrics..."@
    }
}

/// The first line shown: half the height above the current line.
pub open spec fn window_start(current: Option<usize>, height: u16) -> int {
    let at = match current {
        Some(i) => i as int,
        None => 0,
    };
    let context = height as int / 2;
    if at >= context {
        at - context
    } else {
        0
    }
}

/// The line behind the last line shown.
pub open spec fn window_end(current: Option<usize>, height: u16, len: int) -> int {
    if window_start(current, height) + height < len {
        window_start(current, height) + height
    } else {
        len
    }
}

/// The row for a line.
pub open spec fn row(line: LineModel, i: int, current: Option<usize>) -> RowModel {
    RowModel {
        content: line.content,
        translation: line.translation,
        current: current matches Some(c) && c == i,
    }
}

/// The rows for the lines from `from` up to `to`.
pub open spec fn rows(lines: Seq<LineModel>, current: Option<usize>, from: int, to: int) -> Seq<
    RowModel,
> {
    if from < to {
        Seq::new((to - from) as nat, |k: int| row(lines[from + k], from + k, current))
    } else {
        Seq::empty()
    }
}

/// Rows, as plain values.
pub open spec fn row_models(v: Seq<LineRow>) -> Seq<RowModel> {
    v.map_values(|r: LineRow| r@)
}

/// The rows of the lyrics view of the given height.
fn lyrics_rows(lyrics: &Lyrics, current: Option<usize>, height: u16) -> (r: Vec<LineRow>)
    ensures
        row_models(r@) == rows(
            lyrics@.lines,
            current,
            window_start(current, height),
            window_end(current, height, lyrics@.lines.len() as int),
        ),
{
    let at: usize = match current {
        Some(i) => i,
        None => 0,
    };
    let visible: usize = height as usize;
    let context: usize = visible / 2;
    let start: usize = if at >= context {
        at - context
    } else {
        0
    };
    let len = lyrics.lines.len();
    let end: usize = if start < len && visible < len - start {
        start + visible
    } else {
        len
    };
    assert(start == window_start(current, height));
    assert(end == window_end(current, height, len as int));
    let ghost models = lyrics@.lines;
    let mut out: Vec<LineRow> = Vec::new();
    let mut i: usize = start;
    while i < end
        invariant
            start <= i,
            start < end ==> i <= end,
            start >= end ==> i == start,
            end <= len,
            len == lyrics.lines@.len(),
            models == lyrics@.lines,
            out@.len() == i - start,
            forall|k: int|
                0 <= k < out@.len() ==> (#[trigger] out@[k])@ == row(
                    models[start + k],
                    start + k,
                    current,
                ),
        decreases end - i,
    {
        assert(models[i as int] == lyrics.lines@[i as int]@);
        let line = &lyrics.lines[i];
        let is_current = match current {
            Some(c) => c == i,
            None => false,
        };
        out.push(
            LineRow {
                content: line.content.clone(),
                translation: copy_opt(&line.translation),
                current: is_current,
            },
        );
        i = i + 1;
    }
    assert(row_models(out@) =~= rows(models, current, start as int, end as int));
    out
}

/// What the lyrics view of the given height shows.
pub fn render_lyrics(state: &DisplayState, height: u16) -> (r: LyricsView)
    ensures
        match state@.lyrics {
            Some(l) => r matches LyricsView::Rows(v) && row_models(v@) == rows(
                l.lines,
                state@.current,
                window_start(state@.current, height),
                window_end(state@.current, height, l.lines.len() as int),
            ),
            None => r matches LyricsView::Message(m) && m@ == no_lyrics_note(state@),
        },
{
    match &state.lyrics {
        Some(lyrics) => LyricsView::Rows(lyrics_rows(lyrics, state.current_line_index, height)),
        None => if state.track.is_some() {
            LyricsView::Message("No lyrics found. Press 's' to search manually.")
        } else {
            LyricsView::Message("Waiting for lyrics...")
        },
    }
}

// ---------------------------------------------------------------------------
// Dialogs
// ---------------------------------------------------------------------------

/// The text of an input field, with a cursor where it is active.
pub open spec fn field_shown(text: Seq<char>, active: bool) -> Seq<char> {
    if active {
        "  "@ + text + "▎"@
    } else {
        "  "@ + text
    }
}

/// The text of an input field, with a cursor where it is active.
fn field_text(text: &str, active: bool) -> (r: String)
    ensures
        r@ == field_shown(text@, active),
{
    let mut out = "  ".to_owned();
    out.append(text);
    if active {
        out.append("▎");
    }
    out
}

/// The search input dialog.
#[derive(Debug)]
pub struct InputView {
    pub title: String,
    pub artist: String,
    pub title_active: bool,
    pub artist_active: bool,
    pub searching: bool,
}

/// The search input dialog.
pub fn search_input(tui: &TuiState) -> (r: InputView)
    ensures
        r.title_active == (tui@.focus == 0),
        r.artist_active == (tui@.focus == 1),
        r.title@ == field_shown(tui@.title, tui@.focus == 0),
        r.artist@ == field_shown(tui@.artist, tui@.focus == 1),
        r.searching == tui@.searching,
{
    let title_active = tui.search_focus == 0;
    let artist_active = tui.search_focus == 1;
    InputView {
        title: field_text(tui.search_title.as_str(), title_active),
        artist: field_text(tui.search_artist.as_str(), artist_active),
        title_active,
        artist_active,
        searching: tui.searching,
    }
}

/// The number of a candidate, filled up to two places.
pub open spec fn padded(n: nat) -> Seq<char> {
    if n < 10 {
        " "@ + decimal(n)
    } else {
        decimal(n)
    }
}

/// The first text among the lines from `i` on.
pub open spec fn first_text(lines: Seq<LineModel>, i: int) -> Seq<char>
    decreases lines.len() - i,
{
    if i >= lines.len() {
        Seq::empty()
    } else if lines[i].content.len() > 0 {
        lines[i].content
    } else {
        first_text(lines, i + 1)
    }
}

/// An optional name, or a question mark.
pub open spec fn name_or_unknown(name: Option<Seq<char>>) -> Seq<char> {
    match name {
        Some(n) => n,
        None => "?"@,
    }
}

/// The row for a candidate in the list of search results.
pub open spec fn candidate_row(i: int, l: LyricsModel) -> Seq<char> {
    " "@ + padded((i + 1) as nat) + ". ["@ + l.metadata.source.name_text() + "] "@
        + name_or_unknown(l.metadata.title) + " - "@ + name_or_unknown(l.metadata.artist) + " ("@
        + decimal(l.lines.len()) + " lines) │ "@ + first_text(l.lines, 0)
}

/// Appends an optional name, or a question mark.
fn push_name(out: &mut String, name: &Option<String>)
    ensures
        final(out)@ == old(out)@ + name_or_unknown(opt_text(*name)),
{
    match name {
        Some(n) => out.append(n.as_str()),
        None => out.append("?"),
    }
}

/// Appends the first text among the lines.
fn push_first_text(out: &mut String, lines: &Vec<LyricsLine>)
    ensures
        final(out)@ == old(out)@ + first_text(line_models(lines@), 0),
{
    let ghost models = line_models(lines@);
    let mut i: usize = 0;
    while i < lines.len()
        invariant
            i <= lines@.len(),
            models == line_models(lines@),
            first_text(models, i as int) == first_text(models, 0),
            out@ == old(out)@,
        decreases lines@.len() - i,
    {
        assert(models[i as int] == lines@[i as int]@);
        if !empty_text(lines[i].content.as_str()) {
            out.append(lines[i].content.as_str());
            return ;
        }
        i = i + 1;
    }
    assert(out@ =~= old(out)@ + first_text(models, 0));
}

/// The row for a candidate in the list of search results.
fn row_text(i: usize, l: &Lyrics) -> (r: String)
    ensures
        r@ == candidate_row(i as int, l@),
{
    let n: u128 = i as u128 + 1;
    let mut out = " ".to_owned();
    if n < 10 {
        out.append(" ");
    }
    push_decimal(&mut out, n);
    assert(out@ =~= " "@ + padded((i + 1) as nat));
    out.append(". [");
    out.append(l.metadata.source.name());
    out.append("] ");
    push_name(&mut out, &l.metadata.title);
    out.append(" - ");
    push_name(&mut out, &l.metadata.artist);
    out.append(" (");
    push_decimal(&mut out, l.lines.len() as u128);
    out.append(" lines) │ ");
    push_first_text(&mut out, &l.lines);
    out
}

/// The rows of the list of search results.
pub open spec fn candidate_rows(list: Seq<LyricsModel>) -> Seq<Seq<char>> {
    Seq::new(list.len(), |i: int| candidate_row(i, list[i]))
}

/// The rows of the list of search results.
pub fn search_results(tui: &TuiState) -> (r: Vec<String>)
    ensures
        texts(r@) == candidate_rows(tui@.candidates),
{
    let mut out: Vec<String> = Vec::new();
    let mut i: usize = 0;
    while i < tui.candidates.len()
        invariant
            i <= tui.candidates@.len(),
            out@.len() == i,
            forall|k: int|
                0 <= k < i ==> (#[trigger] out@[k])@ == candidate_row(k, tui.candidates@[k]@),
        decreases tui.candidates@.len() - i,
    {
        out.push(row_text(i, &tui.candidates[i]));
        i = i + 1;
    }
    assert(texts(out@) =~= candidate_rows(tui@.candidates));
    out
}

/// The title of the list of search results.
pub fn results_title(tui: &TuiState) -> (r: String)
    ensures
        r@ == " "@ + decimal(tui@.candidates.len())
            + " results — ↑↓:navigate  Enter:select  Esc:cancel  s:new search "@,
{
    let mut out = " ".to_owned();
    push_decimal(&mut out, tui.candidates.len() as u128);
    out.append(" results — ↑↓:navigate  Enter:select  Esc:cancel  s:new search ");
    out
}

/// The height of the list of search results on a screen of the given height:
/// room for the candidates, as far as the screen has it. The number of
/// candidates counts modulo 65536.
pub open spec fn list_height(candidates: nat, screen: u16) -> int {
    let wanted = candidates % 65536 + 4;
    let room = if screen >= 4 {
        screen - 4
    } else {
        0
    };
    if wanted < room {
        wanted as int
    } else {
        room
    }
}

/// The height of the list of search results on a screen of the given height.
pub fn results_height(tui: &TuiState, screen: u16) -> (r: u16)
    requires
        tui@.candidates.len() % 65536 <= 65531,
    ensures
        r == list_height(tui@.candidates.len(), screen),
{
    let wanted: u16 = (tui.candidates.len() % 65536) as u16 + 4;
    let room: u16 = if screen >= 4 {
        screen - 4
    } else {
        0
    };
    if wanted < room {
        wanted
    } else {
        room
    }
}

/// The sizes of a dialog in the middle of the screen: rows above it, its rows,
/// and the shares of the width beside it and of its own, in percent.
#[derive(Clone, Copy, Debug, PartialEq, Eq, Structural)]
pub struct PopupSizes {
    pub above: u16,
    pub height: u16,
    pub side_percent: u16,
    pub percent: u16,
}

/// The sizes of a centered rectangle of given percentage width and absolute
/// height.
pub fn centered_rect(percent_x: u16, height: u16, screen: u16) -> (r: PopupSizes)
    requires
        percent_x <= 100,
    ensures
        r.height == height,
        r.percent == percent_x,
        r.above == (if screen >= height {
            (screen - height) / 2
        } else {
            0
        }),
        r.side_percent == (100 - percent_x) / 2,
{
    let above: u16 = if screen >= height {
        (screen - height) / 2
    } else {
        0
    };
    PopupSizes { above, height, side_percent: (100 - percent_x) / 2, percent: percent_x }
}

// ---------------------------------------------------------------------------
// Laws
// ---------------------------------------------------------------------------

/// The current line is among the lines shown, wherever it stands, on any
/// screen with room for a line.
pub proof fn law_current_line_visible(current: usize, height: u16, len: int)
    requires
        current < len,
        height > 0,
    ensures
        window_start(Some(current), height) <= current < window_end(Some(current), height, len),
        window_end(Some(current), height, len) - window_start(Some(current), height) <= height,
{
}

/// A dialog fits on the screen: with the rows above it, it is no higher than
/// the screen, where it is no higher by itself.
pub proof fn law_list_fits(candidates: nat, screen: u16)
    ensures
        0 <= list_height(candidates, screen) <= screen,
        screen >= 4 ==> list_height(candidates, screen) <= screen - 4,
{
}

} // verus!
