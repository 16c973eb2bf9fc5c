//! The terminal front end: what each key does, and what is drawn.
use crate::display::{CommandModel, DisplayModel};
use crate::lyrics::{LineModel, LyricsModel};
use crate::player::PlaybackStatus;
use crate::text::{decimal, signed_decimal, two_digits};
use crate::tui::view::{
    candidate_row, candidate_rows, field_shown, first_text, header, list_height, offset_note,
    padded, row, rows, status_bar, status_icon, window_end, window_start,
};
use crate::tui::{
    fresh, key_in_range, key_pressed, status_expired, with_results, EffectModel, Key, TuiMode,
    TuiModel,
};
use vstd::prelude::*;

verus! {

// ---------------------------------------------------------------------------
// The lyrics view
// ---------------------------------------------------------------------------

/// The offset keys ask for a change by their step, and show the offset that
/// comes of it; they change nothing else.
pub proof fn law_offset_keys(m: TuiModel, shown: DisplayModel, c: char, control: bool, now: nat)
    requires
        m.mode == TuiMode::Lyrics,
        c == '+' || c == '=' || c == '-' || c == ']' || c == '[',
        i64::MIN + 500 <= shown.offset_ms <= i64::MAX - 500,
    ensures
        ({
            let step: i64 = if c == '+' || c == '=' {
                100
            } else if c == '-' {
                -100i64
            } else if c == ']' {
                500
            } else {
                -500i64
            };
            let text = "Offset: "@ + signed_decimal(shown.offset_ms + step) + "ms"@;
            key_pressed(m, shown, Key::Char(c), control, now) == (
                TuiModel { status: Some((text, now)), ..m },
                EffectModel::Send(CommandModel::AdjustOffset { delta_ms: step }),
            )
        }),
{
}

/// The search keys open the search dialog with what is playing in its fields,
/// the title active.
pub proof fn law_search_keys(m: TuiModel, shown: DisplayModel, c: char, control: bool, now: nat)
    requires
        m.mode == TuiMode::Lyrics,
        c == 's' || c == '/',
    ensures
        ({
            let after = key_pressed(m, shown, Key::Char(c), control, now);
            &&& after.1 is Nothing
            &&& after.0.mode == TuiMode::SearchInput
            &&& after.0.focus == 0
            &&& shown.track matches Some(t) ==> after.0.title == t.title && after.0.artist
                == t.artist
            &&& shown.track is None ==> after.0.title.len() == 0 && after.0.artist.len() == 0
            &&& after.0.candidates == m.candidates
            &&& after.0.selected == m.selected
            &&& after.0.status == m.status
            &&& after.0.searching == m.searching
        }),
{
}

/// The other keys of the lyrics view: one searches again, one resets the
/// offset, one quits, and the rest do nothing.
pub proof fn law_other_lyrics_keys(
    m: TuiModel,
    shown: DisplayModel,
    key: Key,
    control: bool,
    now: nat,
)
    requires
        m.mode == TuiMode::Lyrics,
    ensures
        ({
            let after = key_pressed(m, shown, key, control, now);
            &&& key == Key::Char('r') ==> after == (
                TuiModel { status: Some(("Re-searching..."@, now)), ..m },
                EffectModel::Send(CommandModel::ResearchCurrent),
            )
            &&& key == Key::Char('0') ==> after == (
                TuiModel { status: Some(("Offset reset to 0ms"@, now)), ..m },
                EffectModel::Send(CommandModel::SetOffset { offset_ms: 0 }),
            )
            &&& key == Key::Char('q') ==> after == (m, EffectModel::Quit)
            &&& !(key is Char) ==> after == (m, EffectModel::Nothing)
            &&& key matches Key::Char(c) ==> c != 'r' && c != '0' && c != 'q' && c != 's' && c
                != '/' && c != '+' && c != '=' && c != '-' && c != ']' && c != '[' ==> after == (
                m,
                EffectModel::Nothing,
            )
        }),
{
}

// ---------------------------------------------------------------------------
// The search dialog
// ---------------------------------------------------------------------------

/// What is typed goes to the end of the active field, whatever the character,
/// and changes nothing else; but for the one that clears the field.
pub proof fn law_typing(m: TuiModel, shown: DisplayModel, c: char, control: bool, now: nat)
    requires
        m.mode == TuiMode::SearchInput,
    ensures
        ({
            let after = key_pressed(m, shown, Key::Char(c), control, now);
            let clears = control && c == 'u';
            &&& after.1 is Nothing
            &&& m.focus == 0 && !clears ==> after.0 == (TuiModel { title: m.title.push(c), ..m })
            &&& m.focus != 0 && !clears ==> after.0 == (TuiModel { artist: m.artist.push(c), ..m })
            &&& m.focus == 0 && clears ==> after.0 == (TuiModel { title: Seq::empty(), ..m })
            &&& m.focus != 0 && clears ==> after.0 == (TuiModel { artist: Seq::empty(), ..m })
        }),
{
}

/// Backspace takes the last character off the active field.
pub proof fn law_backspace(m: TuiModel, shown: DisplayModel, control: bool, now: nat)
    requires
        m.mode == TuiMode::SearchInput,
    ensures
        ({
            let after = key_pressed(m, shown, Key::Backspace, control, now);
            &&& after.1 is Nothing
            &&& m.focus == 0 && m.title.len() > 0 ==> after.0 == (TuiModel {
                title: m.title.take(m.title.len() - 1),
                ..m
            })
            &&& m.focus != 0 && m.artist.len() > 0 ==> after.0 == (TuiModel {
                artist: m.artist.take(m.artist.len() - 1),
                ..m
            })
            &&& m.focus == 0 && m.title.len() == 0 ==> after.0 == m
            &&& m.focus != 0 && m.artist.len() == 0 ==> after.0 == m
        }),
{
    if m.title.len() > 0 {
        assert(m.title.drop_last() =~= m.title.take(m.title.len() - 1));
    }
    if m.artist.len() > 0 {
        assert(m.artist.drop_last() =~= m.artist.take(m.artist.len() - 1));
    }
}

/// The remaining keys of the dialog: leaving it, changing fields, and starting
/// a search for what stands in them.
pub proof fn law_dialog_keys(m: TuiModel, shown: DisplayModel, control: bool, now: nat)
    requires
        m.mode == TuiMode::SearchInput,
        m.focus < 2,
    ensures
        key_pressed(m, shown, Key::Esc, control, now) == (
            TuiModel { mode: TuiMode::Lyrics, ..m },
            EffectModel::Nothing,
        ),
        key_pressed(m, shown, Key::Tab, control, now) == (
            TuiModel { focus: (1 - m.focus) as usize, ..m },
            EffectModel::Nothing,
        ),
        key_pressed(m, shown, Key::BackTab, control, now) == (
            TuiModel { focus: (1 - m.focus) as usize, ..m },
            EffectModel::Nothing,
        ),
        key_pressed(m, shown, Key::Up, control, now) == (m, EffectModel::Nothing),
        key_pressed(m, shown, Key::Down, control, now) == (m, EffectModel::Nothing),
        key_pressed(m, shown, Key::Other, control, now) == (m, EffectModel::Nothing),
        m.title.len() == 0 || m.searching ==> key_pressed(m, shown, Key::Enter, control, now) == (
            m,
            EffectModel::Nothing,
        ),
        m.title.len() > 0 && !m.searching ==> {
            let after = key_pressed(m, shown, Key::Enter, control, now);
            &&& after.0 == (TuiModel { searching: true, status: Some(("Searching..."@, now)), ..m })
            &&& after.1 is Search
            &&& after.1->Search_0.title == m.title
            &&& after.1->Search_0.artist == m.artist
            &&& after.1->Search_0.album is None
            &&& after.1->Search_0.duration is None
        },
{
}

// ---------------------------------------------------------------------------
// Search results
// ---------------------------------------------------------------------------

/// The selection moves by one in either direction and stops at the ends of the
/// list.
pub proof fn law_selecting(m: TuiModel, shown: DisplayModel, i: usize, control: bool, now: nat)
    requires
        m.mode == TuiMode::SearchResults,
        m.selected == Some(i),
        i < m.candidates.len() <= usize::MAX,
    ensures
        ({
            let up = key_pressed(m, shown, Key::Up, control, now);
            let down = key_pressed(m, shown, Key::Down, control, now);
            &&& i > 0 ==> up == (
                TuiModel { selected: Some((i - 1) as usize), ..m },
                EffectModel::Nothing,
            )
            &&& i == 0 ==> up == (m, EffectModel::Nothing)
            &&& i + 1 < m.candidates.len() ==> down == (
                TuiModel { selected: Some((i + 1) as usize), ..m },
                EffectModel::Nothing,
            )
            &&& i + 1 == m.candidates.len() ==> down == (m, EffectModel::Nothing)
            &&& key_pressed(m, shown, Key::Char('k'), control, now) == up
            &&& key_pressed(m, shown, Key::Char('j'), control, now) == down
        }),
{
}

/// The selected candidate, whichever it is, is applied as it stands, and the
/// lyrics are shown again.
pub proof fn law_applying(m: TuiModel, shown: DisplayModel, i: usize, control: bool, now: nat)
    requires
        m.mode == TuiMode::SearchResults,
        m.selected == Some(i),
        i < m.candidates.len(),
    ensures
        key_pressed(m, shown, Key::Enter, control, now) == (
            TuiModel {
                mode: TuiMode::Lyrics,
                status: Some(
                    (
                        "Applied lyrics from "@
                            + m.candidates[i as int].metadata.source.name_text(),
                        now,
                    ),
                ),
                ..m
            },
            EffectModel::Send(CommandModel::ApplyLyrics { lyrics: m.candidates[i as int] }),
        ),
{
}

/// The remaining keys of the list: leaving it, searching anew with the fields
/// as they are, and those that do nothing.
pub proof fn law_list_keys(m: TuiModel, shown: DisplayModel, key: Key, control: bool, now: nat)
    requires
        m.mode == TuiMode::SearchResults,
    ensures
        ({
            let after = key_pressed(m, shown, key, control, now);
            &&& key == Key::Esc ==> after == (
                TuiModel { mode: TuiMode::Lyrics, ..m },
                EffectModel::Nothing,
            )
            &&& key == Key::Char('s') || key == Key::Char('/') ==> after == (
                TuiModel { mode: TuiMode::SearchInput, ..m },
                EffectModel::Nothing,
            )
            &&& key == Key::Tab || key == Key::BackTab || key == Key::Backspace || key == Key::Other
                ==> after == (m, EffectModel::Nothing)
            &&& key matches Key::Char(c) ==> c != 's' && c != '/' && c != 'j' && c != 'k'
                ==> after == (m, EffectModel::Nothing)
            &&& key == Key::Enter && m.selected is None ==> after == (m, EffectModel::Nothing)
        }),
{
}

/// When a search is over, what it found is listed with the first selected, or
/// the lyrics are shown again where it found nothing. The fields stay.
pub proof fn law_results(m: TuiModel, results: Seq<LyricsModel>, now: nat)
    ensures
        results.len() == 0 ==> with_results(m, results, now) == (TuiModel {
            searching: false,
            mode: TuiMode::Lyrics,
            status: Some(("No results found"@, now)),
            ..m
        }),
        results.len() > 0 ==> with_results(m, results, now) == (TuiModel {
            searching: false,
            mode: TuiMode::SearchResults,
            candidates: results,
            selected: Some(0),
            status: Some((decimal(results.len()) + " candidates found"@, now)),
            ..m
        }),
{
}

/// The front end starts with the lyrics view, empty fields and nothing listed.
pub proof fn law_fresh()
    ensures
        fresh().mode == TuiMode::Lyrics,
        fresh().title.len() == 0 && fresh().artist.len() == 0,
        fresh().focus == 0,
        fresh().candidates.len() == 0,
        fresh().selected is None && fresh().status is None,
        !fresh().searching,
{
}

/// A key fits unless it is for an offset that 64 bits do not hold.
pub proof fn law_key_fits(m: TuiModel, shown: DisplayModel, key: Key)
    ensures
        i64::MIN + 500 <= shown.offset_ms <= i64::MAX - 500 ==> key_in_range(m, shown, key),
        m.mode != TuiMode::Lyrics ==> key_in_range(m, shown, key),
        !(key is Char) ==> key_in_range(m, shown, key),
        m.mode == TuiMode::Lyrics && (key == Key::Char('+') || key == Key::Char('='))
            ==> key_in_range(m, shown, key) == (shown.offset_ms + 100 <= i64::MAX),
        m.mode == TuiMode::Lyrics && key == Key::Char('-') ==> key_in_range(m, shown, key) == (
        shown.offset_ms - 100 >= i64::MIN),
        m.mode == TuiMode::Lyrics && key == Key::Char(']') ==> key_in_range(m, shown, key) == (
        shown.offset_ms + 500 <= i64::MAX),
        m.mode == TuiMode::Lyrics && key == Key::Char('[') ==> key_in_range(m, shown, key) == (
        shown.offset_ms - 500 >= i64::MIN),
{
}

/// A status message is shown for three seconds from when it was set.
pub proof fn law_status_shown(m: TuiModel, msg: Seq<char>, since: nat, now: nat)
    ensures
        m.status == Some((msg, since)) ==> status_expired(m, now) == (now > since + 3_000_000_000),
        m.status is None ==> !status_expired(m, now),
{
}

// ---------------------------------------------------------------------------
// What is drawn
// ---------------------------------------------------------------------------

/// The header names the track by its title and artist.
pub proof fn law_header(state: DisplayModel)
    ensures
        state.track matches Some(t) ==> header(state) == t.title + " - "@ + t.artist,
        state.track is None ==> header(state) == "No track playing"@,
{
}

/// The status bar shows minutes and seconds of the position, the offset with
/// its sign unless it is zero, and the message where there is one.
pub proof fn law_status_bar(state: DisplayModel, min: nat, sec: nat, rest: nat, msg: Seq<char>, t: nat)
    requires
        sec < 60,
        rest < 1_000_000_000,
        state.position == (min * 60 + sec) * 1_000_000_000 + rest,
    ensures
        status_bar(state, Some((msg, t))) == " "@ + status_icon(state.status) + " "@ + two_digits(min)
            + ":"@ + two_digits(sec) + offset_note(state.offset_ms) + " | "@ + msg,
        status_bar(state, None) == " "@ + status_icon(state.status) + " "@ + two_digits(min) + ":"@
            + two_digits(sec) + offset_note(state.offset_ms) + " | "@
            + "s:search  r:re-search  +/-:offset  0:reset  q:quit"@,
        state.offset_ms == 0 ==> offset_note(state.offset_ms).len() == 0,
        state.offset_ms > 0 ==> offset_note(state.offset_ms) == " [offset:+"@ + signed_decimal(
            state.offset_ms as int,
        ) + "ms]"@,
        state.offset_ms < 0 ==> offset_note(state.offset_ms) == " [offset:"@ + signed_decimal(
            state.offset_ms as int,
        ) + "ms]"@,
        status_icon(PlaybackStatus::Playing) == "▶"@,
        status_icon(PlaybackStatus::Paused) == "⏸"@,
        status_icon(PlaybackStatus::Stopped) == "⏹"@,
{
    let secs = state.position / 1_000_000_000;
    assert(secs == min * 60 + sec);
    assert(secs / 60 == min && secs % 60 == sec);
}

/// The window of lines begins half the height above the current line, or with
/// the first line where that is less far, and is as high as the screen, or ends
/// with the last line where that comes sooner.
pub proof fn law_window(current: usize, height: u16, len: int)
    ensures
        current >= height / 2 ==> window_start(Some(current), height) == current - height / 2,
        current < height / 2 ==> window_start(Some(current), height) == 0,
        window_start(None, height) == 0,
        window_start(Some(current), height) + height <= len ==> window_end(
            Some(current),
            height,
            len,
        ) == window_start(Some(current), height) + height,
        window_start(Some(current), height) + height > len ==> window_end(
            Some(current),
            height,
            len,
        ) == len,
        height <= len ==> window_end(None, height, len) == height,
        height > len ==> window_end(None, height, len) == len,
{
}

/// Each row of the window is one line, in order, with its text and its
/// translation, and the current one is marked.
pub proof fn law_rows(lines: Seq<LineModel>, current: Option<usize>, from: int, to: int, k: int)
    requires
        0 <= from <= k < to <= lines.len(),
    ensures
        rows(lines, current, from, to).len() == to - from,
        ({
            let r = rows(lines, current, from, to)[k - from];
            &&& r.content == lines[k].content
            &&& r.translation == lines[k].translation
            &&& r.current == (current is Some && current->0 == k)
        }),
{
    assert(from + (k - from) == k);
    assert(rows(lines, current, from, to)[k - from] == row(lines[k], k, current));
}

/// A field is shown with its text, and with a cursor behind it while active.
pub proof fn law_field(text: Seq<char>)
    ensures
        field_shown(text, true) == "  "@ + text + "▎"@,
        field_shown(text, false) == "  "@ + text,
{
}

/// The first text among lines is that of the first line with text.
pub proof fn law_first_text(lines: Seq<LineModel>, i: int, k: int)
    requires
        0 <= i <= k <= lines.len(),
        forall|j: int| i <= j < k ==> (#[trigger] lines[j]).content.len() == 0,
        k < lines.len() ==> lines[k].content.len() > 0,
    ensures
        k < lines.len() ==> first_text(lines, i) == lines[k].content,
        k == lines.len() ==> first_text(lines, i).len() == 0,
    decreases k - i,
{
    if i < k {
        assert(lines[i].content.len() == 0);
        law_first_text(lines, i + 1, k);
    }
}

/// Each candidate has a row, in order, with its number from one on, its source,
/// its title and artist, the number of its lines and the first text of them.
pub proof fn law_candidate_rows(list: Seq<LyricsModel>, i: int)
    requires
        0 <= i < list.len(),
    ensures
        candidate_rows(list).len() == list.len(),
        ({
            let l = list[i];
            let title = if l.metadata.title is Some {
                l.metadata.title->0
            } else {
                "?"@
            };
            let artist = if l.metadata.artist is Some {
                l.metadata.artist->0
            } else {
                "?"@
            };
            let number = if i + 1 < 10 {
                " "@ + decimal((i + 1) as nat)
            } else {
                decimal((i + 1) as nat)
            };
            candidate_rows(list)[i] == " "@ + number + ". ["@ + l.metadata.source.name_text() + "] "@
                + title + " - "@ + artist + " ("@ + decimal(l.lines.len()) + " lines) │ "@
                + first_text(l.lines, 0)
        }),
{
    assert(candidate_rows(list)[i] == candidate_row(i, list[i]));
    assert(padded((i + 1) as nat) == if i + 1 < 10 {
        " "@ + decimal((i + 1) as nat)
    } else {
        decimal((i + 1) as nat)
    });
}

/// The list is four rows higher than it has candidates, or four rows lower than
/// the screen where that is less. The candidates count modulo 65536.
pub proof fn law_list_height(candidates: nat, times: nat, screen: u16)
    requires
        candidates < 65536,
    ensures
        ({
            let height = list_height(candidates + times * 65536, screen);
            &&& candidates + 8 <= screen ==> height == candidates + 4
            &&& candidates + 8 > screen && screen >= 4 ==> height == screen - 4
            &&& screen < 4 ==> height == 0
        }),
{
    assert((candidates + times * 65536) % 65536 == candidates);
}

/// Where no candidate is selected the first counts as such for moving, and a
/// selection beyond the list is not applied.
pub proof fn law_no_selection(m: TuiModel, shown: DisplayModel, control: bool, now: nat)
    requires
        m.mode == TuiMode::SearchResults,
    ensures
        m.selected is None ==> key_pressed(m, shown, Key::Up, control, now) == (
            m,
            EffectModel::Nothing,
        ),
        m.selected is None && m.candidates.len() > 1 ==> key_pressed(
            m,
            shown,
            Key::Down,
            control,
            now,
        ) == (TuiModel { selected: Some(1), ..m }, EffectModel::Nothing),
        m.selected is None && m.candidates.len() <= 1 ==> key_pressed(
            m,
            shown,
            Key::Down,
            control,
            now,
        ) == (m, EffectModel::Nothing),
        m.selected matches Some(k) ==> (k >= m.candidates.len() ==> key_pressed(
            m,
            shown,
            Key::Enter,
            control,
            now,
        ) == (m, EffectModel::Nothing)),
{
}

} // verus!
