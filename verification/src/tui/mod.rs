//! The terminal front end: what each key does and what is drawn.
pub mod view;

use crate::display::{CommandModel, DisplayModel, DisplayState, SchedulerCommand};
use crate::lyrics::{Lyrics, LyricsModel};
use crate::provider::group::lyrics_models;
use crate::provider::{RequestModel, SearchRequest};
use crate::text::{decimal, empty_text, push_decimal, push_signed, signed_decimal};
use crate::time::{floored_difference, NANOS_PER_SEC, Duration};
use vstd::prelude::*;

verus! {

/// How long a status message is shown, in seconds.
pub const STATUS_SECS: u64 = 3;

/// `String::clear` leaves an empty text.
pub assume_specification[ String::clear ](s: &mut String)
    ensures
        final(s)@ == Seq::<char>::empty(),
;

/// `String::pop` takes off and returns the last character, where there is one.
pub assume_specification[ String::pop ](s: &mut String) -> (r: Option<char>)
    ensures
        old(s)@.len() == 0 ==> r is None && final(s)@ == old(s)@,
        old(s)@.len() > 0 ==> r == Some(old(s)@.last()) && final(s)@ == old(s)@.drop_last(),
;

/// Which view the TUI is showing.
#[derive(Clone, Copy, Debug, PartialEq, Eq, Structural)]
pub enum TuiMode {
    /// Normal lyrics display.
    Lyrics,
    /// Search input dialog.
    SearchInput,
    /// Search results selection.
    SearchResults,
}

/// A key.
#[derive(Clone, Copy, Debug, PartialEq, Eq, Structural)]
pub enum Key {
    Char(char),
    Enter,
    Esc,
    Tab,
    BackTab,
    Backspace,
    Up,
    Down,
    Other,
}

#[derive(Debug)]
pub struct TuiState {
    pub mode: TuiMode,
    /// Search input fields.
    pub search_title: String,
    pub search_artist: String,
    /// Which input field is active (0 = title, 1 = artist).
    pub search_focus: usize,
    /// Search result candidates.
    pub candidates: Vec<Lyrics>,
    /// The selected candidate.
    pub selected: Option<usize>,
    /// Status message shown briefly at the bottom, and since when.
    pub status_message: Option<(String, Duration)>,
    /// Is a search in progress?
    pub searching: bool,
}

/// The state of the terminal front end, as plain values.
#[verifier::ext_equal]
pub struct TuiModel {
    pub mode: TuiMode,
    pub title: Seq<char>,
    pub artist: Seq<char>,
    pub focus: usize,
    pub candidates: Seq<LyricsModel>,
    pub selected: Option<usize>,
    pub status: Option<(Seq<char>, nat)>,
    pub searching: bool,
}

impl View for TuiState {
    type V = TuiModel;

    open spec fn view(&self) -> TuiModel {
        TuiModel {
            mode: self.mode,
            title: self.search_title@,
            artist: self.search_artist@,
            focus: self.search_focus,
            candidates: lyrics_models(self.candidates@),
            selected: self.selected,
            status: match self.status_message {
                Some((msg, since)) => Some((msg@, since@)),
                None => None,
            },
            searching: self.searching,
        }
    }
}

/// What a key asks of the caller.
#[derive(Debug)]
pub enum Effect {
    Nothing,
    Quit,
    /// Send a command to the scheduler.
    Send(SchedulerCommand),
    /// Search all providers in the background.
    Search(SearchRequest),
}

/// What a key asks of the caller, as plain values.
pub enum EffectModel {
    Nothing,
    Quit,
    Send(CommandModel),
    Search(RequestModel),
}

impl View for Effect {
    type V = EffectModel;

    open spec fn view(&self) -> EffectModel {
        match *self {
            Effect::Nothing => EffectModel::Nothing,
            Effect::Quit => EffectModel::Quit,
            Effect::Send(c) => EffectModel::Send(c@),
            Effect::Search(r) => EffectModel::Search(r@),
        }
    }
}

/// The front end as it starts.
pub open spec fn fresh() -> TuiModel {
    TuiModel {
        mode: TuiMode::Lyrics,
        title: Seq::empty(),
        artist: Seq::empty(),
        focus: 0,
        candidates: Seq::empty(),
        selected: None,
        status: None,
        searching: false,
    }
}

/// Whether one of the two input fields is active, and a selected candidate is
/// one of the candidates.
pub open spec fn coherent(m: TuiModel) -> bool {
    &&& m.focus < 2
    &&& m.selected matches Some(i) ==> i < m.candidates.len()
}

/// The state with a status message.
pub open spec fn with_status(m: TuiModel, msg: Seq<char>, now: nat) -> TuiModel {
    TuiModel { status: Some((msg, now)), ..m }
}

// ---------------------------------------------------------------------------
// Search results and status messages
// ---------------------------------------------------------------------------

/// The state once a search is over.
pub open spec fn with_results(m: TuiModel, results: Seq<LyricsModel>, now: nat) -> TuiModel {
    if results.len() == 0 {
        with_status(
            TuiModel { searching: false, mode: TuiMode::Lyrics, ..m },
            "No results found"@,
            now,
        )
    } else {
        with_status(
            TuiModel {
                searching: false,
                candidates: results,
                selected: Some(0),
                mode: TuiMode::SearchResults,
                ..m
            },
            decimal(results.len()) + " candidates found"@,
            now,
        )
    }
}

/// Whether the status message has been shown long enough.
pub open spec fn status_expired(m: TuiModel, now: nat) -> bool {
    match m.status {
        Some((_, since)) => floored_difference(now, since) > STATUS_SECS * NANOS_PER_SEC,
        None => false,
    }
}

// ---------------------------------------------------------------------------
// Keys
// ---------------------------------------------------------------------------

/// The change of the offset that a key stands for, in milliseconds.
pub open spec fn offset_step(key: Key) -> Option<i64> {
    match key {
        Key::Char(c) => if c == '+' || c == '=' {
            Some(100)
        } else if c == '-' {
            Some(-100i64)
        } else if c == ']' {
            Some(500)
        } else if c == '[' {
            Some(-500i64)
        } else {
            None
        },
        _ => None,
    }
}

/// Whether the offset that a key asks for can be represented.
pub open spec fn key_in_range(m: TuiModel, shown: DisplayModel, key: Key) -> bool {
    match offset_step(key) {
        Some(step) => m.mode == TuiMode::Lyrics ==> i64::MIN <= shown.offset_ms + step <= i64::MAX,
        None => true,
    }
}

/// What a key does in the lyrics view.
pub open spec fn lyrics_key(m: TuiModel, shown: DisplayModel, key: Key, now: nat) -> (
    TuiModel,
    EffectModel,
) {
    match offset_step(key) {
        Some(step) => (
            with_status(
                m,
                "Offset: "@ + signed_decimal(shown.offset_ms + step) + "ms"@,
                now,
            ),
            EffectModel::Send(CommandModel::AdjustOffset { delta_ms: step }),
        ),
        None => if key == Key::Char('q') {
            (m, EffectModel::Quit)
        } else if key == Key::Char('s') || key == Key::Char('/') {
            (
                TuiModel {
                    title: match shown.track {
                        Some(t) => t.title,
                        None => Seq::empty(),
                    },
                    artist: match shown.track {
                        Some(t) => t.artist,
                        None => Seq::empty(),
                    },
                    focus: 0,
                    mode: TuiMode::SearchInput,
                    ..m
                },
                EffectModel::Nothing,
            )
        } else if key == Key::Char('r') {
            (
                with_status(m, "Re-searching..."@, now),
                EffectModel::Send(CommandModel::ResearchCurrent),
            )
        } else if key == Key::Char('0') {
            (
                with_status(m, "Offset reset to 0ms"@, now),
                EffectModel::Send(CommandModel::SetOffset { offset_ms: 0 }),
            )
        } else {
            (m, EffectModel::Nothing)
        },
    }
}

/// The state with another text in the active input field.
pub open spec fn with_field(m: TuiModel, text: Seq<char>) -> TuiModel {
    if m.focus == 0 {
        TuiModel { title: text, ..m }
    } else {
        TuiModel { artist: text, ..m }
    }
}

/// The text of the active input field.
pub open spec fn active_field(m: TuiModel) -> Seq<char> {
    if m.focus == 0 {
        m.title
    } else {
        m.artist
    }
}

/// What a key does in the search input dialog.
pub open spec fn input_key(m: TuiModel, key: Key, control: bool, now: nat) -> (
    TuiModel,
    EffectModel,
) {
    match key {
        Key::Esc => (TuiModel { mode: TuiMode::Lyrics, ..m }, EffectModel::Nothing),
        Key::Tab => (
            TuiModel { focus: ((m.focus + 1) % 2) as usize, ..m },
            EffectModel::Nothing,
        ),
        Key::BackTab => (
            TuiModel {
                focus: if m.focus == 0 {
                    1
                } else {
                    0
                },
                ..m
            },
            EffectModel::Nothing,
        ),
        Key::Enter => if m.title.len() > 0 && !m.searching {
            (
                with_status(TuiModel { searching: true, ..m }, "Searching..."@, now),
                EffectModel::Search(
                    RequestModel { title: m.title, artist: m.artist, album: None, duration: None },
                ),
            )
        } else {
            (m, EffectModel::Nothing)
        },
        Key::Backspace => (
            with_field(
                m,
                if active_field(m).len() > 0 {
                    active_field(m).drop_last()
                } else {
                    active_field(m)
                },
            ),
            EffectModel::Nothing,
        ),
        Key::Char(c) => (
            with_field(
                m,
                if control && c == 'u' {
                    Seq::empty()
                } else {
                    active_field(m).push(c)
                },
            ),
            EffectModel::Nothing,
        ),
        _ => (m, EffectModel::Nothing),
    }
}

/// The index of the selected candidate; the first where none is.
pub open spec fn selected_or_first(m: TuiModel) -> usize {
    match m.selected {
        Some(i) => i,
        None => 0,
    }
}

/// What a key does in the list of search results.
pub open spec fn results_key(m: TuiModel, key: Key, now: nat) -> (TuiModel, EffectModel) {
    let i = selected_or_first(m);
    match key {
        Key::Esc => (TuiModel { mode: TuiMode::Lyrics, ..m }, EffectModel::Nothing),
        Key::Up | Key::Char('k') => (
            TuiModel {
                selected: if i > 0 {
                    Some((i - 1) as usize)
                } else {
                    m.selected
                },
                ..m
            },
            EffectModel::Nothing,
        ),
        Key::Down | Key::Char('j') => (
            TuiModel {
                selected: if i + 1 < m.candidates.len() {
                    Some((i + 1) as usize)
                } else {
                    m.selected
                },
                ..m
            },
            EffectModel::Nothing,
        ),
        Key::Enter => match m.selected {
            Some(k) => if k < m.candidates.len() {
                (
                    with_status(
                        TuiModel { mode: TuiMode::Lyrics, ..m },
                        "Applied lyrics from "@
                            + m.candidates[k as int].metadata.source.name_text(),
                        now,
                    ),
                    EffectModel::Send(
                        CommandModel::ApplyLyrics { lyrics: m.candidates[k as int] },
                    ),
                )
            } else {
                (m, EffectModel::Nothing)
            },
            None => (m, EffectModel::Nothing),
        },
        Key::Char('s') | Key::Char('/') => (
            TuiModel { mode: TuiMode::SearchInput, ..m },
            EffectModel::Nothing,
        ),
        _ => (m, EffectModel::Nothing),
    }
}

/// What a key does.
pub open spec fn key_pressed(
    m: TuiModel,
    shown: DisplayModel,
    key: Key,
    control: bool,
    now: nat,
) -> (TuiModel, EffectModel) {
    match m.mode {
        TuiMode::Lyrics => lyrics_key(m, shown, key, now),
        TuiMode::SearchInput => input_key(m, key, control, now),
        TuiMode::SearchResults => results_key(m, key, now),
    }
}

/// The change of the offset that a key stands for.
fn step_of(key: Key) -> (r: Option<i64>)
    ensures
        r == offset_step(key),
{
    match key {
        Key::Char(c) => if c == '+' || c == '=' {
            Some(100)
        } else if c == '-' {
            Some(-100)
        } else if c == ']' {
            Some(500)
        } else if c == '[' {
            Some(-500)
        } else {
            None
        },
        _ => None,
    }
}

impl TuiState {
    /// The front end as it starts.
    pub fn new() -> (r: Self)
        ensures
            r@ == fresh(),
    {
        let r = TuiState {
            mode: TuiMode::Lyrics,
            search_title: String::new(),
            search_artist: String::new(),
            search_focus: 0,
            candidates: Vec::new(),
            selected: None,
            status_message: None,
            searching: false,
        };
        assert(r@.candidates =~= Seq::empty());
        r
    }

    /// Show a status message.
    pub fn set_status(&mut self, msg: String, now: Duration)
        ensures
            final(self)@ == with_status(old(self)@, msg@, now@),
    {
        self.status_message = Some((msg, now));
    }

    /// Take in the results of a search.
    pub fn on_results(&mut self, results: Vec<Lyrics>, now: Duration)
        ensures
            final(self)@ == with_results(old(self)@, lyrics_models(results@), now@),
    {
        self.searching = false;
        if results.len() == 0 {
            self.set_status("No results found".to_owned(), now);
            self.mode = TuiMode::Lyrics;
        } else {
            let mut msg = String::new();
            push_decimal(&mut msg, results.len() as u128);
            msg.append(" candidates found");
            assert(msg@ =~= decimal(results@.len()) + " candidates found"@);
            self.set_status(msg, now);
            self.candidates = results;
            self.selected = Some(0);
            self.mode = TuiMode::SearchResults;
        }
    }

    /// Clear an expired status message. Returns whether there was one.
    pub fn expire_status(&mut self, now: Duration) -> (r: bool)
        ensures
            r == status_expired(old(self)@, now@),
            final(self)@ == (if r {
                TuiModel { status: None, ..old(self)@ }
            } else {
                old(self)@
            }),
    {
        let limit = Duration::from_secs(STATUS_SECS);
        let expired = match &self.status_message {
            Some((_, since)) => limit.shorter_than(&now.saturating_sub(*since)),
            None => false,
        };
        if expired {
            self.status_message = None;
        }
        expired
    }

    /// Whether the offset that a key asks for can be represented.
    pub fn key_fits(&self, shown: &DisplayState, key: Key) -> (r: bool)
        ensures
            r == key_in_range(self@, shown@, key),
    {
        match (self.mode, step_of(key)) {
            (TuiMode::Lyrics, Some(step)) => shown.offset_ms.checked_add(step).is_some(),
            _ => true,
        }
    }

    /// A key in the lyrics view.
    fn on_lyrics_key(&mut self, shown: &DisplayState, key: Key, now: Duration) -> (r: Effect)
        requires
            old(self)@.mode == TuiMode::Lyrics,
            key_in_range(old(self)@, shown@, key),
        ensures
            final(self)@ == lyrics_key(old(self)@, shown@, key, now@).0,
            r@ == lyrics_key(old(self)@, shown@, key, now@).1,
    {
        if let Some(step) = step_of(key) {
            let mut msg = "Offset: ".to_owned();
            push_signed(&mut msg, shown.offset_ms + step);
            msg.append("ms");
            self.set_status(msg, now);
            return Effect::Send(SchedulerCommand::AdjustOffset { delta_ms: step });
        }
        match key {
            Key::Char('q') => Effect::Quit,
            Key::Char('s') | Key::Char('/') => {
                match &shown.track {
                    Some(t) => {
                        self.search_title = t.title.clone();
                        self.search_artist = t.artist.clone();
                    },
                    None => {
                        self.search_title = String::new();
                        self.search_artist = String::new();
                    },
                }
                self.search_focus = 0;
                self.mode = TuiMode::SearchInput;
                Effect::Nothing
            },
            Key::Char('r') => {
                self.set_status("Re-searching...".to_owned(), now);
                Effect::Send(SchedulerCommand::ResearchCurrent)
            },
            Key::Char('0') => {
                self.set_status("Offset reset to 0ms".to_owned(), now);
                Effect::Send(SchedulerCommand::SetOffset { offset_ms: 0 })
            },
            _ => Effect::Nothing,
        }
    }

    /// A key in the search input dialog.
    fn on_input_key(&mut self, key: Key, control: bool, now: Duration) -> (r: Effect)
        ensures
            final(self)@ == input_key(old(self)@, key, control, now@).0,
            r@ == input_key(old(self)@, key, control, now@).1,
    {
        match key {
            Key::Esc => {
                self.mode = TuiMode::Lyrics;
            },
            Key::Tab => {
                self.search_focus = (self.search_focus % 2 + 1) % 2;
            },
            Key::BackTab => {
                self.search_focus = if self.search_focus == 0 {
                    1
                } else {
                    0
                };
            },
            Key::Enter => {
                if !empty_text(self.search_title.as_str()) && !self.searching {
                    self.searching = true;
                    self.set_status("Searching...".to_owned(), now);
                    return Effect::Search(
                        SearchRequest {
                            title: self.search_title.clone(),
                            artist: self.search_artist.clone(),
                            album: None,
                            duration: None,
                        },
                    );
                }
            },
            Key::Backspace => {
                if self.search_focus == 0 {
                    self.search_title.pop();
                } else {
                    self.search_artist.pop();
                }
            },
            Key::Char(c) => {
                // Ctrl+U clears the field.
                if control && c == 'u' {
                    if self.search_focus == 0 {
                        self.search_title.clear();
                    } else {
                        self.search_artist.clear();
                    }
                } else if self.search_focus == 0 {
                    self.search_title.push(c);
                } else {
                    self.search_artist.push(c);
                }
            },
            _ => {},
        }
        Effect::Nothing
    }

    /// A key in the list of search results.
    fn on_results_key(&mut self, key: Key, now: Duration) -> (r: Effect)
        ensures
            final(self)@ == results_key(old(self)@, key, now@).0,
            r@ == results_key(old(self)@, key, now@).1,
    {
        let i: usize = match self.selected {
            Some(i) => i,
            None => 0,
        };
        let n = self.candidates.len();
        match key {
            Key::Esc => {
                self.mode = TuiMode::Lyrics;
            },
            Key::Up | Key::Char('k') => {
                if i > 0 {
                    self.selected = Some(i - 1);
                }
            },
            Key::Down | Key::Char('j') => {
                if n > 0 && i < n - 1 {
                    self.selected = Some(i + 1);
                }
            },
            Key::Enter => {
                if let Some(k) = self.selected {
                    if k < n {
                        let chosen = self.candidates[k].clone();
                        assert(chosen@ == self@.candidates[k as int]);
                        let mut msg = "Applied lyrics from ".to_owned();
                        msg.append(chosen.metadata.source.name());
                        self.set_status(msg, now);
                        self.mode = TuiMode::Lyrics;
                        return Effect::Send(SchedulerCommand::ApplyLyrics { lyrics: chosen });
                    }
                }
            },
            Key::Char('s') | Key::Char('/') => {
                // Go back to search input.
                self.mode = TuiMode::SearchInput;
            },
            _ => {},
        }
        Effect::Nothing
    }

    /// Handle a key. `shown` is the state that is displayed.
    pub fn on_key(&mut self, shown: &DisplayState, key: Key, control: bool, now: Duration) -> (r:
        Effect)
        requires
            key_in_range(old(self)@, shown@, key),
        ensures
            final(self)@ == key_pressed(old(self)@, shown@, key, control, now@).0,
            r@ == key_pressed(old(self)@, shown@, key, control, now@).1,
    {
        match self.mode {
            TuiMode::Lyrics => self.on_lyrics_key(shown, key, now),
            TuiMode::SearchInput => self.on_input_key(key, control, now),
            TuiMode::SearchResults => self.on_results_key(key, now),
        }
    }
}

// ---------------------------------------------------------------------------
// Laws
// ---------------------------------------------------------------------------

/// Keys and results keep one of the two input fields active and the selection
/// within the candidates.
pub proof fn law_coherent(
    m: TuiModel,
    shown: DisplayModel,
    key: Key,
    control: bool,
    results: Seq<LyricsModel>,
    now: nat,
)
    requires
        coherent(m),
        m.candidates.len() <= usize::MAX,
    ensures
        coherent(fresh()),
        coherent(key_pressed(m, shown, key, control, now).0),
        coherent(with_results(m, results, now)),
{
}

/// No second search starts while one is in progress, and none without a title.
pub proof fn law_one_search(m: TuiModel, shown: DisplayModel, key: Key, control: bool, now: nat)
    requires
        m.searching || m.title.len() == 0,
    ensures
        !(key_pressed(m, shown, key, control, now).1 is Search),
{
}

/// Only `q` in the lyrics view ends the program.
pub proof fn law_quit(m: TuiModel, shown: DisplayModel, key: Key, control: bool, now: nat)
    ensures
        key_pressed(m, shown, key, control, now).1 is Quit <==> m.mode == TuiMode::Lyrics && key
            == Key::Char('q'),
{
}

/// What is typed into a field is taken back by as many backspaces.
pub proof fn law_backspace_undoes(m: TuiModel, c: char, now: nat)
    requires
        m.mode == TuiMode::SearchInput,
    ensures
        input_key(input_key(m, Key::Char(c), false, now).0, Key::Backspace, false, now).0 == m,
{
    assert(active_field(m).push(c).drop_last() =~= active_field(m));
}

} // verus!
