//! What the HTTP API answers.
use crate::display::{CommandModel, DisplayModel, DisplayState, SchedulerCommand};
use crate::lyrics::{line_models, LineModel, Lyrics, LyricsLine, LyricsModel};
use crate::player::{PlaybackStatus, TrackModel};
use crate::provider::group::lyrics_models;
use crate::provider::{RequestModel, SearchRequest};
use crate::single::Single;
use crate::text::{
    copy_opt, decimal, empty_text, opt_text, push_decimal, same_text, texts, trim, trimmed,
};
use crate::time::{floored_difference, millis_modulo, NANOS_PER_MILLI};
use vstd::prelude::*;

verus! {

/// The number of lines in the preview of a candidate.
pub const PREVIEW_LINES: usize = 3;

// ---------------------------------------------------------------------------
// Status
// ---------------------------------------------------------------------------

/// Current player and track status.
#[derive(Debug)]
pub struct StatusResponse {
    pub track_title: Option<String>,
    pub track_artist: Option<String>,
    pub track_album: Option<String>,
    pub playback_status: String,
    pub position_ms: u64,
    pub has_lyrics: bool,
}

/// A status, as plain values.
#[verifier::ext_equal]
pub struct StatusModel {
    pub track_title: Option<Seq<char>>,
    pub track_artist: Option<Seq<char>>,
    pub track_album: Option<Seq<char>>,
    pub playback_status: Seq<char>,
    pub position_ms: u64,
    pub has_lyrics: bool,
}

impl View for StatusResponse {
    type V = StatusModel;

    open spec fn view(&self) -> StatusModel {
        StatusModel {
            track_title: opt_text(self.track_title),
            track_artist: opt_text(self.track_artist),
            track_album: opt_text(self.track_album),
            playback_status: self.playback_status@,
            position_ms: self.position_ms,
            has_lyrics: self.has_lyrics,
        }
    }
}

/// The word for a playback status.
pub open spec fn status_word(status: PlaybackStatus) -> Seq<char> {
    match status {
        PlaybackStatus::Playing => "playing"@,
        PlaybackStatus::Paused => "paused"@,
        PlaybackStatus::Stopped => "stopped"@,
    }
}

/// The status that a state stands for.
pub open spec fn status_of(s: DisplayModel) -> StatusModel {
    StatusModel {
        track_title: match s.track {
            Some(t) => Some(t.title),
            None => None,
        },
        track_artist: match s.track {
            Some(t) => Some(t.artist),
            None => None,
        },
        track_album: match s.track {
            Some(t) => t.album,
            None => None,
        },
        playback_status: status_word(s.status),
        position_ms: millis_modulo(s.position) as u64,
        has_lyrics: s.lyrics is Some,
    }
}

/// Current player and track status.
pub fn get_status(s: &DisplayState) -> (r: StatusResponse)
    ensures
        r@ == status_of(s@),
{
    let (title, artist, album) = match &s.track {
        Some(t) => (Some(t.title.clone()), Some(t.artist.clone()), copy_opt(&t.album)),
        None => (None, None, None),
    };
    StatusResponse {
        track_title: title,
        track_artist: artist,
        track_album: album,
        playback_status: (match s.status {
            PlaybackStatus::Playing => "playing",
            PlaybackStatus::Paused => "paused",
            PlaybackStatus::Stopped => "stopped",
        }).to_owned(),
        position_ms: s.playback_position.low_millis(),
        has_lyrics: s.lyrics.is_some(),
    }
}

// ---------------------------------------------------------------------------
// Lyrics
// ---------------------------------------------------------------------------

/// One line of the lyrics.
#[derive(Debug)]
pub struct LyricLineResponse {
    pub position_ms: u64,
    pub content: String,
    pub translation: Option<String>,
}

/// Full lyrics with current line index.
#[derive(Debug)]
pub struct LyricsResponse {
    pub lines: Vec<LyricLineResponse>,
    pub current_line_index: Option<usize>,
}

/// One line of the lyrics, as plain values.
#[verifier::ext_equal]
pub struct AnswerLine {
    pub position_ms: u64,
    pub content: Seq<char>,
    pub translation: Option<Seq<char>>,
}

impl View for LyricLineResponse {
    type V = AnswerLine;

    open spec fn view(&self) -> AnswerLine {
        AnswerLine {
            position_ms: self.position_ms,
            content: self.content@,
            translation: opt_text(self.translation),
        }
    }
}

/// Lines of an answer, as plain values.
pub open spec fn answer_models(v: Seq<LyricLineResponse>) -> Seq<AnswerLine> {
    v.map_values(|l: LyricLineResponse| l@)
}

/// The lines that an answer gives for lyrics lines.
pub open spec fn answer_lines(lines: Seq<LineModel>) -> Seq<AnswerLine> {
    lines.map_values(
        |l: LineModel|
            AnswerLine {
                position_ms: millis_modulo(l.position) as u64,
                content: l.content,
                translation: l.translation,
            },
    )
}

/// The lines that an answer gives for lyrics lines.
fn list_lines(lines: &Vec<LyricsLine>) -> (r: Vec<LyricLineResponse>)
    ensures
        answer_models(r@) == answer_lines(line_models(lines@)),
{
    let ghost models = line_models(lines@);
    let mut out: Vec<LyricLineResponse> = Vec::new();
    let mut i: usize = 0;
    while i < lines.len()
        invariant
            i <= lines@.len(),
            models == line_models(lines@),
            out@.len() == i,
            forall|k: int| 0 <= k < i ==> (#[trigger] out@[k])@ == answer_lines(models)[k],
        decreases lines@.len() - i,
    {
        assert(models[i as int] == lines@[i as int]@);
        out.push(
            LyricLineResponse {
                position_ms: lines[i].position.low_millis(),
                content: lines[i].content.clone(),
                translation: copy_opt(&lines[i].translation),
            },
        );
        i = i + 1;
    }
    assert(answer_models(out@) =~= answer_lines(models));
    out
}

/// Full lyrics with current line index.
pub fn get_lyrics(s: &DisplayState) -> (r: LyricsResponse)
    ensures
        answer_models(r.lines@) == (match s@.lyrics {
            Some(l) => answer_lines(l.lines),
            None => Seq::empty(),
        }),
        r.current_line_index == s@.current,
{
    let lines = match &s.lyrics {
        Some(l) => list_lines(&l.lines),
        None => {
            let none: Vec<LyricLineResponse> = Vec::new();
            assert(answer_models(none@) =~= Seq::empty());
            none
        },
    };
    LyricsResponse { lines, current_line_index: s.current_line_index }
}

/// Current line only, with the progress within it: `elapsed_ms` of `span_ms`
/// milliseconds, nothing of nothing where the line has no end.
#[derive(Debug)]
pub struct CurrentLineResponse {
    pub content: Option<String>,
    pub translation: Option<String>,
    pub position_ms: u64,
    pub elapsed_ms: u128,
    pub span_ms: u128,
}

/// The current line, as plain values.
#[verifier::ext_equal]
pub struct CurrentModel {
    pub content: Option<Seq<char>>,
    pub translation: Option<Seq<char>>,
    pub position_ms: u64,
    pub elapsed_ms: nat,
    pub span_ms: nat,
}

impl View for CurrentLineResponse {
    type V = CurrentModel;

    open spec fn view(&self) -> CurrentModel {
        CurrentModel {
            content: opt_text(self.content),
            translation: opt_text(self.translation),
            position_ms: self.position_ms,
            elapsed_ms: self.elapsed_ms as nat,
            span_ms: self.span_ms as nat,
        }
    }
}

/// Whether the lines shown as current and next are lines of the lyrics, as far
/// as the current line is asked for.
pub open spec fn current_line_valid(s: DisplayModel) -> bool {
    match (s.lyrics, s.current) {
        (Some(l), Some(i)) => i < l.lines.len() && (s.next matches Some(n) ==> n < l.lines.len()),
        _ => true,
    }
}

/// How far playback is into a line and how long the line lasts, in whole
/// milliseconds; never further than the line lasts.
pub open spec fn line_progress(start: nat, end: nat, position: nat) -> (nat, nat) {
    let span = floored_difference(end, start) / (NANOS_PER_MILLI as nat);
    let elapsed = floored_difference(position, start) / (NANOS_PER_MILLI as nat);
    (
        if elapsed < span {
            elapsed
        } else {
            span
        },
        span,
    )
}

/// The current line of a state.
pub open spec fn current_of(s: DisplayModel) -> CurrentModel {
    let position_ms = millis_modulo(s.position) as u64;
    match (s.lyrics, s.current) {
        (Some(l), Some(i)) => {
            let line = l.lines[i as int];
            let progress = match s.next {
                Some(n) => line_progress(line.position, l.lines[n as int].position, s.position),
                None => (0, 0),
            };
            CurrentModel {
                content: Some(line.content),
                translation: line.translation,
                position_ms,
                elapsed_ms: progress.0,
                span_ms: progress.1,
            }
        },
        _ => CurrentModel {
            content: None,
            translation: None,
            position_ms,
            elapsed_ms: 0,
            span_ms: 0,
        },
    }
}

/// Whether the lines shown as current and next are lines of the lyrics.
pub fn current_line_known(s: &DisplayState) -> (r: bool)
    ensures
        r == current_line_valid(s@),
{
    match (&s.lyrics, s.current_line_index) {
        (Some(l), Some(i)) => i < l.lines.len() && match s.next_line_index {
            Some(n) => n < l.lines.len(),
            None => true,
        },
        _ => true,
    }
}

/// Current line only, with the progress within it.
pub fn get_current_line(s: &DisplayState) -> (r: CurrentLineResponse)
    requires
        current_line_valid(s@),
    ensures
        r@ == current_of(s@),
{
    let position_ms = s.playback_position.low_millis();
    match (&s.lyrics, s.current_line_index) {
        (Some(lyrics), Some(i)) => {
            let line = &lyrics.lines[i];
            assert(s@.lyrics->0.lines[i as int] == line@);
            let (elapsed_ms, span_ms): (u128, u128) = match s.next_line_index {
                Some(n) => {
                    assert(s@.lyrics->0.lines[n as int] == lyrics.lines@[n as int]@);
                    let span: u128 = lyrics.lines[n].position.saturating_sub(
                        line.position,
                    ).as_millis();
                    let elapsed: u128 = s.playback_position.saturating_sub(
                        line.position,
                    ).as_millis();
                    (
                        if elapsed < span {
                            elapsed
                        } else {
                            span
                        },
                        span,
                    )
                },
                None => (0, 0),
            };
            CurrentLineResponse {
                content: Some(line.content.clone()),
                translation: copy_opt(&line.translation),
                position_ms,
                elapsed_ms,
                span_ms,
            }
        },
        _ => CurrentLineResponse {
            content: None,
            translation: None,
            position_ms,
            elapsed_ms: 0,
            span_ms: 0,
        },
    }
}

// ---------------------------------------------------------------------------
// Search and selection
// ---------------------------------------------------------------------------

/// What to search for; fields may be omitted.
#[derive(Debug)]
pub struct SearchBody {
    pub title: Option<String>,
    pub artist: Option<String>,
}

/// A search term: what was given unless it is empty, else what is playing.
pub open spec fn search_term(given: Option<Seq<char>>, playing: Option<Seq<char>>) -> Seq<char> {
    match given {
        Some(s) => if s.len() > 0 {
            s
        } else {
            playing.unwrap_or(Seq::empty())
        },
        None => playing.unwrap_or(Seq::empty()),
    }
}

/// The request that a search stands for; `None` without a title.
pub open spec fn search_for(
    title: Option<Seq<char>>,
    artist: Option<Seq<char>>,
    track: Option<TrackModel>,
) -> Option<RequestModel> {
    let playing_title = match track {
        Some(t) => Some(t.title),
        None => None,
    };
    let playing_artist = match track {
        Some(t) => Some(t.artist),
        None => None,
    };
    let wanted = search_term(title, playing_title);
    if wanted.len() == 0 {
        None
    } else {
        Some(
            RequestModel {
                title: wanted,
                artist: search_term(artist, playing_artist),
                album: None,
                duration: None,
            },
        )
    }
}

/// An optional request, as plain values.
pub open spec fn opt_request(r: Option<SearchRequest>) -> Option<RequestModel> {
    match r {
        Some(r) => Some(r@),
        None => None,
    }
}

/// A search term: what was given unless it is empty, else what is playing.
fn term(given: Option<String>, playing: Option<String>) -> (r: String)
    ensures
        r@ == search_term(opt_text(given), opt_text(playing)),
{
    if let Some(s) = given {
        if !empty_text(s.as_str()) {
            return s;
        }
    }
    match playing {
        Some(s) => s,
        None => String::new(),
    }
}

/// The request that a search stands for. Omitted fields are taken from the
/// current track.
pub fn search_request(body: SearchBody, s: &DisplayState) -> (r: Option<SearchRequest>)
    ensures
        opt_request(r) == search_for(opt_text(body.title), opt_text(body.artist), s@.track),
{
    let (title, artist) = match &s.track {
        Some(t) => (Some(t.title.clone()), Some(t.artist.clone())),
        None => (None, None),
    };
    let title = term(body.title, title);
    if empty_text(title.as_str()) {
        return None;
    }
    Some(SearchRequest { title, artist: term(body.artist, artist), album: None, duration: None })
}

/// One candidate in the answer to a search.
#[derive(Debug)]
pub struct SearchResultItem {
    pub index: usize,
    pub source: String,
    pub title: Option<String>,
    pub artist: Option<String>,
    pub quality: Single,
    pub line_count: usize,
    /// First few lines as preview.
    pub preview: Vec<String>,
}

/// The answer to a search.
#[derive(Debug)]
pub struct SearchResponse {
    pub ok: bool,
    pub count: usize,
    pub results: Vec<SearchResultItem>,
}

/// A candidate, as plain values.
#[verifier::ext_equal]
pub struct ItemModel {
    pub index: int,
    pub source: Seq<char>,
    pub title: Option<Seq<char>>,
    pub artist: Option<Seq<char>>,
    pub quality: Single,
    pub line_count: int,
    pub preview: Seq<Seq<char>>,
}

impl View for SearchResultItem {
    type V = ItemModel;

    open spec fn view(&self) -> ItemModel {
        ItemModel {
            index: self.index as int,
            source: self.source@,
            title: opt_text(self.title),
            artist: opt_text(self.artist),
            quality: self.quality,
            line_count: self.line_count as int,
            preview: texts(self.preview@),
        }
    }
}

/// Candidates, as plain values.
pub open spec fn item_models(v: Seq<SearchResultItem>) -> Seq<ItemModel> {
    v.map_values(|i: SearchResultItem| i@)
}

/// The texts of the first lines that have some, from line `i` on, at most `n`.
pub open spec fn first_texts(lines: Seq<LineModel>, i: int, n: nat) -> Seq<Seq<char>>
    decreases lines.len() - i,
{
    if i >= lines.len() || n == 0 {
        Seq::empty()
    } else if lines[i].content.len() > 0 {
        seq![lines[i].content] + first_texts(lines, i + 1, (n - 1) as nat)
    } else {
        first_texts(lines, i + 1, n)
    }
}

/// The item for a candidate.
pub open spec fn item_of(i: int, l: LyricsModel) -> ItemModel {
    ItemModel {
        index: i,
        source: l.metadata.source.name_text(),
        title: l.metadata.title,
        artist: l.metadata.artist,
        quality: l.metadata.quality,
        line_count: l.lines.len() as int,
        preview: first_texts(l.lines, 0, PREVIEW_LINES as nat),
    }
}

/// The items for candidates.
pub open spec fn items_of(list: Seq<LyricsModel>) -> Seq<ItemModel> {
    Seq::new(list.len(), |i: int| item_of(i, list[i]))
}

/// The preview of a candidate.
fn preview(lines: &Vec<LyricsLine>) -> (r: Vec<String>)
    ensures
        texts(r@) == first_texts(line_models(lines@), 0, PREVIEW_LINES as nat),
{
    let ghost models = line_models(lines@);
    let ghost all = first_texts(models, 0, PREVIEW_LINES as nat);
    let mut out: Vec<String> = Vec::new();
    let mut i: usize = 0;
    assert(texts(out@) + all =~= all);
    while i < lines.len() && out.len() < PREVIEW_LINES
        invariant
            i <= lines@.len(),
            out@.len() <= PREVIEW_LINES,
            models == line_models(lines@),
            texts(out@) + first_texts(models, i as int, (PREVIEW_LINES - out@.len()) as nat) == all,
        decreases lines@.len() - i,
    {
        assert(models[i as int] == lines@[i as int]@);
        if !empty_text(lines[i].content.as_str()) {
            let ghost before = out@;
            out.push(lines[i].content.clone());
            proof {
                let rest = first_texts(models, i + 1, (PREVIEW_LINES - out@.len()) as nat);
                assert(texts(out@) =~= texts(before).push(models[i as int].content));
                assert(texts(out@) + rest =~= texts(before) + (seq![models[i as int].content]
                    + rest));
            }
        }
        i = i + 1;
    }
    assert(texts(out@) + Seq::<Seq<char>>::empty() =~= texts(out@));
    out
}

/// The answer to a search that could not be made.
pub fn search_refused() -> (r: SearchResponse)
    ensures
        !r.ok,
        r.count == 0,
        r.results@.len() == 0,
{
    SearchResponse { ok: false, count: 0, results: Vec::new() }
}

/// The answer to a search: a list the user can choose from.
pub fn search_answer(candidates: &Vec<Lyrics>) -> (r: SearchResponse)
    ensures
        r.ok,
        r.count == candidates@.len(),
        item_models(r.results@) == items_of(lyrics_models(candidates@)),
{
    let mut results: Vec<SearchResultItem> = Vec::new();
    let mut i: usize = 0;
    while i < candidates.len()
        invariant
            i <= candidates@.len(),
            results@.len() == i,
            forall|k: int|
                0 <= k < i ==> (#[trigger] results@[k])@ == item_of(k, candidates@[k]@),
        decreases candidates@.len() - i,
    {
        let l = &candidates[i];
        results.push(
            SearchResultItem {
                index: i,
                source: l.metadata.source.name().to_owned(),
                title: copy_opt(&l.metadata.title),
                artist: copy_opt(&l.metadata.artist),
                quality: l.metadata.quality,
                line_count: l.lines.len(),
                preview: preview(&l.lines),
            },
        );
        i = i + 1;
    }
    assert(item_models(results@) =~= items_of(lyrics_models(candidates@)));
    SearchResponse { ok: true, count: results.len(), results }
}

/// The answer to a command.
#[derive(Debug)]
pub struct CommandResponse {
    pub ok: bool,
    pub message: String,
}

/// A command to send, with the answer once it is sent; or the answer to a
/// request that is refused.
#[derive(Debug)]
pub enum Decision {
    Send(SchedulerCommand, String),
    Refuse(CommandResponse),
}

/// A decision, as plain values.
pub enum DecisionModel {
    Send(CommandModel, Seq<char>),
    Refuse(Seq<char>),
}

impl Decision {
    /// Whether this is the given decision; a refusal is never reported as
    /// success.
    pub open spec fn is(&self, m: DecisionModel) -> bool {
        match (*self, m) {
            (Decision::Send(c, s), DecisionModel::Send(d, t)) => c@ == d && s@ == t,
            (Decision::Refuse(r), DecisionModel::Refuse(t)) => !r.ok && r.message@ == t,
            _ => false,
        }
    }
}

/// Refuses a request.
fn refuse(message: String) -> (r: Decision)
    ensures
        r.is(DecisionModel::Refuse(message@)),
{
    Decision::Refuse(CommandResponse { ok: false, message })
}

/// The choice of a candidate by its index in the last search results.
pub open spec fn selection(results: Seq<LyricsModel>, index: usize) -> DecisionModel {
    if index < results.len() {
        DecisionModel::Send(
            CommandModel::ApplyLyrics { lyrics: results[index as int] },
            "Applied lyrics candidate #"@ + decimal(index as nat),
        )
    } else {
        DecisionModel::Refuse(
            "Index "@ + decimal(index as nat) + " out of range, "@ + decimal(results.len())
                + " candidates available"@,
        )
    }
}

/// Select a lyrics candidate by index from the last search results.
pub fn post_select(results: &Vec<Lyrics>, index: usize) -> (r: Decision)
    ensures
        r.is(selection(lyrics_models(results@), index)),
{
    if index >= results.len() {
        let mut message = "Index ".to_owned();
        push_decimal(&mut message, index as u128);
        message.append(" out of range, ");
        push_decimal(&mut message, results.len() as u128);
        message.append(" candidates available");
        return refuse(message);
    }
    let lyrics = results[index].clone();
    assert(lyrics@ == lyrics_models(results@)[index as int]);
    let mut message = "Applied lyrics candidate #".to_owned();
    push_decimal(&mut message, index as u128);
    Decision::Send(SchedulerCommand::ApplyLyrics { lyrics }, message)
}

/// Setting lyrics from raw LRC text.
pub open spec fn setting_lyrics(lrc: Seq<char>) -> DecisionModel {
    if trimmed(lrc).len() == 0 {
        DecisionModel::Refuse("LRC text is empty"@)
    } else {
        DecisionModel::Send(CommandModel::SetLyrics { lrc_text: lrc }, "Lyrics set"@)
    }
}

/// Set lyrics from raw LRC text.
pub fn post_set_lyrics(lrc: String) -> (r: Decision)
    ensures
        r.is(setting_lyrics(lrc@)),
{
    if empty_text(trim(lrc.as_str()).as_str()) {
        refuse("LRC text is empty".to_owned())
    } else {
        Decision::Send(SchedulerCommand::SetLyrics { lrc_text: lrc }, "Lyrics set".to_owned())
    }
}

/// Setting the offset, or else adjusting it.
pub open spec fn setting_offset(set: Option<i64>, adjust: Option<i64>) -> DecisionModel {
    match (set, adjust) {
        (Some(abs), _) => DecisionModel::Send(
            CommandModel::SetOffset { offset_ms: abs },
            "Offset updated"@,
        ),
        (None, Some(delta)) => DecisionModel::Send(
            CommandModel::AdjustOffset { delta_ms: delta },
            "Offset updated"@,
        ),
        (None, None) => DecisionModel::Refuse("Provide 'set' or 'adjust' field"@),
    }
}

/// Adjust or set lyrics time offset.
pub fn post_offset(set: Option<i64>, adjust: Option<i64>) -> (r: Decision)
    ensures
        r.is(setting_offset(set, adjust)),
{
    match (set, adjust) {
        (Some(abs), _) => Decision::Send(
            SchedulerCommand::SetOffset { offset_ms: abs },
            "Offset updated".to_owned(),
        ),
        (None, Some(delta)) => Decision::Send(
            SchedulerCommand::AdjustOffset { delta_ms: delta },
            "Offset updated".to_owned(),
        ),
        (None, None) => refuse("Provide 'set' or 'adjust' field".to_owned()),
    }
}

// ---------------------------------------------------------------------------
// Playback control
// ---------------------------------------------------------------------------

/// The name of a playback control command.
pub open spec fn control_name(c: CommandModel) -> Option<Seq<char>> {
    match c {
        CommandModel::PlayPause => Some("PlayPause"@),
        CommandModel::Play => Some("Play"@),
        CommandModel::Pause => Some("Pause"@),
        CommandModel::Stop => Some("Stop"@),
        CommandModel::Next => Some("Next"@),
        CommandModel::Previous => Some("Previous"@),
        CommandModel::SeekTo { .. } => Some("SeekTo"@),
        _ => None,
    }
}

/// The command behind the last part of a control endpoint's path.
pub open spec fn control_command(path: Seq<char>, position_ms: u64) -> Option<CommandModel> {
    if path == "play-pause"@ {
        Some(CommandModel::PlayPause)
    } else if path == "play"@ {
        Some(CommandModel::Play)
    } else if path == "pause"@ {
        Some(CommandModel::Pause)
    } else if path == "stop"@ {
        Some(CommandModel::Stop)
    } else if path == "next"@ {
        Some(CommandModel::Next)
    } else if path == "previous"@ {
        Some(CommandModel::Previous)
    } else if path == "seek"@ {
        Some(CommandModel::SeekTo { position_ms })
    } else {
        None
    }
}

/// Control the music player: the command behind the last part of a control
/// endpoint's path, with the answer once it is sent. `position_ms` counts for
/// `seek` alone.
pub fn post_control(path: &str, position_ms: u64) -> (r: Option<Decision>)
    ensures
        r is Some == control_command(path@, position_ms) is Some,
        r matches Some(d) ==> d.is(
            DecisionModel::Send(
                control_command(path@, position_ms)->0,
                control_name(control_command(path@, position_ms)->0)->0 + " sent"@,
            ),
        ),
{
    let (cmd, name) = if same_text(path, "play-pause") {
        (SchedulerCommand::PlayPause, "PlayPause")
    } else if same_text(path, "play") {
        (SchedulerCommand::Play, "Play")
    } else if same_text(path, "pause") {
        (SchedulerCommand::Pause, "Pause")
    } else if same_text(path, "stop") {
        (SchedulerCommand::Stop, "Stop")
    } else if same_text(path, "next") {
        (SchedulerCommand::Next, "Next")
    } else if same_text(path, "previous") {
        (SchedulerCommand::Previous, "Previous")
    } else if same_text(path, "seek") {
        (SchedulerCommand::SeekTo { position_ms }, "SeekTo")
    } else {
        return None;
    };
    let mut message = name.to_owned();
    message.append(" sent");
    Some(Decision::Send(cmd, message))
}

/// The answer after an attempt to send a command: `failure` says why it could
/// not be sent.
pub fn command_answer(message: String, failure: Option<String>) -> (r: CommandResponse)
    ensures
        r.ok == (failure is None),
        r.message@ == (match failure {
            Some(e) => "Failed: "@ + e@,
            None => message@,
        }),
{
    match failure {
        Some(e) => {
            let mut text = "Failed: ".to_owned();
            text.append(e.as_str());
            CommandResponse { ok: false, message: text }
        },
        None => CommandResponse { ok: true, message },
    }
}

// ---------------------------------------------------------------------------
// Laws
// ---------------------------------------------------------------------------

/// The progress within a line is between nothing and all of it.
pub proof fn law_progress_within_line(s: DisplayModel)
    requires
        current_line_valid(s),
    ensures
        current_of(s).elapsed_ms <= current_of(s).span_ms,
{
}

/// The index that an answer to a search gives to a candidate selects that
/// candidate.
pub proof fn law_listed_can_be_selected(results: Seq<LyricsModel>, i: int)
    requires
        0 <= i < results.len() <= usize::MAX,
    ensures
        items_of(results)[i].index == i,
        selection(results, items_of(results)[i].index as usize) == DecisionModel::Send(
            CommandModel::ApplyLyrics { lyrics: results[i] },
            "Applied lyrics candidate #"@ + decimal(i as nat),
        ),
{
}

/// A preview has at most as many lines as it may have, none of them empty.
pub proof fn law_preview(lines: Seq<LineModel>, i: int, n: nat)
    requires
        0 <= i,
    ensures
        first_texts(lines, i, n).len() <= n,
        forall|k: int|
            0 <= k < first_texts(lines, i, n).len() ==> (
            #[trigger] first_texts(lines, i, n)[k]).len() > 0,
    decreases lines.len() - i,
{
    if i < lines.len() && n > 0 {
        if lines[i].content.len() > 0 {
            law_preview(lines, i + 1, (n - 1) as nat);
            let rest = first_texts(lines, i + 1, (n - 1) as nat);
            let all = first_texts(lines, i, n);
            assert(all == seq![lines[i].content] + rest);
            assert forall|k: int| 0 <= k < all.len() implies (#[trigger] all[k]).len() > 0 by {
                if k > 0 {
                    assert(all[k] == rest[k - 1]);
                }
            }
        } else {
            law_preview(lines, i + 1, n);
            assert(first_texts(lines, i, n) == first_texts(lines, i + 1, n));
        }
    }
}

/// A search without fields is a search for the current track; empty fields
/// count as omitted.
pub proof fn law_omitted_fields(track: TrackModel)
    requires
        track.title.len() > 0,
    ensures
        search_for(None, None, Some(track)) == Some(
            RequestModel {
                title: track.title,
                artist: track.artist,
                album: None,
                duration: None,
            },
        ),
        search_for(Some(Seq::empty()), Some(Seq::empty()), Some(track)) == search_for(
            None,
            None,
            Some(track),
        ),
{
}

} // verus!
