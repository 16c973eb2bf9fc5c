//! Lyrics with timed lines.
pub mod laws;
pub mod lrc;
pub mod lrcx;
pub mod stamp;

use crate::order::{lemma_placed_at, placed, rising};
use crate::single::Single;
use crate::text::{copy_opt, magnitude, opt_text};
use crate::time::{capped_sum, floored_difference, opt_nanos, NANOS_PER_MILLI, Duration};
use vstd::prelude::*;

verus! {

/// A single word with its timing info (for karaoke-style display).
#[derive(Debug)]
pub struct WordTimestamp {
    /// Offset from the start of the line.
    pub offset: Duration,
    /// Duration of this word.
    pub duration: Duration,
    /// The word text.
    pub word: String,
}

/// A word with its timing, as plain values.
#[verifier::ext_equal]
pub struct WordModel {
    pub offset: nat,
    pub duration: nat,
    pub word: Seq<char>,
}

impl View for WordTimestamp {
    type V = WordModel;

    open spec fn view(&self) -> WordModel {
        WordModel { offset: self.offset@, duration: self.duration@, word: self.word@ }
    }
}

impl Clone for WordTimestamp {
    fn clone(&self) -> (r: Self)
        ensures
            r@ == self@,
    {
        WordTimestamp { offset: self.offset, duration: self.duration, word: self.word.clone() }
    }
}

/// The words of a line, as plain values.
pub open spec fn word_models(words: Seq<WordTimestamp>) -> Seq<WordModel> {
    words.map_values(|w: WordTimestamp| w@)
}

/// A copy of a list of words.
fn copy_words(words: &Vec<WordTimestamp>) -> (r: Vec<WordTimestamp>)
    ensures
        word_models(r@) == word_models(words@),
{
    let mut out: Vec<WordTimestamp> = Vec::new();
    let mut i: usize = 0;
    while i < words.len()
        invariant
            i <= words@.len(),
            word_models(out@) == word_models(words@).take(i as int),
        decreases words@.len() - i,
    {
        let w = words[i].clone();
        let ghost before = out@;
        out.push(w);
        assert(word_models(out@) =~= word_models(before).push(w@));
        assert(word_models(words@).take(i + 1) =~= word_models(words@).take(i as int).push(
            words@[i as int]@,
        ));
        i = i + 1;
    }
    assert(word_models(words@).take(words@.len() as int) =~= word_models(words@));
    out
}

/// A single lyrics line.
#[derive(Debug)]
pub struct LyricsLine {
    /// Start time of this line.
    pub position: Duration,
    /// Lyrics text content.
    pub content: String,
    /// Optional translation.
    pub translation: Option<String>,
    /// Word-level timestamps for karaoke effect (LRCX).
    pub word_timestamps: Option<Vec<WordTimestamp>>,
}

/// A lyrics line, as plain values.
#[verifier::ext_equal]
pub struct LineModel {
    pub position: nat,
    pub content: Seq<char>,
    pub translation: Option<Seq<char>>,
    pub words: Option<Seq<WordModel>>,
}

impl View for LyricsLine {
    type V = LineModel;

    open spec fn view(&self) -> LineModel {
        LineModel {
            position: self.position@,
            content: self.content@,
            translation: opt_text(self.translation),
            words: match self.word_timestamps {
                Some(w) => Some(word_models(w@)),
                None => None,
            },
        }
    }
}

impl Clone for LyricsLine {
    fn clone(&self) -> (r: Self)
        ensures
            r@ == self@,
    {
        LyricsLine {
            position: self.position,
            content: self.content.clone(),
            translation: copy_opt(&self.translation),
            word_timestamps: match &self.word_timestamps {
                Some(w) => Some(copy_words(w)),
                None => None,
            },
        }
    }
}

/// The lines of a song, as plain values.
pub open spec fn line_models(lines: Seq<LyricsLine>) -> Seq<LineModel> {
    lines.map_values(|l: LyricsLine| l@)
}

/// A copy of a list of lines.
fn copy_lines(lines: &Vec<LyricsLine>) -> (r: Vec<LyricsLine>)
    ensures
        line_models(r@) == line_models(lines@),
{
    let mut out: Vec<LyricsLine> = Vec::new();
    let mut i: usize = 0;
    while i < lines.len()
        invariant
            i <= lines@.len(),
            line_models(out@) == line_models(lines@).take(i as int),
        decreases lines@.len() - i,
    {
        let l = lines[i].clone();
        let ghost before = out@;
        out.push(l);
        assert(line_models(out@) =~= line_models(before).push(l@));
        assert(line_models(lines@).take(i + 1) =~= line_models(lines@).take(i as int).push(
            lines@[i as int]@,
        ));
        i = i + 1;
    }
    assert(line_models(lines@).take(lines@.len() as int) =~= line_models(lines@));
    out
}

/// Source provider name for lyrics.
#[derive(Clone, Copy, Debug, PartialEq, Eq, Structural)]
pub enum LyricsSource {
    NetEase,
    QQMusic,
    Kugou,
    Lrclib,
    Local,
    Unknown,
}

impl LyricsSource {
    /// The key of the provider behind this source.
    pub open spec fn key_text(self) -> Option<Seq<char>> {
        match self {
            LyricsSource::Lrclib => Some("lrclib"@),
            LyricsSource::NetEase => Some("netease"@),
            LyricsSource::QQMusic => Some("qqmusic"@),
            LyricsSource::Kugou => Some("kugou"@),
            LyricsSource::Local => None,
            LyricsSource::Unknown => None,
        }
    }

    /// The name shown for this source.
    pub open spec fn name_text(self) -> Seq<char> {
        match self {
            LyricsSource::NetEase => "NetEase"@,
            LyricsSource::QQMusic => "QQ Music"@,
            LyricsSource::Kugou => "Kugou"@,
            LyricsSource::Lrclib => "LRCLIB"@,
            LyricsSource::Local => "Local"@,
            LyricsSource::Unknown => "Unknown"@,
        }
    }

    /// The name shown for this source.
    pub fn name(&self) -> (r: &'static str)
        ensures
            r@ == self.name_text(),
    {
        match self {
            LyricsSource::NetEase => "NetEase",
            LyricsSource::QQMusic => "QQ Music",
            LyricsSource::Kugou => "Kugou",
            LyricsSource::Lrclib => "LRCLIB",
            LyricsSource::Local => "Local",
            LyricsSource::Unknown => "Unknown",
        }
    }

    /// Stable lowercase key used to look up per-provider weights in `Config`.
    /// `None` for sources that have no associated provider (Local / Unknown).
    pub fn config_key(&self) -> (r: Option<&'static str>)
        ensures
            r is Some == self.key_text() is Some,
            r matches Some(k) ==> Some(k@) == self.key_text(),
    {
        match self {
            LyricsSource::Lrclib => Some("lrclib"),
            LyricsSource::NetEase => Some("netease"),
            LyricsSource::QQMusic => Some("qqmusic"),
            LyricsSource::Kugou => Some("kugou"),
            LyricsSource::Local | LyricsSource::Unknown => None,
        }
    }
}

/// Metadata associated with lyrics.
#[derive(Debug)]
pub struct LyricsMetadata {
    pub title: Option<String>,
    pub artist: Option<String>,
    pub album: Option<String>,
    pub source: LyricsSource,
    /// Match quality score (0.0 - 1.0).
    pub quality: Single,
}

/// Metadata, as plain values.
#[verifier::ext_equal]
pub struct MetadataModel {
    pub title: Option<Seq<char>>,
    pub artist: Option<Seq<char>>,
    pub album: Option<Seq<char>>,
    pub source: LyricsSource,
    pub quality: Single,
}

impl View for LyricsMetadata {
    type V = MetadataModel;

    open spec fn view(&self) -> MetadataModel {
        MetadataModel {
            title: opt_text(self.title),
            artist: opt_text(self.artist),
            album: opt_text(self.album),
            source: self.source,
            quality: self.quality,
        }
    }
}

impl Clone for LyricsMetadata {
    fn clone(&self) -> (r: Self)
        ensures
            r@ == self@,
    {
        LyricsMetadata {
            title: copy_opt(&self.title),
            artist: copy_opt(&self.artist),
            album: copy_opt(&self.album),
            source: self.source,
            quality: self.quality,
        }
    }
}

/// A complete set of lyrics for a song.
#[derive(Debug)]
pub struct Lyrics {
    pub lines: Vec<LyricsLine>,
    pub metadata: LyricsMetadata,
    /// User-adjusted offset in milliseconds.
    pub offset_ms: i64,
}

/// Lyrics, as plain values.
#[verifier::ext_equal]
pub struct LyricsModel {
    pub lines: Seq<LineModel>,
    pub metadata: MetadataModel,
    pub offset_ms: i64,
}

impl View for Lyrics {
    type V = LyricsModel;

    open spec fn view(&self) -> LyricsModel {
        LyricsModel {
            lines: line_models(self.lines@),
            metadata: self.metadata@,
            offset_ms: self.offset_ms,
        }
    }
}

impl Clone for Lyrics {
    fn clone(&self) -> (r: Self)
        ensures
            r@ == self@,
    {
        Lyrics {
            lines: copy_lines(&self.lines),
            metadata: self.metadata.clone(),
            offset_ms: self.offset_ms,
        }
    }
}

/// Playback time with the user offset applied, within the range of `Duration`.
pub open spec fn adjusted_time(time: nat, offset_ms: i64) -> nat {
    if offset_ms >= 0 {
        capped_sum(time, (offset_ms * NANOS_PER_MILLI) as nat)
    } else {
        floored_difference(time, (-offset_ms * NANOS_PER_MILLI) as nat)
    }
}

/// Lines are ordered by start time.
pub open spec fn by_position() -> spec_fn(LineModel) -> int {
    |l: LineModel| l.position as int
}

/// Whether the lines stand in order of their start times.
pub open spec fn in_order(lines: Seq<LineModel>) -> bool {
    rising(lines, by_position())
}

/// Puts a line behind those that do not start later, looking from the end.
pub fn place_line(lines: &mut Vec<LyricsLine>, line: LyricsLine)
    ensures
        line_models(final(lines)@) == placed(line_models(old(lines)@), line@, by_position()),
{
    let ghost before = line_models(lines@);
    let mut p: usize = lines.len();
    while p > 0 && line.position.shorter_than(&lines[p - 1].position)
        invariant
            p <= lines@.len(),
            before == line_models(lines@),
            forall|i: int| p <= i < before.len() ==> line@.position < (#[trigger] before[i]).position,
        decreases p,
    {
        p = p - 1;
    }
    proof {
        assert(p > 0 ==> before[p - 1].position == lines@[p - 1].position@);
        assert forall|i: int| p <= i < before.len() implies by_position()(#[trigger] before[i])
            > by_position()(line@) by {}
        lemma_placed_at(before, line@, by_position(), p as int);
    }
    let ghost l = line@;
    lines.insert(p, line);
    assert(line_models(lines@) =~= before.insert(p as int, l));
}

/// Whether no line that starts by `t` stands behind one that starts later.
pub open spec fn split_at_time(lines: Seq<LineModel>, t: nat) -> bool {
    forall|i: int, j: int|
        0 <= i <= j < lines.len() && (#[trigger] lines[j]).position <= t ==> (
        #[trigger] lines[i]).position <= t
}

/// The current and the next line of `len` where the first `k` have started.
pub open spec fn lines_around(k: int, len: int) -> (Option<usize>, Option<usize>) {
    (
        if k == 0 {
            None
        } else {
            Some((k - 1) as usize)
        },
        if k < len {
            Some(k as usize)
        } else {
            None
        },
    )
}

/// The number of lines that have started at time `t`, looked for by halving the
/// range from `low` up to `high`.
pub open spec fn search_started(lines: Seq<LineModel>, t: nat, low: int, high: int) -> int
    decreases high - low,
{
    if low >= high {
        low
    } else {
        let mid = low + (high - low) / 2;
        if lines[mid].position <= t {
            search_started(lines, t, mid + 1, high)
        } else {
            search_started(lines, t, low, mid)
        }
    }
}

/// The number of lines that have started at time `t`.
pub open spec fn started_count(lines: Seq<LineModel>, t: nat) -> int {
    search_started(lines, t, 0, lines.len() as int)
}

/// The current and the next line at time `t`.
pub open spec fn lines_found(lines: Seq<LineModel>, t: nat) -> (Option<usize>, Option<usize>) {
    lines_around(started_count(lines, t), lines.len() as int)
}

proof fn lemma_search_started(lines: Seq<LineModel>, t: nat, low: int, high: int)
    requires
        0 <= low <= high <= lines.len(),
        split_at_time(lines, t) ==> forall|i: int|
            0 <= i < low ==> (#[trigger] lines[i]).position <= t,
        split_at_time(lines, t) ==> forall|i: int|
            high <= i < lines.len() ==> (#[trigger] lines[i]).position > t,
    ensures
        0 <= search_started(lines, t, low, high) <= lines.len(),
        split_at_time(lines, t) ==> forall|i: int|
            0 <= i < lines.len() ==> ((#[trigger] lines[i]).position <= t <==> i < search_started(
                lines,
                t,
                low,
                high,
            )),
    decreases high - low,
{
    if low < high {
        let mid = low + (high - low) / 2;
        if lines[mid].position <= t {
            lemma_search_started(lines, t, mid + 1, high);
        } else {
            lemma_search_started(lines, t, low, mid);
        }
    }
}

/// Where no line that has started stands behind one that has not, those counted
/// are exactly the ones that have started.
pub proof fn lemma_started_count(lines: Seq<LineModel>, t: nat)
    ensures
        0 <= started_count(lines, t) <= lines.len(),
        split_at_time(lines, t) ==> forall|i: int|
            0 <= i < lines.len() ==> ((#[trigger] lines[i]).position <= t <==> i < started_count(
                lines,
                t,
            )),
{
    lemma_search_started(lines, t, 0, lines.len() as int);
}

/// The playback time at which a line becomes current, in nanoseconds; before
/// zero where the offset brings it forward that far.
pub open spec fn shown_from(position: nat, offset_ms: i64) -> int {
    position - offset_ms * NANOS_PER_MILLI
}

/// The time from playback time `time` until the next line becomes current:
/// nothing where it is due, and at most the longest span.
pub open spec fn wait_for(lines: Seq<LineModel>, time: nat, offset_ms: i64) -> Option<nat> {
    match lines_found(lines, adjusted_time(time, offset_ms)).1 {
        Some(i) => {
            let left = shown_from(lines[i as int].position, offset_ms) - time;
            Some(
                if left <= 0 {
                    0
                } else {
                    capped_sum(left as nat, 0)
                },
            )
        },
        None => None,
    }
}

impl Lyrics {
    /// Playback time with the user offset applied.
    fn adjusted(&self, time: Duration) -> (r: Duration)
        ensures
            r@ == adjusted_time(time@, self.offset_ms),
    {
        let shift = Duration::from_millis(magnitude(self.offset_ms));
        if self.offset_ms >= 0 {
            time.saturating_add(shift)
        } else {
            time.saturating_sub(shift)
        }
    }

    /// The number of lines that have started by `t`, by binary search.
    fn started(&self, t: Duration) -> (k: usize)
        ensures
            k == started_count(self@.lines, t@),
            k <= self.lines@.len(),
    {
        let mut low: usize = 0;
        let mut high: usize = self.lines.len();
        while low < high
            invariant
                low <= high <= self.lines@.len(),
                search_started(self@.lines, t@, low as int, high as int) == started_count(
                    self@.lines,
                    t@,
                ),
            decreases high - low,
        {
            let mid: usize = low + (high - low) / 2;
            assert(self@.lines[mid as int].position == self.lines@[mid as int].position@);
            if self.lines[mid].position.at_most(&t) {
                low = mid + 1;
            } else {
                high = mid;
            }
        }
        low
    }

    /// Given a playback time, return (current_line_index, next_line_index).
    /// Applies the user offset before searching. Of lines out of order the two
    /// are still fixed by the lines and the time.
    pub fn line_at(&self, time: Duration) -> (r: (Option<usize>, Option<usize>))
        ensures
            r == lines_found(self@.lines, adjusted_time(time@, self.offset_ms)),
    {
        let k = self.started(self.adjusted(time));
        let current = if k == 0 {
            None
        } else {
            Some(k - 1)
        };
        let next = if k < self.lines.len() {
            Some(k)
        } else {
            None
        };
        (current, next)
    }

    /// Get the duration until the next line change from the given time.
    pub fn time_to_next_line(&self, time: Duration) -> (r: Option<Duration>)
        ensures
            opt_nanos(r) == wait_for(self@.lines, time@, self.offset_ms),
    {
        let found = self.line_at(time);
        proof {
            lemma_started_count(self@.lines, adjusted_time(time@, self.offset_ms));
        }
        let shift = Duration::from_millis(magnitude(self.offset_ms));
        match found.1 {
            Some(i) => {
                assert(self@.lines[i as int].position == self.lines@[i as int].position@);
                let position = self.lines[i].position;
                let (start, past): (u128, u128) = if self.offset_ms >= 0 {
                    (position.as_nanos(), time.as_nanos() + shift.as_nanos())
                } else {
                    (position.as_nanos() + shift.as_nanos(), time.as_nanos())
                };
                if start > past {
                    Some(Duration::from_nanos(start - past))
                } else {
                    Some(Duration::zero())
                }
            },
            None => None,
        }
    }
}

} // verus!
