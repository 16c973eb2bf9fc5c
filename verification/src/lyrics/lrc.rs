//! The LRC text format.
use super::stamp::{
    is_word, square, stamp_len, stamp_len_at, stamp_times, times_in, unstamped, without_stamps,
    word_char, Brackets,
};
use super::{
    by_position, line_models, place_line, LineModel, Lyrics, LyricsLine, LyricsMetadata,
    LyricsModel, LyricsSource, MetadataModel,
};
use crate::order::ordered;
use crate::single::Single;
use crate::text::{
    bounds_within, chars_of, cut, lowercase, lowercased, opt_text, parse_signed, pieces, same_text,
    signed_value, slice_chars, split_bounds, string_of, trim, trim_bounds, trimmed,
};
use vstd::prelude::*;

verus! {

/// Why a text is not in the LRC or LRCX format.
#[derive(Clone, Copy, Debug, PartialEq, Eq, Structural)]
pub enum ParseError {
    /// A time stamp holds a digit other than `0` to `9`.
    InvalidDigit,
}

/// The index of the first character from `i` on that is not part of a word.
pub open spec fn word_end(s: Seq<char>, i: int) -> int
    decreases s.len() - i,
{
    if 0 <= i < s.len() && is_word(s[i]) {
        word_end(s, i + 1)
    } else {
        i
    }
}

/// The index of the first character from `i` on that is not part of a word.
pub fn word_end_at(s: &Vec<char>, i: usize) -> (r: usize)
    requires
        i <= s@.len(),
    ensures
        r == word_end(s@, i as int),
        i <= r <= s@.len(),
{
    let mut k: usize = i;
    while k < s.len() && word_char(s[k])
        invariant
            i <= k <= s@.len(),
            word_end(s@, k as int) == word_end(s@, i as int),
        decreases s@.len() - k,
    {
        k = k + 1;
    }
    k
}

/// The key and the value of a line of the form `[key:value]`, where the key is
/// a word and the value is not empty. A line that starts with a time tag is
/// none, however it ends.
pub open spec fn meta_of(line: Seq<char>) -> Option<(Seq<char>, Seq<char>)> {
    let k = word_end(line, 1);
    if line.len() > 0 && line[0] == '[' && line.last() == ']' && 1 < k && k + 2 < line.len()
        && line[k] == ':' && stamp_len(line, 0, square()) == 0 {
        Some((line.subrange(1, k), line.subrange(k + 1, line.len() - 1)))
    } else {
        None
    }
}

/// What the lines read so far hold.
#[verifier::ext_equal]
pub struct LrcModel {
    pub title: Option<Seq<char>>,
    pub artist: Option<Seq<char>>,
    pub album: Option<Seq<char>>,
    pub offset_ms: i64,
    pub lines: Seq<LineModel>,
}

/// Nothing read.
pub open spec fn nothing_read() -> LrcModel {
    LrcModel { title: None, artist: None, album: None, offset_ms: 0, lines: Seq::empty() }
}

/// A lyrics line that is not translated and has no timed words.
pub open spec fn plain_line(position: nat, content: Seq<char>) -> LineModel {
    LineModel { position, content, translation: None, words: None }
}

/// One line for each of the times.
pub open spec fn repeated(times: Seq<nat>, content: Seq<char>) -> Seq<LineModel> {
    times.map_values(|t: nat| plain_line(t, content))
}

/// The lyrics lines that a line with time tags stands for: its text at each of
/// the times.
pub open spec fn timed_lines(line: Seq<char>) -> Seq<LineModel> {
    repeated(stamp_times(line, 0, square()), trimmed(unstamped(line, 0, square())))
}

/// The effect of a metadata tag.
pub open spec fn with_meta(m: LrcModel, key: Seq<char>, value: Seq<char>) -> LrcModel {
    if key == "ti"@ {
        LrcModel { title: Some(value), ..m }
    } else if key == "ar"@ {
        LrcModel { artist: Some(value), ..m }
    } else if key == "al"@ {
        LrcModel { album: Some(value), ..m }
    } else if key == "offset"@ {
        LrcModel {
            offset_ms: match signed_value(value) {
                Some(n) => n,
                None => 0,
            },
            ..m
        }
    } else {
        m
    }
}

/// The effect of one line without surrounding white space: a metadata tag
/// where it has that form, else the lyrics lines that it stands for.
pub open spec fn with_line(m: LrcModel, line: Seq<char>) -> LrcModel {
    match meta_of(line) {
        Some((key, value)) => with_meta(m, lowercased(key), trimmed(value)),
        None => LrcModel { lines: m.lines + timed_lines(line), ..m },
    }
}

/// The effect of several lines, one after the other.
pub open spec fn with_lines(raw: Seq<Seq<char>>) -> LrcModel
    decreases raw.len(),
{
    if raw.len() == 0 {
        nothing_read()
    } else {
        with_line(with_lines(raw.drop_last()), trimmed(raw.last()))
    }
}

/// What a text in the LRC format holds: the lines in order of their times,
/// lines with the same time in the order in which they stand.
pub open spec fn lrc_lyrics(input: Seq<char>) -> LyricsModel {
    lyrics_read(with_lines(pieces(input, '\n')))
}

/// The lyrics that the lines read make up.
pub open spec fn lyrics_read(m: LrcModel) -> LyricsModel {
    LyricsModel {
        lines: ordered(m.lines, by_position()),
        metadata: MetadataModel {
            title: m.title,
            artist: m.artist,
            album: m.album,
            source: LyricsSource::Unknown,
            quality: Single { bits: 0 },
        },
        offset_ms: m.offset_ms,
    }
}

/// The bounds of the key within a line of the form `[key:value]`; the value
/// lies between the colon behind it and the last character.
fn meta_key_end(line: &Vec<char>) -> (r: Option<usize>)
    ensures
        r is Some == meta_of(line@) is Some,
        r matches Some(k) ==> k + 2 < line.len() && 1 < k && meta_of(line@) == Some(
            (line@.subrange(1, k as int), line@.subrange(k + 1, line@.len() - 1)),
        ),
{
    let n = line.len();
    if n == 0 || line[0] != '[' || line[n - 1] != ']' {
        return None;
    }
    if stamp_len_at(line, 0, Brackets { open: '[', close: ']' }) > 0 {
        return None;
    }
    let k = word_end_at(line, 1);
    if 1 < k && k < n && n - k > 2 && line[k] == ':' {
        Some(k)
    } else {
        None
    }
}

/// What has been read of a text, with its lines kept in order.
struct Draft {
    title: Option<String>,
    artist: Option<String>,
    album: Option<String>,
    offset_ms: i64,
    lines: Vec<LyricsLine>,
}

impl Draft {
    /// Whether this is what the lines read so far hold.
    spec fn holds(&self, m: LrcModel) -> bool {
        &&& opt_text(self.title) == m.title
        &&& opt_text(self.artist) == m.artist
        &&& opt_text(self.album) == m.album
        &&& self.offset_ms == m.offset_ms
        &&& line_models(self.lines@) == ordered(m.lines, by_position())
    }

    /// Takes in a metadata tag.
    fn read_meta(&mut self, key: &str, value: String, Ghost(m): Ghost<LrcModel>)
        requires
            old(self).holds(m),
        ensures
            final(self).holds(with_meta(m, key@, value@)),
    {
        if same_text(key, "ti") {
            self.title = Some(value);
        } else if same_text(key, "ar") {
            self.artist = Some(value);
        } else if same_text(key, "al") {
            self.album = Some(value);
        } else if same_text(key, "offset") {
            self.offset_ms = match parse_signed(value.as_str()) {
                Some(n) => n,
                None => 0,
            };
        }
    }

    /// Takes in a line with time tags.
    fn read_timed(&mut self, line: &Vec<char>, Ghost(m): Ghost<LrcModel>)
        requires
            old(self).holds(m),
        ensures
            final(self).holds(LrcModel { lines: m.lines + timed_lines(line@), ..m }),
    {
        let b = Brackets { open: '[', close: ']' };
        let times = times_in(line, b);
        let bare = without_stamps(line, b);
        let (from, to) = trim_bounds(&bare, 0, bare.len());
        assert(bare@.subrange(0, bare@.len() as int) =~= bare@);
        let content = string_of(&bare, from, to);
        let ghost all = timed_lines(line@);
        let mut i: usize = 0;
        assert(m.lines + all.take(0) =~= m.lines);
        while i < times.len()
            invariant
                i <= times@.len(),
                times@.len() == all.len(),
                forall|k: int| 0 <= k < all.len() ==> #[trigger] all[k] == plain_line(
                    times@[k]@,
                    content@,
                ),
                self.holds(LrcModel { lines: m.lines + all.take(i as int), ..m }),
            decreases times@.len() - i,
        {
            let line = LyricsLine {
                position: times[i],
                content: content.clone(),
                translation: None,
                word_timestamps: None,
            };
            let ghost before = m.lines + all.take(i as int);
            let ghost after = m.lines + all.take(i + 1);
            assert(line@ == all[i as int]);
            assert(after.drop_last() =~= before);
            assert(after.last() == all[i as int]);
            place_line(&mut self.lines, line);
            i = i + 1;
        }
        assert(all.take(all.len() as int) =~= all);
    }

    /// Takes in one line of a text.
    fn read_line(&mut self, line: &Vec<char>, Ghost(m): Ghost<LrcModel>)
        requires
            old(self).holds(m),
        ensures
            final(self).holds(with_line(m, line@)),
    {
        match meta_key_end(line) {
            Some(k) => {
                let key = lowercase(string_of(line, 1, k).as_str());
                let value = trim(string_of(line, k + 1, line.len() - 1).as_str());
                self.read_meta(key.as_str(), value, Ghost(m));
            },
            None => {
                self.read_timed(line, Ghost(m));
            },
        }
    }
}

/// Whether a line without surrounding white space is a metadata tag.
pub(crate) fn is_meta(line: &Vec<char>) -> (r: bool)
    ensures
        r == meta_of(line@) is Some,
{
    meta_key_end(line).is_some()
}

/// The lyrics that the given lines of a text make up.
pub(crate) fn read_lines(cs: &Vec<char>, bounds: &Vec<(usize, usize)>) -> (r: Lyrics)
    requires
        bounds_within(bounds@, cs@.len()),
    ensures
        r@ == lyrics_read(with_lines(cut(cs@, bounds@))),
{
    let ghost raw = cut(cs@, bounds@);
    let mut draft = Draft {
        title: None,
        artist: None,
        album: None,
        offset_ms: 0,
        lines: Vec::new(),
    };
    assert(line_models(draft.lines@) =~= ordered(Seq::empty(), by_position()));
    let mut i: usize = 0;
    while i < bounds.len()
        invariant
            i <= bounds@.len(),
            raw == cut(cs@, bounds@),
            bounds_within(bounds@, cs@.len()),
            draft.holds(with_lines(raw.take(i as int))),
        decreases bounds@.len() - i,
    {
        let (from, to) = trim_bounds(cs, bounds[i].0, bounds[i].1);
        let line = slice_chars(cs, from, to);
        assert(line@ == trimmed(raw[i as int]));
        assert(raw.take(i + 1).drop_last() =~= raw.take(i as int));
        draft.read_line(&line, Ghost(with_lines(raw.take(i as int))));
        i = i + 1;
    }
    assert(raw.take(raw.len() as int) =~= raw);
    Lyrics {
        lines: draft.lines,
        metadata: LyricsMetadata {
            title: draft.title,
            artist: draft.artist,
            album: draft.album,
            source: LyricsSource::Unknown,
            quality: Single::zero(),
        },
        offset_ms: draft.offset_ms,
    }
}

/// Parse an LRC format string into a Lyrics struct.
///
/// Supports:
/// - `[mm:ss.xx]` and `[mm:ss.xxx]` time tags
/// - Multiple time tags per line: `[00:12.34][00:45.67]text`
/// - Metadata tags: `[ti:Title]`, `[ar:Artist]`, `[al:Album]`, `[offset:+/-ms]`
///
/// Lines of any other form are passed over, so every text can be read. A line
/// of time tags alone stands for lines without text.
pub fn parse(input: &str) -> (r: Result<Lyrics, ParseError>)
    ensures
        r is Ok,
        r->Ok_0@ == lrc_lyrics(input@),
{
    let cs = chars_of(input);
    let bounds = split_bounds(&cs, '\n');
    Ok(read_lines(&cs, &bounds))
}

} // verus!
