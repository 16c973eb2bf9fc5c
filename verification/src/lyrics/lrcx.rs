//! The LRCX text format: LRC with timed words and translations.
use super::lrc::{self, lyrics_read, meta_of, with_lines, word_end, word_end_at, ParseError};
use super::stamp::{
    angle, lemma_stamp_parts, nanos, parts_in, square, stamp_len, stamp_len_at, stamp_millis,
    stamp_millis_at, stamp_parts, stamp_times, times_in, unstamped, without_stamps, Brackets,
};
use super::{
    line_models, word_models, LineModel, Lyrics, LyricsLine, LyricsModel, WordModel, WordTimestamp,
};
use crate::text::{
    bounds_within, chars_of, cut, empty_text, pieces, slice_chars, split_bounds, string_of,
    trim_bounds, trimmed,
};
use crate::time::{floored_difference, NANOS_PER_MILLI, Duration};
use vstd::prelude::*;

verus! {

/// The length of the last word of a line, in milliseconds.
pub const LAST_WORD_MILLIS: u64 = 500;

// ---------------------------------------------------------------------------
// Translations
// ---------------------------------------------------------------------------

/// The index behind `[tr]` or `[tr:lang]` at index `i`, where one stands there
/// and something follows it.
pub open spec fn translation_tag_end(s: Seq<char>, i: int) -> Option<int> {
    if 0 <= i && i + 3 < s.len() && s[i] == '[' && s[i + 1] == 't' && s[i + 2] == 'r' {
        let k = if s[i + 3] == ':' && word_end(s, i + 4) > i + 4 {
            word_end(s, i + 4)
        } else {
            i + 3
        };
        if k + 1 < s.len() && s[k] == ']' {
            Some(k + 1)
        } else {
            None
        }
    } else {
        None
    }
}

/// The translation in a line, looked for from index `i` on: the time of the
/// first time tag that a translation tag follows (`None` where it holds a digit
/// of another script), and the text behind the two.
pub open spec fn translation_from(s: Seq<char>, i: int) -> Option<(Option<nat>, Seq<char>)>
    decreases s.len() - i,
{
    if i >= s.len() {
        None
    } else {
        let len = stamp_len(s, i, square());
        if len > 0 && translation_tag_end(s, i + len) is Some {
            let time = match stamp_millis(s, i, len) {
                Some(ms) => Some(ms * NANOS_PER_MILLI as nat),
                None => None,
            };
            Some((time, s.skip(translation_tag_end(s, i + len)->0)))
        } else {
            translation_from(s, i + 1)
        }
    }
}

/// The translations in the given lines with their times, in the order in which
/// they stand. `None` where one of the times cannot be read.
pub open spec fn translations_in(raw: Seq<Seq<char>>) -> Option<Seq<(nat, Seq<char>)>>
    decreases raw.len(),
{
    if raw.len() == 0 {
        Some(Seq::empty())
    } else {
        match (translations_in(raw.drop_last()), translation_from(trimmed(raw.last()), 0)) {
            (None, _) => None,
            (Some(before), None) => Some(before),
            (Some(before), Some((Some(t), text))) => Some(before.push((t, text))),
            (Some(_), Some((None, _))) => None,
        }
    }
}

/// Whether a line without surrounding white space is a translation line: it
/// gives a translation, and no line of its own.
pub open spec fn is_translation_line(line: Seq<char>) -> bool {
    meta_of(line) is None && translation_from(line, 0) is Some
}

/// The given lines of a text but for the translation lines.
pub open spec fn without_translation_lines(raw: Seq<Seq<char>>) -> Seq<Seq<char>>
    decreases raw.len(),
{
    if raw.len() == 0 {
        raw
    } else if is_translation_line(trimmed(raw.last())) {
        without_translation_lines(raw.drop_last())
    } else {
        without_translation_lines(raw.drop_last()).push(raw.last())
    }
}

/// The index from `i` on of the first line at time `t`, or the number of lines.
pub open spec fn first_at(lines: Seq<LineModel>, t: nat, i: int) -> int
    decreases lines.len() - i,
{
    if i >= lines.len() {
        lines.len() as int
    } else if lines[i].position == t {
        i
    } else {
        first_at(lines, t, i + 1)
    }
}

/// The lines with a translation given to the first line at time `t`.
pub open spec fn with_translation(lines: Seq<LineModel>, t: nat, text: Seq<char>) -> Seq<LineModel> {
    let i = first_at(lines, t, 0);
    if i < lines.len() {
        lines.update(i, LineModel { translation: Some(text), ..lines[i] })
    } else {
        lines
    }
}

/// The lines with all translations given, a later one in place of an earlier.
pub open spec fn with_translations(lines: Seq<LineModel>, ts: Seq<(nat, Seq<char>)>) -> Seq<
    LineModel,
>
    decreases ts.len(),
{
    if ts.len() == 0 {
        lines
    } else {
        with_translation(with_translations(lines, ts.drop_last()), ts.last().0, ts.last().1)
    }
}

/// The index behind `[tr]` or `[tr:lang]` at index `i`.
fn translation_tag_end_at(s: &Vec<char>, i: usize) -> (r: Option<usize>)
    requires
        i <= s@.len(),
    ensures
        r is Some == translation_tag_end(s@, i as int) is Some,
        r matches Some(k) ==> translation_tag_end(s@, i as int) == Some(k as int) && k < s@.len(),
{
    let n = s.len();
    if n - i <= 3 || s[i] != '[' || s[i + 1] != 't' || s[i + 2] != 'r' {
        return None;
    }
    let mut k: usize = i + 3;
    if s[i + 3] == ':' {
        let end = word_end_at(s, i + 4);
        if end > i + 4 {
            k = end;
        }
    }
    if k < n && n - k > 1 && s[k] == ']' {
        Some(k + 1)
    } else {
        None
    }
}

/// The translation in a line: its time and the index at which its text starts.
fn find_translation(s: &Vec<char>) -> (r: Option<(Option<Duration>, usize)>)
    ensures
        r is Some == translation_from(s@, 0) is Some,
        r matches Some((t, k)) ==> k <= s@.len() && translation_from(s@, 0) == Some(
            (
                match t {
                    Some(t) => Some(t@),
                    None => None,
                },
                s@.skip(k as int),
            ),
        ),
{
    let b = Brackets { open: '[', close: ']' };
    let mut i: usize = 0;
    while i < s.len()
        invariant
            i <= s@.len(),
            b == square(),
            translation_from(s@, i as int) == translation_from(s@, 0),
        decreases s@.len() - i,
    {
        let len = stamp_len_at(s, i, b);
        if len > 0 {
            match translation_tag_end_at(s, i + len) {
                Some(k) => {
                    let time = match stamp_millis_at(s, i, len) {
                        Some(ms) => Some(Duration::from_millis(ms)),
                        None => None,
                    };
                    return Some((time, k));
                },
                None => {},
            }
        }
        i = i + 1;
    }
    None
}

/// Translations with their times, as plain values.
pub open spec fn translation_models(ts: Seq<(Duration, String)>) -> Seq<(nat, Seq<char>)> {
    ts.map_values(|t: (Duration, String)| (t.0@, t.1@))
}

/// The translations in a text, in the order in which they stand.
fn collect_translations(cs: &Vec<char>) -> (r: Result<Vec<(Duration, String)>, ParseError>)
    ensures
        r is Ok == translations_in(pieces(cs@, '\n')) is Some,
        r matches Ok(ts) ==> translations_in(pieces(cs@, '\n')) == Some(translation_models(ts@)),
{
    let bounds = split_bounds(cs, '\n');
    let ghost raw = pieces(cs@, '\n');
    let mut out: Vec<(Duration, String)> = Vec::new();
    assert(translation_models(out@) =~= Seq::empty());
    let mut i: usize = 0;
    while i < bounds.len()
        invariant
            i <= bounds@.len(),
            raw == pieces(cs@, '\n'),
            raw == cut(cs@, bounds@),
            bounds_within(bounds@, cs@.len()),
            translations_in(raw.take(i as int)) == Some(translation_models(out@)),
        decreases bounds@.len() - i,
    {
        let (from, to) = trim_bounds(cs, bounds[i].0, bounds[i].1);
        let line = slice_chars(cs, from, to);
        assert(line@ == trimmed(raw[i as int]));
        assert(raw.take(i + 1).drop_last() =~= raw.take(i as int));
        match find_translation(&line) {
            Some((Some(t), k)) => {
                let text = string_of(&line, k, line.len());
                assert(text@ =~= line@.skip(k as int));
                let ghost before = out@;
                let ghost item = (t@, text@);
                out.push((t, text));
                assert(translation_models(out@) =~= translation_models(before).push(item));
            },
            Some((None, _)) => {
                proof {
                    lemma_unreadable(raw, i + 1);
                }
                return Err(ParseError::InvalidDigit);
            },
            None => {},
        }
        i = i + 1;
    }
    assert(raw.take(raw.len() as int) =~= raw);
    Ok(out)
}

/// Where the times of the first lines cannot be read, those of all cannot.
proof fn lemma_unreadable(raw: Seq<Seq<char>>, n: int)
    requires
        0 <= n <= raw.len(),
        translations_in(raw.take(n)) is None,
    ensures
        translations_in(raw) is None,
    decreases raw.len(),
{
    if n < raw.len() {
        assert(raw.drop_last().take(n) =~= raw.take(n));
        lemma_unreadable(raw.drop_last(), n);
    } else {
        assert(raw.take(n) =~= raw);
    }
}

/// The bounds of the lines of a text but for the translation lines.
fn drop_translation_lines(cs: &Vec<char>, bounds: &Vec<(usize, usize)>) -> (r: Vec<(usize, usize)>)
    requires
        bounds_within(bounds@, cs@.len()),
    ensures
        bounds_within(r@, cs@.len()),
        cut(cs@, r@) == without_translation_lines(cut(cs@, bounds@)),
{
    let ghost raw = cut(cs@, bounds@);
    let mut out: Vec<(usize, usize)> = Vec::new();
    assert(raw.take(0) =~= Seq::empty());
    assert(cut(cs@, out@) =~= Seq::empty());
    let mut i: usize = 0;
    while i < bounds.len()
        invariant
            i <= bounds@.len(),
            raw == cut(cs@, bounds@),
            bounds_within(bounds@, cs@.len()),
            bounds_within(out@, cs@.len()),
            cut(cs@, out@) == without_translation_lines(raw.take(i as int)),
        decreases bounds@.len() - i,
    {
        let (from, to) = trim_bounds(cs, bounds[i].0, bounds[i].1);
        let line = slice_chars(cs, from, to);
        assert(line@ == trimmed(raw[i as int]));
        assert(raw.take(i + 1).drop_last() =~= raw.take(i as int));
        if lrc::is_meta(&line) || find_translation(&line).is_none() {
            let ghost before = out@;
            out.push(bounds[i]);
            assert(cut(cs@, out@) =~= cut(cs@, before).push(raw[i as int]));
        }
        i = i + 1;
    }
    assert(raw.take(raw.len() as int) =~= raw);
    out
}

/// Gives a translation to the first line at time `t`.
fn give_translation(lines: &mut Vec<LyricsLine>, t: Duration, text: String)
    ensures
        line_models(final(lines)@) == with_translation(line_models(old(lines)@), t@, text@),
{
    let ghost before = line_models(lines@);
    let mut i: usize = 0;
    while i < lines.len()
        invariant
            i <= lines@.len(),
            before == line_models(lines@),
            first_at(before, t@, i as int) == first_at(before, t@, 0),
            before == line_models(old(lines)@),
        decreases lines@.len() - i,
    {
        assert(before[i as int].position == lines@[i as int].position@);
        if lines[i].position.same(&t) {
            let ghost new = text@;
            lines[i].translation = Some(text);
            assert(line_models(lines@) =~= before.update(
                i as int,
                LineModel { translation: Some(new), ..before[i as int] },
            ));
            return ;
        }
        i = i + 1;
    }
}

// ---------------------------------------------------------------------------
// Timed words
// ---------------------------------------------------------------------------

/// The first `n` timed words of a line that starts at `position`: each time
/// with the part of the text behind it, up to the next time; blank parts are
/// left out.
pub open spec fn words_of(times: Seq<nat>, parts: Seq<Seq<char>>, position: nat, n: int) -> Seq<
    WordModel,
>
    decreases n,
{
    if n <= 0 {
        Seq::empty()
    } else {
        let before = words_of(times, parts, position, n - 1);
        let word = trimmed(parts[n]);
        if word.len() == 0 {
            before
        } else {
            before.push(
                WordModel {
                    offset: floored_difference(times[n - 1], position),
                    duration: if n < times.len() {
                        floored_difference(times[n], times[n - 1])
                    } else {
                        (LAST_WORD_MILLIS * NANOS_PER_MILLI) as nat
                    },
                    word,
                },
            )
        }
    }
}

/// The timed words in the content of a line.
pub open spec fn line_words(line: LineModel) -> Seq<WordModel> {
    let times = stamp_times(line.content, 0, angle());
    words_of(
        times,
        stamp_parts(line.content, 0, angle()),
        line.position,
        times.len() as int,
    )
}

/// A line with the timed words taken out of its content, where it has some.
pub open spec fn with_words(line: LineModel) -> LineModel {
    if line_words(line).len() > 0 {
        LineModel {
            content: trimmed(unstamped(line.content, 0, angle())),
            words: Some(line_words(line)),
            ..line
        }
    } else {
        line
    }
}

/// The timed words in `content`, of a line that starts at `position`.
fn words_in(content: &Vec<char>, position: Duration) -> (r: Vec<WordTimestamp>)
    ensures
        word_models(r@) == ({
            let times = stamp_times(content@, 0, angle());
            words_of(times, stamp_parts(content@, 0, angle()), position@, times.len() as int)
        }),
{
    let b = Brackets { open: '<', close: '>' };
    let times = times_in(content, b);
    let parts = parts_in(content, b);
    let ghost ts = stamp_times(content@, 0, angle());
    let ghost ps = stamp_parts(content@, 0, angle());
    proof {
        lemma_stamp_parts(content@, 0, angle());
    }
    let mut out: Vec<WordTimestamp> = Vec::new();
    assert(word_models(out@) =~= Seq::empty());
    let mut i: usize = 0;
    while i < times.len()
        invariant
            i <= times@.len(),
            ts == nanos(times@),
            ps == cut(content@, parts@),
            times@.len() < parts@.len(),
            bounds_within(parts@, content@.len()),
            word_models(out@) == words_of(ts, ps, position@, i as int),
        decreases times@.len() - i,
    {
        let part = parts[i + 1];
        let (from, to) = trim_bounds(content, part.0, part.1);
        assert(ps[i + 1] == content@.subrange(part.0 as int, part.1 as int));
        let word = string_of(content, from, to);
        if from < to {
            let t = times[i];
            let duration = if i + 1 < times.len() {
                times[i + 1].saturating_sub(t)
            } else {
                Duration::from_millis(LAST_WORD_MILLIS)
            };
            let w = WordTimestamp { offset: t.saturating_sub(position), duration, word };
            let ghost before = out@;
            let ghost model = w@;
            out.push(w);
            assert(word_models(out@) =~= word_models(before).push(model));
        }
        i = i + 1;
    }
    out
}

/// Takes the timed words out of the content of a line.
fn take_words(line: &mut LyricsLine)
    ensures
        final(line)@ == with_words(old(line)@),
{
    let content = chars_of(line.content.as_str());
    let words = words_in(&content, line.position);
    if words.len() > 0 {
        let bare = without_stamps(&content, Brackets { open: '<', close: '>' });
        let (from, to) = trim_bounds(&bare, 0, bare.len());
        assert(bare@.subrange(0, bare@.len() as int) =~= bare@);
        line.content = string_of(&bare, from, to);
        line.word_timestamps = Some(words);
    }
}

// ---------------------------------------------------------------------------
// The whole text
// ---------------------------------------------------------------------------

/// Whether one of the translations is for the millisecond in which a line
/// starts.
pub open spec fn translated_at(ts: Seq<(nat, Seq<char>)>, line: LineModel) -> bool {
    exists|k: int|
        0 <= k < ts.len() && (#[trigger] ts[k]).0 / (NANOS_PER_MILLI as nat) == line.position / (
        NANOS_PER_MILLI as nat)
}

/// The lines with text or without a translation for their time.
pub open spec fn kept_lines(lines: Seq<LineModel>, ts: Seq<(nat, Seq<char>)>) -> Seq<LineModel>
    decreases lines.len(),
{
    if lines.len() == 0 {
        lines
    } else if lines.last().content.len() > 0 || !translated_at(ts, lines.last()) {
        kept_lines(lines.drop_last(), ts).push(lines.last())
    } else {
        kept_lines(lines.drop_last(), ts)
    }
}

/// What the lines of a text but for the translation lines hold.
pub open spec fn untranslated(input: Seq<char>) -> LyricsModel {
    lyrics_read(with_lines(without_translation_lines(pieces(input, '\n'))))
}

/// What a text in the LRCX format holds; `None` where the time of a
/// translation cannot be read.
pub open spec fn lrcx_lyrics(input: Seq<char>) -> Option<LyricsModel> {
    let base = untranslated(input);
    match translations_in(pieces(input, '\n')) {
        Some(ts) => Some(
            LyricsModel {
                lines: kept_lines(
                    with_translations(base.lines, ts).map_values(|l: LineModel| with_words(l)),
                    ts,
                ),
                ..base
            },
        ),
        None => None,
    }
}

/// Whether one of the translations is for the millisecond in which a line
/// starts.
fn is_translated(ts: &Vec<(Duration, String)>, line: &LyricsLine) -> (r: bool)
    ensures
        r == translated_at(translation_models(ts@), line@),
{
    let ghost models = translation_models(ts@);
    let mut i: usize = 0;
    while i < ts.len()
        invariant
            i <= ts@.len(),
            models == translation_models(ts@),
            forall|k: int|
                0 <= k < i ==> (#[trigger] models[k]).0 / (NANOS_PER_MILLI as nat)
                    != line@.position / (NANOS_PER_MILLI as nat),
        decreases ts@.len() - i,
    {
        assert(models[i as int].0 == ts@[i as int].0@);
        if ts[i].0.as_millis() == line.position.as_millis() {
            return true;
        }
        i = i + 1;
    }
    false
}

/// Drops the lines without text that a translation was for.
fn drop_translated(lines: Vec<LyricsLine>, ts: &Vec<(Duration, String)>) -> (r: Vec<LyricsLine>)
    ensures
        line_models(r@) == kept_lines(line_models(lines@), translation_models(ts@)),
{
    let ghost all = line_models(lines@);
    let mut out: Vec<LyricsLine> = Vec::new();
    assert(line_models(out@) =~= Seq::empty());
    assert(all.take(0) =~= Seq::empty());
    let mut i: usize = 0;
    while i < lines.len()
        invariant
            i <= lines@.len(),
            all == line_models(lines@),
            line_models(out@) == kept_lines(all.take(i as int), translation_models(ts@)),
        decreases lines@.len() - i,
    {
        assert(all.take(i + 1).drop_last() =~= all.take(i as int));
        assert(all[i as int].content == lines@[i as int].content@);
        let empty = empty_text(lines[i].content.as_str());
        if !empty || !is_translated(ts, &lines[i]) {
            let line = lines[i].clone();
            let ghost before = out@;
            out.push(line);
            assert(line_models(out@) =~= line_models(before).push(line@));
        }
        i = i + 1;
    }
    assert(all.take(all.len() as int) =~= all);
    out
}

/// Parse an LRCX format string into Lyrics.
///
/// LRCX extends LRC with inline word-level time tags:
///   `[00:12.34]<00:12.34>First <00:12.80>line <00:13.20>of`
///
/// And translation lines tagged with `[tr]` or `[tr:lang]`:
///   `[00:12.34]Original line`
///   `[00:12.34][tr:zh]translated line`
///
/// A translation is given to the line at its time, wherever the two stand; its
/// own line is not kept.
pub fn parse(input: &str) -> (r: Result<Lyrics, ParseError>)
    ensures
        r is Ok == lrcx_lyrics(input@) is Some,
        r matches Ok(lyrics) ==> Some(lyrics@) == lrcx_lyrics(input@),
        r matches Err(e) ==> e == ParseError::InvalidDigit,
{
    let cs = chars_of(input);
    let bounds = split_bounds(&cs, '\n');
    let mut lyrics = lrc::read_lines(&cs, &drop_translation_lines(&cs, &bounds));
    let ghost base = lyrics@;
    let translations = match collect_translations(&cs) {
        Ok(t) => t,
        Err(e) => return Err(e),
    };
    let ghost ts = translation_models(translations@);
    let mut i: usize = 0;
    while i < translations.len()
        invariant
            i <= translations@.len(),
            ts == translation_models(translations@),
            line_models(lyrics.lines@) == with_translations(base.lines, ts.take(i as int)),
            lyrics.metadata@ == base.metadata,
            lyrics.offset_ms == base.offset_ms,
        decreases translations@.len() - i,
    {
        assert(ts.take(i + 1).drop_last() =~= ts.take(i as int));
        give_translation(&mut lyrics.lines, translations[i].0, translations[i].1.clone());
        i = i + 1;
    }
    assert(ts.take(ts.len() as int) =~= ts);
    let ghost translated = line_models(lyrics.lines@);
    let mut k: usize = 0;
    while k < lyrics.lines.len()
        invariant
            k <= lyrics.lines@.len() == translated.len(),
            forall|j: int| 0 <= j < k ==> (#[trigger] lyrics.lines@[j])@ == with_words(translated[j]),
            forall|j: int| k <= j < translated.len() ==> (#[trigger] lyrics.lines@[j])@ == translated[j],
            lyrics.metadata@ == base.metadata,
            lyrics.offset_ms == base.offset_ms,
        decreases lyrics.lines@.len() - k,
    {
        take_words(&mut lyrics.lines[k]);
        k = k + 1;
    }
    assert(line_models(lyrics.lines@) =~= translated.map_values(|l: LineModel| with_words(l)));
    let Lyrics { lines, metadata, offset_ms } = lyrics;
    Ok(Lyrics { lines: drop_translated(lines, &translations), metadata, offset_ms })
}

} // verus!
