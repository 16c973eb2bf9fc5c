//! The text formats piece by piece: stamps, tags, lines, translations.
use crate::lyrics::laws::{
    is_language, lemma_first_at, lemma_translation_tag, lemma_with_translations, lemma_word_end,
    translation_tag,
};
use crate::lyrics::lrc::{
    lrc_lyrics, lyrics_read, meta_of, timed_lines, with_lines, word_end, LrcModel,
};
use crate::lyrics::lrcx::{
    is_translation_line, kept_lines, lrcx_lyrics, translation_from, translation_tag_end,
    translations_in, untranslated, with_translations, with_words, without_translation_lines,
};
use crate::lyrics::stamp::{
    is_decimal, is_word, prefixed, regex_matches, square, stamp_len, stamp_millis, stamp_parts,
    stamp_times, unstamped, Brackets,
};
use crate::lyrics::{by_position, LineModel, LyricsModel, LyricsSource};
use crate::order::ordered;
use crate::text::{lowercased, pieces, signed_value, trimmed};
use vstd::prelude::*;

verus! {

// ---------------------------------------------------------------------------
// Stamps
// ---------------------------------------------------------------------------

/// Which characters are digits and which are parts of words: within ASCII the
/// ten digits, and with them letters and the underscore; beyond it those that
/// regular expressions count among them.
pub proof fn law_char_classes(c: char)
    ensures
        (c as u32) < 128 ==> is_decimal(c) == (48 <= c as u32 <= 57),
        (c as u32) < 128 ==> is_word(c) == (48 <= c as u32 <= 57 || 97 <= c as u32 <= 122 || 65
            <= c as u32 <= 90 || c == '_'),
        (c as u32) >= 128 ==> is_decimal(c) == regex_matches("^\\d$"@, seq![c]),
        (c as u32) >= 128 ==> is_word(c) == (regex_matches("^\\w$"@, seq![c]) || regex_matches(
            "^\\d$"@,
            seq![c],
        )),
{
}

/// Whether a stamp of `n` characters stands at index `i`: between the brackets
/// two digits, a colon, two digits, a dot, and two or three digits.
pub open spec fn stands_at(s: Seq<char>, i: int, n: int, b: Brackets) -> bool {
    &&& n == 10 || n == 11
    &&& 0 <= i && i + n <= s.len()
    &&& s[i] == b.open && s[i + n - 1] == b.close
    &&& s[i + 3] == ':' && s[i + 6] == '.'
    &&& is_decimal(s[i + 1]) && is_decimal(s[i + 2])
    &&& is_decimal(s[i + 4]) && is_decimal(s[i + 5])
    &&& is_decimal(s[i + 7]) && is_decimal(s[i + 8])
    &&& n == 11 ==> is_decimal(s[i + 9])
}

/// A stamp is found exactly where one stands.
pub proof fn law_stamp_found(s: Seq<char>, i: int, b: Brackets)
    requires
        !is_decimal(b.close),
    ensures
        stands_at(s, i, 10, b) ==> stamp_len(s, i, b) == 10,
        stands_at(s, i, 11, b) ==> stamp_len(s, i, b) == 11,
        !stands_at(s, i, 10, b) && !stands_at(s, i, 11, b) ==> stamp_len(s, i, b) == 0,
{
}

/// The number that an ASCII digit stands for.
pub open spec fn digit(c: char) -> int {
    c as u32 - 48
}

/// A stamp of ASCII digits says minutes, seconds, and hundredths or thousandths
/// of a second; one with other digits says nothing.
pub proof fn law_stamp_says(s: Seq<char>, i: int, b: Brackets, n: int)
    requires
        stands_at(s, i, n, b),
    ensures
        ({
            let ascii = |k: int| 48 <= s[i + k] as u32 <= 57;
            let all = ascii(1) && ascii(2) && ascii(4) && ascii(5) && ascii(7) && ascii(8) && (n
                == 10 || ascii(9));
            let coarse = (digit(s[i + 1]) * 10 + digit(s[i + 2])) * 60_000 + (digit(s[i + 4]) * 10
                + digit(s[i + 5])) * 1_000 + digit(s[i + 7]) * 100 + digit(s[i + 8]) * 10;
            &&& all && n == 10 ==> stamp_millis(s, i, n) == Some(coarse as nat)
            &&& all && n == 11 ==> stamp_millis(s, i, n) == Some((coarse + digit(s[i + 9])) as nat)
            &&& !all ==> stamp_millis(s, i, n) is None
        }),
{
}

/// Stamps are taken from the left, each whole: its time is added where it says
/// one, the text around it is left, and what is no stamp is text.
pub proof fn law_stamps_step(s: Seq<char>, i: int, b: Brackets)
    requires
        0 <= i < s.len(),
        !is_decimal(b.close),
    ensures
        ({
            let n = stamp_len(s, i, b);
            &&& n > 0 ==> unstamped(s, i, b) == unstamped(s, i + n, b)
            &&& n > 0 ==> stamp_parts(s, i, b) == seq![Seq::<char>::empty()] + stamp_parts(
                s,
                i + n,
                b,
            )
            &&& n > 0 ==> (stamp_millis(s, i, n) matches Some(ms) ==> stamp_times(s, i, b) == seq![
                (ms * 1_000_000) as nat,
            ] + stamp_times(s, i + n, b))
            &&& n > 0 && stamp_millis(s, i, n) is None ==> stamp_times(s, i, b) == stamp_times(
                s,
                i + n,
                b,
            )
            &&& n == 0 ==> unstamped(s, i, b) == seq![s[i]] + unstamped(s, i + 1, b)
            &&& n == 0 ==> stamp_times(s, i, b) == stamp_times(s, i + 1, b)
            &&& n == 0 ==> stamp_parts(s, i, b) == stamp_parts(s, i + 1, b).update(
                0,
                seq![s[i]] + stamp_parts(s, i + 1, b)[0],
            )
            &&& unstamped(s, s.len() as int, b).len() == 0
            &&& stamp_times(s, s.len() as int, b).len() == 0
            &&& stamp_parts(s, s.len() as int, b) == seq![Seq::<char>::empty()]
        }),
{
    assert(stamp_len(s, i, b) == 0 ==> stamp_parts(s, i, b) == prefixed(
        seq![s[i]],
        stamp_parts(s, i + 1, b),
    ));
}

// ---------------------------------------------------------------------------
// Lines
// ---------------------------------------------------------------------------

proof fn lemma_word_run(s: Seq<char>, i: int)
    requires
        0 <= i <= s.len(),
    ensures
        i <= word_end(s, i) <= s.len(),
        forall|k: int| i <= k < word_end(s, i) ==> is_word(#[trigger] s[k]),
    decreases s.len() - i,
{
    if i < s.len() && is_word(s[i]) {
        lemma_word_run(s, i + 1);
    }
}

/// A metadata tag is a line of the form `[key:value]`, the key a word and the
/// value not empty, that does not start with a time tag; nothing else is one.
pub proof fn law_tag_form(line: Seq<char>, key: Seq<char>, value: Seq<char>)
    ensures
        meta_of(line) == Some((key, value)) ==> {
            &&& line == seq!['['] + key + seq![':'] + value + seq![']']
            &&& key.len() > 0 && value.len() > 0
            &&& forall|k: int| 0 <= k < key.len() ==> is_word(#[trigger] key[k])
            &&& stamp_len(line, 0, square()) == 0
        },
        line == seq!['['] + key + seq![':'] + value + seq![']'] && key.len() > 0 && value.len() > 0
            && (forall|k: int| 0 <= k < key.len() ==> is_word(#[trigger] key[k])) && stamp_len(
            line,
            0,
            square(),
        ) == 0 ==> meta_of(line) == Some((key, value)),
{
    let text = seq!['['] + key + seq![':'] + value + seq![']'];
    if meta_of(line) == Some((key, value)) {
        lemma_word_run(line, 1);
        let k = word_end(line, 1);
        assert(line =~= text);
        assert forall|j: int| 0 <= j < key.len() implies is_word(#[trigger] key[j]) by {
            assert(is_word(line[j + 1]));
        }
    }
    if line == text && key.len() > 0 && value.len() > 0 && (forall|k: int|
        0 <= k < key.len() ==> is_word(#[trigger] key[k])) {
        let n = key.len() as int;
        assert(line[0] == '[' && line.last() == ']' && line[n + 1] == ':');
        assert forall|k: int| 1 <= k < n + 1 implies is_word(#[trigger] line[k]) by {
            assert(line[k] == key[k - 1]);
        }
        assert(!is_word(':'));
        lemma_word_end(line, 1, n + 1);
        assert(line.subrange(1, n + 1) =~= key);
        assert(line.subrange(n + 2, line.len() - 1) =~= value);
    }
}

/// What a line adds to those above it: a metadata tag sets what its key names,
/// and any other line adds its text at each of its times.
pub proof fn law_line_added(raw: Seq<Seq<char>>, line: Seq<char>)
    ensures
        ({
            let before = with_lines(raw);
            let after = with_lines(raw.push(line));
            let (name, given) = meta_of(trimmed(line))->0;
            let (key, value) = (lowercased(name), trimmed(given));
            let tag = meta_of(trimmed(line)) is Some;
            &&& tag ==> after.lines == before.lines
            &&& !tag ==> after.lines == before.lines + timed_lines(trimmed(line))
            &&& tag && key == "ti"@ ==> after.title == Some(value)
            &&& !(tag && key == "ti"@) ==> after.title == before.title
            &&& tag && key == "ar"@ ==> after.artist == Some(value)
            &&& !(tag && key == "ar"@) ==> after.artist == before.artist
            &&& tag && key == "al"@ ==> after.album == Some(value)
            &&& !(tag && key == "al"@) ==> after.album == before.album
            &&& tag && key == "offset"@ ==> after.offset_ms == (if signed_value(value) is Some {
                signed_value(value)->0
            } else {
                0
            })
            &&& !(tag && key == "offset"@) ==> after.offset_ms == before.offset_ms
        }),
{
    assert(raw.push(line).drop_last() =~= raw);
    reveal_strlit("ti");
    reveal_strlit("ar");
    reveal_strlit("al");
    reveal_strlit("offset");
    assert("ti"@.len() == 2 && "ar"@.len() == 2 && "al"@.len() == 2 && "offset"@.len() == 6);
    assert("ti"@[0] != "ar"@[0] && "ti"@[0] != "al"@[0] && "ar"@[1] != "al"@[1]);
}

/// A line without a tag stands for its text, without stamps and surrounding
/// white space, at each of its times, and has no translation and no words yet.
pub proof fn law_lines_of_line(line: Seq<char>, k: int)
    requires
        0 <= k < stamp_times(line, 0, square()).len(),
    ensures
        timed_lines(line).len() == stamp_times(line, 0, square()).len(),
        timed_lines(line)[k].position == stamp_times(line, 0, square())[k],
        timed_lines(line)[k].content == trimmed(unstamped(line, 0, square())),
        timed_lines(line)[k].translation is None,
        timed_lines(line)[k].words is None,
{
}

/// A text is read line by line from nothing; its lines are then put in order,
/// and it says neither where it is from nor how good it is.
pub proof fn law_text_read(input: Seq<char>, m: LrcModel)
    ensures
        lrc_lyrics(input) == lyrics_read(with_lines(pieces(input, '\n'))),
        lyrics_read(m).lines == ordered(m.lines, by_position()),
        lyrics_read(m).metadata.title == m.title,
        lyrics_read(m).metadata.artist == m.artist,
        lyrics_read(m).metadata.album == m.album,
        lyrics_read(m).metadata.source == LyricsSource::Unknown,
        lyrics_read(m).metadata.quality.bits == 0,
        lyrics_read(m).offset_ms == m.offset_ms,
        with_lines(seq![]).title is None && with_lines(seq![]).artist is None && with_lines(
            seq![],
        ).album is None,
        with_lines(seq![]).offset_ms == 0,
        with_lines(seq![]).lines.len() == 0,
{
}

// ---------------------------------------------------------------------------
// Translations
// ---------------------------------------------------------------------------

/// A translation tag is `[tr]` or `[tr:lang]` with something behind it, and
/// nothing else is one.
pub proof fn law_translation_tag(
    head: Seq<char>,
    lang: Option<Seq<char>>,
    text: Seq<char>,
    s: Seq<char>,
    i: int,
)
    requires
        is_language(lang),
        text.len() > 0,
    ensures
        translation_tag_end(head + translation_tag(lang) + text, head.len() as int) == Some(
            (head.len() + translation_tag(lang).len()) as int,
        ),
        translation_tag_end(s, i) matches Some(e) ==> {
            &&& 0 <= i < e < s.len()
            &&& s.subrange(i, e) == seq!['[', 't', 'r', ']'] || (s[i] == '[' && s[i + 1] == 't'
                && s[i + 2] == 'r' && s[i + 3] == ':' && s[e - 1] == ']' && e > i + 5 && forall|
                k: int,
            |
                i + 4 <= k < e - 1 ==> is_word(#[trigger] s[k]))
        },
{
    lemma_translation_tag(head, lang, text);
    if let Some(e) = translation_tag_end(s, i) {
        if s[i + 3] == ':' {
            lemma_word_run(s, i + 4);
            if word_end(s, i + 4) == i + 4 {
                assert(s.subrange(i, e) =~= seq!['[', 't', 'r', ']']);
            }
        } else {
            assert(s.subrange(i, e) =~= seq!['[', 't', 'r', ']']);
        }
    }
}

/// The translation in a line is behind its first time tag that a translation
/// tag follows, wherever that stands: the text up to the end of the line, at the
/// time of the tag.
pub proof fn law_translation_found(s: Seq<char>, i: int)
    requires
        0 <= i < s.len(),
    ensures
        ({
            let n = stamp_len(s, i, square());
            let e = translation_tag_end(s, i + n);
            let here = n > 0 && e is Some;
            let (time, text) = translation_from(s, i)->0;
            &&& here ==> translation_from(s, i) is Some
            &&& here ==> text == s.subrange(e->0, s.len() as int)
            &&& here ==> (stamp_millis(s, i, n) matches Some(ms) ==> time == Some(
                (ms * 1_000_000) as nat,
            ))
            &&& here && stamp_millis(s, i, n) is None ==> time is None
            &&& !here ==> translation_from(s, i) == translation_from(s, i + 1)
            &&& translation_from(s, s.len() as int) is None
        }),
{
    let n = stamp_len(s, i, square());
    if n > 0 {
        if let Some(e) = translation_tag_end(s, i + n) {
            assert(s.skip(e) =~= s.subrange(e, s.len() as int));
        }
    }
}

/// What a line adds to the translations of those above it: its own where it has
/// one, and none can be read below a line whose time cannot.
pub proof fn law_translation_added(raw: Seq<Seq<char>>, line: Seq<char>)
    ensures
        ({
            let before = translations_in(raw);
            let after = translations_in(raw.push(line));
            let own = translation_from(trimmed(line), 0);
            let (time, text) = own->0;
            &&& before is None ==> after is None
            &&& own is None ==> after == before
            &&& before is Some && own is Some && time is Some ==> after == Some(
                before->0.push((time->0, text)),
            )
            &&& own is Some && time is None ==> after is None
            &&& translations_in(seq![]) == Some(Seq::<(nat, Seq<char>)>::empty())
        }),
{
    assert(raw.push(line).drop_last() =~= raw);
}

/// A line that gives a translation, and is no metadata tag, gives nothing else;
/// all other lines are read as they are.
pub proof fn law_translation_lines_out(raw: Seq<Seq<char>>, line: Seq<char>)
    ensures
        ({
            let before = without_translation_lines(raw);
            let after = without_translation_lines(raw.push(line));
            let out = translation_from(trimmed(line), 0) is Some && meta_of(trimmed(line)) is None;
            &&& out == is_translation_line(trimmed(line))
            &&& out ==> after == before
            &&& !out ==> after == before.push(line)
            &&& without_translation_lines(seq![]).len() == 0
        }),
{
    assert(raw.push(line).drop_last() =~= raw);
}

/// A line that no translation is for, or that follows another at its time, has
/// none.
pub proof fn law_no_translation(lines: Seq<LineModel>, ts: Seq<(nat, Seq<char>)>, i: int)
    requires
        0 <= i < lines.len(),
        (forall|j: int| 0 <= j < ts.len() ==> (#[trigger] ts[j]).0 != lines[i].position) || (exists|
            k: int,
        |
            0 <= k < i && (#[trigger] lines[k]).position == lines[i].position),
    ensures
        with_translations(lines, ts)[i] == lines[i],
    decreases ts.len(),
{
    if ts.len() > 0 {
        let head = ts.drop_last();
        let before = with_translations(lines, head);
        let t = ts.last().0;
        lemma_with_translations(lines, head);
        lemma_first_at(before, t, 0);
        if forall|j: int| 0 <= j < ts.len() ==> (#[trigger] ts[j]).0 != lines[i].position {
            assert(ts[ts.len() - 1].0 != lines[i].position);
            assert forall|j: int| 0 <= j < head.len() implies (#[trigger] head[j]).0
                != lines[i].position by {
                assert(ts[j].0 != lines[i].position);
            }
        } else {
            let k = choose|k: int| 0 <= k < i && (#[trigger] lines[k]).position
                == lines[i].position;
            assert(before[k].position == lines[k].position);
        }
        law_no_translation(lines, head, i);
    }
}

/// Lines are kept in order. One with text is kept, and so is one without where
/// no translation is for its millisecond; else a line without text is dropped.
pub proof fn law_kept(lines: Seq<LineModel>, line: LineModel, ts: Seq<(nat, Seq<char>)>)
    ensures
        line.content.len() > 0 ==> kept_lines(lines.push(line), ts) == kept_lines(lines, ts).push(
            line,
        ),
        line.content.len() == 0 && (forall|k: int|
            0 <= k < ts.len() ==> (#[trigger] ts[k]).0 / 1_000_000 != line.position / 1_000_000)
            ==> kept_lines(lines.push(line), ts) == kept_lines(lines, ts).push(line),
        line.content.len() == 0 && (exists|k: int|
            0 <= k < ts.len() && (#[trigger] ts[k]).0 / 1_000_000 == line.position / 1_000_000)
            ==> kept_lines(lines.push(line), ts) == kept_lines(lines, ts),
        kept_lines(seq![], ts).len() == 0,
{
    assert(lines.push(line).drop_last() =~= lines);
}

/// An LRCX text is read like an LRC text without its translation lines; then
/// translations are given, words are taken out of each line, and what is left
/// empty by a translation is dropped. It cannot be read where the time of a
/// translation cannot.
pub proof fn law_lrcx_read(input: Seq<char>, base: LyricsModel, ts: Seq<(nat, Seq<char>)>)
    requires
        base == lyrics_read(with_lines(without_translation_lines(pieces(input, '\n')))),
    ensures
        translations_in(pieces(input, '\n')) is None ==> lrcx_lyrics(input) is None,
        translations_in(pieces(input, '\n')) == Some(ts) ==> {
            &&& lrcx_lyrics(input) is Some
            &&& lrcx_lyrics(input)->0.metadata == base.metadata
            &&& lrcx_lyrics(input)->0.offset_ms == base.offset_ms
            &&& lrcx_lyrics(input)->0.lines == kept_lines(
                Seq::new(
                    base.lines.len(),
                    |i: int| with_words(with_translations(base.lines, ts)[i]),
                ),
                ts,
            )
        },
        untranslated(input) == base,
{
    lemma_with_translations(base.lines, ts);
    assert(with_translations(base.lines, ts).map_values(|l: LineModel| with_words(l)) =~= Seq::new(
        base.lines.len(),
        |i: int| with_words(with_translations(base.lines, ts)[i]),
    ));
}

} // verus!
