//! Lyrics texts: what is written is what is read.
use super::stamped::{
    law_stamps_read, run, run_text, run_texts, run_times, says, well_written, written, Stamped,
};
use super::text::{law_decimal, law_pieces_below, law_signed_read_back};
use crate::lyrics::laws::{
    law_lines_below, law_meta_tag, lemma_free_sum, lemma_one_piece, lemma_tagged_line,
    lemma_tags_text, stampless, tags_text, TimeTag,
};
use crate::lyrics::lrc::{lrc_lyrics, meta_of, timed_lines, with_lines};
use crate::lyrics::lrcx::{
    lrcx_lyrics, translation_from, translations_in, with_translations, with_words,
    without_translation_lines, words_of,
};
use crate::lyrics::stamp::{angle, is_word, square, stamp_len, stamp_parts, stamp_times, unstamped};
use crate::lyrics::{adjusted_time, by_position, lines_found, search_started, wait_for, LineModel};
use crate::order::{law_ordered, ordered};
use crate::text::{
    is_ascii_digit, is_white_space, lemma_trimmed_id, lowercased, pieces, signed_decimal, trimmed,
    trimmed_end,
};
use vstd::prelude::*;

verus! {

// ---------------------------------------------------------------------------
// Lookup
// ---------------------------------------------------------------------------

/// The time of the lookup is the playback time plus the offset, but neither
/// below zero nor beyond the longest span.
pub proof fn law_adjusted_time(time: nat, offset_ms: i64)
    requires
        time <= 18_446_744_073_709_551_615_999_999_999,
    ensures
        ({
            let moved = time + offset_ms * 1_000_000;
            &&& moved < 0 ==> adjusted_time(time, offset_ms) == 0
            &&& 0 <= moved <= 18_446_744_073_709_551_615_999_999_999 ==> adjusted_time(
                time,
                offset_ms,
            ) == moved
            &&& moved > 18_446_744_073_709_551_615_999_999_999 ==> adjusted_time(time, offset_ms)
                == 18_446_744_073_709_551_615_999_999_999
        }),
{
}

// ---------------------------------------------------------------------------
// LRC
// ---------------------------------------------------------------------------

/// A lyrics line with nothing but a time and a text.
pub open spec fn bare_line(position: nat, content: Seq<char>) -> LineModel {
    LineModel { position, content, translation: None, words: None }
}

/// One line for each stamp, all with the same text.
pub open spec fn lines_at(items: Seq<Stamped>, content: Seq<char>) -> Seq<LineModel> {
    items.map_values(|i: Stamped| bare_line(says(i.tag), content))
}

/// A line with time tags anywhere in it stands for its text without them, at
/// each of the times that they say.
pub proof fn law_stamped_line(text: Seq<char>, items: Seq<Stamped>)
    requires
        stampless(text, square()),
        well_written(items, square()),
        text.len() > 0 ==> text[0] != '[',
        trimmed(text + run(items, square())) == text + run(items, square()),
        !(text + run(items, square())).contains('\n'),
    ensures
        lrc_lyrics(text + run(items, square())).lines.to_multiset() == lines_at(
            items,
            trimmed(text + run_text(items)),
        ).to_multiset(),
{
    let line = text + run(items, square());
    law_stamps_read(text, items, square());
    lemma_one_piece(line, '\n');
    if text.len() == 0 && items.len() > 0 {
        super::stamped::lemma_written_read(
            Seq::empty(),
            items[0].tag,
            items[0].text + run(items.skip(1), square()),
            square(),
        );
        assert(line =~= Seq::<char>::empty() + written(items[0].tag, square()) + (items[0].text
            + run(items.skip(1), square())));
    } else if text.len() > 0 {
        assert(line[0] == text[0]);
    }
    assert(meta_of(line) is None);
    let raw = seq![line];
    assert(raw.drop_last() =~= Seq::empty());
    reveal_with_fuel(with_lines, 2);
    let content = trimmed(text + run_text(items));
    assert(timed_lines(line) =~= lines_at(items, content));
    let all = with_lines(raw).lines;
    assert(all =~= timed_lines(line));
    law_ordered(all, by_position());
}

/// A line without a time tag stands for no lyrics line, and an empty text for
/// none at all.
pub proof fn law_untimed_line(line: Seq<char>)
    requires
        stampless(trimmed(line), square()),
    ensures
        with_lines(seq![line]).lines.len() == 0,
        lrc_lyrics(Seq::empty()).lines.len() == 0,
{
    assert(seq![line].drop_last() =~= Seq::empty());
    reveal_with_fuel(with_lines, 2);
    crate::lyrics::laws::lemma_no_stamps(trimmed(line), 0, square());
    let none = Seq::<char>::empty();
    assert(pieces(none, '\n') =~= seq![none]);
    assert(seq![none].drop_last() =~= Seq::<Seq<char>>::empty());
    assert(trimmed(none) =~= none);
    assert(stamp_times(none, 0, square()) =~= Seq::empty());
    assert(with_lines(seq![none]).lines.len() == 0);
    law_ordered(with_lines(pieces(none, '\n')).lines, by_position());
}

/// A text below another adds its lines to those of the other.
pub proof fn law_texts_below(a: Seq<char>, b: Seq<char>)
    ensures
        lrc_lyrics(a.push('\n') + b).lines.to_multiset() == lrc_lyrics(a).lines.to_multiset().add(
            lrc_lyrics(b).lines.to_multiset(),
        ),
        lrc_lyrics(a.push('\n') + b).metadata.title == (if lrc_lyrics(b).metadata.title is Some {
            lrc_lyrics(b).metadata.title
        } else {
            lrc_lyrics(a).metadata.title
        }),
        lrc_lyrics(a.push('\n') + b).metadata.artist == (if lrc_lyrics(b).metadata.artist is Some {
            lrc_lyrics(b).metadata.artist
        } else {
            lrc_lyrics(a).metadata.artist
        }),
        lrc_lyrics(a.push('\n') + b).metadata.album == (if lrc_lyrics(b).metadata.album is Some {
            lrc_lyrics(b).metadata.album
        } else {
            lrc_lyrics(a).metadata.album
        }),
        lrc_lyrics(b).offset_ms != 0 ==> lrc_lyrics(a.push('\n') + b).offset_ms == lrc_lyrics(
            b,
        ).offset_ms,
{
    broadcast use vstd::seq_lib::group_to_multiset_ensures;

    let x = pieces(a, '\n');
    let y = pieces(b, '\n');
    law_pieces_below(a, b, '\n');
    law_lines_below(x, y);
    lemma_metadata_below(x, y);
    law_ordered(with_lines(x).lines, by_position());
    law_ordered(with_lines(y).lines, by_position());
    law_ordered(with_lines(x + y).lines, by_position());
    vstd::seq_lib::lemma_multiset_commutative(with_lines(x).lines, with_lines(y).lines);
}

proof fn lemma_metadata_below(x: Seq<Seq<char>>, y: Seq<Seq<char>>)
    ensures
        with_lines(x + y).title == (if with_lines(y).title is Some {
            with_lines(y).title
        } else {
            with_lines(x).title
        }),
        with_lines(x + y).artist == (if with_lines(y).artist is Some {
            with_lines(y).artist
        } else {
            with_lines(x).artist
        }),
        with_lines(x + y).album == (if with_lines(y).album is Some {
            with_lines(y).album
        } else {
            with_lines(x).album
        }),
        with_lines(y).offset_ms != 0 ==> with_lines(x + y).offset_ms == with_lines(y).offset_ms,
    decreases y.len(),
{
    if y.len() == 0 {
        assert(x + y =~= x);
    } else {
        lemma_metadata_below(x, y.drop_last());
        assert((x + y).drop_last() =~= x + y.drop_last());
        assert((x + y).last() == y.last());
    }
}

/// A line with a time tag at its start leaves title, artist, album and offset
/// as they were; a metadata tag leaves the lyrics lines as they were.
pub proof fn law_lines_and_tags_apart(raw: Seq<Seq<char>>, line: Seq<char>)
    ensures
        stamp_len(trimmed(line), 0, square()) > 0 ==> {
            &&& with_lines(raw.push(line)).title == with_lines(raw).title
            &&& with_lines(raw.push(line)).artist == with_lines(raw).artist
            &&& with_lines(raw.push(line)).album == with_lines(raw).album
            &&& with_lines(raw.push(line)).offset_ms == with_lines(raw).offset_ms
        },
        meta_of(trimmed(line)) is Some ==> with_lines(raw.push(line)).lines == with_lines(raw).lines,
{
    assert(raw.push(line).drop_last() =~= raw);
}

/// The text of a metadata tag.
pub open spec fn tag_text(key: Seq<char>, value: Seq<char>) -> Seq<char> {
    seq!['['] + key + seq![':'] + value + seq![']']
}

/// A metadata tag for the title gives the title, and so for the artist and the
/// album, whatever the value and the case of the key; nothing else is set.
pub proof fn law_metadata_tags(key: Seq<char>, value: Seq<char>)
    requires
        key.len() > 0,
        forall|k: int| 0 <= k < key.len() ==> is_word(#[trigger] key[k]),
        value.len() > 0,
        !value.contains('\n'),
        stamp_len(tag_text(key, value), 0, square()) == 0,
    ensures
        ({
            let l = lrc_lyrics(tag_text(key, value));
            let low = lowercased(key);
            &&& l.metadata.title == (if low == seq!['t', 'i'] {
                Some(trimmed(value))
            } else {
                None
            })
            &&& l.metadata.artist == (if low == seq!['a', 'r'] {
                Some(trimmed(value))
            } else {
                None
            })
            &&& l.metadata.album == (if low == seq!['a', 'l'] {
                Some(trimmed(value))
            } else {
                None
            })
            &&& low != seq!['o', 'f', 'f', 's', 'e', 't'] ==> l.offset_ms == 0
            &&& l.lines.len() == 0
        }),
{
    law_meta_tag(key, value);
    reveal_strlit("ti");
    reveal_strlit("ar");
    reveal_strlit("al");
    reveal_strlit("offset");
    assert("ti"@ =~= seq!['t', 'i']);
    assert("ar"@ =~= seq!['a', 'r']);
    assert("al"@ =~= seq!['a', 'l']);
    assert("offset"@ =~= seq!['o', 'f', 'f', 's', 'e', 't']);
    assert("ti"@.len() == 2 && "ar"@.len() == 2 && "al"@.len() == 2 && "offset"@.len() == 6);
    assert("ti"@[0] != "ar"@[0] && "ti"@[0] != "al"@[0] && "ar"@[1] != "al"@[1]);
    law_ordered(with_lines(pieces(tag_text(key, value), '\n')).lines, by_position());
}

/// An offset tag with a written number sets the offset to that number.
pub proof fn law_offset_tag(key: Seq<char>, n: i64)
    requires
        key.len() > 0,
        forall|k: int| 0 <= k < key.len() ==> is_word(#[trigger] key[k]),
        lowercased(key) == seq!['o', 'f', 'f', 's', 'e', 't'],
        stamp_len(tag_text(key, signed_decimal(n as int)), 0, square()) == 0,
    ensures
        lrc_lyrics(tag_text(key, signed_decimal(n as int))).offset_ms == n,
{
    let value = signed_decimal(n as int);
    let m = if n < 0 {
        (-(n as int)) as nat
    } else {
        n as nat
    };
    law_decimal(m);
    let d = crate::text::decimal(m);
    assert forall|k: int| 0 <= k < value.len() implies !is_white_space(#[trigger] value[k])
        && value[k] != '\n' by {
        if n < 0 && k > 0 {
            assert(value[k] == d[k - 1]);
            assert(is_ascii_digit(d[k - 1]));
        } else if n >= 0 {
            assert(is_ascii_digit(d[k]));
        }
    }
    assert(!is_white_space(value[0]) && !is_white_space(value[value.len() - 1]));
    lemma_trimmed_id(value);
    law_signed_read_back(n);
    law_meta_tag(key, value);
    reveal_strlit("ti");
    reveal_strlit("ar");
    reveal_strlit("al");
    reveal_strlit("offset");
    assert("offset"@ =~= seq!['o', 'f', 'f', 's', 'e', 't']);
    assert("ti"@.len() == 2 && "ar"@.len() == 2 && "al"@.len() == 2 && "offset"@.len() == 6);
}

// ---------------------------------------------------------------------------
// Timed words
// ---------------------------------------------------------------------------

/// The number of texts among the first `n` that are not blank.
pub open spec fn visible(items: Seq<Stamped>, n: int) -> int
    decreases n,
{
    if n <= 0 {
        0
    } else {
        visible(items, n - 1) + if trimmed(items[n - 1].text).len() > 0 {
            1int
        } else {
            0
        }
    }
}

/// How long word `i` lasts: until the next, or half a second for the last.
pub open spec fn lasts(items: Seq<Stamped>, i: int) -> nat {
    if i + 1 >= items.len() {
        500_000_000
    } else if says(items[i + 1].tag) >= says(items[i].tag) {
        (says(items[i + 1].tag) - says(items[i].tag)) as nat
    } else {
        0
    }
}

proof fn lemma_words(items: Seq<Stamped>, lead: Seq<char>, position: nat, n: int)
    requires
        0 <= n <= items.len(),
    ensures
        ({
            let ws = words_of(run_times(items), seq![lead] + run_texts(items), position, n);
            &&& ws.len() == visible(items, n)
            &&& forall|i: int|
                0 <= i < n && trimmed((#[trigger] items[i]).text).len() > 0 ==> {
                    let w = ws[visible(items, i)];
                    &&& 0 <= visible(items, i) < ws.len()
                    &&& w.word == trimmed(items[i].text)
                    &&& says(items[i].tag) >= position ==> position + w.offset == says(items[i].tag)
                    &&& says(items[i].tag) < position ==> w.offset == 0
                    &&& w.duration == lasts(items, i)
                }
        }),
    decreases n,
{
    if n > 0 {
        lemma_words(items, lead, position, n - 1);
        let times = run_times(items);
        let parts = seq![lead] + run_texts(items);
        assert(parts[n] == items[n - 1].text);
        assert(times[n - 1] == says(items[n - 1].tag));
        if n < items.len() {
            assert(times[n] == says(items[n].tag));
        }
        let before = words_of(times, parts, position, n - 1);
        let ws = words_of(times, parts, position, n);
        assert forall|i: int|
            0 <= i < n && trimmed((#[trigger] items[i]).text).len() > 0 implies {
            let w = ws[visible(items, i)];
            &&& 0 <= visible(items, i) < ws.len()
            &&& w.word == trimmed(items[i].text)
            &&& says(items[i].tag) >= position ==> position + w.offset == says(items[i].tag)
            &&& says(items[i].tag) < position ==> w.offset == 0
            &&& w.duration == lasts(items, i)
        } by {
            if i < n - 1 {
                assert(ws[visible(items, i)] == before[visible(items, i)]);
            }
        }
    }
}

/// The timed words of a line are those whose texts are not blank, in order.
/// Each has its text without surrounding white space, starts as long after the
/// line as its stamp says, and lasts until the next stamp, or half a second.
/// The line keeps its time and translation, and its text has no stamps left.
pub proof fn law_timed_words(line: LineModel, lead: Seq<char>, items: Seq<Stamped>)
    requires
        line.content == lead + run(items, angle()),
        stampless(lead, angle()),
        well_written(items, angle()),
        visible(items, items.len() as int) > 0,
    ensures
        ({
            let after = with_words(line);
            let ws = after.words->0;
            &&& after.words is Some
            &&& ws.len() == visible(items, items.len() as int)
            &&& forall|i: int|
                0 <= i < items.len() && trimmed((#[trigger] items[i]).text).len() > 0 ==> {
                    let w = ws[visible(items, i)];
                    &&& 0 <= visible(items, i) < ws.len()
                    &&& w.word == trimmed(items[i].text)
                    &&& says(items[i].tag) >= line.position ==> line.position + w.offset == says(
                        items[i].tag,
                    )
                    &&& says(items[i].tag) < line.position ==> w.offset == 0
                    &&& w.duration == lasts(items, i)
                }
            &&& after.content == trimmed(lead + run_text(items))
            &&& after.position == line.position
            &&& after.translation == line.translation
        }),
{
    law_stamps_read(lead, items, angle());
    lemma_words(items, lead, line.position, items.len() as int);
}

/// A line without timed words that are not blank stays as it is.
pub proof fn law_no_timed_words(line: LineModel, lead: Seq<char>, items: Seq<Stamped>)
    requires
        line.content == lead + run(items, angle()),
        stampless(lead, angle()),
        well_written(items, angle()),
        visible(items, items.len() as int) == 0,
    ensures
        with_words(line) == line,
{
    law_stamps_read(lead, items, angle());
    lemma_words(items, lead, line.position, items.len() as int);
}

proof fn lemma_all_visible(items: Seq<Stamped>, n: int)
    requires
        0 <= n <= items.len(),
        forall|k: int| 0 <= k < items.len() ==> trimmed((#[trigger] items[k]).text).len() > 0,
    ensures
        visible(items, n) == n,
    decreases n,
{
    if n > 0 {
        lemma_all_visible(items, n - 1);
        assert(trimmed(items[n - 1].text).len() > 0);
    }
}

proof fn lemma_written_text(tag: TimeTag)
    ensures
        tag.text() == written(tag, square()),
        tag.time() == says(tag),
{
    reveal(TimeTag::text);
    reveal(written);
    assert(tag.text() =~= written(tag, square()));
}

/// A text without surrounding white space has none at its end.
proof fn lemma_trimmed_has_no_end(content: Seq<char>)
    requires
        trimmed(content) == content,
    ensures
        trimmed_end(content) == content,
{
    super::text::law_trimmed(content);
    if content.len() > 0 {
        assert(!is_white_space(content.last()));
    }
}

/// A line with one time tag and a text behind it.
proof fn lemma_one_tag(tag: TimeTag, content: Seq<char>)
    requires
        tag.valid(),
        stampless(content, square()),
        !content.contains('\n'),
        trimmed(content) == content,
    ensures
        ({
            let s = written(tag, square()) + content;
            &&& pieces(s, '\n') == seq![s]
            &&& trimmed(s) == s
            &&& meta_of(s) is None
            &&& timed_lines(s) == seq![bare_line(says(tag), content)]
        }),
{
    let s = written(tag, square()) + content;
    let tags = seq![tag];
    lemma_written_text(tag);
    assert(tags.skip(1) =~= Seq::empty());
    assert(tags_text(tags.skip(1)) =~= Seq::empty());
    assert(tags_text(tags) =~= tag.text());
    lemma_tags_text(tags);
    lemma_tagged_line(tags, content);
    lemma_free_sum(tag.text(), content, '\n');
    lemma_one_piece(s, '\n');
    lemma_trimmed_has_no_end(content);
    assert(trimmed(s) == s);
    assert(timed_lines(s) =~= seq![bare_line(says(tag), content)]);
}

/// A line of an LRCX text on its own, with one time tag.
proof fn lemma_lrcx_line(tag: TimeTag, content: Seq<char>)
    requires
        tag.valid(),
        stampless(content, square()),
        !content.contains('\n'),
        trimmed(content) == content,
        translation_from(written(tag, square()) + content, 0) is None,
    ensures
        ({
            let read = lrcx_lyrics(written(tag, square()) + content);
            read is Some && read->0.lines == seq![with_words(bare_line(says(tag), content))]
        }),
{
    lemma_one_tag(tag, content);
    lemma_lrcx_piece(written(tag, square()) + content, bare_line(says(tag), content));
}

/// A text of one line, without translation, that stands for one lyrics line.
proof fn lemma_lrcx_piece(s: Seq<char>, one: LineModel)
    requires
        pieces(s, '\n') == seq![s],
        trimmed(s) == s,
        meta_of(s) is None,
        translation_from(s, 0) is None,
        timed_lines(s) == seq![one],
    ensures
        lrcx_lyrics(s) is Some,
        lrcx_lyrics(s)->0.lines == seq![with_words(one)],
{
    let raw = seq![s];
    assert(raw.drop_last() =~= Seq::empty());
    reveal_with_fuel(translations_in, 2);
    reveal_with_fuel(without_translation_lines, 2);
    reveal_with_fuel(with_lines, 2);
    let none = Seq::<(nat, Seq<char>)>::empty();
    assert(translations_in(raw) == Some(none));
    assert(without_translation_lines(raw) =~= raw);
    let lines = with_lines(raw).lines;
    assert(lines =~= seq![one]);
    assert(lines.drop_last() =~= Seq::empty());
    reveal_with_fuel(ordered, 2);
    assert(ordered(lines, by_position()) =~= lines);
    assert(with_translations(lines, none) == lines);
    let all = lines.map_values(|l: LineModel| with_words(l));
    assert(all =~= seq![with_words(one)]);
    crate::lyrics::laws::lemma_kept_all(all);
}

/// An LRCX line `[t]<t1>w1 <t2>w2 ...` with the times in order is read as a line
/// at `t` whose `k`th word is `wk`, starts at `tk` and lasts until the next; the
/// last one lasts half a second.
pub proof fn law_lrcx_words(tag: TimeTag, lead: Seq<char>, items: Seq<Stamped>)
    requires
        tag.valid(),
        items.len() > 0,
        stampless(lead, angle()),
        well_written(items, angle()),
        forall|k: int| 0 <= k < items.len() ==> trimmed((#[trigger] items[k]).text).len() > 0,
        forall|k: int| 0 <= k < items.len() ==> says(tag) <= says((#[trigger] items[k]).tag),
        ({
            let content = lead + run(items, angle());
            &&& stampless(content, square())
            &&& !content.contains('\n')
            &&& trimmed(content) == content
            &&& translation_from(written(tag, square()) + content, 0) is None
        }),
    ensures
        ({
            let read = lrcx_lyrics(written(tag, square()) + lead + run(items, angle()));
            let line = read->0.lines[0];
            let ws = line.words->0;
            &&& read is Some && read->0.lines.len() == 1
            &&& line.position == says(tag)
            &&& line.content == trimmed(lead + run_text(items))
            &&& line.translation is None
            &&& line.words is Some && ws.len() == items.len()
            &&& forall|k: int|
                0 <= k < items.len() ==> {
                    let w = #[trigger] ws[k];
                    &&& w.word == trimmed(items[k].text)
                    &&& says(tag) + w.offset == says(items[k].tag)
                    &&& w.duration == lasts(items, k)
                }
        }),
{
    let content = lead + run(items, angle());
    let one = bare_line(says(tag), content);
    assert(written(tag, square()) + lead + run(items, angle()) =~= written(tag, square())
        + content);
    lemma_lrcx_line(tag, content);
    lemma_all_visible(items, items.len() as int);
    law_timed_words(one, lead, items);
    let ws = with_words(one).words->0;
    assert forall|k: int| 0 <= k < items.len() implies {
        let w = #[trigger] ws[k];
        &&& w.word == trimmed(items[k].text)
        &&& says(tag) + w.offset == says(items[k].tag)
        &&& w.duration == lasts(items, k)
    } by {
        lemma_all_visible(items, k);
        assert(trimmed(items[k].text).len() > 0);
        assert(says(tag) <= says(items[k].tag));
    }
}

// ---------------------------------------------------------------------------
// Lines in any order
// ---------------------------------------------------------------------------

proof fn lemma_boundary(lines: Seq<LineModel>, t: nat, low: int, high: int)
    requires
        0 <= low <= high <= lines.len(),
        low > 0 ==> lines[low - 1].position <= t,
        high < lines.len() ==> lines[high].position > t,
    ensures
        ({
            let k = search_started(lines, t, low, high);
            &&& 0 <= k <= lines.len()
            &&& k > 0 ==> lines[k - 1].position <= t
            &&& k < lines.len() ==> lines[k].position > t
        }),
    decreases high - low,
{
    if low < high {
        let mid = low + (high - low) / 2;
        if lines[mid].position <= t {
            lemma_boundary(lines, t, mid + 1, high);
        } else {
            lemma_boundary(lines, t, low, mid);
        }
    }
}

/// Whatever the order of the lines, the current line has started, the line
/// behind it is the next one, and that one has not.
pub proof fn law_lookup_boundary(lines: Seq<LineModel>, t: nat)
    requires
        lines.len() <= usize::MAX,
    ensures
        ({
            let (current, next) = lines_found(lines, t);
            &&& current matches Some(i) ==> i < lines.len() && lines[i as int].position <= t
            &&& next matches Some(n) ==> n < lines.len() && lines[n as int].position > t
            &&& current matches Some(i) ==> (i + 1 < lines.len() ==> next == Some((i + 1) as usize))
            &&& current matches Some(i) ==> (i + 1 == lines.len() ==> next is None)
            &&& current is None && lines.len() > 0 ==> next == Some(0usize)
            &&& lines.len() == 0 ==> current is None && next is None
        }),
{
    lemma_boundary(lines, t, 0, lines.len() as int);
}

/// Whatever the order of the lines, the wait is for the next one: its time less
/// the offset and the time of playback.
pub proof fn law_wait(lines: Seq<LineModel>, time: nat, offset_ms: i64)
    requires
        lines.len() <= usize::MAX,
    ensures
        match lines_found(lines, adjusted_time(time, offset_ms)).1 {
            Some(n) => {
                let left = lines[n as int].position - offset_ms * 1_000_000 - time;
                &&& left <= 0 ==> wait_for(lines, time, offset_ms) == Some(0nat)
                &&& 0 < left <= 18_446_744_073_709_551_615_999_999_999 ==> wait_for(
                    lines,
                    time,
                    offset_ms,
                ) == Some(left as nat)
            },
            None => wait_for(lines, time, offset_ms) is None,
        },
{
}

/// The timed words up to the next part of a line: one more where that part is
/// not blank, with its offset from the line and the time up to the next stamp.
pub proof fn law_next_word(times: Seq<nat>, parts: Seq<Seq<char>>, position: nat, n: int)
    requires
        0 < n <= times.len(),
        n < parts.len(),
    ensures
        ({
            let before = words_of(times, parts, position, n - 1);
            let after = words_of(times, parts, position, n);
            let w = after.last();
            &&& trimmed(parts[n]).len() == 0 ==> after == before
            &&& trimmed(parts[n]).len() > 0 ==> {
                &&& after.len() == before.len() + 1
                &&& after.drop_last() == before
                &&& w.word == trimmed(parts[n])
                &&& times[n - 1] >= position ==> w.offset == times[n - 1] - position
                &&& times[n - 1] < position ==> w.offset == 0
                &&& n == times.len() ==> w.duration == 500_000_000
                &&& n < times.len() && times[n] >= times[n - 1] ==> w.duration == times[n] - times[n
                    - 1]
                &&& n < times.len() && times[n] < times[n - 1] ==> w.duration == 0
            }
            &&& words_of(times, parts, position, 0).len() == 0
        }),
{
    assert(words_of(times, parts, position, n - 1).push(
        words_of(times, parts, position, n).last(),
    ).drop_last() =~= words_of(times, parts, position, n - 1));
}

/// The words of a line are read from its text, and the line has them where
/// there are some.
pub proof fn law_words_of_line(line: LineModel)
    ensures
        ({
            let times = stamp_times(line.content, 0, angle());
            let ws = words_of(
                times,
                stamp_parts(line.content, 0, angle()),
                line.position,
                times.len() as int,
            );
            &&& ws.len() == 0 ==> with_words(line) == line
            &&& ws.len() > 0 ==> with_words(line) == (LineModel {
                content: trimmed(unstamped(line.content, 0, angle())),
                words: Some(ws),
                ..line
            })
        }),
{
}

} // verus!
