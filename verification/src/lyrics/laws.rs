//! What holds of all lyrics texts and of every lookup in them.
use super::lrc::{
    lrc_lyrics, meta_of, nothing_read, plain_line, repeated, timed_lines, with_lines, with_meta,
    word_end,
};
use super::lrcx::{
    first_at, is_translation_line, kept_lines, line_words, lrcx_lyrics, translated_at,
    translation_from, translation_tag_end, translations_in, untranslated, with_translations,
    with_words, without_translation_lines, words_of,
};
use super::stamp::{
    angle, is_decimal, is_word, lemma_stamp_parts, prefixed, square, stamp_len, stamp_millis,
    stamp_parts, stamp_times, unstamped, Brackets,
};
use super::{
    adjusted_time, by_position, in_order, lemma_started_count, lines_found, shown_from,
    split_at_time, started_count, wait_for, LineModel,
};
use crate::order::{law_ordered, law_ordered_stable, lemma_same_elements, ordered, with_key};
use crate::text::{
    digit_char, digit_value, has_part, is_ascii_digit, is_white_space, lemma_trimmed_blank,
    lemma_trimmed_either_way, lemma_trimmed_end_of_sum, lemma_trimmed_id, lowercased, occurs_at,
    pieces, trimmed, trimmed_end, trimmed_start,
};
use crate::time::{MAX_NANOS, NANOS_PER_MILLI};
use vstd::prelude::*;

verus! {

// ---------------------------------------------------------------------------
// Lookup
// ---------------------------------------------------------------------------

/// Lines in order are split by every point in time.
pub proof fn lemma_in_order_splits(lines: Seq<LineModel>, t: nat)
    requires
        in_order(lines),
    ensures
        split_at_time(lines, t),
{
    assert forall|i: int, j: int|
        0 <= i <= j < lines.len() && (#[trigger] lines[j]).position <= t implies (
    #[trigger] lines[i]).position <= t by {
        assert(by_position()(lines[i]) <= by_position()(lines[j]));
    }
}

/// Of lines in order, the current line is the last that has started, the next
/// line is the first that has not, and the two are neighbours.
pub proof fn law_lookup(lines: Seq<LineModel>, t: nat)
    requires
        in_order(lines),
        lines.len() <= usize::MAX,
    ensures
        ({
            let found = lines_found(lines, t);
            &&& found.0 matches Some(i) ==> i < lines.len() && lines[i as int].position <= t
                && forall|j: int| i < j < lines.len() ==> (#[trigger] lines[j]).position > t
            &&& found.0 is None ==> forall|j: int|
                0 <= j < lines.len() ==> (#[trigger] lines[j]).position > t
            &&& found.1 matches Some(i) ==> i < lines.len() && lines[i as int].position > t
                && forall|j: int| 0 <= j < i ==> (#[trigger] lines[j]).position <= t
            &&& found.1 is None ==> forall|j: int|
                0 <= j < lines.len() ==> (#[trigger] lines[j]).position <= t
            &&& found.0 matches Some(i) ==> found.1 == (if i + 1 < lines.len() {
                Some((i + 1) as usize)
            } else {
                None
            })
            &&& found.0 is None && lines.len() > 0 ==> found.1 == Some(0usize)
        }),
{
    lemma_in_order_splits(lines, t);
    lemma_started_count(lines, t);
}

/// As time goes on, no line that has started becomes one that has not.
pub proof fn law_lookup_advances(lines: Seq<LineModel>, t: nat, u: nat)
    requires
        in_order(lines),
        t <= u,
    ensures
        started_count(lines, t) <= started_count(lines, u),
{
    lemma_in_order_splits(lines, t);
    lemma_in_order_splits(lines, u);
    lemma_started_count(lines, t);
    lemma_started_count(lines, u);
    let n = started_count(lines, u);
    if n < started_count(lines, t) {
        assert(lines[n].position <= t);
    }
}

/// A larger offset shows lyrics earlier: at any playback time no fewer lines
/// have started.
pub proof fn law_offset_direction(lines: Seq<LineModel>, time: nat, a: i64, b: i64)
    requires
        in_order(lines),
        time <= MAX_NANOS,
        a <= b,
    ensures
        adjusted_time(time, a) <= adjusted_time(time, b),
        started_count(lines, adjusted_time(time, a)) <= started_count(
            lines,
            adjusted_time(time, b),
        ),
{
    assert(adjusted_time(time, a) <= adjusted_time(time, b));
    law_lookup_advances(lines, adjusted_time(time, a), adjusted_time(time, b));
}

/// Waiting for the next line takes some time, and after exactly that time the
/// line has started, whatever the offset. The time must fit in a span.
pub proof fn law_wait_reaches_next_line(lines: Seq<LineModel>, time: nat, offset_ms: i64)
    requires
        in_order(lines),
        lines.len() <= usize::MAX,
        forall|i: int| 0 <= i < lines.len() ==> (#[trigger] lines[i]).position <= MAX_NANOS,
        time <= MAX_NANOS,
        lines_found(lines, adjusted_time(time, offset_ms)).1 matches Some(i) ==> shown_from(
            lines[i as int].position,
            offset_ms,
        ) - time <= MAX_NANOS,
    ensures
        lines_found(lines, adjusted_time(time, offset_ms)).1 matches Some(i) ==> wait_for(
            lines,
            time,
            offset_ms,
        )->0 > 0 && started_count(
            lines,
            adjusted_time(time + wait_for(lines, time, offset_ms)->0, offset_ms),
        ) > i,
{
    let t = adjusted_time(time, offset_ms);
    law_lookup(lines, t);
    if let Some(next) = lines_found(lines, t).1 {
        let i = next as int;
        let later = adjusted_time(time + wait_for(lines, time, offset_ms)->0, offset_ms);
        assert(lines[i].position <= MAX_NANOS);
        assert(later >= lines[i].position);
        lemma_in_order_splits(lines, later);
        lemma_started_count(lines, later);
    }
}

/// Until the next line is due nothing changes: at any time before, the lookup
/// gives the same two lines.
pub proof fn law_no_change_before(lines: Seq<LineModel>, time: nat, offset_ms: i64, part: nat)
    requires
        in_order(lines),
        lines.len() <= usize::MAX,
        forall|i: int| 0 <= i < lines.len() ==> (#[trigger] lines[i]).position <= MAX_NANOS,
        time <= MAX_NANOS,
        wait_for(lines, time, offset_ms) matches Some(wait) && part < wait,
    ensures
        lines_found(lines, adjusted_time(time + part, offset_ms)) == lines_found(
            lines,
            adjusted_time(time, offset_ms),
        ),
{
    let t = adjusted_time(time, offset_ms);
    let u = adjusted_time(time + part, offset_ms);
    law_lookup(lines, t);
    let i = lines_found(lines, t).1->0 as int;
    assert(lines[i].position <= MAX_NANOS);
    assert(t <= u < lines[i].position);
    lemma_in_order_splits(lines, u);
    lemma_started_count(lines, t);
    lemma_started_count(lines, u);
    law_lookup_advances(lines, t, u);
    let n = started_count(lines, u);
    assert(started_count(lines, t) == i);
    if n > i {
        assert(lines[i].position <= u);
    }
}

/// A playback time moved by an offset, not below the start.
pub open spec fn moved_by(time: nat, offset_ms: i64) -> nat {
    if time + offset_ms * NANOS_PER_MILLI >= 0 {
        (time + offset_ms * NANOS_PER_MILLI) as nat
    } else {
        0
    }
}

/// A lookup with an offset is the lookup without one at the time moved by it,
/// whatever the lines: a positive offset shows lines earlier, a negative one
/// later.
pub proof fn law_offset_moves_lookup(lines: Seq<LineModel>, time: nat, offset_ms: i64)
    requires
        moved_by(time, offset_ms) <= MAX_NANOS,
    ensures
        lines_found(lines, adjusted_time(time, offset_ms)) == lines_found(
            lines,
            adjusted_time(moved_by(time, offset_ms), 0),
        ),
{
    assert(adjusted_time(time, offset_ms) == adjusted_time(moved_by(time, offset_ms), 0));
}

// ---------------------------------------------------------------------------
// LRC
// ---------------------------------------------------------------------------

/// The lines of a parsed text stand in order of their times.
pub proof fn law_lrc_in_order(input: Seq<char>)
    ensures
        in_order(lrc_lyrics(input).lines),
{
    law_ordered(with_lines(pieces(input, '\n')).lines, by_position());
}

/// Lines of a parsed text that start at the same time keep the order in which
/// they stand in the text.
pub proof fn law_lrc_stable(input: Seq<char>, t: nat)
    ensures
        with_key(lrc_lyrics(input).lines, by_position(), t as int) == with_key(
            with_lines(pieces(input, '\n')).lines,
            by_position(),
            t as int,
        ),
{
    law_ordered_stable(with_lines(pieces(input, '\n')).lines, by_position(), t as int);
}

/// Whether a line is as a time tag gives it: at a time that two digits of
/// minutes and seconds can write, not translated, without timed words.
pub open spec fn plain_and_timed(l: LineModel) -> bool {
    l.position <= 6_039_999 * NANOS_PER_MILLI && l.translation is None
        && l.words is None
}

proof fn lemma_stamp_times_bounded(s: Seq<char>, i: int, b: Brackets)
    ensures
        forall|k: int|
            0 <= k < stamp_times(s, i, b).len() ==> #[trigger] stamp_times(s, i, b)[k] <= 6_039_999
                * NANOS_PER_MILLI,
    decreases s.len() - i,
{
    if i < s.len() {
        let len = stamp_len(s, i, b);
        if len > 0 {
            lemma_stamp_times_bounded(s, i + len, b);
            let rest = stamp_times(s, i + len, b);
            let all = stamp_times(s, i, b);
            match stamp_millis(s, i, len) {
                Some(ms) => {
                    assert(ms <= 6_039_999);
                    assert(all == seq![ms * NANOS_PER_MILLI as nat] + rest);
                    assert forall|k: int| 0 <= k < all.len() implies #[trigger] all[k] <= 6_039_999
                        * NANOS_PER_MILLI by {
                        if k > 0 {
                            assert(all[k] == rest[k - 1]);
                        }
                    }
                },
                None => {
                    assert(all == rest);
                },
            }
        } else {
            lemma_stamp_times_bounded(s, i + 1, b);
            assert(stamp_times(s, i, b) == stamp_times(s, i + 1, b));
        }
    } else {
        assert(stamp_times(s, i, b).len() == 0);
    }
}

proof fn lemma_with_lines(raw: Seq<Seq<char>>)
    ensures
        forall|k: int|
            0 <= k < with_lines(raw).lines.len() ==> plain_and_timed(
                #[trigger] with_lines(raw).lines[k],
            ),
    decreases raw.len(),
{
    if raw.len() > 0 {
        lemma_with_lines(raw.drop_last());
        lemma_stamp_times_bounded(trimmed(raw.last()), 0, square());
    }
}

/// Every line of a parsed text has a time below 100 minutes and 40 seconds, no
/// translation and no timed words.
pub proof fn law_lrc_lines(input: Seq<char>)
    ensures
        forall|k: int|
            0 <= k < lrc_lyrics(input).lines.len() ==> plain_and_timed(
                #[trigger] lrc_lyrics(input).lines[k],
            ),
{
    let all = with_lines(pieces(input, '\n')).lines;
    lemma_with_lines(pieces(input, '\n'));
    law_ordered(all, by_position());
    assert forall|k: int| 0 <= k < lrc_lyrics(input).lines.len() implies plain_and_timed(
        #[trigger] lrc_lyrics(input).lines[k],
    ) by {
        lemma_same_elements(lrc_lyrics(input).lines, all, k);
    }
}

/// A time tag: minutes, seconds, and hundredths or thousandths of a second.
pub struct TimeTag {
    pub minutes: nat,
    pub seconds: nat,
    pub fraction: nat,
    pub thousandths: bool,
}

impl TimeTag {
    /// Whether each number fits in its digits.
    pub open spec fn valid(self) -> bool {
        self.minutes < 100 && self.seconds < 100 && self.fraction < if self.thousandths {
            1000nat
        } else {
            100nat
        }
    }

    /// The tag as it is written: `[mm:ss.xx]` or `[mm:ss.xxx]`.
    #[verifier::opaque]
    pub open spec fn text(self) -> Seq<char> {
        let head = seq![
            '[',
            digit_char(self.minutes / 10),
            digit_char(self.minutes % 10),
            ':',
            digit_char(self.seconds / 10),
            digit_char(self.seconds % 10),
            '.',
        ];
        if self.thousandths {
            head + seq![
                digit_char(self.fraction / 100),
                digit_char(self.fraction / 10 % 10),
                digit_char(self.fraction % 10),
                ']',
            ]
        } else {
            head + seq![digit_char(self.fraction / 10), digit_char(self.fraction % 10), ']']
        }
    }

    /// The time that the tag stands for, in nanoseconds.
    pub open spec fn time(self) -> nat {
        (self.minutes * 60_000 + self.seconds * 1_000 + if self.thousandths {
            self.fraction
        } else {
            self.fraction * 10
        }) * NANOS_PER_MILLI as nat
    }
}

/// Tags one after the other.
pub open spec fn tags_text(tags: Seq<TimeTag>) -> Seq<char>
    decreases tags.len(),
{
    if tags.len() == 0 {
        Seq::empty()
    } else {
        tags[0].text() + tags_text(tags.skip(1))
    }
}

pub proof fn lemma_digit_char(d: nat)
    requires
        d < 10,
    ensures
        is_ascii_digit(digit_char(d)),
        is_decimal(digit_char(d)),
        digit_value(digit_char(d)) == d,
        digit_char(d) != '\n',
        digit_char(d) != '[',
        digit_char(d) != ']',
{
}

/// A tag is read where it stands.
pub proof fn lemma_tag_read(s: Seq<char>, i: int, tag: TimeTag)
    requires
        tag.valid(),
        occurs_at(s, tag.text(), i),
    ensures
        stamp_len(s, i, square()) == tag.text().len(),
        stamp_millis(s, i, tag.text().len() as int) == Some(
            tag.time() / (NANOS_PER_MILLI as nat),
        ),
        tag.time() == tag.time() / (NANOS_PER_MILLI as nat) * NANOS_PER_MILLI as nat,
{
    reveal(TimeTag::text);
    let t = tag.text();
    assert forall|k: int| 0 <= k < t.len() implies s[i + k] == #[trigger] t[k] by {
        assert(s.subrange(i, i + t.len())[k] == s[i + k]);
    }
    lemma_digit_char(tag.minutes / 10);
    lemma_digit_char(tag.minutes % 10);
    lemma_digit_char(tag.seconds / 10);
    lemma_digit_char(tag.seconds % 10);
    assert(s[i] == t[0] && s[i + 1] == t[1] && s[i + 2] == t[2] && s[i + 3] == t[3] && s[i + 4]
        == t[4] && s[i + 5] == t[5] && s[i + 6] == t[6] && s[i + 7] == t[7] && s[i + 8] == t[8]
        && s[i + 9] == t[9]);
    if tag.thousandths {
        lemma_digit_char(tag.fraction / 100);
        lemma_digit_char(tag.fraction / 10 % 10);
        lemma_digit_char(tag.fraction % 10);
        assert(s[i + 10] == t[10]);
        assert(t.len() == 11);
    } else {
        lemma_digit_char(tag.fraction / 10);
        lemma_digit_char(tag.fraction % 10);
        assert(t.len() == 10);
        assert(!is_decimal(']'));
    }
}

/// A tag is the first stamp from where it stands.
pub proof fn lemma_tag_first(s: Seq<char>, i: int, tag: TimeTag)
    requires
        tag.valid(),
        occurs_at(s, tag.text(), i),
    ensures
        0 < tag.text().len(),
        stamp_times(s, i, square()) == seq![tag.time()] + stamp_times(
            s,
            i + tag.text().len(),
            square(),
        ),
        unstamped(s, i, square()) == unstamped(s, i + tag.text().len(), square()),
{
    lemma_tag_read(s, i, tag);
    assert(tag.text().len() > 0) by {
        reveal(TimeTag::text);
    }
}

/// Where no stamp starts from `i` on, there are no times and all the text is
/// left.
pub proof fn lemma_no_stamps(s: Seq<char>, i: int, b: Brackets)
    requires
        0 <= i <= s.len(),
        forall|k: int| i <= k < s.len() ==> #[trigger] stamp_len(s, k, b) == 0,
    ensures
        stamp_times(s, i, b) == Seq::<nat>::empty(),
        unstamped(s, i, b) == s.skip(i),
    decreases s.len() - i,
{
    if i < s.len() {
        lemma_no_stamps(s, i + 1, b);
        assert(stamp_len(s, i, b) == 0);
        assert(seq![s[i]] + s.skip(i + 1) =~= s.skip(i));
    } else {
        assert(s.skip(i) =~= Seq::empty());
    }
}

/// Whether no stamp starts anywhere in a text.
pub open spec fn stampless(s: Seq<char>, b: Brackets) -> bool {
    forall|k: int| 0 <= k < s.len() ==> #[trigger] stamp_len(s, k, b) == 0
}

/// What stands before a text does not make a stamp of it.
pub proof fn lemma_stamp_behind(head: Seq<char>, s: Seq<char>, k: int, b: Brackets)
    requires
        0 <= k,
    ensures
        stamp_len(head + s, head.len() + k, b) == stamp_len(s, k, b),
{
    let all = head + s;
    let n = head.len() as int;
    assert forall|j: int| k <= j < s.len() implies all[n + j] == #[trigger] s[j] by {}
    if k + 10 <= s.len() {
        assert(all[n + k] == s[k] && all[n + k + 1] == s[k + 1] && all[n + k + 2] == s[k + 2]
            && all[n + k + 3] == s[k + 3] && all[n + k + 4] == s[k + 4] && all[n + k + 5] == s[k
            + 5] && all[n + k + 6] == s[k + 6] && all[n + k + 7] == s[k + 7] && all[n + k + 8]
            == s[k + 8] && all[n + k + 9] == s[k + 9]);
        if k + 11 <= s.len() {
            assert(all[n + k + 10] == s[k + 10]);
        }
    }
}

/// The first part of a text without stamps has none.
pub proof fn lemma_stampless_part(s: Seq<char>, n: int, b: Brackets)
    requires
        stampless(s, b),
        0 <= n <= s.len(),
    ensures
        stampless(s.take(n), b),
{
    let t = s.take(n);
    assert forall|k: int| 0 <= k < t.len() implies #[trigger] stamp_len(t, k, b) == 0 by {
        assert(stamp_len(s, k, b) == 0);
        if stamp_len(t, k, b) > 0 {
            assert(t[k] == s[k] && t[k + 1] == s[k + 1] && t[k + 2] == s[k + 2] && t[k + 3] == s[k
                + 3] && t[k + 4] == s[k + 4] && t[k + 5] == s[k + 5] && t[k + 6] == s[k + 6] && t[k
                + 7] == s[k + 7] && t[k + 8] == s[k + 8] && t[k + 9] == s[k + 9]);
            if stamp_len(t, k, b) == 11 {
                assert(t[k + 10] == s[k + 10]);
            }
        }
    }
}

proof fn lemma_tags_read(head: Seq<char>, tags: Seq<TimeTag>, text: Seq<char>)
    requires
        forall|k: int| 0 <= k < tags.len() ==> (#[trigger] tags[k]).valid(),
        stampless(text, square()),
    ensures
        stamp_times(head + tags_text(tags) + text, head.len() as int, square()) == tags.map_values(
            |t: TimeTag| t.time(),
        ),
        unstamped(head + tags_text(tags) + text, head.len() as int, square()) == text,
    decreases tags.len(),
{
    let s = head + tags_text(tags) + text;
    let i = head.len() as int;
    if tags.len() == 0 {
        assert(s =~= head + text);
        assert forall|k: int| i <= k < s.len() implies #[trigger] stamp_len(s, k, square()) == 0 by {
            lemma_stamp_behind(head, text, k - i, square());
            assert(stamp_len(text, k - i, square()) == 0);
        }
        lemma_no_stamps(s, i, square());
        assert(s.skip(i) =~= text);
        assert(tags.map_values(|t: TimeTag| t.time()) =~= Seq::empty());
    } else {
        let tag = tags[0];
        let len = tag.text().len() as int;
        let rest = tags.skip(1);
        assert forall|k: int| 0 <= k < rest.len() implies (#[trigger] rest[k]).valid() by {
            assert(rest[k] == tags[k + 1]);
        }
        assert(s.subrange(i, i + len) =~= tag.text());
        lemma_tag_first(s, i, tag);
        lemma_tags_read(head + tag.text(), rest, text);
        assert(s =~= head + tag.text() + tags_text(rest) + text);
        assert((head + tag.text()).len() == i + len);
        assert(tags.map_values(|t: TimeTag| t.time()) =~= seq![tag.time()] + rest.map_values(
            |t: TimeTag| t.time(),
        ));
    }
}

/// A text without a separator is one piece.
pub proof fn lemma_one_piece(s: Seq<char>, sep: char)
    requires
        !s.contains(sep),
    ensures
        pieces(s, sep) == seq![s],
    decreases s.len(),
{
    if s.len() > 0 {
        let head = s.drop_last();
        assert(!head.contains(sep)) by {
            if head.contains(sep) {
                let k = choose|k: int| 0 <= k < head.len() && head[k] == sep;
                assert(s[k] == sep);
            }
        }
        lemma_one_piece(head, sep);
        assert(s[s.len() - 1] != sep);
        assert(head.push(s.last()) =~= s);
        assert(pieces(s, sep) =~= seq![s]);
    } else {
        assert(s =~= Seq::empty());
    }
}

pub proof fn lemma_tags_text(tags: Seq<TimeTag>)
    requires
        forall|k: int| 0 <= k < tags.len() ==> (#[trigger] tags[k]).valid(),
    ensures
        !tags_text(tags).contains('\n'),
        tags.len() > 0 ==> tags_text(tags).len() > 0 && tags_text(tags)[0] == '['
            && tags_text(tags).last() == ']',
    decreases tags.len(),
{
    if tags.len() > 0 {
        let tag = tags[0];
        let rest = tags.skip(1);
        assert forall|k: int| 0 <= k < rest.len() implies (#[trigger] rest[k]).valid() by {
            assert(rest[k] == tags[k + 1]);
        }
        lemma_tags_text(rest);
        lemma_digit_char(tag.minutes / 10);
        lemma_digit_char(tag.minutes % 10);
        lemma_digit_char(tag.seconds / 10);
        lemma_digit_char(tag.seconds % 10);
        lemma_digit_char(tag.fraction % 10);
        if tag.thousandths {
            lemma_digit_char(tag.fraction / 100);
            lemma_digit_char(tag.fraction / 10 % 10);
        } else {
            lemma_digit_char(tag.fraction / 10);
        }
        reveal(TimeTag::text);
        let t = tag.text();
        assert forall|k: int| 0 <= k < t.len() implies #[trigger] t[k] != '\n' by {}
        assert forall|k: int| 0 <= k < tags_text(tags).len() implies #[trigger] tags_text(tags)[k]
            != '\n' by {
            if k < t.len() {
                assert(tags_text(tags)[k] == t[k]);
            } else {
                assert(tags_text(tags)[k] == tags_text(rest)[k - t.len()]);
            }
        }
    }
}

/// A line of time tags with a text behind them, trimmed: no metadata tag, and
/// the text at each of the times.
pub proof fn lemma_tagged_line(tags: Seq<TimeTag>, text: Seq<char>)
    requires
        tags.len() > 0,
        forall|k: int| 0 <= k < tags.len() ==> (#[trigger] tags[k]).valid(),
        stampless(text, square()),
    ensures
        trimmed(tags_text(tags) + text) == tags_text(tags) + trimmed_end(text),
        meta_of(trimmed(tags_text(tags) + text)) is None,
        timed_lines(trimmed(tags_text(tags) + text)) == repeated(
            tags.map_values(|t: TimeTag| t.time()),
            trimmed(text),
        ),
{
    let s = tags_text(tags) + text;
    let end = trimmed_end(text);
    let line = tags_text(tags) + end;
    lemma_tags_text(tags);
    lemma_trimmed_either_way(text);
    lemma_trimmed_end_of_sum(tags_text(tags), text);
    assert(!is_white_space('[') && !is_white_space(']'));
    assert(trimmed_start(s) == s);
    if end.len() == 0 {
        assert(trimmed_end(tags_text(tags)) == tags_text(tags));
        assert(line =~= tags_text(tags));
    }
    assert(trimmed(s) == line);
    let first = tags[0].text();
    assert(line.subrange(0, 0 + first.len() as int) =~= first);
    lemma_tag_read(line, 0, tags[0]);
    lemma_tag_first(line, 0, tags[0]);
    lemma_trimmed_end_prefix(text);
    lemma_stampless_part(text, end.len() as int, square());
    lemma_tags_read(Seq::empty(), tags, end);
    assert(Seq::<char>::empty() + tags_text(tags) + end =~= line);
}

/// A line of time tags with a text behind them stands for that text, without
/// surrounding white space, at each of the times.
pub proof fn law_time_tags(tags: Seq<TimeTag>, text: Seq<char>)
    requires
        tags.len() > 0,
        forall|k: int| 0 <= k < tags.len() ==> (#[trigger] tags[k]).valid(),
        stampless(text, square()),
        !text.contains('\n'),
    ensures
        lrc_lyrics(tags_text(tags) + text).lines == ordered(
            repeated(tags.map_values(|t: TimeTag| t.time()), trimmed(text)),
            by_position(),
        ),
{
    let s = tags_text(tags) + text;
    lemma_tags_text(tags);
    lemma_tagged_line(tags, text);
    lemma_free_sum(tags_text(tags), text, '\n');
    lemma_one_piece(s, '\n');
    let raw = seq![s];
    assert(raw.drop_last() =~= Seq::empty());
    reveal_with_fuel(with_lines, 2);
    assert(with_lines(raw).lines =~= timed_lines(trimmed(s)));
}

pub proof fn lemma_free_sum(a: Seq<char>, b: Seq<char>, c: char)
    requires
        !a.contains(c),
        !b.contains(c),
    ensures
        !(a + b).contains(c),
{
    if (a + b).contains(c) {
        let k = choose|k: int| 0 <= k < (a + b).len() && (a + b)[k] == c;
        if k < a.len() {
            assert(a[k] == c);
        } else {
            assert(b[k - a.len()] == c);
        }
    }
}

pub proof fn lemma_trimmed_end_prefix(s: Seq<char>)
    ensures
        trimmed_end(s).len() <= s.len(),
        trimmed_end(s) == s.take(trimmed_end(s).len() as int),
    decreases s.len(),
{
    if s.len() > 0 && is_white_space(s.last()) {
        lemma_trimmed_end_prefix(s.drop_last());
        let n = trimmed_end(s).len() as int;
        assert(s.drop_last().take(n) =~= s.take(n));
    } else {
        assert(s.take(s.len() as int) =~= s);
    }
}

/// A line `[key:value]` on its own, unless it is a time tag, gives the value,
/// without surrounding white space, to the key, whatever the case of its
/// letters.
pub proof fn law_meta_tag(key: Seq<char>, value: Seq<char>)
    requires
        key.len() > 0,
        forall|k: int| 0 <= k < key.len() ==> is_word(#[trigger] key[k]),
        value.len() > 0,
        !value.contains('\n'),
        stamp_len(seq!['['] + key + seq![':'] + value + seq![']'], 0, square()) == 0,
    ensures
        with_lines(pieces(seq!['['] + key + seq![':'] + value + seq![']'], '\n')) == with_meta(
            nothing_read(),
            lowercased(key),
            trimmed(value),
        ),
{
    let s = seq!['['] + key + seq![':'] + value + seq![']'];
    let n = key.len() as int;
    assert(s[0] == '[' && s.last() == ']' && s[n + 1] == ':');
    assert forall|k: int| 1 <= k <= n implies #[trigger] s[k] == key[k - 1] by {}
    lemma_word_end(s, 1, n + 1);
    assert(s.subrange(1, n + 1) =~= key);
    assert(s.subrange(n + 2, s.len() - 1) =~= value);
    assert(meta_of(s) == Some((key, value)));
    lemma_trimmed_id(s);
    assert(!s.contains('\n')) by {
        if s.contains('\n') {
            let k = choose|k: int| 0 <= k < s.len() && s[k] == '\n';
            if 1 <= k <= n {
                assert(is_word(key[k - 1]));
            } else if n + 2 <= k < s.len() - 1 {
                assert(value[k - n - 2] == '\n');
            }
        }
    }
    lemma_one_piece(s, '\n');
    let raw = seq![s];
    assert(raw.drop_last() =~= Seq::empty());
    reveal_with_fuel(with_lines, 2);
}

pub proof fn lemma_word_end(s: Seq<char>, i: int, n: int)
    requires
        0 <= i <= n < s.len(),
        forall|k: int| i <= k < n ==> is_word(#[trigger] s[k]),
        !is_word(s[n]),
    ensures
        word_end(s, i) == n,
    decreases n - i,
{
    if i < n {
        lemma_word_end(s, i + 1, n);
    }
}

/// The lines of two texts, one below the other, are those of both.
pub proof fn law_lines_below(a: Seq<Seq<char>>, b: Seq<Seq<char>>)
    ensures
        with_lines(a + b).lines == with_lines(a).lines + with_lines(b).lines,
    decreases b.len(),
{
    if b.len() == 0 {
        assert(a + b =~= a);
        assert(with_lines(a).lines + with_lines(b).lines =~= with_lines(a).lines);
    } else {
        law_lines_below(a, b.drop_last());
        assert((a + b).drop_last() =~= a + b.drop_last());
        assert((a + b).last() == b.last());
        assert(with_lines(a + b).lines =~= with_lines(a).lines + with_lines(b).lines);
    }
}

// ---------------------------------------------------------------------------
// LRCX
// ---------------------------------------------------------------------------

pub proof fn lemma_with_translations(lines: Seq<LineModel>, ts: Seq<(nat, Seq<char>)>)
    ensures
        with_translations(lines, ts).len() == lines.len(),
        forall|i: int|
            0 <= i < lines.len() ==> (#[trigger] with_translations(lines, ts)[i]).position
                == lines[i].position && with_translations(lines, ts)[i].content == lines[i].content
                && with_translations(lines, ts)[i].words == lines[i].words,
    decreases ts.len(),
{
    if ts.len() > 0 {
        lemma_with_translations(lines, ts.drop_last());
        lemma_first_at(with_translations(lines, ts.drop_last()), ts.last().0, 0);
    }
}

pub proof fn lemma_first_at(lines: Seq<LineModel>, t: nat, i: int)
    requires
        0 <= i <= lines.len(),
    ensures
        i <= first_at(lines, t, i) <= lines.len(),
        first_at(lines, t, i) < lines.len() ==> lines[first_at(lines, t, i)].position == t,
        forall|k: int| i <= k < first_at(lines, t, i) ==> (#[trigger] lines[k]).position != t,
    decreases lines.len() - i,
{
    if i < lines.len() && lines[i].position != t {
        lemma_first_at(lines, t, i + 1);
    }
}

pub proof fn lemma_first_at_unique(lines: Seq<LineModel>, t: nat, i: int)
    requires
        0 <= i < lines.len(),
        lines[i].position == t,
        forall|k: int| 0 <= k < i ==> (#[trigger] lines[k]).position != t,
    ensures
        first_at(lines, t, 0) == i,
{
    lemma_first_at(lines, t, 0);
    let f = first_at(lines, t, 0);
    if f < i {
        assert(lines[f].position == t);
    } else if i < f {
        assert(lines[i].position != t);
    }
}

/// The first line at the time of a translation gets it, unless a later
/// translation for that time replaces it; every line keeps its time and text.
pub proof fn law_translation_applied(lines: Seq<LineModel>, ts: Seq<(nat, Seq<char>)>, j: int, i: int)
    requires
        0 <= j < ts.len(),
        forall|k: int| j < k < ts.len() ==> (#[trigger] ts[k]).0 != ts[j].0,
        0 <= i < lines.len(),
        lines[i].position == ts[j].0,
        forall|k: int| 0 <= k < i ==> (#[trigger] lines[k]).position != ts[j].0,
    ensures
        with_translations(lines, ts)[i] == (LineModel { translation: Some(ts[j].1), ..lines[i] }),
    decreases ts.len(),
{
    let before = with_translations(lines, ts.drop_last());
    lemma_with_translations(lines, ts.drop_last());
    assert forall|k: int| 0 <= k < i implies (#[trigger] before[k]).position != ts[j].0 by {
        assert(lines[k].position != ts[j].0);
    }
    if j == ts.len() - 1 {
        lemma_first_at_unique(before, ts[j].0, i);
    } else {
        let head = ts.drop_last();
        assert forall|k: int| j < k < head.len() implies (#[trigger] head[k]).0 != head[j].0 by {
            assert(ts[k].0 != ts[j].0);
        }
        law_translation_applied(lines, head, j, i);
        lemma_first_at(before, ts.last().0, 0);
        assert(ts[ts.len() - 1].0 != ts[j].0);
    }
}

/// A line with timed words has text left without them.
proof fn lemma_words_leave_text(s: Seq<char>, i: int, b: Brackets, k: int)
    requires
        0 <= i,
        0 <= k < stamp_parts(s, i, b).len(),
        trimmed(stamp_parts(s, i, b)[k]).len() > 0,
    ensures
        trimmed(unstamped(s, i, b)).len() > 0,
    decreases s.len() - i,
{
    lemma_visible_part(s, i, b, k);
    lemma_trimmed_blank(unstamped(s, i, b));
}

proof fn lemma_visible_part(s: Seq<char>, i: int, b: Brackets, k: int)
    requires
        0 <= i,
        0 <= k < stamp_parts(s, i, b).len(),
        trimmed(stamp_parts(s, i, b)[k]).len() > 0,
    ensures
        exists|j: int|
            0 <= j < unstamped(s, i, b).len() && !is_white_space(#[trigger] unstamped(s, i, b)[j]),
    decreases s.len() - i,
{
    let part = stamp_parts(s, i, b)[k];
    lemma_trimmed_blank(part);
    let len = stamp_len(s, i, b);
    if i >= s.len() {
        assert(part.len() == 0);
    } else if len > 0 {
        assert(stamp_parts(s, i, b) == seq![Seq::<char>::empty()] + stamp_parts(s, i + len, b));
        assert(k > 0);
        assert(part == stamp_parts(s, i + len, b)[k - 1]);
        lemma_visible_part(s, i + len, b, k - 1);
        assert(unstamped(s, i, b) == unstamped(s, i + len, b));
    } else {
        let rest = stamp_parts(s, i + 1, b);
        let below = unstamped(s, i + 1, b);
        lemma_stamp_parts(s, i + 1, b);
        assert(unstamped(s, i, b) == seq![s[i]] + below);
        assert(stamp_parts(s, i, b) == prefixed(seq![s[i]], rest));
        if !is_white_space(s[i]) {
            assert(unstamped(s, i, b)[0] == s[i]);
        } else {
            if k == 0 {
                assert(part == seq![s[i]] + rest[0]);
                let j = choose|j: int| 0 <= j < part.len() && !is_white_space(part[j]);
                assert(j > 0);
                assert(rest[0][j - 1] == part[j]);
                lemma_trimmed_blank(rest[0]);
            } else {
                assert(part == rest[k]);
            }
            lemma_visible_part(s, i + 1, b, k);
            let j = choose|j: int| 0 <= j < below.len() && !is_white_space(#[trigger] below[j]);
            assert(unstamped(s, i, b)[j + 1] == below[j]);
        }
    }
}

proof fn lemma_some_word(times: Seq<nat>, parts: Seq<Seq<char>>, position: nat, n: int)
    requires
        words_of(times, parts, position, n).len() > 0,
    ensures
        exists|k: int| 1 <= k <= n && trimmed(#[trigger] parts[k]).len() > 0,
    decreases n,
{
    if n > 0 && trimmed(parts[n]).len() == 0 {
        lemma_some_word(times, parts, position, n - 1);
        let k = choose|k: int| 1 <= k <= n - 1 && trimmed(#[trigger] parts[k]).len() > 0;
        assert(1 <= k <= n);
    } else if n > 0 {
        assert(trimmed(parts[n]).len() > 0);
    }
}

/// Taking the timed words out of a line leaves its time and translation, and
/// leaves text where there was text.
pub proof fn law_words_leave_text(line: LineModel)
    requires
        line.content.len() > 0,
    ensures
        with_words(line).content.len() > 0,
        with_words(line).position == line.position,
        with_words(line).translation == line.translation,
{
    if line_words(line).len() > 0 {
        let times = stamp_times(line.content, 0, angle());
        let parts = stamp_parts(line.content, 0, angle());
        lemma_stamp_parts(line.content, 0, angle());
        lemma_some_word(times, parts, line.position, times.len() as int);
        let k = choose|k: int| 1 <= k <= times.len() && trimmed(#[trigger] parts[k]).len() > 0;
        lemma_words_leave_text(line.content, 0, angle(), k);
    }
}

/// The lines kept are among those there were, in the same order.
pub proof fn lemma_kept(lines: Seq<LineModel>, ts: Seq<(nat, Seq<char>)>)
    ensures
        in_order(lines) ==> in_order(kept_lines(lines, ts)),
        forall|k: int|
            0 <= k < kept_lines(lines, ts).len() ==> {
                let l = #[trigger] kept_lines(lines, ts)[k];
                lines.contains(l) && (l.content.len() > 0 || !translated_at(ts, l))
            },
    decreases lines.len(),
{
    if lines.len() > 0 {
        let head = lines.drop_last();
        let before = kept_lines(head, ts);
        let kept = kept_lines(lines, ts);
        lemma_kept(head, ts);
        assert forall|k: int| 0 <= k < before.len() implies lines.contains(#[trigger] before[k]) by {
            let j = choose|j: int| 0 <= j < head.len() && head[j] == before[k];
            assert(lines[j] == before[k]);
        }
        assert(lines[lines.len() - 1] == lines.last());
        if in_order(lines) {
            assert forall|i: int, j: int| 0 <= i <= j < head.len() implies by_position()(
                #[trigger] head[i],
            ) <= by_position()(#[trigger] head[j]) by {
                assert(by_position()(lines[i]) <= by_position()(lines[j]));
            }
            assert forall|i: int, j: int| 0 <= i <= j < kept.len() implies by_position()(
                #[trigger] kept[i],
            ) <= by_position()(#[trigger] kept[j]) by {
                if j < before.len() {
                    assert(by_position()(before[i]) <= by_position()(before[j]));
                } else if i < before.len() {
                    let k = choose|k: int| 0 <= k < lines.len() && lines[k] == before[i];
                    assert(by_position()(lines[k]) <= by_position()(lines[lines.len() - 1]));
                }
            }
        }
    }
}

/// Translation lines hold no metadata.
proof fn lemma_same_metadata(raw: Seq<Seq<char>>)
    ensures
        with_lines(without_translation_lines(raw)).title == with_lines(raw).title,
        with_lines(without_translation_lines(raw)).artist == with_lines(raw).artist,
        with_lines(without_translation_lines(raw)).album == with_lines(raw).album,
        with_lines(without_translation_lines(raw)).offset_ms == with_lines(raw).offset_ms,
    decreases raw.len(),
{
    if raw.len() > 0 {
        lemma_same_metadata(raw.drop_last());
        let before = without_translation_lines(raw.drop_last());
        assert(before.push(raw.last()).drop_last() =~= before);
    }
}

/// The lines of an LRCX text stand in order, have text unless nothing was
/// translated at their time, and come with the metadata and the offset that the
/// text has as LRC.
pub proof fn law_lrcx_lines(input: Seq<char>)
    requires
        lrcx_lyrics(input) is Some,
    ensures
        in_order(lrcx_lyrics(input)->0.lines),
        forall|k: int|
            0 <= k < lrcx_lyrics(input)->0.lines.len() ==> {
                let l = #[trigger] lrcx_lyrics(input)->0.lines[k];
                l.content.len() > 0 || !translated_at(
                    translations_in(pieces(input, '\n'))->0,
                    l,
                )
            },
        lrcx_lyrics(input)->0.metadata == lrc_lyrics(input).metadata,
        lrcx_lyrics(input)->0.offset_ms == lrc_lyrics(input).offset_ms,
{
    let raw = pieces(input, '\n');
    let base = untranslated(input).lines;
    let ts = translations_in(raw)->0;
    law_ordered(with_lines(without_translation_lines(raw)).lines, by_position());
    lemma_same_metadata(raw);
    lemma_with_translations(base, ts);
    let translated = with_translations(base, ts);
    let all = translated.map_values(|l: LineModel| with_words(l));
    assert forall|i: int, j: int| 0 <= i <= j < all.len() implies by_position()(#[trigger] all[i])
        <= by_position()(#[trigger] all[j]) by {
        assert(translated[i].position == base[i].position);
        assert(translated[j].position == base[j].position);
        assert(by_position()(base[i]) <= by_position()(base[j]));
    }
    lemma_kept(all, ts);
}

/// The line of a text that a lyrics line was read from.
proof fn lemma_line_origin(raw: Seq<Seq<char>>, k: int) -> (origin: (int, int))
    requires
        0 <= k < with_lines(raw).lines.len(),
    ensures
        0 <= origin.0 < raw.len(),
        meta_of(trimmed(raw[origin.0])) is None,
        0 <= origin.1 < timed_lines(trimmed(raw[origin.0])).len(),
        with_lines(raw).lines[k] == timed_lines(trimmed(raw[origin.0]))[origin.1],
    decreases raw.len(),
{
    let before = with_lines(raw.drop_last()).lines;
    if k < before.len() {
        let origin = lemma_line_origin(raw.drop_last(), k);
        assert(raw[origin.0] == raw.drop_last()[origin.0]);
        origin
    } else {
        (raw.len() - 1, k - before.len())
    }
}

proof fn lemma_no_translation_lines(raw: Seq<Seq<char>>)
    ensures
        forall|k: int|
            0 <= k < without_translation_lines(raw).len() ==> {
                let r = #[trigger] without_translation_lines(raw)[k];
                raw.contains(r) && !is_translation_line(trimmed(r))
            },
    decreases raw.len(),
{
    if raw.len() > 0 {
        let head = raw.drop_last();
        let before = without_translation_lines(head);
        lemma_no_translation_lines(head);
        assert forall|k: int| 0 <= k < before.len() implies raw.contains(#[trigger] before[k]) by {
            let j = choose|j: int| 0 <= j < head.len() && head[j] == before[k];
            assert(raw[j] == before[k]);
        }
        assert(raw[raw.len() - 1] == raw.last());
    }
}

/// No line of an LRCX text comes from a translation line: each is one of those
/// that some other line of the text stands for, but for its translation and its
/// timed words.
pub proof fn law_lrcx_no_translation_lines(input: Seq<char>, k: int) -> (origin: (int, int))
    requires
        lrcx_lyrics(input) is Some,
        0 <= k < lrcx_lyrics(input)->0.lines.len(),
    ensures
        ({
            let raw = pieces(input, '\n');
            let line = trimmed(raw[origin.0]);
            let l = lrcx_lyrics(input)->0.lines[k];
            &&& 0 <= origin.0 < raw.len()
            &&& meta_of(line) is None
            &&& translation_from(line, 0) is None
            &&& 0 <= origin.1 < timed_lines(line).len()
            &&& l == with_words(
                LineModel { translation: l.translation, ..timed_lines(line)[origin.1] },
            )
        }),
{
    let raw = pieces(input, '\n');
    let rest = without_translation_lines(raw);
    let read = with_lines(rest).lines;
    let base = untranslated(input).lines;
    let ts = translations_in(raw)->0;
    let translated = with_translations(base, ts);
    let all = translated.map_values(|l: LineModel| with_words(l));
    let l = lrcx_lyrics(input)->0.lines[k];
    lemma_kept(all, ts);
    lemma_with_translations(base, ts);
    let j = choose|j: int| 0 <= j < all.len() && all[j] == l;
    assert(l == with_words(translated[j]));
    law_ordered(read, by_position());
    lemma_same_elements(base, read, j);
    let n = choose|n: int| 0 <= n < read.len() && read[n] == base[j];
    let (i, t) = lemma_line_origin(rest, n);
    lemma_no_translation_lines(raw);
    assert(raw.contains(rest[i]));
    let at = choose|at: int| 0 <= at < raw.len() && raw[at] == rest[i];
    assert(translated[j] == (LineModel {
        translation: translated[j].translation,
        ..base[j]
    }));
    (at, t)
}

/// A translation tag as it is written: `[tr]`, or `[tr:lang]`.
pub open spec fn translation_tag(lang: Option<Seq<char>>) -> Seq<char> {
    match lang {
        Some(l) => seq!['[', 't', 'r', ':'] + l + seq![']'],
        None => seq!['[', 't', 'r', ']'],
    }
}

/// Whether a language can stand in a translation tag.
pub open spec fn is_language(lang: Option<Seq<char>>) -> bool {
    lang matches Some(l) ==> l.len() > 0 && forall|k: int|
        0 <= k < l.len() ==> is_word(#[trigger] l[k])
}

pub proof fn lemma_translation_tag(head: Seq<char>, lang: Option<Seq<char>>, text: Seq<char>)
    requires
        is_language(lang),
        text.len() > 0,
    ensures
        translation_tag_end(head + translation_tag(lang) + text, head.len() as int) == Some(
            (head.len() + translation_tag(lang).len()) as int,
        ),
{
    let s = head + translation_tag(lang) + text;
    let i = head.len() as int;
    let tag = translation_tag(lang);
    assert forall|k: int| 0 <= k < tag.len() implies s[i + k] == #[trigger] tag[k] by {}
    assert(s[i] == tag[0] && s[i + 1] == tag[1] && s[i + 2] == tag[2] && s[i + 3] == tag[3]);
    match lang {
        Some(l) => {
            let n = i + 4 + l.len();
            assert forall|k: int| i + 4 <= k < n implies is_word(#[trigger] s[k]) by {
                assert(s[k] == tag[k - i]);
                assert(tag[k - i] == l[k - i - 4]);
            }
            assert(s[n] == tag[n - i]);
            assert(tag[n - i] == ']');
            lemma_word_end(s, i + 4, n);
        },
        None => {},
    }
}

/// A text, a separator and a text are two pieces.
pub proof fn lemma_two_pieces(a: Seq<char>, b: Seq<char>, sep: char)
    requires
        !a.contains(sep),
        !b.contains(sep),
    ensures
        pieces(a.push(sep) + b, sep) == seq![a, b],
    decreases b.len(),
{
    let s = a.push(sep) + b;
    if b.len() == 0 {
        lemma_one_piece(a, sep);
        assert(s =~= a.push(sep));
        assert(s.drop_last() =~= a);
        assert(b =~= Seq::empty());
        assert(pieces(s, sep) =~= seq![a, b]);
    } else {
        let head = b.drop_last();
        assert(!head.contains(sep)) by {
            if head.contains(sep) {
                let k = choose|k: int| 0 <= k < head.len() && head[k] == sep;
                assert(b[k] == sep);
            }
        }
        lemma_two_pieces(a, head, sep);
        assert(s.drop_last() =~= a.push(sep) + head);
        assert(b[b.len() - 1] != sep);
        assert(s.last() == b.last());
        assert(head.push(b.last()) =~= b);
        assert(pieces(s, sep) =~= seq![a, b]);
    }
}

/// A translation line gives its text at its time.
pub proof fn lemma_translation_line(tag: TimeTag, lang: Option<Seq<char>>, text: Seq<char>)
    requires
        tag.valid(),
        is_language(lang),
        trimmed_end(text).len() > 0,
    ensures
        ({
            let line = trimmed(tag.text() + translation_tag(lang) + text);
            &&& translation_from(line, 0) == Some((Some(tag.time()), trimmed_end(text)))
            &&& meta_of(line) is None
        }),
{
    let head = tag.text() + translation_tag(lang);
    let end = trimmed_end(text);
    let line = head + end;
    let tags = seq![tag];
    assert(tags.skip(1) =~= Seq::empty());
    assert(tags_text(tags.skip(1)) =~= Seq::empty());
    assert(tags_text(tags) =~= tag.text());
    lemma_tags_text(tags);
    lemma_trimmed_end_of_sum(head, text);
    assert(!is_white_space('['));
    assert((head + text)[0] == '[');
    assert(trimmed(head + text) == line);
    assert(line.subrange(0, 0 + tag.text().len() as int) =~= tag.text());
    lemma_tag_read(line, 0, tag);
    lemma_tag_first(line, 0, tag);
    lemma_translation_tag(tag.text(), lang, end);
    assert(line.skip(head.len() as int) =~= end);
}

/// A line and its translation, in either order, are one line with that
/// translation.
#[verifier::rlimit(30)]
pub proof fn law_translated_line(
    tag: TimeTag,
    text: Seq<char>,
    lang: Option<Seq<char>>,
    translation: Seq<char>,
    translation_first: bool,
)
    requires
        tag.valid(),
        stampless(text, square()),
        !text.contains('\n'),
        trimmed(text).len() > 0,
        translation_from(trimmed(tag.text() + text), 0) is None,
        is_language(lang),
        !translation.contains('\n'),
        trimmed_end(translation).len() > 0,
    ensures
        ({
            let line = tag.text() + text;
            let translated = tag.text() + translation_tag(lang) + translation;
            let input = if translation_first {
                translated.push('\n') + line
            } else {
                line.push('\n') + translated
            };
            lrcx_lyrics(input) is Some && lrcx_lyrics(input)->0.lines == seq![
                with_words(
                    LineModel {
                        translation: Some(trimmed_end(translation)),
                        ..plain_line(tag.time(), trimmed(text))
                    },
                ),
            ]
        }),
{
    let a = tag.text() + text;
    let b = tag.text() + translation_tag(lang) + translation;
    let end = trimmed_end(translation);
    let tags = seq![tag];
    assert(tags.skip(1) =~= Seq::empty());
    assert(tags_text(tags.skip(1)) =~= Seq::empty());
    assert(tags_text(tags) =~= tag.text());
    lemma_tags_text(tags);
    lemma_tagged_line(tags, text);
    lemma_translation_line(tag, lang, translation);
    lemma_free_sum(tag.text(), text, '\n');
    assert(!translation_tag(lang).contains('\n')) by {
        let t = translation_tag(lang);
        assert(!is_word('\n'));
        if t.contains('\n') {
            let k = choose|k: int| 0 <= k < t.len() && t[k] == '\n';
            if let Some(l) = lang {
                if 4 <= k < 4 + l.len() {
                    assert(is_word(l[k - 4]));
                }
            }
        }
    }
    lemma_free_sum(tag.text(), translation_tag(lang), '\n');
    lemma_free_sum(tag.text() + translation_tag(lang), translation, '\n');
    let raw = if translation_first {
        lemma_two_pieces(b, a, '\n');
        seq![b, a]
    } else {
        lemma_two_pieces(a, b, '\n');
        seq![a, b]
    };
    let one = plain_line(tag.time(), trimmed(text));
    let ts = seq![(tag.time(), end)];
    assert(timed_lines(trimmed(a)) =~= seq![one]);
    assert(raw.drop_last() =~= seq![raw[0]]);
    assert(raw.drop_last().drop_last() =~= Seq::empty());
    reveal_with_fuel(translations_in, 3);
    reveal_with_fuel(without_translation_lines, 3);
    reveal_with_fuel(with_lines, 2);
    assert(translations_in(raw) == Some(ts)) by {
        assert(translations_in(raw)->0 =~= ts);
    }
    let rest = without_translation_lines(raw);
    assert(rest =~= seq![a]);
    assert(rest.drop_last() =~= Seq::empty());
    let read = with_lines(rest).lines;
    assert(read =~= seq![one]);
    assert(read.drop_last() =~= Seq::empty());
    reveal_with_fuel(ordered, 2);
    assert(ordered(read, by_position()) =~= read);
    assert(ts.drop_last() =~= Seq::empty());
    reveal_with_fuel(with_translations, 2);
    let translated = LineModel { translation: Some(end), ..one };
    assert(with_translations(read, ts) =~= seq![translated]);
    let all = seq![translated].map_values(|l: LineModel| with_words(l));
    assert(all =~= seq![with_words(translated)]);
    law_words_leave_text(translated);
    assert(all.drop_last() =~= Seq::empty());
    reveal_with_fuel(kept_lines, 2);
    assert(kept_lines(all, ts) =~= all);
}

pub proof fn lemma_kept_all(lines: Seq<LineModel>)
    ensures
        kept_lines(lines, Seq::empty()) == lines,
    decreases lines.len(),
{
    if lines.len() > 0 {
        lemma_kept_all(lines.drop_last());
        assert(lines.drop_last().push(lines.last()) =~= lines);
    }
}

// ---------------------------------------------------------------------------
// LRC within LRCX
// ---------------------------------------------------------------------------

proof fn lemma_part_of_part(s: Seq<char>, t: Seq<char>, u: Seq<char>)
    requires
        has_part(s, t),
        has_part(t, u),
    ensures
        has_part(s, u),
{
    let i = choose|i: int| occurs_at(s, t, i);
    let j = choose|j: int| occurs_at(t, u, j);
    assert(s.subrange(i + j, i + j + u.len()) =~= s.subrange(i, i + t.len()).subrange(
        j,
        j + u.len(),
    ));
    assert(occurs_at(s, u, i + j));
}

proof fn lemma_trimmed_part(s: Seq<char>)
    ensures
        has_part(s, trimmed(s)),
{
    lemma_trimmed_start_part(s);
    lemma_trimmed_end_part(trimmed_start(s));
    lemma_part_of_part(s, trimmed_start(s), trimmed(s));
}

proof fn lemma_trimmed_start_part(s: Seq<char>)
    ensures
        has_part(s, trimmed_start(s)),
    decreases s.len(),
{
    if s.len() > 0 && is_white_space(s[0]) {
        assert(s.subrange(1, 1 + s.skip(1).len() as int) =~= s.skip(1));
        assert(occurs_at(s, s.skip(1), 1));
        lemma_trimmed_start_part(s.skip(1));
        lemma_part_of_part(s, s.skip(1), trimmed_start(s));
    } else {
        assert(s.subrange(0, s.len() as int) =~= s);
        assert(occurs_at(s, s, 0));
    }
}

proof fn lemma_trimmed_end_part(s: Seq<char>)
    ensures
        has_part(s, trimmed_end(s)),
    decreases s.len(),
{
    if s.len() > 0 && is_white_space(s.last()) {
        assert(s.subrange(0, s.drop_last().len() as int) =~= s.drop_last());
        assert(occurs_at(s, s.drop_last(), 0));
        lemma_trimmed_end_part(s.drop_last());
        lemma_part_of_part(s, s.drop_last(), trimmed_end(s));
    } else {
        assert(s.subrange(0, s.len() as int) =~= s);
        assert(occurs_at(s, s, 0));
    }
}

/// Each piece stands in the text, and the last one at its end.
proof fn lemma_pieces_parts(s: Seq<char>, sep: char)
    ensures
        pieces(s, sep).len() > 0,
        occurs_at(s, pieces(s, sep).last(), s.len() - pieces(s, sep).last().len()),
        forall|k: int| 0 <= k < pieces(s, sep).len() ==> has_part(s, #[trigger] pieces(s, sep)[k]),
    decreases s.len(),
{
    let all = pieces(s, sep);
    if s.len() == 0 {
        assert(all[0] =~= s);
        assert(s.subrange(0, 0) =~= s);
        assert(occurs_at(s, all[0], 0));
    } else {
        let head = s.drop_last();
        let before = pieces(head, sep);
        lemma_pieces_parts(head, sep);
        assert(s.subrange(0, head.len() as int) =~= head);
        assert(occurs_at(s, head, 0));
        let last = all.last();
        let start = s.len() - last.len();
        if s.last() == sep {
            assert(s.subrange(start, s.len() as int) =~= last);
        } else {
            let open = before.last();
            assert(head.subrange(head.len() - open.len(), head.len() as int) == open);
            assert(s.subrange(start, s.len() as int) =~= open.push(s.last()));
        }
        assert(occurs_at(s, last, start));
        assert forall|k: int| 0 <= k < all.len() implies has_part(s, #[trigger] all[k]) by {
            if k < all.len() - 1 {
                assert(all[k] == before[k]);
                lemma_part_of_part(s, head, before[k]);
            }
        }
    }
}

proof fn lemma_part_chars(s: Seq<char>, t: Seq<char>, c: char)
    requires
        has_part(s, t),
        !s.contains(c),
    ensures
        !t.contains(c),
{
    if t.contains(c) {
        let i = choose|i: int| occurs_at(s, t, i);
        let k = choose|k: int| 0 <= k < t.len() && t[k] == c;
        assert(s.subrange(i, i + t.len())[k] == s[i + k]);
        assert(s[i + k] == c);
    }
}

proof fn lemma_unstamped_chars(s: Seq<char>, i: int, b: Brackets, c: char)
    requires
        0 <= i,
        !s.contains(c),
    ensures
        !unstamped(s, i, b).contains(c),
    decreases s.len() - i,
{
    if i < s.len() {
        if stamp_len(s, i, b) > 0 {
            lemma_unstamped_chars(s, i + stamp_len(s, i, b), b, c);
        } else {
            lemma_unstamped_chars(s, i + 1, b, c);
            let all = unstamped(s, i, b);
            let rest = unstamped(s, i + 1, b);
            assert(all == seq![s[i]] + rest);
            if all.contains(c) {
                let k = choose|k: int| 0 <= k < all.len() && all[k] == c;
                if k > 0 {
                    assert(rest[k - 1] == c);
                } else {
                    assert(s[i] == c);
                }
            }
        }
    }
}

proof fn lemma_no_translation(s: Seq<char>, i: int)
    requires
        0 <= i,
        !has_part(s, seq!['[', 't', 'r']),
    ensures
        translation_from(s, i) is None,
    decreases s.len() - i,
{
    if i < s.len() {
        let k = i + stamp_len(s, i, square());
        if translation_tag_end(s, k) is Some {
            assert(s.subrange(k, k + 3) =~= seq!['[', 't', 'r']);
            assert(occurs_at(s, seq!['[', 't', 'r'], k));
        }
        lemma_no_translation(s, i + 1);
    }
}

proof fn lemma_plain_lines(input: Seq<char>, raw: Seq<Seq<char>>)
    requires
        !input.contains('<'),
        !has_part(input, seq!['[', 't', 'r']),
        forall|k: int| 0 <= k < raw.len() ==> has_part(input, #[trigger] raw[k]),
    ensures
        translations_in(raw) == Some(Seq::<(nat, Seq<char>)>::empty()),
        forall|k: int|
            0 <= k < with_lines(raw).lines.len() ==> !(
            #[trigger] with_lines(raw).lines[k]).content.contains('<'),
    decreases raw.len(),
{
    if raw.len() > 0 {
        let head = raw.drop_last();
        assert forall|k: int| 0 <= k < head.len() implies has_part(input, #[trigger] head[k]) by {
            assert(head[k] == raw[k]);
        }
        lemma_plain_lines(input, head);
        let line = trimmed(raw.last());
        assert(has_part(input, raw[raw.len() - 1]));
        lemma_trimmed_part(raw.last());
        lemma_part_of_part(input, raw.last(), line);
        if has_part(line, seq!['[', 't', 'r']) {
            lemma_part_of_part(input, line, seq!['[', 't', 'r']);
        }
        lemma_no_translation(line, 0);
        lemma_part_chars(input, line, '<');
        let bare = unstamped(line, 0, square());
        lemma_unstamped_chars(line, 0, square(), '<');
        lemma_trimmed_part(bare);
        lemma_part_chars(bare, trimmed(bare), '<');
    }
}

/// LRCX extends LRC: a text without translations and without timed words reads
/// the same in both.
pub proof fn law_lrcx_extends_lrc(input: Seq<char>)
    requires
        translations_in(pieces(input, '\n')) == Some(Seq::<(nat, Seq<char>)>::empty()),
        forall|k: int|
            0 <= k < lrc_lyrics(input).lines.len() ==> line_words(
                #[trigger] lrc_lyrics(input).lines[k],
            ).len() == 0,
    ensures
        lrcx_lyrics(input) == Some(lrc_lyrics(input)),
{
    let base = lrc_lyrics(input).lines;
    lemma_all_kept_pieces(pieces(input, '\n'));
    assert(with_translations(base, Seq::empty()) == base);
    assert(base.map_values(|l: LineModel| with_words(l)) =~= base);
    lemma_kept_all(base);
}

/// Where nothing is translated, there are no translation lines.
pub proof fn lemma_all_kept_pieces(raw: Seq<Seq<char>>)
    requires
        translations_in(raw) == Some(Seq::<(nat, Seq<char>)>::empty()),
    ensures
        without_translation_lines(raw) == raw,
    decreases raw.len(),
{
    if raw.len() > 0 {
        let head = raw.drop_last();
        assert(translations_in(head) is Some);
        assert(translation_from(trimmed(raw.last()), 0) is None && translations_in(head)->0.len()
            == 0) by {
            match translation_from(trimmed(raw.last()), 0) {
                Some((Some(t), text)) => {
                    let all = translations_in(raw)->0;
                    assert(all == translations_in(head)->0.push((t, text)));
                    assert(all.len() > 0);
                },
                _ => {},
            }
        }
        assert(translations_in(head)->0 =~= Seq::empty());
        lemma_all_kept_pieces(head);
        assert(head.push(raw.last()) =~= raw);
    }
}

/// A text without angle brackets and translation tags reads the same as LRC and
/// as LRCX.
pub proof fn law_plain_text(input: Seq<char>)
    requires
        !input.contains('<'),
        !has_part(input, seq!['[', 't', 'r']),
    ensures
        lrcx_lyrics(input) == Some(lrc_lyrics(input)),
{
    let raw = pieces(input, '\n');
    lemma_pieces_parts(input, '\n');
    lemma_plain_lines(input, raw);
    let unordered = with_lines(raw).lines;
    let base = lrc_lyrics(input).lines;
    law_ordered(unordered, by_position());
    assert forall|k: int| 0 <= k < base.len() implies line_words(#[trigger] base[k]).len() == 0 by {
        lemma_same_elements(base, unordered, k);
        let c = base[k].content;
        assert(!c.contains('<'));
        assert forall|j: int| 0 <= j < c.len() implies #[trigger] stamp_len(c, j, angle()) == 0 by {
            assert(c[j] != '<');
        }
        lemma_no_stamps(c, 0, angle());
    }
    law_lrcx_extends_lrc(input);
}

} // verus!
