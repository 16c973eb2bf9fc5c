//! Lines written with time stamps, and what is read from them.
use crate::lyrics::laws::{lemma_digit_char, lemma_stamp_behind, stampless, TimeTag};
use crate::lyrics::stamp::{
    angle, is_decimal, prefixed, square, stamp_len, stamp_millis, stamp_parts, stamp_times,
    unstamped, Brackets,
};
use crate::text::{digit_char, digit_value, is_ascii_digit};
use vstd::prelude::*;

verus! {

/// A stamp as it is written between the given brackets.
#[verifier::opaque]
pub open spec fn written(tag: TimeTag, b: Brackets) -> Seq<char> {
    let head = seq![
        b.open,
        digit_char(tag.minutes / 10),
        digit_char(tag.minutes % 10),
        ':',
        digit_char(tag.seconds / 10),
        digit_char(tag.seconds % 10),
        '.',
    ];
    if tag.thousandths {
        head + seq![
            digit_char(tag.fraction / 100),
            digit_char(tag.fraction / 10 % 10),
            digit_char(tag.fraction % 10),
            b.close,
        ]
    } else {
        head + seq![digit_char(tag.fraction / 10), digit_char(tag.fraction % 10), b.close]
    }
}

/// The time that a stamp says, in nanoseconds.
pub open spec fn says(tag: TimeTag) -> nat {
    (tag.minutes * 60_000 + tag.seconds * 1_000 + if tag.thousandths {
        tag.fraction
    } else {
        tag.fraction * 10
    }) * 1_000_000
}

/// A stamp with the text behind it.
pub struct Stamped {
    pub tag: TimeTag,
    pub text: Seq<char>,
}

/// Stamps and texts, as they are written one after the other.
pub open spec fn run(items: Seq<Stamped>, b: Brackets) -> Seq<char>
    decreases items.len(),
{
    if items.len() == 0 {
        Seq::empty()
    } else {
        written(items[0].tag, b) + items[0].text + run(items.skip(1), b)
    }
}

/// The times, the texts, and the texts in one.
pub open spec fn run_times(items: Seq<Stamped>) -> Seq<nat> {
    items.map_values(|i: Stamped| says(i.tag))
}

pub open spec fn run_texts(items: Seq<Stamped>) -> Seq<Seq<char>> {
    items.map_values(|i: Stamped| i.text)
}

pub open spec fn run_text(items: Seq<Stamped>) -> Seq<char>
    decreases items.len(),
{
    if items.len() == 0 {
        Seq::empty()
    } else {
        items[0].text + run_text(items.skip(1))
    }
}

/// Whether the stamps can be written and the texts hold no stamp of their own.
pub open spec fn well_written(items: Seq<Stamped>, b: Brackets) -> bool {
    forall|k: int| 0 <= k < items.len() ==> (#[trigger] items[k]).tag.valid() && stampless(
        items[k].text,
        b,
    )
}

/// The digits of a stamp, one by one.
proof fn lemma_written_chars(tag: TimeTag, b: Brackets)
    requires
        tag.valid(),
    ensures
        ({
            let t = written(tag, b);
            let n = t.len() as int;
            &&& n == if tag.thousandths {
                11int
            } else {
                10int
            }
            &&& t[0] == b.open && t[n - 1] == b.close && t[3] == ':' && t[6] == '.'
            &&& forall|k: int|
                k == 1 || k == 2 || k == 4 || k == 5 || (7 <= k < n - 1) ==> is_ascii_digit(
                    #[trigger] t[k],
                )
            &&& 10 * digit_value(t[1]) + digit_value(t[2]) == tag.minutes
            &&& 10 * digit_value(t[4]) + digit_value(t[5]) == tag.seconds
            &&& tag.thousandths ==> 100 * digit_value(t[7]) + 10 * digit_value(t[8]) + digit_value(
                t[9],
            ) == tag.fraction
            &&& !tag.thousandths ==> 10 * digit_value(t[7]) + digit_value(t[8]) == tag.fraction
        }),
{
    reveal(written);
    lemma_digit_char(tag.minutes / 10);
    lemma_digit_char(tag.minutes % 10);
    lemma_digit_char(tag.seconds / 10);
    lemma_digit_char(tag.seconds % 10);
    lemma_digit_char(tag.fraction % 10);
    if tag.thousandths {
        lemma_digit_char(tag.fraction / 100);
        lemma_digit_char(tag.fraction / 10 % 10);
    } else {
        lemma_digit_char(tag.fraction / 10);
    }
}

/// A stamp is read where it stands.
pub proof fn lemma_written_read(before: Seq<char>, tag: TimeTag, behind: Seq<char>, b: Brackets)
    requires
        tag.valid(),
        b == square() || b == angle(),
    ensures
        ({
            let s = before + written(tag, b) + behind;
            let i = before.len() as int;
            let len = written(tag, b).len() as int;
            &&& len > 0
            &&& stamp_len(s, i, b) == len
            &&& stamp_millis(s, i, len) == Some(says(tag) / 1_000_000)
            &&& says(tag) / 1_000_000 * 1_000_000 == says(tag)
        }),
{
    let s = before + written(tag, b) + behind;
    let i = before.len() as int;
    let t = written(tag, b);
    lemma_written_chars(tag, b);
    assert forall|k: int| 0 <= k < t.len() implies s[i + k] == #[trigger] t[k] by {}
    assert(is_ascii_digit(t[1]) && is_ascii_digit(t[2]) && is_ascii_digit(t[4]) && is_ascii_digit(
        t[5],
    ) && is_ascii_digit(t[7]) && is_ascii_digit(t[8]));
    assert(s[i] == t[0] && s[i + 1] == t[1] && s[i + 2] == t[2] && s[i + 3] == t[3] && s[i + 4]
        == t[4] && s[i + 5] == t[5] && s[i + 6] == t[6] && s[i + 7] == t[7] && s[i + 8] == t[8]
        && s[i + 9] == t[9]);
    if tag.thousandths {
        assert(s[i + 10] == t[10]);
        assert(is_ascii_digit(t[9]));
    } else {
        assert(!is_decimal(']') && !is_decimal('>'));
    }
}

/// No stamp starts in a text without one, though a stamp follows.
proof fn lemma_no_stamp_across(before: Seq<char>, text: Seq<char>, behind: Seq<char>, b: Brackets)
    requires
        b == square() || b == angle(),
        text.len() > 0,
        stampless(text, b),
        behind.len() > 0 ==> behind[0] == b.open,
    ensures
        stamp_len(before + text + behind, before.len() as int, b) == 0,
{
    let rest = text + behind;
    let n = text.len() as int;
    lemma_stamp_behind(before, rest, 0, b);
    assert(before + rest =~= before + text + behind);
    assert(stamp_len(text, 0, b) == 0);
    let len = stamp_len(rest, 0, b);
    if len > 0 {
        assert(!is_decimal('[') && !is_decimal('<'));
        if len <= n {
            assert(rest[0] == text[0] && rest[1] == text[1] && rest[2] == text[2] && rest[3]
                == text[3] && rest[4] == text[4] && rest[5] == text[5] && rest[6] == text[6]
                && rest[7] == text[7] && rest[8] == text[8] && rest[9] == text[9]);
            if len == 11 {
                assert(rest[10] == text[10]);
            }
        } else {
            assert(rest[n] == b.open);
        }
    }
}

proof fn lemma_stampless_rest(text: Seq<char>, b: Brackets)
    requires
        text.len() > 0,
        stampless(text, b),
    ensures
        stampless(text.skip(1), b),
{
    let t = text.skip(1);
    assert(seq![text[0]] + t =~= text);
    assert forall|k: int| 0 <= k < t.len() implies #[trigger] stamp_len(t, k, b) == 0 by {
        lemma_stamp_behind(seq![text[0]], t, k, b);
        assert(stamp_len(text, k + 1, b) == 0);
    }
}

/// A stamp is the first thing read from where it stands.
proof fn lemma_written_first(before: Seq<char>, tag: TimeTag, behind: Seq<char>, b: Brackets)
    requires
        tag.valid(),
        b == square() || b == angle(),
    ensures
        ({
            let s = before + written(tag, b) + behind;
            let i = before.len() as int;
            let j = (before + written(tag, b)).len() as int;
            &&& stamp_times(s, i, b) == seq![says(tag)] + stamp_times(s, j, b)
            &&& stamp_parts(s, i, b) == seq![Seq::<char>::empty()] + stamp_parts(s, j, b)
            &&& unstamped(s, i, b) == unstamped(s, j, b)
        }),
{
    lemma_written_read(before, tag, behind, b);
}

/// A character of a text without stamps is the first thing read from where it
/// stands.
proof fn lemma_text_first(before: Seq<char>, text: Seq<char>, behind: Seq<char>, b: Brackets)
    requires
        b == square() || b == angle(),
        text.len() > 0,
        stampless(text, b),
        behind.len() > 0 ==> behind[0] == b.open,
    ensures
        ({
            let s = before + text + behind;
            let i = before.len() as int;
            &&& stamp_times(s, i, b) == stamp_times(s, i + 1, b)
            &&& stamp_parts(s, i, b) == prefixed(seq![text[0]], stamp_parts(s, i + 1, b))
            &&& unstamped(s, i, b) == seq![text[0]] + unstamped(s, i + 1, b)
        }),
{
    lemma_no_stamp_across(before, text, behind, b);
    assert((before + text + behind)[before.len() as int] == text[0]);
}

/// What is read from `at` on is what stamps and texts say.
spec fn reads(s: Seq<char>, at: int, text: Seq<char>, items: Seq<Stamped>, b: Brackets) -> bool {
    &&& stamp_times(s, at, b) == run_times(items)
    &&& stamp_parts(s, at, b) == seq![text] + run_texts(items)
    &&& unstamped(s, at, b) == text + run_text(items)
}

proof fn lemma_reads_char(s: Seq<char>, at: int, text: Seq<char>, items: Seq<Stamped>, b: Brackets)
    requires
        text.len() > 0,
        reads(s, at + 1, text.skip(1), items, b),
        stamp_times(s, at, b) == stamp_times(s, at + 1, b),
        stamp_parts(s, at, b) == prefixed(seq![text[0]], stamp_parts(s, at + 1, b)),
        unstamped(s, at, b) == seq![text[0]] + unstamped(s, at + 1, b),
    ensures
        reads(s, at, text, items, b),
{
    let rest = text.skip(1);
    assert(seq![text[0]] + rest =~= text);
    assert(prefixed(seq![text[0]], seq![rest] + run_texts(items)) =~= seq![text] + run_texts(items));
    assert(seq![text[0]] + (rest + run_text(items)) =~= text + run_text(items));
}

proof fn lemma_reads_stamp(s: Seq<char>, at: int, next: int, items: Seq<Stamped>, b: Brackets)
    requires
        items.len() > 0,
        reads(s, next, items[0].text, items.skip(1), b),
        stamp_times(s, at, b) == seq![says(items[0].tag)] + stamp_times(s, next, b),
        stamp_parts(s, at, b) == seq![Seq::<char>::empty()] + stamp_parts(s, next, b),
        unstamped(s, at, b) == unstamped(s, next, b),
    ensures
        reads(s, at, Seq::empty(), items, b),
{
    let item = items[0];
    let rest = items.skip(1);
    let none = Seq::<char>::empty();
    assert(run_times(items) =~= seq![says(item.tag)] + run_times(rest));
    assert(seq![none] + run_texts(items) =~= seq![none] + (seq![item.text] + run_texts(rest)));
    assert(none + run_text(items) =~= item.text + run_text(rest));
}

proof fn lemma_run(before: Seq<char>, text: Seq<char>, items: Seq<Stamped>, b: Brackets)
    requires
        b == square() || b == angle(),
        stampless(text, b),
        well_written(items, b),
    ensures
        reads(before + text + run(items, b), before.len() as int, text, items, b),
    decreases items.len(), text.len(),
{
    let s = before + text + run(items, b);
    let i = before.len() as int;
    if text.len() > 0 {
        let next = before.push(text[0]);
        let rest = text.skip(1);
        if items.len() > 0 {
            assert(run(items, b)[0] == b.open) by {
                reveal(written);
            }
        }
        lemma_text_first(before, text, run(items, b), b);
        lemma_stampless_rest(text, b);
        lemma_run(next, rest, items, b);
        assert(next + rest + run(items, b) =~= s);
        lemma_reads_char(s, i, text, items, b);
    } else if items.len() == 0 {
        assert(s.len() == i);
        assert(run_times(items) =~= Seq::empty());
        assert(text =~= Seq::empty());
        assert(seq![text] + run_texts(items) =~= seq![Seq::<char>::empty()]);
        assert(text + run_text(items) =~= Seq::empty());
    } else {
        let item = items[0];
        let rest = items.skip(1);
        let tag = written(item.tag, b);
        assert forall|k: int| 0 <= k < rest.len() implies (#[trigger] rest[k]).tag.valid()
            && stampless(rest[k].text, b) by {
            assert(rest[k] == items[k + 1]);
        }
        lemma_written_first(before, item.tag, item.text + run(rest, b), b);
        assert(s =~= before + tag + (item.text + run(rest, b)));
        lemma_run(before + tag, item.text, rest, b);
        assert(s =~= before + tag + item.text + run(rest, b));
        lemma_reads_stamp(s, i, (before + tag).len() as int, items, b);
        assert(text =~= Seq::empty());
    }
}

/// From stamps and texts as they are written come back the times that the
/// stamps say, in order, and the texts before, between and behind them.
pub proof fn law_stamps_read(text: Seq<char>, items: Seq<Stamped>, b: Brackets)
    requires
        b == square() || b == angle(),
        stampless(text, b),
        well_written(items, b),
    ensures
        stamp_times(text + run(items, b), 0, b) == run_times(items),
        stamp_parts(text + run(items, b), 0, b) == seq![text] + run_texts(items),
        unstamped(text + run(items, b), 0, b) == text + run_text(items),
{
    lemma_run(Seq::empty(), text, items, b);
    assert(Seq::<char>::empty() + text + run(items, b) =~= text + run(items, b));
}

} // verus!
