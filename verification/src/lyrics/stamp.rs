//! Time stamps such as `[01:02.34]` and `<01:02.345>` within a line of text.
use crate::text::{ascii_digit, bounds_within, cut, digit_value, is_ascii_digit};
use crate::time::{NANOS_PER_MILLI, Duration};
use vstd::prelude::*;

verus! {

/// Whether a regular expression of the `regex` crate is valid and matches
/// somewhere in a text.
pub uninterp spec fn regex_matches(pattern: Seq<char>, text: Seq<char>) -> bool;

/// `regex::Regex::new` and `regex::Regex::is_match`: for the two patterns in
/// use, the answer depends on the pattern and the text alone.
#[verifier::external_body]
fn is_match(pattern: &str, text: &str) -> (r: bool)
    requires
        pattern@ == "^\\d$"@ || pattern@ == "^\\w$"@,
    ensures
        r == regex_matches(pattern@, text@),
{
    match regex::Regex::new(pattern) {
        Ok(re) => re.is_match(text),
        Err(_) => false,
    }
}

/// Whether the class `\d` of regular expressions has the character.
pub open spec fn regex_decimal(c: char) -> bool {
    regex_matches("^\\d$"@, seq![c])
}

/// Whether the class `\w` of regular expressions has the character.
pub open spec fn regex_word(c: char) -> bool {
    regex_matches("^\\w$"@, seq![c])
}

/// A text of one character.
fn text_of(c: char) -> (r: String)
    ensures
        r@ == seq![c],
{
    let mut out = String::new();
    out.push(c);
    assert(out@ =~= seq![c]);
    out
}

/// Whether the character is a decimal digit of some script.
pub open spec fn is_decimal(c: char) -> bool {
    if (c as u32) < 128 {
        is_ascii_digit(c)
    } else {
        regex_decimal(c)
    }
}

/// Whether the character can be part of a word: a letter, a mark, a digit of
/// some script, or a connector such as `_`.
pub open spec fn is_word(c: char) -> bool {
    if (c as u32) < 128 {
        is_ascii_digit(c) || ('a' <= c && c <= 'z') || ('A' <= c && c <= 'Z') || c == '_'
    } else {
        regex_word(c) || regex_decimal(c)
    }
}

/// Whether the character is a decimal digit of some script.
pub fn decimal_char(c: char) -> (r: bool)
    ensures
        r == is_decimal(c),
{
    if (c as u32) < 128 {
        ascii_digit(c)
    } else {
        is_match("^\\d$", text_of(c).as_str())
    }
}

/// Whether the character can be part of a word.
pub fn word_char(c: char) -> (r: bool)
    ensures
        r == is_word(c),
{
    if (c as u32) < 128 {
        ascii_digit(c) || ('a' <= c && c <= 'z') || ('A' <= c && c <= 'Z') || c == '_'
    } else {
        let text = text_of(c);
        is_match("^\\w$", text.as_str()) || is_match("^\\d$", text.as_str())
    }
}

/// The two characters that enclose a stamp.
#[derive(Clone, Copy, Debug, PartialEq, Eq, Structural)]
pub struct Brackets {
    pub open: char,
    pub close: char,
}

/// `[` and `]`, around the start time of a line.
pub open spec fn square() -> Brackets {
    Brackets { open: '[', close: ']' }
}

/// `<` and `>`, around the start time of a word.
pub open spec fn angle() -> Brackets {
    Brackets { open: '<', close: '>' }
}

/// Whether two digits, a colon, two digits, a dot and two digits stand behind
/// an opening bracket at index `i`.
pub open spec fn stamp_opens(s: Seq<char>, i: int, b: Brackets) -> bool {
    &&& 0 <= i && i + 10 <= s.len()
    &&& s[i] == b.open
    &&& is_decimal(s[i + 1]) && is_decimal(s[i + 2])
    &&& s[i + 3] == ':'
    &&& is_decimal(s[i + 4]) && is_decimal(s[i + 5])
    &&& s[i + 6] == '.'
    &&& is_decimal(s[i + 7]) && is_decimal(s[i + 8])
}

/// The number of characters of the stamp that starts at index `i`, or zero.
pub open spec fn stamp_len(s: Seq<char>, i: int, b: Brackets) -> int {
    if !stamp_opens(s, i, b) {
        0
    } else if is_decimal(s[i + 9]) && i + 11 <= s.len() && s[i + 10] == b.close {
        11
    } else if s[i + 9] == b.close {
        10
    } else {
        0
    }
}

/// The milliseconds that the stamp of `len` characters at index `i` writes:
/// minutes, seconds and hundredths or thousandths of a second. `None` where a
/// digit of another script stands in it.
pub open spec fn stamp_millis(s: Seq<char>, i: int, len: int) -> Option<nat> {
    let ascii = is_ascii_digit(s[i + 1]) && is_ascii_digit(s[i + 2]) && is_ascii_digit(s[i + 4])
        && is_ascii_digit(s[i + 5]) && is_ascii_digit(s[i + 7]) && is_ascii_digit(s[i + 8]) && (len
        != 11 || is_ascii_digit(s[i + 9]));
    let minutes = 10 * digit_value(s[i + 1]) + digit_value(s[i + 2]);
    let seconds = 10 * digit_value(s[i + 4]) + digit_value(s[i + 5]);
    let hundredths = 10 * digit_value(s[i + 7]) + digit_value(s[i + 8]);
    let last = if len == 11 {
        digit_value(s[i + 9])
    } else {
        0
    };
    if ascii {
        Some(minutes * 60_000 + seconds * 1_000 + hundredths * 10 + last)
    } else {
        None
    }
}

/// The times that the stamps from index `i` on write, in nanoseconds, in the
/// order in which they stand.
pub open spec fn stamp_times(s: Seq<char>, i: int, b: Brackets) -> Seq<nat>
    decreases s.len() - i,
{
    if i >= s.len() {
        Seq::empty()
    } else if stamp_len(s, i, b) > 0 {
        let rest = stamp_times(s, i + stamp_len(s, i, b), b);
        match stamp_millis(s, i, stamp_len(s, i, b)) {
            Some(ms) => seq![ms * NANOS_PER_MILLI as nat] + rest,
            None => rest,
        }
    } else {
        stamp_times(s, i + 1, b)
    }
}

/// The texts before, between and behind the stamps from index `i` on.
pub open spec fn stamp_parts(s: Seq<char>, i: int, b: Brackets) -> Seq<Seq<char>>
    decreases s.len() - i,
{
    if i >= s.len() {
        seq![Seq::empty()]
    } else if stamp_len(s, i, b) > 0 {
        seq![Seq::<char>::empty()] + stamp_parts(s, i + stamp_len(s, i, b), b)
    } else {
        prefixed(seq![s[i]], stamp_parts(s, i + 1, b))
    }
}

/// `parts` with `head` put before the first of them.
pub open spec fn prefixed(head: Seq<char>, parts: Seq<Seq<char>>) -> Seq<Seq<char>> {
    parts.update(0, head + parts[0])
}

/// The text from index `i` on without its stamps.
pub open spec fn unstamped(s: Seq<char>, i: int, b: Brackets) -> Seq<char>
    decreases s.len() - i,
{
    if i >= s.len() {
        Seq::empty()
    } else if stamp_len(s, i, b) > 0 {
        unstamped(s, i + stamp_len(s, i, b), b)
    } else {
        seq![s[i]] + unstamped(s, i + 1, b)
    }
}

/// The number of characters of the stamp that starts at index `i`, or zero.
pub fn stamp_len_at(s: &Vec<char>, i: usize, b: Brackets) -> (r: usize)
    requires
        i <= s@.len(),
    ensures
        r == stamp_len(s@, i as int, b),
        i + r <= s@.len(),
{
    if s.len() - i < 10 {
        return 0;
    }
    let opens = s[i] == b.open && decimal_char(s[i + 1]) && decimal_char(s[i + 2]) && s[i + 3] == ':'
        && decimal_char(s[i + 4]) && decimal_char(s[i + 5]) && s[i + 6] == '.' && decimal_char(
        s[i + 7],
    ) && decimal_char(s[i + 8]);
    if !opens {
        0
    } else if s.len() - i >= 11 && s[i + 10] == b.close && decimal_char(s[i + 9]) {
        11
    } else if s[i + 9] == b.close {
        10
    } else {
        0
    }
}

/// The number that an ASCII digit stands for.
fn digit_of(c: char) -> (r: u64)
    requires
        is_ascii_digit(c),
    ensures
        r == digit_value(c),
        r <= 9,
{
    (c as u32 - '0' as u32) as u64
}

/// The milliseconds that the stamp of `len` characters at index `i` writes.
pub fn stamp_millis_at(s: &Vec<char>, i: usize, len: usize) -> (r: Option<u64>)
    requires
        len == 10 || len == 11,
        i + len <= s.len(),
    ensures
        r is Some == stamp_millis(s@, i as int, len as int) is Some,
        r matches Some(ms) ==> stamp_millis(s@, i as int, len as int) == Some(ms as nat) && ms
            <= 6_039_999,
{
    let ascii = ascii_digit(s[i + 1]) && ascii_digit(s[i + 2]) && ascii_digit(s[i + 4])
        && ascii_digit(s[i + 5]) && ascii_digit(s[i + 7]) && ascii_digit(s[i + 8]) && (len != 11
        || ascii_digit(s[i + 9]));
    if !ascii {
        return None;
    }
    let minutes: u64 = 10 * digit_of(s[i + 1]) + digit_of(s[i + 2]);
    let seconds: u64 = 10 * digit_of(s[i + 4]) + digit_of(s[i + 5]);
    let hundredths: u64 = 10 * digit_of(s[i + 7]) + digit_of(s[i + 8]);
    let last: u64 = if len == 11 {
        digit_of(s[i + 9])
    } else {
        0
    };
    Some(minutes * 60_000 + seconds * 1_000 + hundredths * 10 + last)
}

/// Spans of time, in nanoseconds.
pub open spec fn nanos(times: Seq<Duration>) -> Seq<nat> {
    times.map_values(|t: Duration| t@)
}

/// The times that the stamps in `s` write, in the order in which they stand.
pub fn times_in(s: &Vec<char>, b: Brackets) -> (r: Vec<Duration>)
    ensures
        nanos(r@) == stamp_times(s@, 0, b),
{
    let mut out: Vec<Duration> = Vec::new();
    let mut i: usize = 0;
    assert(nanos(out@) + stamp_times(s@, 0, b) =~= stamp_times(s@, 0, b));
    while i < s.len()
        invariant
            i <= s@.len(),
            nanos(out@) + stamp_times(s@, i as int, b) == stamp_times(s@, 0, b),
        decreases s@.len() - i,
    {
        let len = stamp_len_at(s, i, b);
        if len > 0 {
            match stamp_millis_at(s, i, len) {
                Some(ms) => {
                    let t = Duration::from_millis(ms);
                    let ghost before = out@;
                    out.push(t);
                    assert(nanos(out@) =~= nanos(before).push(t@));
                    assert(nanos(out@) + stamp_times(s@, i + len, b) =~= nanos(before) + (
                    seq![t@] + stamp_times(s@, i + len, b)));
                },
                None => {},
            }
            i = i + len;
        } else {
            i = i + 1;
        }
    }
    assert(nanos(out@) + stamp_times(s@, i as int, b) =~= nanos(out@));
    out
}

/// `s` without its stamps.
pub fn without_stamps(s: &Vec<char>, b: Brackets) -> (r: Vec<char>)
    ensures
        r@ == unstamped(s@, 0, b),
{
    let mut out: Vec<char> = Vec::new();
    let mut i: usize = 0;
    assert(out@ + unstamped(s@, 0, b) =~= unstamped(s@, 0, b));
    while i < s.len()
        invariant
            i <= s@.len(),
            out@ + unstamped(s@, i as int, b) == unstamped(s@, 0, b),
        decreases s@.len() - i,
    {
        let len = stamp_len_at(s, i, b);
        if len > 0 {
            i = i + len;
        } else {
            let ghost before = out@;
            out.push(s[i]);
            assert(out@ + unstamped(s@, i + 1, b) =~= before + (seq![s@[i as int]] + unstamped(
                s@,
                i + 1,
                b,
            )));
            i = i + 1;
        }
    }
    assert(out@ + unstamped(s@, i as int, b) =~= out@);
    out
}

/// There is always a part behind the last stamp.
pub proof fn lemma_stamp_parts(s: Seq<char>, i: int, b: Brackets)
    ensures
        stamp_parts(s, i, b).len() > stamp_times(s, i, b).len(),
    decreases s.len() - i,
{
    if i < s.len() {
        if stamp_len(s, i, b) > 0 {
            lemma_stamp_parts(s, i + stamp_len(s, i, b), b);
        } else {
            lemma_stamp_parts(s, i + 1, b);
        }
    }
}

/// The bounds of the texts before, between and behind the stamps of `s`.
pub fn parts_in(s: &Vec<char>, b: Brackets) -> (r: Vec<(usize, usize)>)
    ensures
        cut(s@, r@) == stamp_parts(s@, 0, b),
        bounds_within(r@, s@.len()),
{
    let mut out: Vec<(usize, usize)> = Vec::new();
    let mut start: usize = 0;
    let mut i: usize = 0;
    proof {
        lemma_stamp_parts(s@, 0, b);
        let all = stamp_parts(s@, 0, b);
        assert(cut(s@, out@) + prefixed(s@.subrange(0, 0), all) =~= all) by {
            assert(s@.subrange(0, 0) + all[0] =~= all[0]);
        }
    }
    while i < s.len()
        invariant
            start <= i <= s@.len(),
            bounds_within(out@, s@.len()),
            cut(s@, out@) + prefixed(
                s@.subrange(start as int, i as int),
                stamp_parts(s@, i as int, b),
            ) == stamp_parts(s@, 0, b),
        decreases s@.len() - i,
    {
        let len = stamp_len_at(s, i, b);
        if len > 0 {
            let ghost before = out@;
            out.push((start, i));
            proof {
                let piece = s@.subrange(start as int, i as int);
                let rest = stamp_parts(s@, i + len, b);
                lemma_stamp_parts(s@, i + len, b);
                assert(cut(s@, out@) =~= cut(s@, before).push(piece));
                let next = s@.subrange(i + len, i + len);
                assert(next + rest[0] =~= rest[0]);
                assert(prefixed(next, rest) =~= rest);
                assert(piece + Seq::<char>::empty() =~= piece);
                assert(prefixed(piece, seq![Seq::<char>::empty()] + rest) =~= seq![piece] + rest);
                assert(cut(s@, out@) + rest =~= cut(s@, before) + (seq![piece] + rest));
            }
            i = i + len;
            start = i;
        } else {
            proof {
                let piece = s@.subrange(start as int, i as int);
                let rest = stamp_parts(s@, i + 1, b);
                lemma_stamp_parts(s@, i + 1, b);
                let longer = s@.subrange(start as int, i + 1);
                assert(piece + (seq![s@[i as int]] + rest[0]) =~= longer + rest[0]);
                assert(prefixed(piece, prefixed(seq![s@[i as int]], rest)) =~= prefixed(
                    longer,
                    rest,
                ));
            }
            i = i + 1;
        }
    }
    let ghost before = out@;
    out.push((start, i));
    proof {
        let piece = s@.subrange(start as int, i as int);
        assert(piece + Seq::<char>::empty() =~= piece);
        assert(prefixed(piece, seq![Seq::<char>::empty()]) =~= seq![piece]);
        assert(cut(s@, out@) =~= cut(s@, before) + seq![piece]);
    }
    out
}

} // verus!
