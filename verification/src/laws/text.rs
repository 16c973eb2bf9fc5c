//! Texts: taking apart, putting together, letter case, numbers in digits.
use crate::text::{
    all_ascii_digits, decimal, digit_char, digit_value, digits_value, has_part, hex_char,
    hexadecimal, is_ascii_digit, is_white_space, joined, lowercased, occurs_at, pieces,
    signed_decimal, signed_value, trimmed, trimmed_end, trimmed_start, two_digits,
};
use vstd::prelude::*;
use vstd::utf8::is_ascii_chars;

verus! {

// ---------------------------------------------------------------------------
// Pieces
// ---------------------------------------------------------------------------

/// The pieces of a text with the separator put back between them are the text,
/// and none of them holds the separator.
pub proof fn law_pieces(s: Seq<char>, sep: char)
    ensures
        pieces(s, sep).len() > 0,
        joined(pieces(s, sep), seq![sep]) == s,
        forall|k: int| 0 <= k < pieces(s, sep).len() ==> !(#[trigger] pieces(s, sep)[k]).contains(sep),
    decreases s.len(),
{
    let all = pieces(s, sep);
    if s.len() == 0 {
        assert(joined(all, seq![sep]) =~= s);
    } else {
        let head = s.drop_last();
        let c = s.last();
        let before = pieces(head, sep);
        law_pieces(head, sep);
        assert(head.push(c) =~= s);
        if c == sep {
            assert(all.drop_last() =~= before);
            assert(joined(all, seq![sep]) =~= s);
        } else {
            let grown = before.last().push(c);
            assert(all.drop_last() =~= before.drop_last());
            assert(!grown.contains(sep)) by {
                assert(!before[before.len() - 1].contains(sep));
                if grown.contains(sep) {
                    let k = choose|k: int| 0 <= k < grown.len() && grown[k] == sep;
                    assert(k < before.last().len());
                    assert(before.last()[k] == sep);
                }
            }
            assert forall|k: int| 0 <= k < all.len() implies !(#[trigger] all[k]).contains(sep) by {
                if k < all.len() - 1 {
                    assert(all[k] == before[k]);
                }
            }
            assert(joined(all, seq![sep]) =~= s);
        }
    }
}

/// Two lists one after the other, put together, are what each is put together,
/// with the separator between.
pub proof fn law_joined(a: Seq<Seq<char>>, b: Seq<Seq<char>>, sep: Seq<char>)
    requires
        a.len() > 0,
        b.len() > 0,
    ensures
        joined(a + b, sep) == joined(a, sep) + sep + joined(b, sep),
        joined(Seq::empty(), sep) == Seq::<char>::empty(),
        joined(seq![a[0]], sep) == a[0],
    decreases b.len(),
{
    assert((a + b).last() == b.last());
    assert((a + b).drop_last() =~= a + b.drop_last());
    if b.len() == 1 {
        assert(a + b.drop_last() =~= a);
    } else {
        law_joined(a, b.drop_last(), sep);
        assert(joined(a + b, sep) =~= joined(a, sep) + sep + joined(b, sep));
    }
}

/// The pieces of two texts with a separator between are those of both.
pub proof fn law_pieces_below(a: Seq<char>, b: Seq<char>, sep: char)
    ensures
        pieces(a.push(sep) + b, sep) == pieces(a, sep) + pieces(b, sep),
    decreases b.len(),
{
    let s = a.push(sep) + b;
    if b.len() == 0 {
        assert(s =~= a.push(sep));
        assert(s.drop_last() =~= a);
        assert(pieces(s, sep) =~= pieces(a, sep) + pieces(b, sep));
    } else {
        law_pieces_below(a, b.drop_last(), sep);
        crate::text::lemma_pieces(b.drop_last(), sep);
        assert(s.drop_last() =~= a.push(sep) + b.drop_last());
        assert(s.last() == b.last());
        assert(pieces(s, sep) =~= pieces(a, sep) + pieces(b, sep));
    }
}

// ---------------------------------------------------------------------------
// White space, parts, letter case
// ---------------------------------------------------------------------------

/// How much white space a text starts and ends with.
proof fn lemma_trimmed_start_splits(s: Seq<char>) -> (n: int)
    ensures
        0 <= n <= s.len(),
        s.skip(n) == trimmed_start(s),
        forall|k: int| 0 <= k < n ==> is_white_space(#[trigger] s[k]),
        n < s.len() ==> !is_white_space(s[n]),
    decreases s.len(),
{
    if s.len() > 0 && is_white_space(s[0]) {
        let n = lemma_trimmed_start_splits(s.skip(1));
        assert(s.skip(1).skip(n) =~= s.skip(n + 1));
        assert forall|k: int| 0 <= k < n + 1 implies is_white_space(#[trigger] s[k]) by {
            if k > 0 {
                assert(s.skip(1)[k - 1] == s[k]);
            }
        }
        n + 1
    } else {
        assert(s.skip(0) =~= s);
        0
    }
}

proof fn lemma_trimmed_end_splits(s: Seq<char>) -> (n: int)
    ensures
        0 <= n <= s.len(),
        s.take(n) == trimmed_end(s),
        forall|k: int| n <= k < s.len() ==> is_white_space(#[trigger] s[k]),
        n > 0 ==> !is_white_space(s[n - 1]),
    decreases s.len(),
{
    if s.len() > 0 && is_white_space(s.last()) {
        let n = lemma_trimmed_end_splits(s.drop_last());
        assert(s.drop_last().take(n) =~= s.take(n));
        assert forall|k: int| n <= k < s.len() implies is_white_space(#[trigger] s[k]) by {
            if k < s.len() - 1 {
                assert(s.drop_last()[k] == s[k]);
            }
        }
        n
    } else {
        assert(s.take(s.len() as int) =~= s);
        s.len() as int
    }
}

/// A trimmed text is what lies between the first and the last character that is
/// no white space.
pub proof fn law_trimmed(s: Seq<char>) -> (bounds: (int, int))
    ensures
        0 <= bounds.0 <= bounds.1 <= s.len(),
        trimmed(s) == s.subrange(bounds.0, bounds.1),
        forall|k: int| 0 <= k < bounds.0 ==> is_white_space(#[trigger] s[k]),
        forall|k: int| bounds.1 <= k < s.len() ==> is_white_space(#[trigger] s[k]),
        trimmed(s).len() > 0 ==> !is_white_space(trimmed(s)[0]) && !is_white_space(
            trimmed(s).last(),
        ),
{
    let a = lemma_trimmed_start_splits(s);
    let t = s.skip(a);
    let n = lemma_trimmed_end_splits(t);
    assert(t.take(n) =~= s.subrange(a, a + n));
    assert forall|k: int| a + n <= k < s.len() implies is_white_space(#[trigger] s[k]) by {
        assert(t[k - a] == s[k]);
    }
    if n > 0 {
        assert(trimmed(s)[0] == t[0]);
        assert(trimmed(s).last() == t[n - 1]);
    }
    (a, a + n)
}

/// A text is part of another exactly where that is the text with something
/// before and something behind it.
pub proof fn law_has_part(s: Seq<char>, part: Seq<char>, before: Seq<char>, behind: Seq<char>)
    ensures
        has_part(before + part + behind, part),
        occurs_at(part + behind, part, 0),
        has_part(s, part) ==> exists|i: int|
            0 <= i && i + part.len() <= s.len() && #[trigger] s.subrange(i, i + part.len()) == part,
        occurs_at(s, part, 0) ==> part.len() <= s.len() && s.take(part.len() as int) == part,
{
    let whole = before + part + behind;
    let i = before.len() as int;
    assert(whole.subrange(i, i + part.len()) =~= part);
    assert(occurs_at(whole, part, i));
    assert((part + behind).subrange(0, 0 + part.len() as int) =~= part);
    if occurs_at(s, part, 0) {
        assert(s.take(part.len() as int) =~= s.subrange(0, 0 + part.len() as int));
    }
    if has_part(s, part) {
        let k = choose|k: int| occurs_at(s, part, k);
        assert(s.subrange(k, k + part.len()) == part);
    }
}

/// In lower case an ASCII text keeps its length; its letters `A` to `Z` become
/// those 32 places further on, and nothing else changes.
pub proof fn law_lowercased(s: Seq<char>, k: int)
    requires
        is_ascii_chars(s),
        0 <= k < s.len(),
    ensures
        lowercased(s).len() == s.len(),
        'A' <= s[k] && s[k] <= 'Z' ==> lowercased(s)[k] as u32 == s[k] as u32 + 32,
        !('A' <= s[k] && s[k] <= 'Z') ==> lowercased(s)[k] == s[k],
{
}

/// Any other text in lower case is what the standard library makes of it.
pub proof fn law_lowercased_beyond_ascii(s: Seq<char>)
    requires
        !is_ascii_chars(s),
    ensures
        lowercased(s) == crate::text::unicode_lowercase(s),
{
}

// ---------------------------------------------------------------------------
// Numbers
// ---------------------------------------------------------------------------

proof fn lemma_digit(d: nat)
    requires
        d < 10,
    ensures
        is_ascii_digit(digit_char(d)),
        digit_value(digit_char(d)) == d,
        digit_char(d) != '-',
        digit_char(d) != '+',
        digit_char(d) == '0' <==> d == 0,
{
}

/// The digits of a number write that number, and the first of several is no
/// zero.
pub proof fn law_decimal(n: nat)
    ensures
        decimal(n).len() > 0,
        all_ascii_digits(decimal(n)),
        digits_value(decimal(n)) == n,
        n >= 10 ==> decimal(n)[0] != '0',
        n < 10 ==> decimal(n).len() == 1,
        n > 0 ==> decimal(n)[0] != '0',
    decreases n,
{
    lemma_digit(n % 10);
    let d = decimal(n);
    reveal_with_fuel(digits_value, 2);
    if n < 10 {
        lemma_digit(n);
        assert(d.drop_last() =~= Seq::empty());
    } else {
        law_decimal(n / 10);
        assert(d.drop_last() =~= decimal(n / 10));
        assert forall|i: int| 0 <= i < d.len() implies is_ascii_digit(#[trigger] d[i]) by {
            if i < d.len() - 1 {
                assert(d[i] == decimal(n / 10)[i]);
            }
        }
        assert(d[0] == decimal(n / 10)[0]);
    }
}

/// The value of digits, place by place: ten times what stands before, and the
/// digit.
pub proof fn law_digits_value(s: Seq<char>, d: nat)
    requires
        d < 10,
    ensures
        digits_value(s.push(digit_char(d))) == 10 * digits_value(s) + d,
        digits_value(Seq::empty()) == 0,
{
    lemma_digit(d);
    assert(s.push(digit_char(d)).drop_last() =~= s);
}

/// A number that was written out is read back, with either sign.
pub proof fn law_signed_read_back(n: i64)
    ensures
        signed_value(signed_decimal(n as int)) == Some(n),
        n >= 0 ==> signed_value(seq!['+'] + signed_decimal(n as int)) == Some(n),
{
    let m = if n < 0 {
        (-(n as int)) as nat
    } else {
        n as nat
    };
    let d = decimal(m);
    law_decimal(m);
    assert(is_ascii_digit(d[0]));
    assert((seq!['-'] + d).skip(1) =~= d);
    assert((seq!['+'] + d).skip(1) =~= d);
}

/// What is read as a number is digits, after a sign at most, and in range.
pub proof fn law_signed_value(s: Seq<char>)
    ensures
        signed_value(s) is Some ==> s.len() > 0 && is_ascii_digit(s.last()) && (is_ascii_digit(s[0])
            || s[0] == '-' || s[0] == '+') && forall|k: int|
            1 <= k < s.len() ==> is_ascii_digit(#[trigger] s[k]),
        all_ascii_digits(s) && s.len() > 0 && digits_value(s) <= i64::MAX ==> signed_value(s) == Some(
            digits_value(s) as i64,
        ),
        all_ascii_digits(s) && digits_value(s) > i64::MAX ==> signed_value(s) is None,
{
    let signed = s.len() > 0 && (s[0] == '-' || s[0] == '+');
    if signed_value(s) is Some && signed {
        let d = s.skip(1);
        assert(d.last() == s.last());
        assert(is_ascii_digit(d[d.len() - 1]));
        assert forall|k: int| 1 <= k < s.len() implies is_ascii_digit(#[trigger] s[k]) by {
            assert(is_ascii_digit(d[k - 1]));
        }
    } else if signed_value(s) is Some {
        assert(is_ascii_digit(s[s.len() - 1]));
        assert(is_ascii_digit(s[0]));
    }
    if all_ascii_digits(s) && s.len() > 0 {
        assert(is_ascii_digit(s[0]));
    }
}

/// A number with two places has the number's value and at least two digits;
/// below a hundred exactly two.
pub proof fn law_two_digits(n: nat)
    ensures
        digits_value(two_digits(n)) == n,
        all_ascii_digits(two_digits(n)),
        two_digits(n).len() >= 2,
        n < 100 ==> two_digits(n).len() == 2,
        n >= 10 ==> two_digits(n) == decimal(n),
{
    law_decimal(n);
    if n < 10 {
        lemma_digit(n);
        let s = two_digits(n);
        assert(s =~= seq!['0', digit_char(n)]);
        assert(s.drop_last() =~= seq!['0']);
        assert(seq!['0'].drop_last() =~= Seq::<char>::empty());
        reveal_with_fuel(digits_value, 3);
    } else {
        law_decimal(n / 10);
        if n < 100 {
            assert(decimal(n / 10).len() == 1);
        }
        assert(decimal(n).len() == decimal(n / 10).len() + 1);
    }
}

/// The value of a hexadecimal digit in lower case.
pub open spec fn hex_value(c: char) -> int {
    if '0' <= c && c <= '9' {
        c as u32 - '0' as u32
    } else {
        c as u32 - 'a' as u32 + 10
    }
}

/// The hexadecimal digits of a number, from the last: each is the rest of a
/// division by sixteen.
pub proof fn law_hexadecimal(n: nat, width: nat)
    requires
        width > 0,
    ensures
        hexadecimal(n, width).len() == width,
        hex_value(hexadecimal(n, width).last()) == n % 16,
        hexadecimal(n, width).drop_last() == hexadecimal(n / 16, (width - 1) as nat),
        is_ascii_digit(hexadecimal(n, width).last()) || ('a' <= hexadecimal(n, width).last()
            && hexadecimal(n, width).last() <= 'f'),
    decreases width,
{
    let d = n % 16;
    assert(hex_value(hex_char(d)) == d);
    assert(hexadecimal(n, width).drop_last() =~= hexadecimal(n / 16, (width - 1) as nat));
    if width > 1 {
        law_hexadecimal(n / 16, (width - 1) as nat);
    }
}

} // verus!
