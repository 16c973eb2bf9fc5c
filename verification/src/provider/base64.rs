//! Lyrics that may come encoded in Base64.
use crate::text::{is_white_space, lemma_trimmed_id, trim, trimmed};
use vstd::prelude::*;
use vstd::string::*;
use vstd::utf8::*;

verus! {

/// The error of `String::from_utf8`.
#[verifier::external_type_specification]
#[verifier::external_body]
pub struct ExFromUtf8Error(std::string::FromUtf8Error);

/// `String::from_utf8` accepts exactly the bytes that are valid UTF-8, and
/// returns the text that they encode.
pub assume_specification[ String::from_utf8 ](vec: Vec<u8>) -> (r: Result<
    String,
    std::string::FromUtf8Error,
>)
    ensures
        r is Ok <==> valid_utf8(vec@),
        r matches Ok(s) ==> s@ == decode_utf8(vec@),
;

/// Why a text is not Base64: it holds a character outside the alphabet.
#[derive(Clone, Copy, Debug, PartialEq, Eq, Structural)]
pub struct InvalidBase64;

/// The number that a character of the alphabet stands for.
pub open spec fn sextet(b: u8) -> Option<nat> {
    if 'A' as u8 <= b <= 'Z' as u8 {
        Some((b - 'A' as u8) as nat)
    } else if 'a' as u8 <= b <= 'z' as u8 {
        Some((b - 'a' as u8 + 26) as nat)
    } else if '0' as u8 <= b <= '9' as u8 {
        Some((b - '0' as u8 + 52) as nat)
    } else if b == '+' as u8 {
        Some(62)
    } else if b == '/' as u8 {
        Some(63)
    } else {
        None
    }
}

/// Whether a character is skipped between the others.
pub open spec fn is_break(b: u8) -> bool {
    b == '\n' as u8 || b == '\r' as u8 || b == ' ' as u8
}

/// The bytes that are not skipped.
pub open spec fn unbroken(s: Seq<u8>) -> Seq<u8>
    decreases s.len(),
{
    if s.len() == 0 {
        s
    } else if is_break(s.last()) {
        unbroken(s.drop_last())
    } else {
        unbroken(s.drop_last()).push(s.last())
    }
}

/// The index from `i` on of the first padding character, or the length.
pub open spec fn padding_at(s: Seq<u8>, i: int) -> int
    decreases s.len() - i,
{
    if i >= s.len() || s[i] == '=' as u8 {
        i
    } else {
        padding_at(s, i + 1)
    }
}

/// The bytes that a group of up to four characters stands for. What follows
/// the padding within the group counts for nothing.
pub open spec fn group_bytes(s: Seq<u8>) -> Option<Seq<u8>> {
    let n = padding_at(s, 0);
    if exists|k: int| 0 <= k < n && sextet(#[trigger] s[k]) is None {
        None
    } else {
        let v = |k: int| sextet(s[k])->0;
        let first = (v(0) * 4 + v(1) / 16) as u8;
        let second = ((v(1) % 16) * 16 + v(2) / 4) as u8;
        let third = ((v(2) % 4) * 64 + v(3)) as u8;
        if n < 2 {
            Some(Seq::empty())
        } else if n == 2 {
            Some(seq![first])
        } else if n == 3 {
            Some(seq![first, second])
        } else {
            Some(seq![first, second, third])
        }
    }
}

/// The bytes that characters stand for, in groups of four.
pub open spec fn groups_bytes(s: Seq<u8>) -> Option<Seq<u8>>
    decreases s.len(),
{
    if s.len() == 0 {
        Some(Seq::empty())
    } else {
        let n = if s.len() < 4 {
            s.len() as int
        } else {
            4
        };
        match (group_bytes(s.take(n)), groups_bytes(s.skip(n))) {
            (Some(a), Some(b)) => Some(a + b),
            _ => None,
        }
    }
}

/// The bytes that a Base64 text stands for.
pub open spec fn decoded(text: Seq<char>) -> Option<Seq<u8>> {
    groups_bytes(unbroken(encode_utf8(text)))
}

/// The text behind content that may be Base64: what it decodes to where that is
/// text, else the content itself.
pub open spec fn content_text(text: Seq<char>) -> Seq<char> {
    match decoded(trimmed(text)) {
        Some(bytes) => if valid_utf8(bytes) {
            decode_utf8(bytes)
        } else {
            text
        },
        None => text,
    }
}

/// The number that a character of the alphabet stands for.
fn sextet_of(b: u8) -> (r: Option<u8>)
    ensures
        r is Some == sextet(b) is Some,
        r matches Some(v) ==> sextet(b) == Some(v as nat) && v < 64,
{
    if 'A' as u8 <= b && b <= 'Z' as u8 {
        Some(b - 'A' as u8)
    } else if 'a' as u8 <= b && b <= 'z' as u8 {
        Some(b - 'a' as u8 + 26)
    } else if '0' as u8 <= b && b <= '9' as u8 {
        Some(b - '0' as u8 + 52)
    } else if b == '+' as u8 {
        Some(62)
    } else if b == '/' as u8 {
        Some(63)
    } else {
        None
    }
}

/// The bytes that a group of up to four characters stands for.
fn decode_group(s: &Vec<u8>, from: usize, to: usize) -> (r: Option<Vec<u8>>)
    requires
        from < to <= s.len(),
        to - from <= 4,
    ensures
        r is Some == group_bytes(s@.subrange(from as int, to as int)) is Some,
        r matches Some(out) ==> group_bytes(s@.subrange(from as int, to as int)) == Some(out@),
{
    let ghost g = s@.subrange(from as int, to as int);
    let mut v: [u8; 4] = [0u8; 4];
    let mut n: usize = 0;
    while from + n < to && s[from + n] != '=' as u8
        invariant
            from + n <= to <= s.len(),
            n <= to - from <= 4,
            g == s@.subrange(from as int, to as int),
            padding_at(g, n as int) == padding_at(g, 0),
            forall|k: int|
                0 <= k < n ==> sextet(#[trigger] g[k]) == Some(v[k] as nat) && v[k] < 64,
        decreases to - from - n,
    {
        match sextet_of(s[from + n]) {
            Some(x) => {
                v[n] = x;
            },
            None => {
                proof {
                    lemma_padding(g, n as int);
                    assert(sextet(g[n as int]) is None);
                }
                return None;
            },
        }
        n = n + 1;
    }
    assert(padding_at(g, 0) == n);
    let mut out: Vec<u8> = Vec::new();
    if n >= 2 {
        assert(sextet(g[0]) == Some(v[0] as nat) && sextet(g[1]) == Some(v[1] as nat));
        out.push(v[0] * 4 + v[1] / 16);
    }
    if n >= 3 {
        assert(sextet(g[2]) == Some(v[2] as nat));
        out.push((v[1] % 16) * 16 + v[2] / 4);
    }
    if n >= 4 {
        assert(sextet(g[3]) == Some(v[3] as nat));
        out.push((v[2] % 4) * 64 + v[3]);
    }
    proof {
        assert(!exists|k: int| 0 <= k < n && sextet(#[trigger] g[k]) is None);
        assert(out@ =~= group_bytes(g)->0);
    }
    Some(out)
}

/// The first padding is not before a position that has none.
proof fn lemma_padding(s: Seq<u8>, i: int)
    requires
        0 <= i < s.len(),
        s[i] != '=' as u8,
        padding_at(s, i) == padding_at(s, 0),
    ensures
        padding_at(s, 0) > i,
{
    lemma_padding_from(s, i + 1);
}

proof fn lemma_padding_from(s: Seq<u8>, i: int)
    ensures
        padding_at(s, i) >= i,
    decreases s.len() - i,
{
    if i < s.len() && s[i] != '=' as u8 {
        lemma_padding_from(s, i + 1);
    }
}

/// The bytes of a Base64 text, without the characters that are skipped.
fn unbroken_bytes(text: &str) -> (r: Vec<u8>)
    ensures
        r@ == unbroken(encode_utf8(text@)),
{
    let bytes = text.as_bytes();
    let mut out: Vec<u8> = Vec::new();
    let mut i: usize = 0;
    assert(bytes@.take(0) =~= Seq::empty());
    while i < bytes.len()
        invariant
            i <= bytes@.len(),
            bytes@ == encode_utf8(text@),
            out@ == unbroken(bytes@.take(i as int)),
        decreases bytes@.len() - i,
    {
        assert(bytes@.take(i + 1).drop_last() =~= bytes@.take(i as int));
        let b = bytes[i];
        if b != '\n' as u8 && b != '\r' as u8 && b != ' ' as u8 {
            out.push(b);
        }
        i = i + 1;
    }
    assert(bytes@.take(bytes@.len() as int) =~= bytes@);
    out
}

/// The bytes that a Base64 text stands for.
pub fn base64_decode(input: &str) -> (r: Result<Vec<u8>, InvalidBase64>)
    ensures
        r is Ok == decoded(input@) is Some,
        r matches Ok(out) ==> decoded(input@) == Some(out@),
{
    let s = unbroken_bytes(input);
    let mut out: Vec<u8> = Vec::new();
    let mut i: usize = 0;
    assert(s@.skip(0) =~= s@);
    assert(groups_bytes(s@) matches Some(all) ==> out@ + all =~= all);
    while i < s.len()
        invariant
            i <= s@.len(),
            s@ == unbroken(encode_utf8(input@)),
            groups_bytes(s@) is Some == groups_bytes(s@.skip(i as int)) is Some,
            groups_bytes(s@) matches Some(all) ==> all == out@ + groups_bytes(
                s@.skip(i as int),
            )->0,
        decreases s@.len() - i,
    {
        let end: usize = if s.len() - i < 4 {
            s.len()
        } else {
            i + 4
        };
        let ghost rest = s@.skip(i as int);
        assert(rest.take(end - i) =~= s@.subrange(i as int, end as int));
        assert(rest.skip(end - i) =~= s@.skip(end as int));
        match decode_group(&s, i, end) {
            Some(group) => {
                let mut bytes = group;
                let ghost before = out@;
                out.append(&mut bytes);
                proof {
                    if let Some(tail) = groups_bytes(s@.skip(end as int)) {
                        assert(before + (group@ + tail) =~= out@ + tail);
                    }
                }
            },
            None => return Err(InvalidBase64),
        }
        i = end;
    }
    assert(s@.skip(i as int) =~= Seq::empty());
    assert(out@ + Seq::<u8>::empty() =~= out@);
    Ok(out)
}

/// Try to decode base64 content, fall back to raw text.
pub fn decode_content(text: &str) -> (r: String)
    ensures
        r@ == content_text(text@),
{
    if let Ok(bytes) = base64_decode(trim(text).as_str()) {
        if let Ok(s) = String::from_utf8(bytes) {
            return s;
        }
    }
    text.to_owned()
}

// ---------------------------------------------------------------------------
// Laws
// ---------------------------------------------------------------------------

/// The character of the alphabet for a number.
#[verifier::opaque]
pub open spec fn alphabet(v: nat) -> char {
    if v < 26 {
        (('A' as u32 + v) as u32) as char
    } else if v < 52 {
        (('a' as u32 + v - 26) as u32) as char
    } else if v < 62 {
        (('0' as u32 + v - 52) as u32) as char
    } else if v == 62 {
        '+'
    } else {
        '/'
    }
}

/// The Base64 text for the given bytes, with padding.
pub open spec fn encoded(bytes: Seq<u8>) -> Seq<char>
    decreases bytes.len(),
{
    if bytes.len() == 0 {
        Seq::empty()
    } else if bytes.len() == 1 {
        seq![alphabet(bytes[0] as nat / 4), alphabet(bytes[0] as nat % 4 * 16), '=', '=']
    } else if bytes.len() == 2 {
        seq![
            alphabet(bytes[0] as nat / 4),
            alphabet(bytes[0] as nat % 4 * 16 + bytes[1] as nat / 16),
            alphabet(bytes[1] as nat % 16 * 4),
            '=',
        ]
    } else {
        seq![
            alphabet(bytes[0] as nat / 4),
            alphabet(bytes[0] as nat % 4 * 16 + bytes[1] as nat / 16),
            alphabet(bytes[1] as nat % 16 * 4 + bytes[2] as nat / 64),
            alphabet(bytes[2] as nat % 64),
        ] + encoded(bytes.skip(3))
    }
}

spec fn is_ascii(c: char) -> bool {
    '\0' <= c && c <= '\u{7f}'
}

/// The characters of ASCII text as bytes.
spec fn ascii_bytes(s: Seq<char>) -> Seq<u8> {
    s.map_values(|c: char| c as u8)
}

proof fn lemma_alphabet(v: nat)
    requires
        v < 64,
    ensures
        is_ascii(alphabet(v)),
        sextet(alphabet(v) as u8) == Some(v),
        alphabet(v) as u8 != '=' as u8,
        !is_break(alphabet(v) as u8),
{
    reveal(alphabet);
}

proof fn lemma_unbroken_id(s: Seq<u8>)
    requires
        forall|k: int| 0 <= k < s.len() ==> !is_break(#[trigger] s[k]),
    ensures
        unbroken(s) == s,
    decreases s.len(),
{
    if s.len() > 0 {
        assert(!is_break(s[s.len() - 1]));
        assert forall|k: int| 0 <= k < s.drop_last().len() implies !is_break(
            #[trigger] s.drop_last()[k],
        ) by {
            assert(s.drop_last()[k] == s[k]);
        }
        lemma_unbroken_id(s.drop_last());
        assert(s.drop_last().push(s.last()) =~= s);
    }
}

/// The characters of an encoding are those of the alphabet and the padding.
proof fn lemma_encoded_chars(bytes: Seq<u8>)
    ensures
        forall|k: int|
            0 <= k < encoded(bytes).len() ==> is_ascii(#[trigger] encoded(bytes)[k])
                && !is_break(encoded(bytes)[k] as u8) && !is_white_space(encoded(bytes)[k]),
    decreases bytes.len(),
{
    let all = encoded(bytes);
    if bytes.len() > 0 {
        lemma_alphabet_plain(bytes[0] as nat / 4);
        lemma_alphabet_plain(bytes[0] as nat % 4 * 16);
    }
    if bytes.len() > 1 {
        lemma_alphabet_plain(bytes[0] as nat % 4 * 16 + bytes[1] as nat / 16);
        lemma_alphabet_plain(bytes[1] as nat % 16 * 4);
    }
    if bytes.len() > 2 {
        lemma_alphabet_plain(bytes[1] as nat % 16 * 4 + bytes[2] as nat / 64);
        lemma_alphabet_plain(bytes[2] as nat % 64);
        let rest = encoded(bytes.skip(3));
        lemma_encoded_chars(bytes.skip(3));
        assert forall|k: int| 0 <= k < all.len() implies is_ascii(#[trigger] all[k])
            && !is_break(all[k] as u8) && !is_white_space(all[k]) by {
            if k >= 4 {
                assert(all[k] == rest[k - 4]);
            }
        }
    }
}

proof fn lemma_alphabet_plain(v: nat)
    requires
        v < 64,
    ensures
        is_ascii(alphabet(v)),
        !is_break(alphabet(v) as u8),
        !is_white_space(alphabet(v)),
{
    reveal(alphabet);
}

/// Three bytes come back from the four numbers that they are split into.
proof fn lemma_split_bytes(b0: nat, b1: nat, b2: nat)
    requires
        b0 < 256,
        b1 < 256,
        b2 < 256,
    ensures
        (b0 / 4) * 4 + (b0 % 4 * 16 + b1 / 16) / 16 == b0,
        (b0 / 4) * 4 + (b0 % 4 * 16) / 16 == b0,
        ((b0 % 4 * 16 + b1 / 16) % 16) * 16 + (b1 % 16 * 4 + b2 / 64) / 4 == b1,
        ((b0 % 4 * 16 + b1 / 16) % 16) * 16 + (b1 % 16 * 4) / 4 == b1,
        ((b1 % 16 * 4 + b2 / 64) % 4) * 64 + b2 % 64 == b2,
{
}

/// A full group with `n` characters before the padding.
proof fn lemma_group(s: Seq<u8>, n: int)
    requires
        2 <= n <= 4,
        s.len() == 4,
        forall|k: int| 0 <= k < n ==> sextet(#[trigger] s[k]) is Some && s[k] != '=' as u8,
        n < 4 ==> s[n] == '=' as u8,
    ensures
        ({
            let first = (sextet(s[0])->0 * 4 + sextet(s[1])->0 / 16) as u8;
            let second = ((sextet(s[1])->0 % 16) * 16 + sextet(s[2])->0 / 4) as u8;
            let third = ((sextet(s[2])->0 % 4) * 64 + sextet(s[3])->0) as u8;
            group_bytes(s) == Some(seq![first, second, third].take(n - 1))
        }),
{
    assert(s[0] != '=' as u8 && s[1] != '=' as u8);
    assert(n > 2 ==> s[2] != '=' as u8);
    assert(n > 3 ==> s[3] != '=' as u8);
    assert(padding_at(s, 0) == n) by {
        reveal_with_fuel(padding_at, 5);
    }
    let first = (sextet(s[0])->0 * 4 + sextet(s[1])->0 / 16) as u8;
    let second = ((sextet(s[1])->0 % 16) * 16 + sextet(s[2])->0 / 4) as u8;
    let third = ((sextet(s[2])->0 % 4) * 64 + sextet(s[3])->0) as u8;
    assert(seq![first, second, third].take(n - 1) =~= group_bytes(s)->0);
}

proof fn lemma_group_then(g: Seq<u8>, rest: Seq<u8>, a: Seq<u8>, b: Seq<u8>)
    requires
        g.len() == 4,
        group_bytes(g) == Some(a),
        groups_bytes(rest) == Some(b),
    ensures
        groups_bytes(g + rest) == Some(a + b),
{
    assert((g + rest).take(4) =~= g);
    assert((g + rest).skip(4) =~= rest);
}

/// Groups of characters decode to the bytes that they were made from.
proof fn lemma_round_trip(bytes: Seq<u8>)
    ensures
        groups_bytes(ascii_bytes(encoded(bytes))) == Some(bytes),
    decreases bytes.len(),
{
    let s = ascii_bytes(encoded(bytes));
    let g = s.take(4);
    let none = Seq::<u8>::empty();
    assert(groups_bytes(none) == Some(none));
    if bytes.len() == 0 {
        assert(s =~= none);
        assert(bytes =~= none);
    } else if bytes.len() == 1 {
        let b0 = bytes[0] as nat;
        lemma_split_bytes(b0, 0, 0);
        lemma_alphabet(b0 / 4);
        lemma_alphabet(b0 % 4 * 16);
        lemma_group(g, 2);
        assert(group_bytes(g)->0 =~= bytes);
        lemma_group_then(g, none, bytes, none);
        assert(g + none =~= s);
        assert(bytes + none =~= bytes);
    } else if bytes.len() == 2 {
        let b0 = bytes[0] as nat;
        let b1 = bytes[1] as nat;
        lemma_split_bytes(b0, b1, 0);
        lemma_alphabet(b0 / 4);
        lemma_alphabet(b0 % 4 * 16 + b1 / 16);
        lemma_alphabet(b1 % 16 * 4);
        lemma_group(g, 3);
        assert(group_bytes(g)->0 =~= bytes);
        lemma_group_then(g, none, bytes, none);
        assert(g + none =~= s);
        assert(bytes + none =~= bytes);
    } else {
        let b0 = bytes[0] as nat;
        let b1 = bytes[1] as nat;
        let b2 = bytes[2] as nat;
        lemma_split_bytes(b0, b1, b2);
        lemma_alphabet(b0 / 4);
        lemma_alphabet(b0 % 4 * 16 + b1 / 16);
        lemma_alphabet(b1 % 16 * 4 + b2 / 64);
        lemma_alphabet(b2 % 64);
        lemma_group(g, 4);
        assert(group_bytes(g)->0 =~= bytes.take(3));
        lemma_round_trip(bytes.skip(3));
        let rest = ascii_bytes(encoded(bytes.skip(3)));
        lemma_group_then(g, rest, bytes.take(3), bytes.skip(3));
        assert(g + rest =~= s);
        assert(bytes.take(3) + bytes.skip(3) =~= bytes);
    }
}

proof fn lemma_ascii_bytes(s: Seq<char>)
    requires
        forall|k: int| 0 <= k < s.len() ==> is_ascii(#[trigger] s[k]),
    ensures
        encode_utf8(s) == ascii_bytes(s),
{
    assert(is_ascii_chars(s));
    is_ascii_chars_encode_utf8(s);
    assert(encode_utf8(s) =~= ascii_bytes(s));
}

/// Decoding gives back the bytes that a Base64 text was made from.
pub proof fn law_base64_round_trip(bytes: Seq<u8>)
    ensures
        decoded(encoded(bytes)) == Some(bytes),
{
    let s = encoded(bytes);
    lemma_encoded_chars(bytes);
    lemma_ascii_bytes(s);
    assert forall|k: int| 0 <= k < ascii_bytes(s).len() implies !is_break(
        #[trigger] ascii_bytes(s)[k],
    ) by {
        assert(!is_break(s[k] as u8));
    }
    lemma_unbroken_id(ascii_bytes(s));
    lemma_round_trip(bytes);
}

/// The Base64 text for the given bytes, without padding.
pub open spec fn encoded_bare(bytes: Seq<u8>) -> Seq<char>
    decreases bytes.len(),
{
    if bytes.len() == 1 || bytes.len() == 2 {
        encoded(bytes).take(bytes.len() as int + 1)
    } else if bytes.len() == 0 {
        Seq::empty()
    } else {
        encoded(bytes).take(4) + encoded_bare(bytes.skip(3))
    }
}

/// A text without line breaks and spaces.
pub open spec fn joined_up(text: Seq<char>) -> Seq<char>
    decreases text.len(),
{
    if text.len() == 0 {
        text
    } else if text.last() == '\n' || text.last() == '\r' || text.last() == ' ' {
        joined_up(text.drop_last())
    } else {
        joined_up(text.drop_last()).push(text.last())
    }
}

/// A last group without padding.
proof fn lemma_short_group(s: Seq<u8>)
    requires
        2 <= s.len() <= 3,
        forall|k: int| 0 <= k < s.len() ==> sextet(#[trigger] s[k]) is Some && s[k] != '=' as u8,
    ensures
        ({
            let first = (sextet(s[0])->0 * 4 + sextet(s[1])->0 / 16) as u8;
            let second = ((sextet(s[1])->0 % 16) * 16 + sextet(s[2])->0 / 4) as u8;
            groups_bytes(s) == Some(
                if s.len() == 2 {
                    seq![first]
                } else {
                    seq![first, second]
                },
            )
        }),
{
    assert(s[0] != '=' as u8 && s[1] != '=' as u8);
    assert(s.len() > 2 ==> s[2] != '=' as u8);
    assert(padding_at(s, 0) == s.len()) by {
        reveal_with_fuel(padding_at, 4);
    }
    assert(s.take(s.len() as int) =~= s);
    assert(s.skip(s.len() as int) =~= Seq::empty());
    reveal_with_fuel(groups_bytes, 2);
    let bytes = group_bytes(s)->0;
    assert(bytes + Seq::<u8>::empty() =~= bytes);
}

/// Groups of characters without padding decode to the bytes that they were
/// made from.
proof fn lemma_round_trip_bare(bytes: Seq<u8>)
    ensures
        groups_bytes(ascii_bytes(encoded_bare(bytes))) == Some(bytes),
    decreases bytes.len(),
{
    let s = ascii_bytes(encoded_bare(bytes));
    if bytes.len() == 0 {
        assert(s =~= Seq::empty());
        assert(bytes =~= Seq::empty());
    } else if bytes.len() == 1 {
        let b0 = bytes[0] as nat;
        lemma_split_bytes(b0, 0, 0);
        lemma_alphabet(b0 / 4);
        lemma_alphabet(b0 % 4 * 16);
        lemma_short_group(s);
        assert(groups_bytes(s)->0 =~= bytes);
    } else if bytes.len() == 2 {
        let b0 = bytes[0] as nat;
        let b1 = bytes[1] as nat;
        lemma_split_bytes(b0, b1, 0);
        lemma_alphabet(b0 / 4);
        lemma_alphabet(b0 % 4 * 16 + b1 / 16);
        lemma_alphabet(b1 % 16 * 4);
        lemma_short_group(s);
        assert(groups_bytes(s)->0 =~= bytes);
    } else {
        let b0 = bytes[0] as nat;
        let b1 = bytes[1] as nat;
        let b2 = bytes[2] as nat;
        lemma_split_bytes(b0, b1, b2);
        let g = s.take(4);
        lemma_alphabet(b0 / 4);
        lemma_alphabet(b0 % 4 * 16 + b1 / 16);
        lemma_alphabet(b1 % 16 * 4 + b2 / 64);
        lemma_alphabet(b2 % 64);
        lemma_group(g, 4);
        assert(group_bytes(g)->0 =~= bytes.take(3));
        lemma_round_trip_bare(bytes.skip(3));
        let rest = ascii_bytes(encoded_bare(bytes.skip(3)));
        lemma_group_then(g, rest, bytes.take(3), bytes.skip(3));
        assert(g + rest =~= s);
        assert(bytes.take(3) + bytes.skip(3) =~= bytes);
    }
}

/// The characters of an encoding without padding are those of the alphabet.
proof fn lemma_bare_chars(bytes: Seq<u8>)
    ensures
        forall|k: int|
            0 <= k < encoded_bare(bytes).len() ==> is_ascii(#[trigger] encoded_bare(bytes)[k]),
    decreases bytes.len(),
{
    lemma_encoded_chars(bytes);
    let all = encoded_bare(bytes);
    if bytes.len() > 2 {
        let rest = encoded_bare(bytes.skip(3));
        lemma_bare_chars(bytes.skip(3));
        assert forall|k: int| 0 <= k < all.len() implies is_ascii(#[trigger] all[k]) by {
            if k < 4 {
                assert(all[k] == encoded(bytes)[k]);
            } else {
                assert(all[k] == rest[k - 4]);
            }
        }
    } else if bytes.len() > 0 {
        assert forall|k: int| 0 <= k < all.len() implies is_ascii(#[trigger] all[k]) by {
            assert(all[k] == encoded(bytes)[k]);
        }
    }
}

/// Line breaks and spaces are skipped wherever they stand.
proof fn lemma_joined_up(text: Seq<char>)
    requires
        forall|k: int| 0 <= k < joined_up(text).len() ==> is_ascii(#[trigger] joined_up(text)[k]),
    ensures
        forall|k: int| 0 <= k < text.len() ==> is_ascii(#[trigger] text[k]),
        unbroken(ascii_bytes(text)) == ascii_bytes(joined_up(text)),
    decreases text.len(),
{
    if text.len() > 0 {
        let head = text.drop_last();
        let c = text.last();
        let all = joined_up(text);
        let before = joined_up(head);
        assert forall|k: int| 0 <= k < before.len() implies is_ascii(#[trigger] before[k]) by {
            assert(all[k] == before[k]);
        }
        lemma_joined_up(head);
        let skipped = c == '\n' || c == '\r' || c == ' ';
        if !skipped {
            assert(all[all.len() - 1] == c);
        }
        assert(is_ascii(c));
        assert forall|k: int| 0 <= k < text.len() implies is_ascii(#[trigger] text[k]) by {
            if k < head.len() {
                assert(text[k] == head[k]);
            }
        }
        assert(ascii_bytes(text).drop_last() =~= ascii_bytes(head));
        assert(ascii_bytes(text).last() == c as u8);
        assert(is_break(c as u8) == skipped);
        if !skipped {
            assert(ascii_bytes(all) =~= ascii_bytes(before).push(c as u8));
        }
    } else {
        assert(ascii_bytes(text) =~= Seq::empty());
        assert(ascii_bytes(joined_up(text)) =~= Seq::empty());
    }
}

/// Decoding gives back the bytes that a Base64 text was made from, with or
/// without padding, and with line breaks and spaces anywhere in it.
pub proof fn law_base64_loose(bytes: Seq<u8>, text: Seq<char>)
    requires
        joined_up(text) == encoded(bytes) || joined_up(text) == encoded_bare(bytes),
    ensures
        decoded(text) == Some(bytes),
{
    lemma_encoded_chars(bytes);
    lemma_bare_chars(bytes);
    lemma_joined_up(text);
    lemma_ascii_bytes(text);
    lemma_round_trip(bytes);
    lemma_round_trip_bare(bytes);
}

/// A text that comes encoded in Base64 is read as that text.
pub proof fn law_encoded_content(text: Seq<char>)
    ensures
        content_text(encoded(encode_utf8(text))) == text,
{
    let bytes = encode_utf8(text);
    let s = encoded(bytes);
    lemma_encoded_chars(bytes);
    lemma_trimmed_id(s);
    law_base64_round_trip(bytes);
    encode_utf8_valid_utf8(text);
    encode_utf8_decode_utf8(text);
}

/// A text that starts with a tag is not Base64 and is read as it is.
pub proof fn law_raw_content(text: Seq<char>)
    requires
        trimmed(text).len() > 0,
        trimmed(text)[0] == '[',
    ensures
        content_text(text) == text,
{
    let t = trimmed(text);
    let bytes = encode_utf8(t);
    assert(bytes[0] == '[' as u8) by {
        let open = '[' as u32;
        assert(leading_byte_width_1(open) == open as u8) by {
            assert((open & 0x7F) as u8 == open as u8) by (bit_vector)
                requires
                    open == 91,
            ;
        }
        assert(encode_scalar(open) =~= seq![open as u8]);
    }
    lemma_unbroken_first(bytes);
    let s = unbroken(bytes);
    let n = if s.len() < 4 {
        s.len() as int
    } else {
        4
    };
    let g = s.take(n);
    lemma_padding_from(g, 1);
    assert(sextet(g[0]) is None);
    assert(group_bytes(g) is None);
}

proof fn lemma_unbroken_first(s: Seq<u8>)
    requires
        s.len() > 0,
        !is_break(s[0]),
    ensures
        unbroken(s).len() > 0,
        unbroken(s)[0] == s[0],
    decreases s.len(),
{
    if s.len() > 1 {
        lemma_unbroken_first(s.drop_last());
    } else {
        assert(s.drop_last() =~= Seq::empty());
        assert(unbroken(s.drop_last()) =~= Seq::empty());
        assert(s.last() == s[0]);
    }
}

} // verus!
