//! Where cached lyrics are kept.
use crate::text::{
    ascii_lower, empty_text, hex_char, hexadecimal, lowercase, lowercased, opt_text,
    push_hexadecimal,
};
use std::collections::hash_map::DefaultHasher;
use std::hash::Hasher;
use vstd::arithmetic::power::{lemma_pow0, lemma_pow1, lemma_pow_adds, pow};
use vstd::prelude::*;
use vstd::std_specs::hash::DefaultHasherAdditionalSpecFns;
use vstd::string::*;
use vstd::utf8::*;

verus! {

/// What follows each text that goes into a hash: a byte that no text holds.
pub open spec fn text_end() -> Seq<u8> {
    seq![0xffu8]
}

/// The hash of a title and an artist, whatever the case of their letters.
pub open spec fn entry_hash(title: Seq<char>, artist: Seq<char>) -> u64 {
    DefaultHasher::spec_finish(
        seq![
            encode_utf8(lowercased(title)),
            text_end(),
            encode_utf8(lowercased(artist)),
            text_end(),
        ],
    )
}

/// The key of a title and an artist: their hash in 16 hexadecimal digits.
pub open spec fn entry_key(title: Seq<char>, artist: Seq<char>) -> Seq<char> {
    hexadecimal(entry_hash(title, artist) as nat, 16)
}

/// The name of the file for a title and an artist.
pub open spec fn entry_file(title: Seq<char>, artist: Seq<char>) -> Seq<char> {
    entry_key(title, artist) + ".json"@
}

/// File-based lyrics cache.
#[derive(Debug)]
pub struct LyricsCache {
    /// The directory, or `None` for the default location.
    pub cache_dir: Option<String>,
}

/// Adds a text to a hash.
fn hash_text(hasher: &mut DefaultHasher, s: &str)
    ensures
        final(hasher)@ == old(hasher)@.push(encode_utf8(s@)).push(text_end()),
{
    hasher.write(s.as_bytes());
    let end: Vec<u8> = vec![0xffu8];
    assert(end@ =~= text_end());
    hasher.write(end.as_slice());
}

impl LyricsCache {
    /// A cache in the given directory; in the default location where none is
    /// given or its name is empty.
    pub fn new(cache_dir: Option<&str>) -> (r: Self)
        ensures
            match cache_dir {
                Some(d) => if d@.len() > 0 {
                    opt_text(r.cache_dir) == Some(d@)
                } else {
                    r.cache_dir is None
                },
                None => r.cache_dir is None,
            },
    {
        match cache_dir {
            Some(d) => if empty_text(d) {
                LyricsCache { cache_dir: None }
            } else {
                LyricsCache { cache_dir: Some(d.to_owned()) }
            },
            None => LyricsCache { cache_dir: None },
        }
    }

    /// Generate cache key from title and artist.
    pub fn cache_key(title: &str, artist: &str) -> (r: String)
        ensures
            r@ == entry_key(title@, artist@),
    {
        let mut hasher = DefaultHasher::new();
        hash_text(&mut hasher, lowercase(title).as_str());
        hash_text(&mut hasher, lowercase(artist).as_str());
        assert(hasher@ =~= seq![
            encode_utf8(lowercased(title@)),
            text_end(),
            encode_utf8(lowercased(artist@)),
            text_end(),
        ]);
        let mut out = String::new();
        push_hexadecimal(&mut out, hasher.finish(), 16);
        assert(out@ =~= entry_key(title@, artist@));
        out
    }

    /// The name of the file for a title and an artist.
    pub fn file_name(title: &str, artist: &str) -> (r: String)
        ensures
            r@ == entry_file(title@, artist@),
    {
        let mut out = Self::cache_key(title, artist);
        out.append(".json");
        out
    }
}

// ---------------------------------------------------------------------------
// Laws
// ---------------------------------------------------------------------------

/// Lyrics stored under a title and an artist are looked for in the same file
/// under any that are the same in lower case.
pub proof fn law_case_does_not_count(
    title: Seq<char>,
    artist: Seq<char>,
    other_title: Seq<char>,
    other_artist: Seq<char>,
)
    requires
        lowercased(title) == lowercased(other_title),
        lowercased(artist) == lowercased(other_artist),
    ensures
        entry_file(title, artist) == entry_file(other_title, other_artist),
{
}

/// ASCII texts that differ in the case of letters at most are the same in lower
/// case.
pub proof fn law_ascii_case(a: Seq<char>, b: Seq<char>)
    requires
        is_ascii_chars(a) && is_ascii_chars(b),
        a.len() == b.len(),
        forall|i: int| 0 <= i < a.len() ==> ascii_lower(#[trigger] a[i]) == ascii_lower(b[i]),
    ensures
        lowercased(a) == lowercased(b),
{
    assert(lowercased(a) =~= lowercased(b));
}

proof fn lemma_hexadecimal_len(n: nat, width: nat)
    ensures
        hexadecimal(n, width).len() == width,
    decreases width,
{
    if width > 0 {
        lemma_hexadecimal_len(n / 16, (width - 1) as nat);
    }
}

/// Every key has 16 digits.
pub proof fn law_key_length(title: Seq<char>, artist: Seq<char>)
    ensures
        entry_key(title, artist).len() == 16,
{
    lemma_hexadecimal_len(entry_hash(title, artist) as nat, 16);
}

proof fn lemma_hex_char(a: nat, b: nat)
    requires
        a < 16,
        b < 16,
        hex_char(a) == hex_char(b),
    ensures
        a == b,
{
}

proof fn lemma_hexadecimal_injective(a: nat, b: nat, width: nat)
    requires
        hexadecimal(a, width) == hexadecimal(b, width),
        a < pow(16, width),
        b < pow(16, width),
    ensures
        a == b,
    decreases width,
{
    broadcast use lemma_pow0;

    if width > 0 {
        let w = (width - 1) as nat;
        lemma_pow_adds(16, 1, w);
        lemma_pow1(16);
        let x = hexadecimal(a, width);
        let y = hexadecimal(b, width);
        assert(x.last() == hex_char(a % 16));
        assert(y.last() == hex_char(b % 16));
        lemma_hex_char(a % 16, b % 16);
        assert(x.drop_last() =~= hexadecimal(a / 16, w));
        assert(y.drop_last() =~= hexadecimal(b / 16, w));
        lemma_hexadecimal_injective(a / 16, b / 16, w);
    }
}

/// Titles and artists share a file only where their hashes are equal.
pub proof fn law_key_is_hash(
    title: Seq<char>,
    artist: Seq<char>,
    other_title: Seq<char>,
    other_artist: Seq<char>,
)
    requires
        entry_file(title, artist) == entry_file(other_title, other_artist),
    ensures
        entry_hash(title, artist) == entry_hash(other_title, other_artist),
{
    let a = entry_key(title, artist);
    let b = entry_key(other_title, other_artist);
    law_key_length(title, artist);
    law_key_length(other_title, other_artist);
    assert(a =~= entry_file(title, artist).take(16));
    assert(b =~= entry_file(other_title, other_artist).take(16));
    assert(pow(16, 16) == 0x1_0000_0000_0000_0000) by {
        reveal_with_fuel(pow, 17);
    }
    lemma_hexadecimal_injective(
        entry_hash(title, artist) as nat,
        entry_hash(other_title, other_artist) as nat,
        16,
    );
}

} // verus!
