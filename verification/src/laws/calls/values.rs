//! Calls on spans, tables, settings and plain values.
use crate::cache::{entry_file, entry_key, LyricsCache};
use crate::config::{log_path, reload_wanted, Config, ConfigFile, ConfigRead};
use crate::single::Single;
use crate::table::Table;
use crate::text::opt_text;
use crate::time::Duration;
use vstd::prelude::*;

verus! {

// ---------------------------------------------------------------------------
// Spans
// ---------------------------------------------------------------------------

/// A span made of seconds, milliseconds or microseconds has as many nanoseconds
/// as these have, and the other units in whole numbers.
pub proof fn law_span_units(
    n: u64,
    secs: Duration,
    millis: Duration,
    micros: Duration,
    a: u128,
    b: u128,
    c: u128,
    back: u64,
    ms: u128,
)
    requires
        call_ensures(Duration::from_secs, (n,), secs),
        call_ensures(Duration::from_millis, (n,), millis),
        call_ensures(Duration::from_micros, (n,), micros),
        call_ensures(Duration::as_nanos, (&secs,), a),
        call_ensures(Duration::as_nanos, (&millis,), b),
        call_ensures(Duration::as_nanos, (&micros,), c),
        call_ensures(Duration::as_secs, (&secs,), back),
        call_ensures(Duration::as_millis, (&millis,), ms),
    ensures
        a == n * 1_000_000_000,
        b == n * 1_000_000,
        c == n * 1_000,
        back == n,
        ms == n,
{
}

/// Spans are added up to the longest one, and taken from each other down to
/// none.
pub proof fn law_span_sums(
    a: Duration,
    b: Duration,
    x: u128,
    y: u128,
    sum: Duration,
    left: Duration,
    apart: Duration,
    s: u128,
    l: u128,
    d: u128,
)
    requires
        call_ensures(Duration::as_nanos, (&a,), x),
        call_ensures(Duration::as_nanos, (&b,), y),
        call_ensures(Duration::saturating_add, (&a, b), sum),
        call_ensures(Duration::saturating_sub, (&a, b), left),
        call_ensures(Duration::abs_diff, (&a, b), apart),
        call_ensures(Duration::as_nanos, (&sum,), s),
        call_ensures(Duration::as_nanos, (&left,), l),
        call_ensures(Duration::as_nanos, (&apart,), d),
    ensures
        x + y <= 18_446_744_073_709_551_615_999_999_999 ==> s == x + y,
        x + y > 18_446_744_073_709_551_615_999_999_999 ==> s
            == 18_446_744_073_709_551_615_999_999_999,
        x >= y ==> l == x - y && d == x - y,
        x < y ==> l == 0 && d == y - x,
{
}

/// Spans are compared by their nanoseconds.
pub proof fn law_span_order(
    a: Duration,
    b: Duration,
    x: u128,
    y: u128,
    most: bool,
    shorter: bool,
    same: bool,
    zero: bool,
)
    requires
        call_ensures(Duration::as_nanos, (&a,), x),
        call_ensures(Duration::as_nanos, (&b,), y),
        call_ensures(Duration::at_most, (&a, &b), most),
        call_ensures(Duration::shorter_than, (&a, &b), shorter),
        call_ensures(Duration::same, (&a, &b), same),
        call_ensures(Duration::is_zero, (&a,), zero),
    ensures
        most == (x <= y),
        shorter == (x < y),
        same == (x == y),
        zero == (x == 0),
{
}

/// Any number of nanoseconds up to the longest span makes a span of that many.
pub proof fn law_span_nanos(n: u128, d: Duration, back: u128)
    requires
        call_ensures(Duration::from_nanos, (n,), d),
        call_ensures(Duration::as_nanos, (&d,), back),
    ensures
        n <= 18_446_744_073_709_551_615_999_999_999 ==> back == n,
        n > 18_446_744_073_709_551_615_999_999_999 ==> back
            == 18_446_744_073_709_551_615_999_999_999,
{
}

// ---------------------------------------------------------------------------
// Tables and numbers
// ---------------------------------------------------------------------------

/// A key that has been given a value has that value, and every other key the
/// one that it had.
pub proof fn law_table(
    t: &mut Table<Single>,
    key: String,
    value: Single,
    other: &str,
    before: &Table<Single>,
    after: &Table<Single>,
    r: (),
    had: Option<Single>,
    has: Option<Single>,
)
    requires
        *before == *old(t),
        call_ensures(Table::<Single>::get, (before, other), had),
        call_ensures(Table::<Single>::insert, (t, key, value), r),
        *after == *final(t),
        call_ensures(Table::<Single>::get, (after, other), has),
    ensures
        other@ == key@ ==> has == Some(value),
        other@ != key@ ==> has == had,
{
}

/// An empty table has no values, and a copy the same ones.
pub proof fn law_table_copy(
    none: Table<Single>,
    t: &Table<Single>,
    copy: Table<Single>,
    key: &str,
    nothing: Option<Single>,
    a: Option<Single>,
    b: Option<Single>,
)
    requires
        call_ensures(Table::<Single>::new, (), none),
        call_ensures(Table::<Single>::copy, (t,), copy),
        call_ensures(Table::<Single>::get, (&none, key), nothing),
        call_ensures(Table::<Single>::get, (t, key), a),
        call_ensures(Table::<Single>::get, (&copy, key), b),
    ensures
        nothing is None,
        a == b,
{
}

/// Numbers are compared as numbers, and above zero are those of a positive sign
/// that are not zero.
pub proof fn law_numbers(a: Single, b: Single, zero: Single, one: Single, above: bool, same: bool)
    requires
        call_ensures(Single::zero, (), zero),
        call_ensures(Single::one, (), one),
        call_ensures(Single::positive, (&a,), above),
        call_ensures(Single::same, (&a, b), same),
    ensures
        zero.bits == 0 && one.bits == 0x3f80_0000,
        above == (0 < a.bits <= 0x7f80_0000),
        a.bits == b.bits && !a.is_nan() ==> same,
        same ==> a.bits == b.bits || (a.bits % 0x8000_0000 == 0 && b.bits % 0x8000_0000 == 0),
        a.is_nan() || b.is_nan() ==> !same,
{
}

// ---------------------------------------------------------------------------
// Settings
// ---------------------------------------------------------------------------

/// The settings are those of the file where it could be read, and else the
/// defaults; a provider has the weight that they give it.
pub proof fn law_loaded(
    file: ConfigFile,
    parsed: Config,
    a: Config,
    b: Config,
    c: Config,
    d: Config,
)
    requires
        call_ensures(Config::loaded, (ConfigRead::Parsed(file),), parsed),
        call_ensures(Config::loaded, (ConfigRead::Missing,), a),
        call_ensures(Config::loaded, (ConfigRead::Malformed,), b),
        call_ensures(Config::loaded, (ConfigRead::Unreadable,), c),
        call_ensures(Config::from_file, (file,), d),
    ensures
        parsed@ == crate::config::file_settings(file),
        d@ == parsed@,
        a@ == crate::config::defaults() && b@ == a@ && c@ == a@,
        file.api_port matches Some(p) ==> parsed.api_port == p,
        file.search_timeout_secs matches Some(n) ==> parsed.search_timeout_secs == n,
        file.priority_window_secs matches Some(n) ==> parsed.priority_window_secs == n,
        file.player matches Some(s) ==> parsed.player@ == s@,
        file.strict_player matches Some(x) ==> parsed.strict_player == x,
        file.cache_dir matches Some(s) ==> parsed.cache_dir@ == s@,
        a.api_port == 0 && a.search_timeout_secs == 10 && a.priority_window_secs == 2,
{
}

/// The weight of a provider is the one configured, whatever number, or one.
pub proof fn law_provider_weight(config: &Config, key: &str, r: Single)
    requires
        call_ensures(Config::provider_weight, (config, key), r),
    ensures
        config.providers@.dom().contains(key@) ==> r == config.providers@[key@].weight,
        !config.providers@.dom().contains(key@) ==> r.bits == 0x3f80_0000,
{
}

/// A reload is wanted after a change of files that the configuration is among,
/// or of which none is named.
pub proof fn law_reload_wanted(changed: bool, config: bool, named: bool, r: bool)
    requires
        call_ensures(reload_wanted, (changed, config, named), r),
    ensures
        r ==> changed,
        changed && config ==> r,
        changed && !named ==> r,
        !config && named ==> !r,
{
}

/// Where files are: the log below the cache directory, and lyrics under a name
/// made from title and artist.
pub proof fn law_files(
    cache_home: Option<String>,
    home: Option<String>,
    title: &str,
    artist: &str,
    log: String,
    key: String,
    file: String,
)
    requires
        call_ensures(log_path, (cache_home, home), log),
        call_ensures(LyricsCache::cache_key, (title, artist), key),
        call_ensures(LyricsCache::file_name, (title, artist), file),
    ensures
        log@ == crate::config::log_file(opt_text(cache_home), opt_text(home)),
        key@ == entry_key(title@, artist@),
        file@ == entry_file(title@, artist@),
        file@ == key@ + ".json"@,
{
}

/// A cache is where it is told to be, unless that is nowhere.
pub proof fn law_cache_place(dir: &str, given: LyricsCache, none: LyricsCache)
    requires
        call_ensures(LyricsCache::new, (Some(dir),), given),
        call_ensures(LyricsCache::new, (None,), none),
    ensures
        dir@.len() > 0 ==> given.cache_dir is Some && given.cache_dir->0@ == dir@,
        dir@.len() == 0 ==> given.cache_dir is None,
        none.cache_dir is None,
{
}

/// A table is empty where no key has a value.
pub proof fn law_table_empty(t: &Table<Single>, key: &str, empty: bool, value: Option<Single>)
    requires
        call_ensures(Table::<Single>::is_empty, (t,), empty),
        call_ensures(Table::<Single>::get, (t, key), value),
    ensures
        empty ==> value is None,
        value is Some ==> !empty,
        empty == (t@ == Map::<Seq<char>, Single>::empty()),
{
}

} // verus!
