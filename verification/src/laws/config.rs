//! Settings, files and the cache.
use crate::cache::{entry_file, entry_hash, entry_key};
use crate::config::{
    defaults, file_settings, log_file, path_within, provider_settings, weight_for, ConfigFile,
    ProviderConfig,
};
use crate::single::Single;
use crate::table::{same_numbers, value_in};
use crate::text::{hexadecimal, lowercased};
use std::collections::hash_map::DefaultHasher;
use vstd::prelude::*;
use vstd::std_specs::hash::DefaultHasherAdditionalSpecFns;
use vstd::utf8::*;

verus! {

/// Each setting of a file counts as it stands, and a missing one as its
/// default.
pub proof fn law_settings(f: ConfigFile)
    ensures
        ({
            let c = file_settings(f);
            &&& f.player matches Some(s) ==> c.player == s@
            &&& f.player is None ==> c.player.len() == 0
            &&& f.strict_player matches Some(b) ==> c.strict_player == b
            &&& f.strict_player is None ==> !c.strict_player
            &&& f.search_timeout_secs matches Some(n) ==> c.search_timeout_secs == n
            &&& f.search_timeout_secs is None ==> c.search_timeout_secs == 10
            &&& f.priority_window_secs matches Some(n) ==> c.priority_window_secs == n
            &&& f.priority_window_secs is None ==> c.priority_window_secs == 2
            &&& f.api_port matches Some(n) ==> c.api_port == n
            &&& f.api_port is None ==> c.api_port == 0
            &&& f.cache_dir matches Some(s) ==> c.cache_dir == s@
            &&& f.cache_dir is None ==> c.cache_dir.len() == 0
            &&& c.providers == provider_settings(f.providers@)
        }),
        defaults().search_timeout_secs == 10,
        defaults().priority_window_secs == 2,
        defaults().api_port == 0,
        !defaults().strict_player,
        defaults().player.len() == 0,
        defaults().cache_dir.len() == 0,
        defaults().providers == Map::<Seq<char>, ProviderConfig>::empty(),
{
}

/// A provider has the weight of the last table under its key, or one where that
/// gives none; a key without a table is not there.
pub proof fn law_provider_settings(given: Seq<(String, Option<Single>)>, key: Seq<char>, k: int)
    requires
        -1 <= k < given.len(),
        k >= 0 ==> given[k].0@ == key,
        forall|j: int| k < j < given.len() ==> (#[trigger] given[j]).0@ != key,
    ensures
        k < 0 ==> !provider_settings(given).dom().contains(key),
        k >= 0 ==> provider_settings(given).dom().contains(key),
        k >= 0 ==> (given[k].1 matches Some(w) ==> provider_settings(given)[key].weight == w),
        k >= 0 && given[k].1 is None ==> provider_settings(given)[key].weight.bits == 0x3f80_0000,
    decreases given.len(),
{
    if given.len() > 0 {
        let head = given.drop_last();
        if k < given.len() - 1 {
            assert(given[given.len() - 1].0@ != key);
            assert forall|j: int| k < j < head.len() implies (#[trigger] head[j]).0@ != key by {
                assert(given[j].0@ != key);
            }
            law_provider_settings(head, key, k);
        }
    }
}

/// The weight of a key is the one configured, whatever number it is, and one
/// where none is.
pub proof fn law_weight_for(providers: Map<Seq<char>, ProviderConfig>, key: Seq<char>)
    ensures
        providers.dom().contains(key) ==> weight_for(providers, key) == providers[key].weight,
        !providers.dom().contains(key) ==> weight_for(providers, key).bits == 0x3f80_0000,
{
}

/// A key has the value of the table, or none.
pub proof fn law_value_in<V>(m: Map<Seq<char>, V>, key: Seq<char>)
    ensures
        m.dom().contains(key) ==> value_in(m, key) == Some(m[key]),
        !m.dom().contains(key) ==> value_in(m, key) is None,
{
}

/// Weights count as unchanged only where no key has come or gone and each has
/// the same number; and tables of the same numbers do count as such.
pub proof fn law_same_numbers(a: Map<Seq<char>, Single>, b: Map<Seq<char>, Single>, key: Seq<char>)
    ensures
        same_numbers(a, b) ==> a.dom().contains(key) == b.dom().contains(key),
        same_numbers(a, b) && a.dom().contains(key) ==> a[key].equals(b[key]),
        a == b && (forall|k: Seq<char>| #[trigger] a.dom().contains(k) ==> !a[k].is_nan())
            ==> same_numbers(a, b),
        same_numbers(a, b) ==> same_numbers(b, a),
        same_numbers(a, b) == (forall|k: Seq<char>|
            (#[trigger] a.dom().contains(k) || b.dom().contains(k)) ==> a.dom().contains(k)
                && b.dom().contains(k) && a[k].equals(b[k])),
{
    if forall|k: Seq<char>|
        (#[trigger] a.dom().contains(k) || b.dom().contains(k)) ==> a.dom().contains(k)
            && b.dom().contains(k) && a[k].equals(b[k]) {
        assert forall|k: Seq<char>| #[trigger] b.dom().contains(k) implies a.dom().contains(k)
            && b[k].equals(a[k]) by {
            assert(a.dom().contains(k) || b.dom().contains(k));
        }
        assert(same_numbers(a, b));
    }
    if same_numbers(a, b) {
        assert(a.dom().contains(key) ==> b.dom().contains(key));
        assert(b.dom().contains(key) ==> a.dom().contains(key));
    }
}

/// A name within a directory follows it behind one slash.
pub proof fn law_path(dir: Seq<char>, name: Seq<char>)
    ensures
        dir.len() == 0 ==> path_within(dir, name) == name,
        dir.len() > 0 && dir.last() != '/' ==> path_within(dir, name) == dir.push('/') + name,
        dir.len() > 0 && dir.last() == '/' ==> path_within(dir, name) == dir + name,
{
    reveal_strlit("/");
    assert(dir + "/"@ =~= dir.push('/'));
}

/// The log is in the cache directory of the user where that is known, else in
/// the one below the home directory, and else in the temporary directory.
pub proof fn law_log_file(cache_home: Seq<char>, home: Option<Seq<char>>, known: Seq<char>)
    ensures
        log_file(Some(cache_home), home) == path_within(
            path_within(cache_home, "lyrica"@),
            "lyrica.log"@,
        ),
        log_file(None, Some(known)) == log_file(Some(path_within(known, ".cache"@)), None),
        log_file(None, None) == log_file(Some("/tmp"@), None),
{
}

/// The file for a title and an artist is named by a hash of both in lower case,
/// each closed by a byte that no text holds, in 16 hexadecimal digits.
pub proof fn law_entry_file(title: Seq<char>, artist: Seq<char>)
    ensures
        entry_hash(title, artist) == DefaultHasher::spec_finish(
            seq![
                encode_utf8(lowercased(title)),
                seq![0xffu8],
                encode_utf8(lowercased(artist)),
                seq![0xffu8],
            ],
        ),
        entry_key(title, artist) == hexadecimal(entry_hash(title, artist) as nat, 16),
        entry_file(title, artist) == entry_key(title, artist) + ".json"@,
{
}

} // verus!
