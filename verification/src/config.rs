//! Application configuration.
use crate::single::{one, Single};
use crate::table::{value_in, Table};
use crate::text::{chars_of, opt_text};
use vstd::prelude::*;

verus! {

/// Per-provider configuration.
#[derive(Clone, Copy, Debug, PartialEq, Eq, Structural)]
pub struct ProviderConfig {
    /// Multiplicative weight applied to the quality score when ranking results.
    /// Default 1.0. Setting weight to 0 disables the provider entirely.
    pub weight: Single,
}

impl Default for ProviderConfig {
    fn default() -> (r: Self)
        ensures
            r.weight == one(),
    {
        ProviderConfig { weight: default_weight() }
    }
}

pub fn default_search_timeout() -> (r: u64)
    ensures
        r == 10,
{
    10
}

pub fn default_priority_window() -> (r: u64)
    ensures
        r == 2,
{
    2
}

pub fn default_weight() -> (r: Single)
    ensures
        r == one(),
{
    Single::one()
}

/// Global application configuration.
#[derive(Debug)]
pub struct Config {
    /// Preferred player name (empty = auto-detect).
    pub player: String,
    /// If true, only attach to the preferred player and never fall back to
    /// another MPRIS source. Has no effect when `player` is empty.
    pub strict_player: bool,
    /// Lyrics search timeout in seconds.
    pub search_timeout_secs: u64,
    /// Priority window: after first result arrives, wait this long for better results.
    pub priority_window_secs: u64,
    /// HTTP API server port (0 = disabled).
    pub api_port: u16,
    /// Lyrics cache directory (empty = default ~/.cache/lyrica).
    pub cache_dir: String,
    /// Per-provider configuration, keyed by provider key (lrclib / netease / qqmusic / kugou).
    pub providers: Table<ProviderConfig>,
}

/// The configuration, as plain values.
#[verifier::ext_equal]
pub struct ConfigModel {
    pub player: Seq<char>,
    pub strict_player: bool,
    pub search_timeout_secs: u64,
    pub priority_window_secs: u64,
    pub api_port: u16,
    pub cache_dir: Seq<char>,
    pub providers: Map<Seq<char>, ProviderConfig>,
}

impl View for Config {
    type V = ConfigModel;

    open spec fn view(&self) -> ConfigModel {
        ConfigModel {
            player: self.player@,
            strict_player: self.strict_player,
            search_timeout_secs: self.search_timeout_secs,
            priority_window_secs: self.priority_window_secs,
            api_port: self.api_port,
            cache_dir: self.cache_dir@,
            providers: self.providers@,
        }
    }
}

/// The configuration without a file.
pub open spec fn defaults() -> ConfigModel {
    ConfigModel {
        player: Seq::empty(),
        strict_player: false,
        search_timeout_secs: 10,
        priority_window_secs: 2,
        api_port: 0,
        cache_dir: Seq::empty(),
        providers: Map::empty(),
    }
}

impl Default for Config {
    fn default() -> (r: Self)
        ensures
            r@ == defaults(),
    {
        Config {
            player: String::new(),
            strict_player: false,
            search_timeout_secs: default_search_timeout(),
            priority_window_secs: default_priority_window(),
            api_port: 0,
            cache_dir: String::new(),
            providers: Table::new(),
        }
    }
}

/// What a configuration file says; every setting may be missing.
#[derive(Debug)]
pub struct ConfigFile {
    pub player: Option<String>,
    pub strict_player: Option<bool>,
    pub search_timeout_secs: Option<u64>,
    pub priority_window_secs: Option<u64>,
    pub api_port: Option<u16>,
    pub cache_dir: Option<String>,
    /// The provider tables of the file with their weights.
    pub providers: Vec<(String, Option<Single>)>,
}

/// What came of reading the configuration file.
#[derive(Debug)]
pub enum ConfigRead {
    Parsed(ConfigFile),
    Malformed,
    Missing,
    Unreadable,
}

/// A setting, or its default where it is missing.
pub open spec fn setting<T>(given: Option<T>, default: T) -> T {
    match given {
        Some(v) => v,
        None => default,
    }
}

/// The provider tables of a file; one without a weight has the default weight.
pub open spec fn provider_settings(given: Seq<(String, Option<Single>)>) -> Map<
    Seq<char>,
    ProviderConfig,
>
    decreases given.len(),
{
    if given.len() == 0 {
        Map::empty()
    } else {
        provider_settings(given.drop_last()).insert(
            given.last().0@,
            ProviderConfig { weight: setting(given.last().1, one()) },
        )
    }
}

/// The configuration that a file stands for.
pub open spec fn file_settings(f: ConfigFile) -> ConfigModel {
    let d = defaults();
    ConfigModel {
        player: match f.player {
            Some(s) => s@,
            None => d.player,
        },
        strict_player: setting(f.strict_player, d.strict_player),
        search_timeout_secs: setting(f.search_timeout_secs, d.search_timeout_secs),
        priority_window_secs: setting(f.priority_window_secs, d.priority_window_secs),
        api_port: setting(f.api_port, d.api_port),
        cache_dir: match f.cache_dir {
            Some(s) => s@,
            None => d.cache_dir,
        },
        providers: provider_settings(f.providers@),
    }
}

/// The weight that a configuration gives to a provider key.
pub open spec fn weight_for(providers: Map<Seq<char>, ProviderConfig>, key: Seq<char>) -> Single {
    match value_in(providers, key) {
        Some(p) => p.weight,
        None => one(),
    }
}

impl Config {
    /// The configuration that a file stands for.
    pub fn from_file(file: ConfigFile) -> (r: Self)
        ensures
            r@ == file_settings(file),
    {
        let mut providers: Table<ProviderConfig> = Table::new();
        let mut i: usize = 0;
        let ghost given = file.providers@;
        assert(given.take(0) =~= Seq::empty());
        while i < file.providers.len()
            invariant
                i <= given.len(),
                given == file.providers@,
                providers@ == provider_settings(given.take(i as int)),
            decreases given.len() - i,
        {
            assert(given.take(i + 1).drop_last() =~= given.take(i as int));
            let weight = match file.providers[i].1 {
                Some(w) => w,
                None => default_weight(),
            };
            providers.insert(file.providers[i].0.clone(), ProviderConfig { weight });
            i = i + 1;
        }
        assert(given.take(given.len() as int) =~= given);
        Config {
            player: match file.player {
                Some(s) => s,
                None => String::new(),
            },
            strict_player: match file.strict_player {
                Some(b) => b,
                None => false,
            },
            search_timeout_secs: match file.search_timeout_secs {
                Some(n) => n,
                None => default_search_timeout(),
            },
            priority_window_secs: match file.priority_window_secs {
                Some(n) => n,
                None => default_priority_window(),
            },
            api_port: match file.api_port {
                Some(n) => n,
                None => 0,
            },
            cache_dir: match file.cache_dir {
                Some(s) => s,
                None => String::new(),
            },
            providers,
        }
    }

    /// The configuration after an attempt to read the file: defaults if the
    /// file does not exist, cannot be read or fails to parse.
    pub fn loaded(read: ConfigRead) -> (r: Self)
        ensures
            r@ == (match read {
                ConfigRead::Parsed(file) => file_settings(file),
                _ => defaults(),
            }),
    {
        match read {
            ConfigRead::Parsed(file) => Config::from_file(file),
            ConfigRead::Malformed | ConfigRead::Missing | ConfigRead::Unreadable => Config::default(),
        }
    }

    /// Get the weight for a provider key. Returns 1.0 if not configured.
    pub fn provider_weight(&self, key: &str) -> (r: Single)
        ensures
            r == weight_for(self@.providers, key@),
    {
        match self.providers.get(key) {
            Some(p) => p.weight,
            None => default_weight(),
        }
    }
}

// ---------------------------------------------------------------------------
// Files
// ---------------------------------------------------------------------------

/// A relative name within a directory.
pub open spec fn path_within(dir: Seq<char>, name: Seq<char>) -> Seq<char> {
    if dir.len() == 0 {
        name
    } else if dir.last() == '/' {
        dir + name
    } else {
        dir + "/"@ + name
    }
}

/// A relative name within a directory.
fn join_path(dir: &str, name: &str) -> (r: String)
    ensures
        r@ == path_within(dir@, name@),
{
    let mut out = dir.to_owned();
    let cs = chars_of(dir);
    if cs.len() > 0 && cs[cs.len() - 1] != '/' {
        out.append("/");
    }
    out.append(name);
    assert(out@ =~= path_within(dir@, name@));
    out
}

/// Where the log file is, given the cache directory and the home directory of
/// the user as far as they are known.
pub open spec fn log_file(cache_home: Option<Seq<char>>, home: Option<Seq<char>>) -> Seq<char> {
    let base = match (cache_home, home) {
        (Some(c), _) => c,
        (None, Some(h)) => path_within(h, ".cache"@),
        (None, None) => "/tmp"@,
    };
    path_within(path_within(base, "lyrica"@), "lyrica.log"@)
}

/// Where the log file is.
pub fn log_path(cache_home: Option<String>, home: Option<String>) -> (r: String)
    ensures
        r@ == log_file(opt_text(cache_home), opt_text(home)),
{
    let base = match (cache_home, home) {
        (Some(c), _) => c,
        (None, Some(h)) => join_path(h.as_str(), ".cache"),
        (None, None) => "/tmp".to_owned(),
    };
    join_path(join_path(base.as_str(), "lyrica").as_str(), "lyrica.log")
}

/// Whether a change in the configuration directory calls for a reload: files
/// were written, created or removed, and the configuration file is among them
/// or none is named.
pub fn reload_wanted(files_changed: bool, names_config: bool, names_files: bool) -> (r: bool)
    ensures
        r == (files_changed && (names_config || !names_files)),
{
    files_changed && (names_config || !names_files)
}

} // verus!
