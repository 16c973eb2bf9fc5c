//! Configuration, weights and cache keys.
use lyrica::cache::LyricsCache;
use lyrica::config::{
    log_path, reload_wanted, Config, ConfigFile, ConfigRead, ProviderConfig,
};
use lyrica::display::GtkDisplay;
use lyrica::provider::group::{reloaded_weights, weights_from_config};
use lyrica::single::Single;
use lyrica::table::Table;
use std::hash::{Hash, Hasher};

fn single(w: f32) -> Single {
    Single { bits: w.to_bits() }
}

/// The settings in a TOML text.
fn read_toml(text: &str) -> ConfigFile {
    let table: toml::Table = text.parse().expect("valid toml");
    let mut providers = Vec::new();
    if let Some(t) = table.get("providers").and_then(|p| p.as_table()) {
        for (key, value) in t {
            let weight = value
                .as_table()
                .and_then(|v| v.get("weight"))
                .and_then(|w| w.as_float().or(w.as_integer().map(|i| i as f64)));
            providers.push((key.clone(), weight.map(|w| single(w as f32))));
        }
    }
    ConfigFile {
        player: table.get("player").and_then(|v| v.as_str()).map(|s| s.to_string()),
        strict_player: table.get("strict_player").and_then(|v| v.as_bool()),
        search_timeout_secs: table.get("search_timeout_secs").and_then(|v| v.as_integer()).map(|n| n as u64),
        priority_window_secs: table.get("priority_window_secs").and_then(|v| v.as_integer()).map(|n| n as u64),
        api_port: table.get("api_port").and_then(|v| v.as_integer()).map(|n| n as u16),
        cache_dir: table.get("cache_dir").and_then(|v| v.as_str()).map(|s| s.to_string()),
        providers,
    }
}

#[test]
fn missing_file_returns_default() {
    let path = std::path::Path::new("/nonexistent/lyrica/config.toml");
    assert!(!path.exists());
    let cfg = Config::loaded(ConfigRead::Missing);
    assert_eq!(cfg.search_timeout_secs, 10);
    assert_eq!(cfg.priority_window_secs, 2);
    assert!(cfg.providers.is_empty());
    assert_eq!(cfg.provider_weight("netease"), single(1.0));
}

#[test]
fn parses_provider_weights() {
    let toml = r#"
[providers.netease]
weight = 1.5

[providers.kugou]
weight = 0.0
"#;
    let cfg = Config::from_file(read_toml(toml));
    assert_eq!(cfg.provider_weight("netease"), single(1.5));
    assert_eq!(cfg.provider_weight("kugou"), single(0.0));
    assert_eq!(cfg.provider_weight("lrclib"), single(1.0)); // unset -> default
}

#[test]
fn empty_table_uses_default_weight() {
    let toml = "[providers.qqmusic]\n";
    let cfg = Config::from_file(read_toml(toml));
    assert_eq!(cfg.provider_weight("qqmusic"), single(1.0));
    assert!(!cfg.providers.is_empty());
}

#[test]
fn all_settings_are_read() {
    let cfg = Config::loaded(ConfigRead::Parsed(read_toml(
        "player = \"spotify\"\nstrict_player = true\nsearch_timeout_secs = 7\npriority_window_secs = 3\napi_port = 99\ncache_dir = \"/x\"\n",
    )));
    assert_eq!(cfg.player, "spotify");
    assert!(cfg.strict_player);
    assert_eq!(cfg.search_timeout_secs, 7);
    assert_eq!(cfg.priority_window_secs, 3);
    assert_eq!(cfg.api_port, 99);
    assert_eq!(cfg.cache_dir, "/x");
}

#[test]
fn unusable_files_give_defaults() {
    for read in [ConfigRead::Malformed, ConfigRead::Missing, ConfigRead::Unreadable] {
        let cfg = Config::loaded(read);
        assert_eq!(cfg.player, "");
        assert!(!cfg.strict_player);
        assert_eq!(cfg.api_port, 0);
        assert_eq!(cfg.cache_dir, "");
    }
    assert_eq!(ProviderConfig::default().weight, single(1.0));
}

#[test]
fn tables_keep_the_last_value() {
    let mut t: Table<Single> = Table::new();
    assert!(t.is_empty());
    t.insert("a".to_string(), single(1.0));
    t.insert("b".to_string(), single(2.0));
    t.insert("a".to_string(), single(3.0));
    assert_eq!(t.get("a"), Some(single(3.0)));
    assert_eq!(t.get("b"), Some(single(2.0)));
    assert_eq!(t.get("c"), None);
    let mut u: Table<Single> = Table::new();
    u.insert("a".to_string(), single(3.0));
    assert!(!t.same(&u));
    assert!(!u.same(&t));
    u.insert("b".to_string(), single(2.0));
    assert!(t.same(&u));
    assert!(t.copy().same(&t));
    // The zeros are the same number, and what is no number is the same as nothing.
    t.insert("z".to_string(), single(0.0));
    u.insert("z".to_string(), single(-0.0));
    assert!(t.same(&u));
    t.insert("n".to_string(), single(f32::NAN));
    assert!(!t.same(&t));
}

#[test]
fn reload_only_where_weights_differ() {
    let mut config = Config::default();
    let weights = weights_from_config(&config);
    assert!(reloaded_weights(&weights, &config).is_none());
    config.providers.insert("netease".to_string(), ProviderConfig { weight: single(2.0) });
    let new = reloaded_weights(&weights, &config).unwrap();
    assert_eq!(new.get("netease"), Some(single(2.0)));
    assert_eq!(new.get("kugou"), Some(single(1.0)));
    // A table of an unknown provider changes nothing.
    let mut other = Config::default();
    other.providers.insert("someone".to_string(), ProviderConfig { weight: single(5.0) });
    assert!(reloaded_weights(&weights, &other).is_none());
}

#[test]
fn changes_that_call_for_a_reload() {
    assert!(reload_wanted(true, true, true));
    assert!(reload_wanted(true, false, false));
    assert!(!reload_wanted(true, false, true));
    assert!(!reload_wanted(false, true, true));
}

#[test]
fn log_file_location() {
    let s = |x: &str| Some(x.to_string());
    assert_eq!(log_path(s("/c"), s("/h")), "/c/lyrica/lyrica.log");
    assert_eq!(log_path(None, s("/h")), "/h/.cache/lyrica/lyrica.log");
    assert_eq!(log_path(None, None), "/tmp/lyrica/lyrica.log");
    for base in ["/c", "/c/", "", "rel", "/"] {
        let expected = std::path::PathBuf::from(base).join("lyrica").join("lyrica.log");
        assert_eq!(log_path(s(base), None), expected.to_str().unwrap());
        let expected = std::path::PathBuf::from(base).join(".cache").join("lyrica").join("lyrica.log");
        assert_eq!(log_path(None, s(base)), expected.to_str().unwrap());
    }
}

#[test]
fn cache_keys_are_those_of_the_standard_hash() {
    for (title, artist) in [("Song", "Artist"), ("", ""), ("ÀÉ", "中文"), ("a", "bc"), ("ab", "c")] {
        let mut hasher = std::collections::hash_map::DefaultHasher::new();
        title.to_lowercase().hash(&mut hasher);
        artist.to_lowercase().hash(&mut hasher);
        let expected = format!("{:016x}", hasher.finish());
        assert_eq!(LyricsCache::cache_key(title, artist), expected);
        assert_eq!(LyricsCache::file_name(title, artist), format!("{}.json", expected));
    }
}

#[test]
fn cache_keys_ignore_case() {
    assert_eq!(LyricsCache::cache_key("SONG", "artist"), LyricsCache::cache_key("song", "ARTIST"));
    assert_ne!(LyricsCache::cache_key("ab", "c"), LyricsCache::cache_key("a", "bc"));
    assert_eq!(LyricsCache::cache_key("x", "y").len(), 16);
}

#[test]
fn cache_location() {
    assert_eq!(LyricsCache::new(None).cache_dir, None);
    assert_eq!(LyricsCache::new(Some("")).cache_dir, None);
    assert_eq!(LyricsCache::new(Some("/x")).cache_dir.as_deref(), Some("/x"));
}

#[test]
fn gtk_display_is_not_available() {
    assert_eq!(GtkDisplay::new().unavailable(), "GTK display not yet implemented");
}
