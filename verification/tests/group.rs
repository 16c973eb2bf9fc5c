//! Searching several providers.
use lyrica::config::{Config, ProviderConfig};
use lyrica::lyrics::{Lyrics, LyricsMetadata, LyricsSource};
use lyrica::provider::group::{best, rank, ProviderGroup, ProviderKind};
use lyrica::single::Single;
use lyrica::table::Table;
use lyrica::time::Duration;

fn single(w: f32) -> Single {
    Single { bits: w.to_bits() }
}

fn make_lyrics(source: LyricsSource, quality: f32) -> Lyrics {
    Lyrics {
        lines: Vec::new(),
        metadata: LyricsMetadata {
            title: None,
            artist: None,
            album: None,
            source,
            quality: single(quality),
        },
        offset_ms: 0,
    }
}

#[test]
fn weight_zero_filters_at_search_time() {
    // weight=0 no longer removes the provider from the group; it gates the
    // search at runtime so live reloads can re-enable it.
    let mut config = Config::default();
    config.providers.insert("kugou".into(), ProviderConfig { weight: single(0.0) });
    let group = ProviderGroup::with_config(&config);
    assert_eq!(group.providers.len(), 4);
    let weights = group.snapshot_weights();
    assert_eq!(weights.get("kugou"), Some(single(0.0)));
    assert_eq!(
        group.active_providers(&weights),
        vec![ProviderKind::Lrclib, ProviderKind::NetEase, ProviderKind::QQMusic]
    );
}

#[test]
fn weighted_quality_orders_results() {
    let mut config = Config::default();
    config.providers.insert("netease".into(), ProviderConfig { weight: single(2.0) });
    config.providers.insert("lrclib".into(), ProviderConfig { weight: single(0.5) });
    let group = ProviderGroup::with_config(&config);
    let weights = group.snapshot_weights();

    let results = vec![
        make_lyrics(LyricsSource::Lrclib, 0.9),  // weighted: 0.45
        make_lyrics(LyricsSource::NetEase, 0.6), // weighted: 1.20
    ];
    let results = rank(results, &weights);
    assert_eq!(results[0].metadata.source, LyricsSource::NetEase);
    // The weight is not baked into the quality.
    assert_eq!(results[0].metadata.quality, single(0.6));
}

#[test]
fn equal_candidates_keep_their_order() {
    let weights: Table<Single> = Table::new();
    let results = vec![
        make_lyrics(LyricsSource::Kugou, 0.5),
        make_lyrics(LyricsSource::NetEase, 0.9),
        make_lyrics(LyricsSource::Local, 0.5),
        make_lyrics(LyricsSource::Lrclib, 0.5),
    ];
    let order: Vec<LyricsSource> =
        rank(results, &weights).iter().map(|l| l.metadata.source).collect();
    assert_eq!(
        order,
        vec![LyricsSource::NetEase, LyricsSource::Kugou, LyricsSource::Local, LyricsSource::Lrclib]
    );
}

#[test]
fn weights_below_zero_rank_last_and_are_not_asked() {
    let mut weights: Table<Single> = Table::new();
    weights.insert("netease".into(), single(-1.0));
    let group = ProviderGroup::with_all_providers();
    assert!(!group.active_providers(&weights).contains(&ProviderKind::NetEase));
    let ranked = rank(
        vec![make_lyrics(LyricsSource::NetEase, 1.0), make_lyrics(LyricsSource::Lrclib, 0.0)],
        &weights,
    );
    assert_eq!(ranked[0].metadata.source, LyricsSource::Lrclib);
}

#[test]
fn all_disabled() {
    let mut weights: Table<Single> = Table::new();
    for key in ["lrclib", "netease", "qqmusic", "kugou"] {
        weights.insert(key.into(), single(0.0));
    }
    assert!(ProviderGroup::with_all_providers().active_providers(&weights).is_empty());
}

#[test]
fn weights_can_be_replaced() {
    let config = Config::default();
    let mut a = ProviderGroup::with_config(&config);
    let mut weights = a.snapshot_weights();
    weights.insert("netease".into(), single(5.0));
    let b = ProviderGroup::with_shared_weights(&config, &weights);
    a.set_weights(&weights);
    assert_eq!(a.snapshot_weights().get("netease"), Some(single(5.0)));
    assert_eq!(b.snapshot_weights().get("netease"), Some(single(5.0)));
    assert_eq!(b.snapshot_weights().get("kugou"), Some(single(1.0)));
}

#[test]
fn the_first_results_open_the_priority_window() {
    let group = ProviderGroup::with_all_providers();
    let mut c = group.start_search(Duration::from_secs(100), &group.snapshot_weights());
    assert_eq!(c.wait_until(), Duration::from_secs(110));
    c.add_results(Vec::new(), Duration::from_secs(101));
    assert_eq!(c.wait_until(), Duration::from_secs(110));
    c.add_results(vec![make_lyrics(LyricsSource::Kugou, 0.1)], Duration::from_secs(103));
    assert_eq!(c.wait_until(), Duration::from_secs(105));
    c.add_results(vec![make_lyrics(LyricsSource::Lrclib, 0.2)], Duration::from_secs(104));
    assert_eq!(c.wait_until(), Duration::from_secs(105));
    let found = c.finish();
    assert_eq!(found.len(), 2);
    assert_eq!(best(found).unwrap().metadata.source, LyricsSource::Lrclib);
}

#[test]
fn the_window_does_not_extend_the_search() {
    let group = ProviderGroup::with_all_providers();
    let mut c = group.start_search(Duration::zero(), &group.snapshot_weights());
    c.add_results(vec![make_lyrics(LyricsSource::Kugou, 0.1)], Duration::from_secs(9));
    assert_eq!(c.wait_until(), Duration::from_secs(10));
    assert!(best(Vec::new()).is_none());
}

#[test]
fn times_come_from_the_configuration() {
    let mut config = Config::default();
    config.search_timeout_secs = 4;
    config.priority_window_secs = 1;
    let group = ProviderGroup::with_config(&config);
    assert_eq!(group.search_timeout, Duration::from_secs(4));
    assert_eq!(group.priority_window, Duration::from_secs(1));
}

#[test]
fn provider_names_and_keys() {
    let group = ProviderGroup::with_all_providers();
    let names: Vec<&str> = group.providers.iter().map(|p| p.name()).collect();
    let keys: Vec<&str> = group.providers.iter().map(|p| p.key()).collect();
    assert_eq!(names, vec!["LRCLIB", "NetEase", "QQ Music", "Kugou"]);
    assert_eq!(keys, vec!["lrclib", "netease", "qqmusic", "kugou"]);
}

#[test]
fn a_search_keeps_the_weights_that_it_started_with() {
    let mut group = ProviderGroup::with_all_providers();
    let mut weights = group.snapshot_weights();
    weights.insert("kugou".into(), single(3.0));
    let mut c = group.start_search(Duration::zero(), &weights);
    weights.insert("kugou".into(), single(0.0));
    group.set_weights(&weights);
    c.add_results(vec![make_lyrics(LyricsSource::Lrclib, 0.6)], Duration::from_secs(1));
    c.add_results(vec![make_lyrics(LyricsSource::Kugou, 0.5)], Duration::from_secs(1));
    assert_eq!(c.finish()[0].metadata.source, LyricsSource::Kugou);
}

#[test]
fn ranking_is_that_of_the_products() {
    // Single precision tells these two apart, though 0.9 = 0.6 * 1.5.
    let mut weights: Table<Single> = Table::new();
    weights.insert("netease".into(), single(1.5));
    let (a, b) = (0.5f32 + 0.4, 0.5f32 + 0.1);
    assert!(b * 1.5 > a);
    let ranked = rank(
        vec![make_lyrics(LyricsSource::Lrclib, a), make_lyrics(LyricsSource::NetEase, b)],
        &weights,
    );
    assert_eq!(ranked[0].metadata.source, LyricsSource::NetEase);
    // On many candidates the order is that of a stable sort by product.
    let sources =
        [LyricsSource::Lrclib, LyricsSource::NetEase, LyricsSource::QQMusic, LyricsSource::Kugou];
    let mut seed = 7u64;
    let mut next = || {
        seed = seed.wrapping_mul(6364136223846793005).wrapping_add(1442695040888963407);
        (seed >> 40) as u32
    };
    for _ in 0..50 {
        let mut weights: Table<Single> = Table::new();
        let mut by_source = Vec::new();
        for s in sources {
            let w = (next() % 30) as f32 / 10.0;
            weights.insert(s.config_key().unwrap().into(), single(w));
            by_source.push((s, w));
        }
        let mut list: Vec<(f32, LyricsSource, f32)> = Vec::new();
        for _ in 0..12 {
            let (s, w) = by_source[(next() % 4) as usize];
            let q = (next() % 11) as f32 / 10.0;
            list.push((q * w, s, q));
        }
        let ranked = rank(list.iter().map(|(_, s, q)| make_lyrics(*s, *q)).collect(), &weights);
        list.sort_by(|x, y| y.0.partial_cmp(&x.0).unwrap());
        for (l, (_, s, q)) in ranked.iter().zip(list.iter()) {
            assert_eq!((l.metadata.source, l.metadata.quality), (*s, single(*q)));
        }
    }
}
