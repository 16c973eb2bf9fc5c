//! Searching several providers at once: whom to ask, how long to wait, and
//! how to rank what they bring.
use crate::config::{defaults, weight_for, Config, ConfigModel, ProviderConfig};
use crate::lyrics::{Lyrics, LyricsModel, LyricsSource};
use crate::order::{law_ordered, lemma_placed_at, lemma_same_elements, ordered, placed};
use crate::single::{law_one_is_neutral, law_product_keeps_order, one, product_place, Single};
use crate::table::{same_numbers, value_in, Table};
use crate::time::{capped_sum, NANOS_PER_SEC, Duration};
use vstd::prelude::*;

verus! {

/// The providers that can be searched.
#[derive(Clone, Copy, Debug, PartialEq, Eq, Structural)]
pub enum ProviderKind {
    Lrclib,
    NetEase,
    QQMusic,
    Kugou,
}

impl ProviderKind {
    /// The source of the lyrics that the provider brings.
    pub open spec fn source_of(self) -> LyricsSource {
        match self {
            ProviderKind::Lrclib => LyricsSource::Lrclib,
            ProviderKind::NetEase => LyricsSource::NetEase,
            ProviderKind::QQMusic => LyricsSource::QQMusic,
            ProviderKind::Kugou => LyricsSource::Kugou,
        }
    }

    /// The key under which the provider is configured.
    pub open spec fn key_text(self) -> Seq<char> {
        self.source_of().key_text()->0
    }

    /// Provider name for display/logging.
    pub fn name(&self) -> (r: &'static str)
        ensures
            r@ == self.source_of().name_text(),
    {
        match self {
            ProviderKind::Lrclib => "LRCLIB",
            ProviderKind::NetEase => "NetEase",
            ProviderKind::QQMusic => "QQ Music",
            ProviderKind::Kugou => "Kugou",
        }
    }

    /// Stable lowercase key used in config files.
    pub fn key(&self) -> (r: &'static str)
        ensures
            r@ == self.key_text(),
    {
        match self {
            ProviderKind::Lrclib => "lrclib",
            ProviderKind::NetEase => "netease",
            ProviderKind::QQMusic => "qqmusic",
            ProviderKind::Kugou => "kugou",
        }
    }
}

/// The weights that a configuration gives to the providers.
pub open spec fn configured_weights(providers: Map<Seq<char>, ProviderConfig>) -> Map<
    Seq<char>,
    Single,
> {
    map![
        "lrclib"@ => weight_for(providers, "lrclib"@),
        "netease"@ => weight_for(providers, "netease"@),
        "qqmusic"@ => weight_for(providers, "qqmusic"@),
        "kugou"@ => weight_for(providers, "kugou"@),
    ]
}

/// The weights that a configuration gives to the providers.
pub fn weights_from_config(config: &Config) -> (r: Table<Single>)
    ensures
        r@ == configured_weights(config@.providers),
{
    let mut weights: Table<Single> = Table::new();
    weights.insert("lrclib".to_owned(), config.provider_weight("lrclib"));
    weights.insert("netease".to_owned(), config.provider_weight("netease"));
    weights.insert("qqmusic".to_owned(), config.provider_weight("qqmusic"));
    weights.insert("kugou".to_owned(), config.provider_weight("kugou"));
    weights
}

/// The weights of a configuration that was loaded again, where they are not
/// the ones in force.
pub fn reloaded_weights(in_force: &Table<Single>, config: &Config) -> (r: Option<Table<Single>>)
    ensures
        r is None == same_numbers(configured_weights(config@.providers), in_force@),
        r matches Some(w) ==> w@ == configured_weights(config@.providers),
{
    let weights = weights_from_config(config);
    if weights.same(in_force) {
        None
    } else {
        Some(weights)
    }
}

/// The weight of a provider key; missing entries count as one.
pub open spec fn key_weight(weights: Map<Seq<char>, Single>, key: Seq<char>) -> Single {
    match value_in(weights, key) {
        Some(w) => w,
        None => one(),
    }
}

/// The weight of the provider behind a source; sources without one count as
/// one.
pub open spec fn source_weight(weights: Map<Seq<char>, Single>, source: LyricsSource) -> Single {
    match source.key_text() {
        Some(k) => key_weight(weights, k),
        None => one(),
    }
}

/// The providers that a search asks: those with a positive weight, in order.
pub open spec fn active(providers: Seq<ProviderKind>, weights: Map<Seq<char>, Single>) -> Seq<
    ProviderKind,
>
    decreases providers.len(),
{
    if providers.len() == 0 {
        Seq::empty()
    } else if key_weight(weights, providers.last().key_text()).is_positive() {
        active(providers.drop_last(), weights).push(providers.last())
    } else {
        active(providers.drop_last(), weights)
    }
}

/// The place among all numbers of the quality of lyrics times the weight of
/// their provider.
pub open spec fn weighted_quality(l: LyricsModel, weights: Map<Seq<char>, Single>) -> int {
    product_place(l.metadata.quality, source_weight(weights, l.metadata.source))
}

/// Candidates are ranked by falling weighted quality.
pub open spec fn by_rank(weights: Map<Seq<char>, Single>) -> spec_fn(LyricsModel) -> int {
    |l: LyricsModel| -weighted_quality(l, weights)
}

/// Candidates, as plain values.
pub open spec fn lyrics_models(list: Seq<Lyrics>) -> Seq<LyricsModel> {
    list.map_values(|l: Lyrics| l@)
}

/// The weight of the provider behind a source.
fn weight_of(weights: &Table<Single>, source: LyricsSource) -> (r: Single)
    ensures
        r == source_weight(weights@, source),
{
    match source.config_key() {
        Some(key) => match weights.get(key) {
            Some(w) => w,
            None => Single::one(),
        },
        None => Single::one(),
    }
}

/// The quality of lyrics times the weight of their provider.
fn score(l: &Lyrics, weights: &Table<Single>) -> (r: i64)
    ensures
        r == weighted_quality(l@, weights@),
{
    l.metadata.quality.product_place(weight_of(weights, l.metadata.source))
}

/// Puts a candidate behind those that are not ranked lower.
fn place_ranked(ranked: &mut Vec<Lyrics>, l: Lyrics, weights: &Table<Single>)
    ensures
        lyrics_models(final(ranked)@) == placed(
            lyrics_models(old(ranked)@),
            l@,
            by_rank(weights@),
        ),
{
    let ghost before = lyrics_models(ranked@);
    let s: i64 = score(&l, weights);
    let mut p: usize = ranked.len();
    while p > 0 && score(&ranked[p - 1], weights) < s
        invariant
            p <= ranked@.len(),
            before == lyrics_models(ranked@),
            s == weighted_quality(l@, weights@),
            forall|i: int|
                p <= i < before.len() ==> weighted_quality(#[trigger] before[i], weights@) < s,
        decreases p,
    {
        p = p - 1;
    }
    proof {
        assert(p > 0 ==> before[p - 1] == ranked@[p - 1]@);
        assert forall|i: int| p <= i < before.len() implies by_rank(weights@)(#[trigger] before[i])
            > by_rank(weights@)(l@) by {}
        lemma_placed_at(before, l@, by_rank(weights@), p as int);
    }
    let ghost model = l@;
    ranked.insert(p, l);
    assert(lyrics_models(ranked@) =~= before.insert(p as int, model));
}

/// The candidates by weighted quality (quality * provider weight), best first.
/// The weight is not baked into the quality itself, so what is cached or shown
/// stays unbiased.
pub fn rank(results: Vec<Lyrics>, weights: &Table<Single>) -> (r: Vec<Lyrics>)
    ensures
        lyrics_models(r@) == ordered(lyrics_models(results@), by_rank(weights@)),
{
    let ghost all = lyrics_models(results@);
    let mut rest = results;
    let mut ranked: Vec<Lyrics> = Vec::new();
    let ghost mut n: int = 0;
    assert(all.take(0) =~= Seq::empty());
    assert(lyrics_models(ranked@) =~= Seq::empty());
    while rest.len() > 0
        invariant
            0 <= n <= all.len(),
            lyrics_models(rest@) == all.skip(n),
            lyrics_models(ranked@) == ordered(all.take(n), by_rank(weights@)),
        decreases rest@.len(),
    {
        let ghost before = rest@;
        let l = rest.remove(0);
        proof {
            assert(lyrics_models(before).len() == all.skip(n).len());
            assert(lyrics_models(before)[0] == before[0]@);
            assert(l@ == all.skip(n)[0]);
            assert(l@ == all[n]);
            assert(lyrics_models(rest@) =~= all.skip(n + 1)) by {
                assert(lyrics_models(rest@) =~= lyrics_models(before).skip(1));
                assert(all.skip(n).skip(1) =~= all.skip(n + 1));
            }
            assert(all.take(n + 1).drop_last() =~= all.take(n));
        }
        place_ranked(&mut ranked, l, weights);
        proof {
            n = n + 1;
        }
    }
    assert(n == all.len()) by {
        assert(lyrics_models(rest@).len() == 0);
    }
    assert(all.take(n) =~= all);
    ranked
}

/// Aggregated provider that searches multiple sources in parallel.
#[derive(Debug)]
pub struct ProviderGroup {
    pub providers: Vec<ProviderKind>,
    /// Per-provider weight. Missing entries count as one; a weight of zero or
    /// below skips the provider entirely.
    pub weights: Table<Single>,
    /// Timeout for the entire search operation.
    pub search_timeout: Duration,
    /// After first result, wait this long for better results.
    pub priority_window: Duration,
}

/// All providers, in the order in which they are asked.
pub open spec fn all_providers() -> Seq<ProviderKind> {
    seq![ProviderKind::Lrclib, ProviderKind::NetEase, ProviderKind::QQMusic, ProviderKind::Kugou]
}

impl ProviderGroup {
    /// Whether this is a group of all providers with the given weights and the
    /// times of the given configuration.
    pub open spec fn made_from(&self, config: ConfigModel, weights: Map<Seq<char>, Single>) -> bool {
        &&& self.providers@ == all_providers()
        &&& self.weights@ == weights
        &&& self.search_timeout@ == config.search_timeout_secs * NANOS_PER_SEC
        &&& self.priority_window@ == config.priority_window_secs * NANOS_PER_SEC
    }

    /// Create a ProviderGroup with all available providers and default weights.
    pub fn with_all_providers() -> (r: Self)
        ensures
            r.made_from(
                defaults(),
                configured_weights(Map::<Seq<char>, ProviderConfig>::empty()),
            ),
    {
        ProviderGroup::with_config(&Config::default())
    }

    /// Create a ProviderGroup driven by the given config.
    pub fn with_config(config: &Config) -> (r: Self)
        ensures
            r.made_from(config@, configured_weights(config@.providers)),
    {
        ProviderGroup::with_shared_weights(config, &weights_from_config(config))
    }

    /// Like `with_config`, but with the weights that other groups have too.
    pub fn with_shared_weights(config: &Config, weights: &Table<Single>) -> (r: Self)
        ensures
            r.made_from(config@, weights@),
    {
        let providers = vec![
            ProviderKind::Lrclib,
            ProviderKind::NetEase,
            ProviderKind::QQMusic,
            ProviderKind::Kugou,
        ];
        assert(providers@ =~= all_providers());
        ProviderGroup {
            providers,
            weights: weights.copy(),
            search_timeout: Duration::from_secs(config.search_timeout_secs),
            priority_window: Duration::from_secs(config.priority_window_secs),
        }
    }

    /// Take over other weights; the next search goes by them.
    pub fn set_weights(&mut self, weights: &Table<Single>)
        ensures
            final(self).weights@ == weights@,
            final(self).providers == old(self).providers,
            final(self).search_timeout == old(self).search_timeout,
            final(self).priority_window == old(self).priority_window,
    {
        self.weights = weights.copy();
    }

    /// Snapshot current weights for use during a single search.
    pub fn snapshot_weights(&self) -> (r: Table<Single>)
        ensures
            r@ == self.weights@,
    {
        self.weights.copy()
    }

    /// The providers that a search asks under the given weights.
    pub fn active_providers(&self, weights: &Table<Single>) -> (r: Vec<ProviderKind>)
        ensures
            r@ == active(self.providers@, weights@),
    {
        let ghost all = self.providers@;
        let mut out: Vec<ProviderKind> = Vec::new();
        let mut i: usize = 0;
        assert(all.take(0) =~= Seq::empty());
        while i < self.providers.len()
            invariant
                i <= all.len(),
                all == self.providers@,
                out@ == active(all.take(i as int), weights@),
            decreases all.len() - i,
        {
            assert(all.take(i + 1).drop_last() =~= all.take(i as int));
            let p = self.providers[i];
            let w = match weights.get(p.key()) {
                Some(w) => w,
                None => Single::one(),
            };
            if w.positive() {
                out.push(p);
            }
            i = i + 1;
        }
        assert(all.take(all.len() as int) =~= all);
        out
    }

    /// Begin a search at time `now` under the given weights.
    pub fn start_search(&self, now: Duration, weights: &Table<Single>) -> (r: Collector)
        ensures
            r@ == (CollectorModel {
                deadline: capped_sum(now@, self.search_timeout@),
                cutoff: capped_sum(now@, self.search_timeout@),
                window: self.priority_window@,
                weights: weights@,
                first_received: false,
                results: Seq::empty(),
            }),
    {
        let deadline = now.saturating_add(self.search_timeout);
        let results: Vec<Lyrics> = Vec::new();
        assert(lyrics_models(results@) =~= Seq::empty());
        Collector {
            deadline,
            cutoff: deadline,
            priority_window: self.priority_window,
            weights: weights.copy(),
            first_received: false,
            results,
        }
    }
}

/// The results of a search as they come in, and how long to wait for more.
#[derive(Debug)]
pub struct Collector {
    deadline: Duration,
    cutoff: Duration,
    priority_window: Duration,
    weights: Table<Single>,
    first_received: bool,
    results: Vec<Lyrics>,
}

/// A search in progress, as plain values.
#[verifier::ext_equal]
pub struct CollectorModel {
    /// When the search ends in any case.
    pub deadline: nat,
    /// When it ends as things stand.
    pub cutoff: nat,
    /// How long to wait for better results after the first.
    pub window: nat,
    /// The weights that the search started with.
    pub weights: Map<Seq<char>, Single>,
    /// Whether a provider has brought something.
    pub first_received: bool,
    /// What has come in, in the order in which it came.
    pub results: Seq<LyricsModel>,
}

impl View for Collector {
    type V = CollectorModel;

    closed spec fn view(&self) -> CollectorModel {
        CollectorModel {
            deadline: self.deadline@,
            cutoff: self.cutoff@,
            window: self.priority_window@,
            weights: self.weights@,
            first_received: self.first_received,
            results: lyrics_models(self.results@),
        }
    }
}

/// What a provider brings at time `now`. The first that brings something
/// opens the priority window: the search then ends with the window, or at the
/// deadline where that is no later.
pub open spec fn collected(m: CollectorModel, now: nat, list: Seq<LyricsModel>) -> CollectorModel {
    let first = !m.first_received && list.len() > 0;
    let window_end = capped_sum(now, m.window);
    CollectorModel {
        cutoff: if first && window_end < m.deadline {
            window_end
        } else {
            m.cutoff
        },
        first_received: m.first_received || list.len() > 0,
        results: m.results + list,
        ..m
    }
}

impl Collector {
    /// When to stop waiting for further providers.
    pub fn wait_until(&self) -> (r: Duration)
        ensures
            r@ == self@.cutoff,
    {
        self.cutoff
    }

    /// Take in what a provider brings at time `now`. A provider that fails
    /// brings nothing and need not be reported.
    pub fn add_results(&mut self, list: Vec<Lyrics>, now: Duration)
        ensures
            final(self)@ == collected(old(self)@, now@, lyrics_models(list@)),
    {
        if !self.first_received && list.len() > 0 {
            self.first_received = true;
            let window_end = now.saturating_add(self.priority_window);
            if window_end.shorter_than(&self.deadline) {
                self.cutoff = window_end;
            }
        }
        let ghost before = self.results@;
        let ghost new = list@;
        let mut list = list;
        self.results.append(&mut list);
        assert(lyrics_models(self.results@) =~= lyrics_models(before) + lyrics_models(new));
    }

    /// End the search: all candidates sorted by quality under the weights that
    /// it started with.
    pub fn finish(self) -> (r: Vec<Lyrics>)
        ensures
            lyrics_models(r@) == ordered(self@.results, by_rank(self@.weights)),
    {
        rank(self.results, &self.weights)
    }
}

/// The best of ranked candidates.
pub fn best(ranked: Vec<Lyrics>) -> (r: Option<Lyrics>)
    ensures
        r is Some == (ranked@.len() > 0),
        r matches Some(l) ==> l == ranked@[0],
{
    let mut ranked = ranked;
    if ranked.len() == 0 {
        None
    } else {
        Some(ranked.remove(0))
    }
}

// ---------------------------------------------------------------------------
// Laws
// ---------------------------------------------------------------------------

/// A search asks exactly the providers with a positive weight.
pub proof fn law_active_weights(
    providers: Seq<ProviderKind>,
    weights: Map<Seq<char>, Single>,
    p: ProviderKind,
)
    ensures
        active(providers, weights).contains(p) <==> providers.contains(p) && key_weight(
            weights,
            p.key_text(),
        ).is_positive(),
    decreases providers.len(),
{
    if providers.len() > 0 {
        let head = providers.drop_last();
        let last = providers.last();
        law_active_weights(head, weights, p);
        assert(providers =~= head.push(last));
        assert(providers.contains(p) <==> head.contains(p) || p == last) by {
            if head.contains(p) {
                let k = choose|k: int| 0 <= k < head.len() && head[k] == p;
                assert(providers[k] == p);
            }
            if providers.contains(p) && p != last {
                let k = choose|k: int| 0 <= k < providers.len() && providers[k] == p;
                assert(head[k] == p);
            }
            if p == last {
                assert(providers[providers.len() - 1] == p);
            }
        }
        let before = active(head, weights);
        if key_weight(weights, last.key_text()).is_positive() {
            let after = before.push(last);
            assert(after.contains(p) <==> before.contains(p) || p == last) by {
                if before.contains(p) {
                    let k = choose|k: int| 0 <= k < before.len() && before[k] == p;
                    assert(after[k] == p);
                }
                if after.contains(p) && p != last {
                    let k = choose|k: int| 0 <= k < after.len() && after[k] == p;
                    assert(before[k] == p);
                }
                if p == last {
                    assert(after[after.len() - 1] == p);
                }
            }
        }
    }
}

/// Ranking keeps all candidates, and no candidate stands before one of higher
/// weighted quality; the first is therefore a best one.
pub proof fn law_ranked(results: Seq<LyricsModel>, weights: Map<Seq<char>, Single>)
    ensures
        ({
            let ranked = ordered(results, by_rank(weights));
            &&& ranked.to_multiset() == results.to_multiset()
            &&& ranked.len() == results.len()
            &&& forall|i: int, j: int|
                0 <= i <= j < ranked.len() ==> weighted_quality(#[trigger] ranked[i], weights)
                    >= weighted_quality(#[trigger] ranked[j], weights)
            &&& forall|k: int|
                0 <= k < results.len() ==> weighted_quality(#[trigger] results[k], weights)
                    <= weighted_quality(ranked[0], weights)
        }),
{
    let key = by_rank(weights);
    let ranked = ordered(results, key);
    law_ordered(results, key);
    assert forall|i: int, j: int| 0 <= i <= j < ranked.len() implies weighted_quality(
        #[trigger] ranked[i],
        weights,
    ) >= weighted_quality(#[trigger] ranked[j], weights) by {
        assert(key(ranked[i]) <= key(ranked[j]));
    }
    assert forall|k: int| 0 <= k < results.len() implies weighted_quality(
        #[trigger] results[k],
        weights,
    ) <= weighted_quality(ranked[0], weights) by {
        lemma_same_elements(results, ranked, k);
        let j = choose|j: int| 0 <= j < ranked.len() && ranked[j] == results[k];
        assert(weighted_quality(ranked[0], weights) >= weighted_quality(ranked[j], weights));
    }
}

/// Under the weight one lyrics are ranked by their quality alone.
pub proof fn law_unweighted(l: LyricsModel, weights: Map<Seq<char>, Single>)
    requires
        !l.metadata.quality.is_nan(),
        source_weight(weights, l.metadata.source) == one(),
    ensures
        weighted_quality(l, weights) == l.metadata.quality.place(),
{
    law_one_is_neutral(l.metadata.quality);
}

/// A better match of a provider is never ranked lower than a worse one of the
/// same provider.
pub proof fn law_better_match_ranks(
    a: LyricsModel,
    b: LyricsModel,
    weights: Map<Seq<char>, Single>,
)
    requires
        a.metadata.source == b.metadata.source,
        source_weight(weights, a.metadata.source).is_positive(),
        !a.metadata.quality.is_nan() && !a.metadata.quality.negative(),
        !b.metadata.quality.is_nan() && !b.metadata.quality.negative(),
        a.metadata.quality.place() <= b.metadata.quality.place(),
    ensures
        weighted_quality(a, weights) <= weighted_quality(b, weights),
{
    law_product_keeps_order(
        a.metadata.quality,
        b.metadata.quality,
        source_weight(weights, a.metadata.source),
    );
}

/// The search never waits beyond its deadline, and only the first provider
/// that brings something can shorten the wait.
pub proof fn law_window(m: CollectorModel, now: nat, list: Seq<LyricsModel>)
    requires
        m.cutoff <= m.deadline,
        !m.first_received ==> m.cutoff == m.deadline,
    ensures
        ({
            let after = collected(m, now, list);
            &&& after.cutoff <= after.deadline == m.deadline
            &&& !after.first_received ==> after.cutoff == after.deadline
            &&& m.first_received || list.len() == 0 ==> after.cutoff == m.cutoff
            &&& !m.first_received && list.len() > 0 ==> after.cutoff == if capped_sum(
                now,
                m.window,
            ) < m.deadline {
                capped_sum(now, m.window)
            } else {
                m.deadline
            }
        }),
{
}

/// Each provider has a key of its own, under which its lyrics are weighted.
pub proof fn law_keys_distinct(p: ProviderKind, q: ProviderKind)
    ensures
        p.key_text() == q.key_text() ==> p == q,
        source_weight(Map::empty(), p.source_of()) == one(),
        p.source_of().key_text() == Some(p.key_text()),
{
    reveal_strlit("lrclib");
    reveal_strlit("netease");
    reveal_strlit("qqmusic");
    reveal_strlit("kugou");
    assert("lrclib"@.len() == 6 && "netease"@.len() == 7 && "qqmusic"@.len() == 7 && "kugou"@.len()
        == 5);
    assert("netease"@[0] == 'n' && "qqmusic"@[0] == 'q');
}

/// The weights of a configuration are those of its providers, and one for a
/// provider that it does not name.
pub proof fn law_configured_weights(providers: Map<Seq<char>, ProviderConfig>, p: ProviderKind)
    ensures
        key_weight(configured_weights(providers), p.key_text()) == weight_for(
            providers,
            p.key_text(),
        ),
{
    law_keys_distinct(ProviderKind::Lrclib, p);
    law_keys_distinct(ProviderKind::NetEase, p);
    law_keys_distinct(ProviderKind::QQMusic, p);
    law_keys_distinct(ProviderKind::Kugou, p);
}

/// What several providers bring, each at its time, one after the other.
pub open spec fn after_arrivals(
    m: CollectorModel,
    arrivals: Seq<(nat, Seq<LyricsModel>)>,
) -> CollectorModel
    decreases arrivals.len(),
{
    if arrivals.len() == 0 {
        m
    } else {
        collected(
            after_arrivals(m, arrivals.drop_last()),
            arrivals.last().0,
            arrivals.last().1,
        )
    }
}

/// All candidates that arrive, in the order in which they do.
pub open spec fn all_candidates(arrivals: Seq<(nat, Seq<LyricsModel>)>) -> Seq<LyricsModel>
    decreases arrivals.len(),
{
    if arrivals.len() == 0 {
        Seq::empty()
    } else {
        all_candidates(arrivals.drop_last()) + arrivals.last().1
    }
}

/// When the first candidate arrives.
pub open spec fn first_arrival(arrivals: Seq<(nat, Seq<LyricsModel>)>) -> Option<nat>
    decreases arrivals.len(),
{
    if arrivals.len() == 0 {
        None
    } else if first_arrival(arrivals.drop_last()) is Some {
        first_arrival(arrivals.drop_last())
    } else if arrivals.last().1.len() > 0 {
        Some(arrivals.last().0)
    } else {
        None
    }
}

/// A search keeps all that arrives, in order, and waits until its deadline, or
/// until the priority window after the first candidate where that ends sooner.
pub proof fn law_search_collects(m: CollectorModel, arrivals: Seq<(nat, Seq<LyricsModel>)>)
    requires
        m.cutoff == m.deadline,
        !m.first_received,
        m.results == Seq::<LyricsModel>::empty(),
    ensures
        after_arrivals(m, arrivals) == (CollectorModel {
            results: all_candidates(arrivals),
            first_received: first_arrival(arrivals) is Some,
            cutoff: match first_arrival(arrivals) {
                Some(t) => if capped_sum(t, m.window) < m.deadline {
                    capped_sum(t, m.window)
                } else {
                    m.deadline
                },
                None => m.deadline,
            },
            ..m
        }),
    decreases arrivals.len(),
{
    if arrivals.len() > 0 {
        law_search_collects(m, arrivals.drop_last());
    }
}

} // verus!
