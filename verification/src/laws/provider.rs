//! Finding lyrics: what weights do, how matches are scored, and which line a
//! translation goes to.
use crate::config::{ConfigModel, ProviderConfig};
use crate::laws::number::law_product_commutes;
use crate::lyrics::{LineModel, LyricsModel, LyricsSource};
use crate::provider::group::{
    active, all_providers, by_rank, collected, configured_weights, key_weight, law_keys_distinct,
    source_weight, weighted_quality, CollectorModel, ProviderGroup, ProviderKind,
};
use crate::provider::matching::{
    closest, law_closest, match_score, millis_apart, name_score, quality_of, with_all_translated,
    with_translated,
};
use crate::provider::RequestModel;
use crate::single::{
    law_product_keeps_order, nearest, rounded_sum, single_magnitude, spare_bits, Single,
};
use crate::text::{has_part, lowercased};
use vstd::arithmetic::power2::{lemma2_to64, pow2};
use vstd::prelude::*;

verus! {

// ---------------------------------------------------------------------------
// Weights
// ---------------------------------------------------------------------------

/// The weight that lyrics are ranked by is the one in the table under the key
/// of their provider, whatever number it is; a missing entry counts as one, and
/// so does lyrics of no provider.
pub proof fn law_weight_used(weights: Map<Seq<char>, Single>, p: ProviderKind)
    ensures
        weights.dom().contains(p.key_text()) ==> source_weight(weights, p.source_of())
            == weights[p.key_text()],
        !weights.dom().contains(p.key_text()) ==> source_weight(weights, p.source_of()).bits
            == 0x3f80_0000,
        source_weight(weights, LyricsSource::Local).bits == 0x3f80_0000,
        source_weight(weights, LyricsSource::Unknown).bits == 0x3f80_0000,
        source_weight(weights, p.source_of()) == key_weight(weights, p.key_text()),
{
    law_keys_distinct(p, p);
}

/// The key and the source of each provider.
pub proof fn law_keys()
    ensures
        ProviderKind::Lrclib.key_text() == "lrclib"@,
        ProviderKind::NetEase.key_text() == "netease"@,
        ProviderKind::QQMusic.key_text() == "qqmusic"@,
        ProviderKind::Kugou.key_text() == "kugou"@,
        ProviderKind::Lrclib.source_of() == LyricsSource::Lrclib,
        ProviderKind::NetEase.source_of() == LyricsSource::NetEase,
        ProviderKind::QQMusic.source_of() == LyricsSource::QQMusic,
        ProviderKind::Kugou.source_of() == LyricsSource::Kugou,
{
}

/// Of two equally good matches the one of the provider with the larger weight
/// is never ranked lower.
pub proof fn law_larger_weight_ranks(
    a: LyricsModel,
    b: LyricsModel,
    p: ProviderKind,
    q: ProviderKind,
    weights: Map<Seq<char>, Single>,
)
    requires
        a.metadata.source == p.source_of(),
        b.metadata.source == q.source_of(),
        weights.dom().contains(p.key_text()) && weights.dom().contains(q.key_text()),
        weights[p.key_text()].bits <= weights[q.key_text()].bits <= 0x7f80_0000,
        a.metadata.quality == b.metadata.quality,
        0 < a.metadata.quality.bits <= 0x7f80_0000,
    ensures
        weighted_quality(a, weights) <= weighted_quality(b, weights),
        by_rank(weights)(b) <= by_rank(weights)(a),
{
    law_keys_distinct(p, q);
    law_keys_distinct(q, p);
    let (wa, wb) = (weights[p.key_text()], weights[q.key_text()]);
    let quality = a.metadata.quality;
    law_product_commutes(quality, wa);
    law_product_commutes(quality, wb);
    law_product_keeps_order(wa, wb, quality);
}

/// A provider is asked if and only if its weight is a number above zero; one
/// without a weight is asked.
pub proof fn law_asked(p: ProviderKind, weights: Map<Seq<char>, Single>)
    ensures
        weights.dom().contains(p.key_text()) && 0 < weights[p.key_text()].bits <= 0x7f80_0000
            ==> active(seq![p], weights) == seq![p],
        weights.dom().contains(p.key_text()) && !(0 < weights[p.key_text()].bits <= 0x7f80_0000)
            ==> active(seq![p], weights).len() == 0,
        !weights.dom().contains(p.key_text()) ==> active(seq![p], weights) == seq![p],
{
    reveal_with_fuel(active, 2);
    assert(seq![p].drop_last() =~= Seq::empty());
    assert(Seq::<ProviderKind>::empty().push(p) =~= seq![p]);
}

/// The providers asked stand in the order in which they are listed: what is
/// asked of two lists one after the other is what is asked of each.
pub proof fn law_asked_in_order(
    first: Seq<ProviderKind>,
    second: Seq<ProviderKind>,
    weights: Map<Seq<char>, Single>,
)
    ensures
        active(first + second, weights) == active(first, weights) + active(second, weights),
    decreases second.len(),
{
    if second.len() == 0 {
        assert(first + second =~= first);
        assert(active(first, weights) + active(second, weights) =~= active(first, weights));
    } else {
        assert((first + second).drop_last() =~= first + second.drop_last());
        assert((first + second).last() == second.last());
        law_asked_in_order(first, second.drop_last(), weights);
        assert(active(first + second, weights) =~= active(first, weights) + active(
            second,
            weights,
        ));
    }
}

/// A configuration gives each provider the weight that it names for it, and
/// one where it names none.
pub proof fn law_configured(providers: Map<Seq<char>, ProviderConfig>, p: ProviderKind)
    ensures
        configured_weights(providers).dom().contains(p.key_text()),
        providers.dom().contains(p.key_text()) ==> configured_weights(providers)[p.key_text()]
            == providers[p.key_text()].weight,
        !providers.dom().contains(p.key_text()) ==> configured_weights(providers)[p.key_text()].bits
            == 0x3f80_0000,
{
    law_keys_distinct(ProviderKind::Lrclib, p);
    law_keys_distinct(ProviderKind::NetEase, p);
    law_keys_distinct(ProviderKind::QQMusic, p);
    law_keys_distinct(ProviderKind::Kugou, p);
}

/// A group made from a configuration asks all providers, with the weights given
/// and the times of the configuration in seconds.
pub proof fn law_group(g: ProviderGroup, config: ConfigModel, weights: Map<Seq<char>, Single>)
    ensures
        g.made_from(config, weights) == (g.providers@ == all_providers() && g.weights@ == weights
            && g.search_timeout@ == config.search_timeout_secs * 1_000_000_000
            && g.priority_window@ == config.priority_window_secs * 1_000_000_000),
        all_providers() == seq![
            ProviderKind::Lrclib,
            ProviderKind::NetEase,
            ProviderKind::QQMusic,
            ProviderKind::Kugou,
        ],
{
}

/// What arrives is put behind what has arrived. The first to bring something
/// shortens the wait to the priority window from then on, if that ends before
/// the deadline; nothing else changes the wait.
pub proof fn law_collected(m: CollectorModel, now: nat, list: Seq<LyricsModel>)
    requires
        now + m.window <= 18_446_744_073_709_551_615_999_999_999,
    ensures
        ({
            let after = collected(m, now, list);
            &&& after.results == m.results + list
            &&& after.first_received == (m.first_received || list.len() > 0)
            &&& after.deadline == m.deadline
            &&& after.window == m.window
            &&& after.weights == m.weights
            &&& list.len() > 0 && !m.first_received && now + m.window < m.deadline
                ==> after.cutoff == now + m.window
            &&& list.len() == 0 || m.first_received || now + m.window >= m.deadline
                ==> after.cutoff == m.cutoff
        }),
{
}

// ---------------------------------------------------------------------------
// Matches
// ---------------------------------------------------------------------------

/// A name counts in full where it is the wanted one but for the case of its
/// letters, in part where it has the wanted one in it, and else not at all.
pub proof fn law_name_score(name: Seq<char>, wanted: Seq<char>, full: u32, part: u32)
    ensures
        lowercased(name) == lowercased(wanted) ==> name_score(name, wanted, full, part) == full,
        lowercased(name) != lowercased(wanted) && has_part(lowercased(name), lowercased(wanted))
            ==> name_score(name, wanted, full, part) == part,
        lowercased(name) != lowercased(wanted) && !has_part(lowercased(name), lowercased(wanted))
            ==> name_score(name, wanted, full, part) == 0,
{
}

/// How a name stands to the wanted one.
pub enum Match {
    Full,
    Part,
    No,
}

/// How a name stands to the wanted one, whatever the case of the letters.
pub open spec fn how(name: Seq<char>, wanted: Seq<char>) -> Match {
    if lowercased(name) == lowercased(wanted) {
        Match::Full
    } else if has_part(lowercased(name), lowercased(wanted)) {
        Match::Part
    } else {
        Match::No
    }
}

/// The sum of two counts, rounded to a multiple of `unit`.
proof fn lemma_sum(a: nat, b: nat, s: nat, unit: nat)
    requires
        s <= 3,
        unit == if s == 0 {
            1nat
        } else if s == 1 {
            2
        } else if s == 2 {
            4
        } else {
            8
        },
        a + b < 0x100_0000 * unit,
        s > 0 ==> a + b >= 0x80_0000 * unit,
    ensures
        rounded_sum(a, b) == nearest(a + b, s) * unit,
        nearest(a + b, s) == {
            let q = (a + b) / unit;
            let r = (a + b) % unit;
            if 2 * r > unit || (2 * r == unit && q % 2 == 1) {
                q + 1
            } else {
                q
            }
        },
{
    let n = a + b;
    lemma2_to64();
    assert(pow2(0) == 1 && pow2(1) == 2 && pow2(2) == 4 && pow2(3) == 8);
    assert(spare_bits(n, 0) == s) by {
        reveal_with_fuel(spare_bits, 5);
        if s == 1 {
            assert(n / 2 < 0x100_0000);
        } else if s == 2 {
            assert(n / 2 >= 0x100_0000 && n / 2 / 2 < 0x100_0000);
        } else if s == 3 {
            assert(n / 2 / 2 >= 0x100_0000 && n / 2 / 2 / 2 < 0x100_0000);
        }
    }
}

/// What a title and an artist count together, in units of which there are
/// 2^27 in one: 0.5 or 0.3 for the title and 0.4 or 0.2 for the artist, each
/// the closest single-precision number, and so is their sum.
pub proof fn law_match_score(request: RequestModel, title: Seq<char>, artist: Seq<char>)
    ensures
        match_score(request, title, artist) == match (
            how(title, request.title),
            how(artist, request.artist),
        ) {
            (Match::Full, Match::Full) => 120_795_952nat,
            (Match::Full, Match::Part) => 93_952_408,
            (Match::Full, Match::No) => 67_108_864,
            (Match::Part, Match::Full) => 93_952_416,
            (Match::Part, Match::Part) => 67_108_864,
            (Match::Part, Match::No) => 40_265_320,
            (Match::No, Match::Full) => 53_687_092,
            (Match::No, Match::Part) => 26_843_546,
            (Match::No, Match::No) => 0,
        },
{
    lemma_sum(67_108_864, 53_687_092, 3, 8);
    lemma_sum(67_108_864, 26_843_546, 3, 8);
    lemma_sum(67_108_864, 0, 3, 8);
    lemma_sum(40_265_320, 53_687_092, 3, 8);
    lemma_sum(40_265_320, 26_843_546, 3, 8);
    lemma_sum(40_265_320, 0, 2, 4);
    lemma_sum(0, 53_687_092, 2, 4);
    lemma_sum(0, 26_843_546, 1, 2);
    lemma_sum(0, 0, 0, 1);
}

/// The quality of a match is its score, and never more than one; a score beyond
/// counts as one.
pub proof fn law_quality(score: nat)
    ensures
        quality_of(score).bits == single_magnitude(
            if score <= 0x800_0000 {
                score
            } else {
                0x800_0000
            },
            -27,
        ) as u32,
{
}

// ---------------------------------------------------------------------------
// Translations
// ---------------------------------------------------------------------------

/// How far a line is from a time, in whole milliseconds.
pub open spec fn apart(line: LineModel, t: nat) -> int {
    if line.position >= t {
        (line.position - t) / 1_000_000
    } else {
        (t - line.position) / 1_000_000
    }
}

/// A translated line with text goes to the first of the lines closest to it,
/// if that is less than 100 milliseconds away, at whatever time: its text is
/// then the translation of that line, and nothing else changes.
pub proof fn law_translation_given(lines: Seq<LineModel>, tline: LineModel, k: int)
    requires
        0 <= k < lines.len(),
        tline.content.len() > 0,
        apart(lines[k], tline.position) < 100,
        forall|i: int|
            0 <= i < lines.len() ==> apart(lines[k], tline.position) <= apart(
                #[trigger] lines[i],
                tline.position,
            ),
        forall|i: int|
            0 <= i < k ==> apart(lines[k], tline.position) < apart(
                #[trigger] lines[i],
                tline.position,
            ),
    ensures
        with_translated(lines, tline).len() == lines.len(),
        with_translated(lines, tline)[k].translation == Some(tline.content),
        with_translated(lines, tline)[k].position == lines[k].position,
        with_translated(lines, tline)[k].content == lines[k].content,
        with_translated(lines, tline)[k].words == lines[k].words,
        forall|i: int|
            0 <= i < lines.len() && i != k ==> #[trigger] with_translated(lines, tline)[i]
                == lines[i],
{
    let t = tline.position;
    law_closest(lines, t, lines.len() as int);
    let c = closest(lines, t, lines.len() as int);
    assert forall|i: int| 0 <= i < lines.len() implies millis_apart(#[trigger] lines[i], t)
        == apart(lines[i], t) by {}
    assert(millis_apart(lines[c], t) == apart(lines[c], t));
    assert(millis_apart(lines[k], t) == apart(lines[k], t));
    assert(c == k);
}

/// Where some line starts less than 100 milliseconds from a translated line
/// with text, at whatever time, its text becomes the translation of a line.
pub proof fn law_translation_lands(lines: Seq<LineModel>, tline: LineModel, near: int)
    requires
        0 <= near < lines.len(),
        tline.content.len() > 0,
        apart(lines[near], tline.position) < 100,
    ensures
        ({
            let c = closest(lines, tline.position, lines.len() as int);
            &&& 0 <= c < lines.len()
            &&& apart(lines[c], tline.position) <= apart(lines[near], tline.position)
            &&& with_translated(lines, tline)[c].translation == Some(tline.content)
        }),
{
    let t = tline.position;
    law_closest(lines, t, lines.len() as int);
    let c = closest(lines, t, lines.len() as int);
    assert(millis_apart(lines[c], t) == apart(lines[c], t));
    assert(millis_apart(lines[near], t) == apart(lines[near], t));
}

/// A translated line without text goes nowhere, and neither does one that no
/// line is close to.
pub proof fn law_translation_not_given(lines: Seq<LineModel>, tline: LineModel)
    requires
        tline.content.len() == 0 || forall|i: int|
            0 <= i < lines.len() ==> apart(#[trigger] lines[i], tline.position) >= 100,
    ensures
        with_translated(lines, tline) == lines,
{
    if lines.len() > 0 {
        let t = tline.position;
        law_closest(lines, t, lines.len() as int);
        let c = closest(lines, t, lines.len() as int);
        assert(millis_apart(lines[c], t) == apart(lines[c], t));
    }
}

/// Translated lines are taken one after the other.
pub proof fn law_translations_below(
    lines: Seq<LineModel>,
    first: Seq<LineModel>,
    second: Seq<LineModel>,
    tline: LineModel,
)
    ensures
        with_all_translated(lines, first + second) == with_all_translated(
            with_all_translated(lines, first),
            second,
        ),
        with_all_translated(lines, seq![tline]) == with_translated(lines, tline),
        with_all_translated(lines, seq![]) == lines,
    decreases second.len(),
{
    reveal_with_fuel(with_all_translated, 2);
    assert(seq![tline].drop_last() =~= Seq::empty());
    if second.len() == 0 {
        assert(first + second =~= first);
    } else {
        assert((first + second).drop_last() =~= first + second.drop_last());
        law_translations_below(lines, first, second.drop_last(), tline);
    }
}

/// The names of sources, and the keys of those that have a provider.
pub proof fn law_source_names()
    ensures
        LyricsSource::NetEase.name_text() == "NetEase"@,
        LyricsSource::QQMusic.name_text() == "QQ Music"@,
        LyricsSource::Kugou.name_text() == "Kugou"@,
        LyricsSource::Lrclib.name_text() == "LRCLIB"@,
        LyricsSource::Local.name_text() == "Local"@,
        LyricsSource::Unknown.name_text() == "Unknown"@,
        LyricsSource::NetEase.key_text() == Some("netease"@),
        LyricsSource::QQMusic.key_text() == Some("qqmusic"@),
        LyricsSource::Kugou.key_text() == Some("kugou"@),
        LyricsSource::Lrclib.key_text() == Some("lrclib"@),
        LyricsSource::Local.key_text() is None,
        LyricsSource::Unknown.key_text() is None,
{
}

} // verus!
