//! Calls that look for lyrics.
use crate::config::Config;
use crate::lyrics::{line_models, Lyrics};
use crate::order::ordered;
use crate::provider::group::{
    best, by_rank, configured_weights, lyrics_models, rank, reloaded_weights, Collector,
    ProviderGroup, ProviderKind,
};
use crate::provider::http::HttpRequest;
use crate::provider::kugou::{self, KugouSearch};
use crate::provider::lrclib::{self, LrclibResult};
use crate::provider::matching::{apply_translations, calculate_quality, match_score, quality_of};
use crate::provider::netease::{self, NetEaseSearch};
use crate::provider::qqmusic::{self, QQMusicSearch};
use crate::provider::{query_text, SearchRequest};
use crate::single::Single;
use crate::table::{same_numbers, Table};
use crate::time::Duration;
use crate::provider::base64::{base64_decode, content_text, decode_content, decoded, InvalidBase64};
use vstd::prelude::*;

verus! {

// ---------------------------------------------------------------------------
// Groups
// ---------------------------------------------------------------------------

/// A group made from a configuration asks all providers under its weights, for
/// as long as it says.
pub proof fn law_with_config(config: &Config, r: ProviderGroup)
    requires
        call_ensures(ProviderGroup::with_config, (config,), r),
    ensures
        r.providers@ == seq![
            ProviderKind::Lrclib,
            ProviderKind::NetEase,
            ProviderKind::QQMusic,
            ProviderKind::Kugou,
        ],
        r.weights@ == configured_weights(config.providers@),
        r.search_timeout@ == config.search_timeout_secs * 1_000_000_000,
        r.priority_window@ == config.priority_window_secs * 1_000_000_000,
{
}

/// A group with shared weights differs only in these.
pub proof fn law_with_shared_weights(config: &Config, weights: &Table<Single>, r: ProviderGroup)
    requires
        call_ensures(ProviderGroup::with_shared_weights, (config, weights), r),
    ensures
        r.providers@.len() == 4,
        r.weights@ == weights@,
        r.search_timeout@ == config.search_timeout_secs * 1_000_000_000,
        r.priority_window@ == config.priority_window_secs * 1_000_000_000,
{
}

/// The weights that are set are the ones that the next search has, and nothing
/// else changes.
pub proof fn law_weights_set(
    g: &mut ProviderGroup,
    weights: &Table<Single>,
    after: &ProviderGroup,
    r: (),
    snapshot: Table<Single>,
)
    requires
        call_ensures(ProviderGroup::set_weights, (g, weights), r),
        *after == *final(g),
        call_ensures(ProviderGroup::snapshot_weights, (after,), snapshot),
    ensures
        snapshot@ == weights@,
        final(g).providers == old(g).providers,
        final(g).search_timeout == old(g).search_timeout,
        final(g).priority_window == old(g).priority_window,
{
}

/// Weights that are loaded again count unless they are the ones in force.
pub proof fn law_reloaded(in_force: &Table<Single>, config: &Config, r: Option<Table<Single>>)
    requires
        call_ensures(reloaded_weights, (in_force, config), r),
    ensures
        same_numbers(configured_weights(config.providers@), in_force@) ==> r is None,
        !same_numbers(configured_weights(config.providers@), in_force@) ==> r is Some && r->0@
            == configured_weights(config.providers@),
{
}

/// A search waits until its timeout has passed, under the weights given.
pub proof fn law_start_search(
    g: &ProviderGroup,
    now: Duration,
    weights: &Table<Single>,
    c: Collector,
    until: Duration,
)
    requires
        call_ensures(ProviderGroup::start_search, (g, now, weights), c),
        call_ensures(Collector::wait_until, (&c,), until),
        now@ + g.search_timeout@ <= 18_446_744_073_709_551_615_999_999_999,
    ensures
        until@ == now@ + g.search_timeout@,
        c@.deadline == now@ + g.search_timeout@,
        c@.window == g.priority_window@,
        c@.weights == weights@,
        c@.results.len() == 0,
        !c@.first_received,
{
}

/// The first to bring something at time `now` lets a search wait for the
/// priority window from then on, if that ends before the deadline.
pub proof fn law_first_results(
    c: &mut Collector,
    list: Vec<Lyrics>,
    now: Duration,
    after: &Collector,
    r: (),
    until: Duration,
)
    requires
        call_ensures(Collector::add_results, (c, list, now), r),
        *after == *final(c),
        call_ensures(Collector::wait_until, (after,), until),
        now@ + old(c)@.window <= 18_446_744_073_709_551_615_999_999_999,
    ensures
        list@.len() > 0 && !old(c)@.first_received && now@ + old(c)@.window < old(c)@.deadline
            ==> until@ == now@ + old(c)@.window,
        list@.len() == 0 || old(c)@.first_received || now@ + old(c)@.window >= old(c)@.deadline
            ==> until@ == old(c)@.cutoff,
        final(c)@.results == old(c)@.results + lyrics_models(list@),
        final(c)@.weights == old(c)@.weights,
        final(c)@.deadline == old(c)@.deadline,
{
    crate::laws::provider::law_collected(old(c)@, now@, lyrics_models(list@));
    assert(lyrics_models(list@).len() == list@.len());
}

/// At the end of a search all that came in is there, ranked by the weights that
/// it started with, and the best of it is the first.
pub proof fn law_finish(c: Collector, r: Vec<Lyrics>, first: Option<Lyrics>)
    requires
        call_ensures(Collector::finish, (c,), r),
        call_ensures(best, (r,), first),
    ensures
        lyrics_models(r@) == ordered(c@.results, by_rank(c@.weights)),
        r@.len() == 0 ==> first is None,
        r@.len() > 0 ==> first == Some(r@[0]),
{
}

/// Ranking orders candidates by the weights.
pub proof fn law_rank(results: Vec<Lyrics>, weights: &Table<Single>, r: Vec<Lyrics>)
    requires
        call_ensures(rank, (results, weights), r),
    ensures
        lyrics_models(r@) == ordered(lyrics_models(results@), by_rank(weights@)),
{
}

/// The providers asked are those of the group with a positive weight.
pub proof fn law_active_providers(
    g: &ProviderGroup,
    weights: &Table<Single>,
    r: Vec<ProviderKind>,
    p: ProviderKind,
)
    requires
        call_ensures(ProviderGroup::active_providers, (g, weights), r),
    ensures
        r@.contains(p) == (g.providers@.contains(p) && (!weights@.dom().contains(p.key_text()) || 0
            < weights@[p.key_text()].bits <= 0x7f80_0000)),
{
    crate::provider::group::law_active_weights(g.providers@, weights@, p);
}

// ---------------------------------------------------------------------------
// Matches and translations
// ---------------------------------------------------------------------------

/// The quality of a match is that of its score.
pub proof fn law_calculate_quality(request: &SearchRequest, title: &str, artist: &str, r: Single)
    requires
        call_ensures(calculate_quality, (request, title, artist), r),
    ensures
        r == quality_of(match_score(request@, title@, artist@)),
{
}

/// Translations change nothing of the lyrics but translations.
pub proof fn law_apply_translations(main: &mut Lyrics, trans: &Lyrics, r: ())
    requires
        call_ensures(apply_translations, (main, trans), r),
    ensures
        line_models(final(main).lines@) == crate::provider::matching::with_all_translated(
            line_models(old(main).lines@),
            line_models(trans.lines@),
        ),
        final(main).metadata@ == old(main).metadata@,
        final(main).offset_ms == old(main).offset_ms,
        final(main).lines@.len() == old(main).lines@.len(),
{
    crate::provider::matching::law_translating_keeps_lines(
        line_models(old(main).lines@),
        line_models(trans.lines@),
    );
    assert(line_models(final(main).lines@).len() == final(main).lines@.len());
    assert(line_models(old(main).lines@).len() == old(main).lines@.len());
}

/// A translated line with text goes to the only line, where that is less than
/// 100 milliseconds away, at whatever time.
pub proof fn law_apply_translation(main: &mut Lyrics, trans: &Lyrics, r: ())
    requires
        call_ensures(apply_translations, (main, trans), r),
        old(main).lines@.len() == 1,
        trans.lines@.len() == 1,
        trans.lines@[0].content@.len() > 0,
        old(main).lines@[0].position@ < trans.lines@[0].position@ + 100_000_000,
        trans.lines@[0].position@ < old(main).lines@[0].position@ + 100_000_000,
    ensures
        final(main).lines@.len() == 1,
        final(main).lines@[0].translation is Some,
        final(main).lines@[0].translation->0@ == trans.lines@[0].content@,
        final(main).lines@[0].content@ == old(main).lines@[0].content@,
        final(main).lines@[0].position@ == old(main).lines@[0].position@,
{
    let lines = line_models(old(main).lines@);
    let tlines = line_models(trans.lines@);
    let tline = trans.lines@[0]@;
    law_apply_translations(main, trans, r);
    assert(lines[0] == old(main).lines@[0]@);
    assert(tlines =~= seq![tline]);
    crate::laws::provider::law_translations_below(lines, seq![], seq![], tline);
    crate::laws::provider::law_translation_given(lines, tline, 0);
    let after = line_models(final(main).lines@);
    assert(after[0] == final(main).lines@[0]@);
}

// ---------------------------------------------------------------------------
// Web services
// ---------------------------------------------------------------------------

/// A search of Kugou starts with nothing found and asks for songs.
pub proof fn law_kugou_start(request: &SearchRequest, r: (KugouSearch, HttpRequest))
    requires
        call_ensures(KugouSearch::start, (request,), r),
    ensures
        r.0.request@ == request@,
        r.0.songs@.len() == 0 && r.0.at == 0 && r.0.found@.len() == 0,
        r.1@ == kugou::songs_request(request@),
{
}

/// The songs that come in are the ones that lyrics are looked for, from the
/// first on.
pub proof fn law_kugou_songs(s: &mut KugouSearch, reply: kugou::SearchResponse, r: kugou::Next)
    requires
        call_ensures(KugouSearch::on_songs, (s, reply), r),
    ensures
        final(s).songs@ == kugou::songs_in(reply),
        final(s).request == old(s).request,
        final(s).at == 0 && final(s).found@.len() == 0,
        final(s).songs@.len() > 0 ==> r@ == kugou::NextModel::Candidates(
            kugou::candidates_request(final(s).request@, final(s).songs@[0]@),
        ),
        final(s).songs@.len() == 0 ==> r@ is Done,
{
}

/// The first candidate of a song is asked for its text; a song without one is
/// passed over.
pub proof fn law_kugou_candidates(
    s: &mut KugouSearch,
    reply: Option<kugou::LyricSearchResponse>,
    r: kugou::Next,
)
    requires
        call_ensures(KugouSearch::on_candidates, (s, reply), r),
        old(s).at < 3 && old(s).at < old(s).songs@.len(),
    ensures
        final(s).found == old(s).found,
        final(s).songs == old(s).songs,
        kugou::candidate_in(reply) matches Some(c) ==> final(s).at == old(s).at && r@
            == kugou::NextModel::Detail(kugou::detail_request(c.id@, c.accesskey@)),
        kugou::candidate_in(reply) is None ==> final(s).at == old(s).at + 1 && r@
            == final(s).next_for_song(),
{
}

/// The content of a song gives its lyrics, behind those of the songs before it;
/// the next song follows.
pub proof fn law_kugou_detail(
    s: &mut KugouSearch,
    reply: Option<kugou::LyricDetailResponse>,
    r: kugou::Next,
)
    requires
        call_ensures(KugouSearch::on_detail, (s, reply), r),
        old(s).at < 3 && old(s).at < old(s).songs@.len(),
    ensures
        final(s).songs == old(s).songs,
        final(s).request == old(s).request,
        final(s).at == old(s).at + 1,
        r@ == final(s).next_for_song(),
        kugou::content_in(reply) matches Some(text) ==> lyrics_models(final(s).found@)
            == lyrics_models(old(s).found@).push(
            kugou::song_lyrics(old(s).request@, old(s).songs@[old(s).at as int]@, text),
        ),
        kugou::content_in(reply) is None ==> lyrics_models(final(s).found@) == lyrics_models(
            old(s).found@,
        ),
{
}

/// A search of NetEase starts with nothing found and asks for songs.
pub proof fn law_netease_start(request: &SearchRequest, r: (NetEaseSearch, HttpRequest))
    requires
        call_ensures(NetEaseSearch::start, (request,), r),
    ensures
        r.0.request@ == request@,
        r.0.songs@.len() == 0 && r.0.at == 0 && r.0.found@.len() == 0,
        r.1@ == netease::songs_request(request@),
{
}

/// The songs that come in are the ones that lyrics are asked for, from the first
/// on.
pub proof fn law_netease_songs(
    s: &mut NetEaseSearch,
    reply: netease::SearchResponse,
    r: Option<HttpRequest>,
)
    requires
        call_ensures(NetEaseSearch::on_songs, (s, reply), r),
    ensures
        final(s).songs@ == netease::songs_in(reply),
        final(s).request == old(s).request,
        final(s).at == 0 && final(s).found@.len() == 0,
        final(s).songs@.len() > 0 ==> r is Some && r->0@ == netease::lyrics_request(
            final(s).songs@[0]@,
        ),
        final(s).songs@.len() == 0 ==> r is None,
{
    assert(crate::provider::http::opt_http(r) == final(s).next_for_song());
}

/// The text of a song gives its lyrics, behind those of the songs before it; the
/// next song follows.
pub proof fn law_netease_reply(
    s: &mut NetEaseSearch,
    reply: netease::LyricResponse,
    r: Option<HttpRequest>,
)
    requires
        call_ensures(NetEaseSearch::on_lyrics, (s, reply), r),
        old(s).at < 3 && old(s).at < old(s).songs@.len(),
    ensures
        final(s).songs == old(s).songs,
        final(s).request == old(s).request,
        final(s).at == old(s).at + 1,
        crate::provider::http::opt_http(r) == final(s).next_for_song(),
        netease::text_in(reply) matches Some(text) ==> lyrics_models(final(s).found@)
            == lyrics_models(old(s).found@).push(
            netease::song_lyrics(
                old(s).request@,
                old(s).songs@[old(s).at as int]@,
                text,
                netease::translation_in(reply),
            ),
        ),
        netease::text_in(reply) is None ==> lyrics_models(final(s).found@) == lyrics_models(
            old(s).found@,
        ),
{
}

/// A search of QQ Music starts with nothing found and asks for songs.
pub proof fn law_qqmusic_start(request: &SearchRequest, r: (QQMusicSearch, HttpRequest))
    requires
        call_ensures(QQMusicSearch::start, (request,), r),
    ensures
        r.0.request@ == request@,
        r.0.songs@.len() == 0 && r.0.at == 0 && r.0.found@.len() == 0,
        r.1@ == qqmusic::songs_request(request@),
{
}

/// The songs that come in are the ones that lyrics are asked for, from the first
/// on.
pub proof fn law_qqmusic_songs(
    s: &mut QQMusicSearch,
    reply: qqmusic::SearchResponse,
    r: Option<HttpRequest>,
)
    requires
        call_ensures(QQMusicSearch::on_songs, (s, reply), r),
    ensures
        final(s).songs@ == qqmusic::songs_in(reply),
        final(s).request == old(s).request,
        final(s).at == 0 && final(s).found@.len() == 0,
        final(s).songs@.len() > 0 ==> r is Some && r->0@ == qqmusic::lyrics_request(
            final(s).songs@[0]@,
        ),
        final(s).songs@.len() == 0 ==> r is None,
{
    assert(crate::provider::http::opt_http(r) == final(s).next_for_song());
}

/// The text of a song gives its lyrics, behind those of the songs before it; the
/// next song follows.
pub proof fn law_qqmusic_reply(
    s: &mut QQMusicSearch,
    reply: Option<qqmusic::LyricResponse>,
    r: Option<HttpRequest>,
)
    requires
        call_ensures(QQMusicSearch::on_lyrics, (s, reply), r),
        old(s).at < 3 && old(s).at < old(s).songs@.len(),
    ensures
        final(s).songs == old(s).songs,
        final(s).request == old(s).request,
        final(s).at == old(s).at + 1,
        crate::provider::http::opt_http(r) == final(s).next_for_song(),
        qqmusic::text_in(reply) matches Some(text) ==> lyrics_models(final(s).found@)
            == lyrics_models(old(s).found@).push(
            qqmusic::song_lyrics(
                old(s).request@,
                old(s).songs@[old(s).at as int]@,
                text,
                qqmusic::translation_in(reply),
            ),
        ),
        qqmusic::text_in(reply) is None ==> lyrics_models(final(s).found@) == lyrics_models(
            old(s).found@,
        ),
{
}

/// A search of LRCLIB asks for the request, and brings what the first results
/// hold, or says what the server refused with.
pub proof fn law_lrclib(
    request: &SearchRequest,
    status: String,
    list: Vec<LrclibResult>,
    http: HttpRequest,
    refused: Result<Vec<Lyrics>, lrclib::SearchFailed>,
    found: Result<Vec<Lyrics>, lrclib::SearchFailed>,
)
    requires
        call_ensures(lrclib::start_search, (request,), http),
        call_ensures(lrclib::finish_search, (request, lrclib::Reply::Refused(status)), refused),
        call_ensures(lrclib::finish_search, (request, lrclib::Reply::Results(list)), found),
    ensures
        http@ == lrclib::search_request(request@),
        refused is Err,
        refused->Err_0.message@ == "LRCLIB search returned status "@ + status@,
        found is Ok,
        lyrics_models(found->Ok_0@) == lrclib::all_lyrics(
            request@,
            lrclib::first_results(lrclib::result_models(list@)),
        ),
{
}

/// What a search has found is handed out as it is.
pub proof fn law_found_handed_out(
    a: KugouSearch,
    b: NetEaseSearch,
    c: QQMusicSearch,
    x: Vec<Lyrics>,
    y: Vec<Lyrics>,
    z: Vec<Lyrics>,
)
    requires
        call_ensures(KugouSearch::finish, (a,), x),
        call_ensures(NetEaseSearch::finish, (b,), y),
        call_ensures(QQMusicSearch::finish, (c,), z),
    ensures
        x == a.found,
        y == b.found,
        z == c.found,
{
}

/// Content is decoded where it is encoded text, and the bytes of an encoding
/// are those that it stands for.
pub proof fn law_decoded(
    text: &str,
    bytes: Result<Vec<u8>, InvalidBase64>,
    content: String,
)
    requires
        call_ensures(base64_decode, (text,), bytes),
        call_ensures(decode_content, (text,), content),
    ensures
        decoded(text@) matches Some(b) ==> bytes is Ok && bytes->Ok_0@ == b,
        decoded(text@) is None ==> bytes is Err,
        content@ == content_text(text@),
{
}

/// A provider is asked for title and artist, and a result of LRCLIB is as good
/// as its names match.
pub proof fn law_asked_for(
    request: &SearchRequest,
    result: &LrclibResult,
    text: String,
    quality: Single,
)
    requires
        call_ensures(query_text, (request,), text),
        call_ensures(lrclib::calculate_quality, (request, result), quality),
    ensures
        text@ == request.title@.push(' ') + request.artist@,
        quality == quality_of(lrclib::result_score(request@, result@)),
{
    crate::laws::songs::law_query(request@);
}

/// A group without a configuration asks all providers with equal weights, for
/// the default times.
pub proof fn law_with_all_providers(r: ProviderGroup, p: ProviderKind)
    requires
        call_ensures(ProviderGroup::with_all_providers, (), r),
    ensures
        r.providers@.len() == 4,
        r.weights@.dom().contains(p.key_text()),
        r.weights@[p.key_text()].bits == 0x3f80_0000,
        r.search_timeout@ == 10_000_000_000,
        r.priority_window@ == 2_000_000_000,
{
    crate::laws::provider::law_configured(Map::empty(), p);
}

} // verus!
