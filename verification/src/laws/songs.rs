//! The web services: what they are asked, and what their replies stand for.
use crate::lyrics::lrc::lrc_lyrics;
use crate::lyrics::{LyricsModel, LyricsSource};
use crate::provider::base64::{
    content_text, decoded, group_bytes, groups_bytes, padding_at, sextet, unbroken,
};
use crate::provider::http::Method;
use crate::provider::lrclib::{
    all_lyrics, first_results, opt_score, result_lyrics, result_score, result_text, LrclibModel,
};
use crate::provider::matching::{match_score, name_score, quality_of, with_all_translated};
use crate::provider::{kugou, lrclib, netease, qqmusic, query, RequestModel};
use crate::single::rounded_sum;
use crate::text::{decimal, joined, opt_text, trimmed};
use vstd::prelude::*;
use vstd::utf8::*;

verus! {

/// A service is asked for the title and the artist with a space between them.
pub proof fn law_query(request: RequestModel)
    ensures
        query(request) == request.title.push(' ') + request.artist,
{
    assert(query(request) =~= request.title.push(' ') + request.artist);
}

// ---------------------------------------------------------------------------
// Kugou
// ---------------------------------------------------------------------------

/// What Kugou is asked: for songs by title and artist, for the lyrics of a song
/// by its hash and the wanted duration in milliseconds, and for the text of a
/// candidate by its id and key.
pub proof fn law_kugou_asked(
    request: RequestModel,
    song: kugou::SongModel,
    id: Seq<char>,
    key: Seq<char>,
)
    ensures
        ({
            let a = kugou::songs_request(request);
            let b = kugou::candidates_request(request, song);
            let c = kugou::detail_request(id, key);
            let duration = if request.duration is Some {
                decimal(request.duration->0 / 1_000_000)
            } else {
                Seq::empty()
            };
            &&& a.method == Method::Get && b.method == Method::Get && c.method == Method::Get
            &&& a.referer is None && b.referer is None && c.referer is None
            &&& a.url == "https://mobileservice.kugou.com/api/v3/search/song"@
            &&& b.url == "https://krcs.kugou.com/search"@
            &&& c.url == "https://krcs.kugou.com/download"@
            &&& a.fields == seq![
                ("keyword"@, query(request)),
                ("page"@, "1"@),
                ("pagesize"@, "5"@),
            ]
            &&& b.fields == seq![
                ("keyword"@, query(request)),
                ("hash"@, song.hash),
                ("duration"@, duration),
                ("client"@, "pc"@),
                ("ver"@, "1"@),
                ("man"@, "yes"@),
            ]
            &&& c.fields == seq![
                ("id"@, id),
                ("accesskey"@, key),
                ("fmt"@, "lrc"@),
                ("charset"@, "utf8"@),
                ("client"@, "pc"@),
                ("ver"@, "1"@),
            ]
        }),
{
}

/// The lyrics of a song of Kugou are read from its content, under the names
/// that the song has, and are as good as these match.
pub proof fn law_kugou_lyrics(request: RequestModel, song: kugou::SongModel, content: Seq<char>)
    ensures
        ({
            let l = kugou::song_lyrics(request, song, content);
            let artist = if song.singername is Some {
                song.singername->0
            } else {
                Seq::empty()
            };
            &&& l.lines == lrc_lyrics(content_text(content)).lines
            &&& l.offset_ms == lrc_lyrics(content_text(content)).offset_ms
            &&& l.metadata.title == Some(song.songname)
            &&& l.metadata.artist == song.singername
            &&& l.metadata.album == song.album_name
            &&& l.metadata.source == LyricsSource::Kugou
            &&& l.metadata.quality == quality_of(match_score(request, song.songname, artist))
        }),
{
}

/// The songs, the first candidate and the content of replies of Kugou.
pub proof fn law_kugou_replies(
    songs: kugou::SearchResponse,
    candidates: kugou::LyricSearchResponse,
    detail: kugou::LyricDetailResponse,
)
    ensures
        songs.data is None ==> kugou::songs_in(songs).len() == 0,
        songs.data matches Some(d) ==> (d.info matches Some(v) ==> kugou::songs_in(songs) == v@),
        songs.data matches Some(d) ==> (d.info is None ==> kugou::songs_in(songs).len() == 0),
        candidates.candidates matches Some(v) ==> (v@.len() > 0 ==> kugou::candidate_in(
            Some(candidates),
        ) == Some(v@[0])),
        candidates.candidates matches Some(v) ==> (v@.len() == 0 ==> kugou::candidate_in(
            Some(candidates),
        ) is None),
        candidates.candidates is None ==> kugou::candidate_in(Some(candidates)) is None,
        kugou::candidate_in(None) is None,
        detail.content matches Some(s) ==> (s@.len() > 0 ==> kugou::content_in(Some(detail))
            == Some(s@)),
        detail.content matches Some(s) ==> (s@.len() == 0 ==> kugou::content_in(
            Some(detail),
        ) is None),
        detail.content is None ==> kugou::content_in(Some(detail)) is None,
        kugou::content_in(None) is None,
{
}

/// Kugou is asked about the first three songs, one after the other, and then no
/// more.
pub proof fn law_kugou_next(search: kugou::KugouSearch)
    ensures
        search.song_due() == (search.at < 3 && search.at < search.songs@.len()),
        search.song_due() ==> search.next_for_song() == kugou::NextModel::Candidates(
            kugou::candidates_request(search.request@, search.songs@[search.at as int]@),
        ),
        !search.song_due() ==> search.next_for_song() is Done,
        search.counted() == (search.found@.len() <= search.at <= 3),
{
}

// ---------------------------------------------------------------------------
// NetEase
// ---------------------------------------------------------------------------

/// What NetEase is asked: for songs by title and artist, and for the lyrics of a
/// song by its id.
pub proof fn law_netease_asked(request: RequestModel, song: netease::SongModel)
    ensures
        ({
            let a = netease::songs_request(request);
            let b = netease::lyrics_request(song);
            &&& a.method == Method::Post && b.method == Method::Get
            &&& a.url == "https://music.163.com/api/search/get"@
            &&& b.url == "https://music.163.com/api/song/lyric"@
            &&& a.referer == Some("https://music.163.com/"@)
            &&& b.referer == Some("https://music.163.com/"@)
            &&& a.fields == seq![("s"@, query(request)), ("type"@, "1"@), ("limit"@, "5"@)]
            &&& b.fields == seq![("id"@, decimal(song.id as nat)), ("lv"@, "1"@), ("tv"@, "1"@)]
        }),
{
}

/// The lyrics of a song of NetEase are read from its text and given the
/// translation, under the names that the song has; they are as good as these
/// match, and a tenth better.
pub proof fn law_netease_lyrics(
    request: RequestModel,
    song: netease::SongModel,
    text: Seq<char>,
    translation: Option<Seq<char>>,
)
    ensures
        ({
            let l = netease::song_lyrics(request, song, text, translation);
            let artist = joined(song.artists, ", "@);
            &&& translation is None ==> l.lines == lrc_lyrics(text).lines
            &&& translation matches Some(t) ==> l.lines == with_all_translated(
                lrc_lyrics(text).lines,
                lrc_lyrics(t).lines,
            )
            &&& l.offset_ms == lrc_lyrics(text).offset_ms
            &&& l.metadata.title == Some(song.title)
            &&& l.metadata.artist == Some(artist)
            &&& l.metadata.album == song.album
            &&& l.metadata.source == LyricsSource::NetEase
            &&& l.metadata.quality == quality_of(
                rounded_sum(match_score(request, song.title, artist), 13_421_773),
            )
        }),
{
}

/// The songs, the text and the translation in replies of NetEase.
pub proof fn law_netease_replies(songs: netease::SearchResponse, reply: netease::LyricResponse)
    ensures
        songs.result is None ==> netease::songs_in(songs).len() == 0,
        songs.result matches Some(d) ==> (d.songs matches Some(v) ==> netease::songs_in(songs)
            == v@),
        songs.result matches Some(d) ==> (d.songs is None ==> netease::songs_in(songs).len() == 0),
        reply.lrc is None ==> netease::text_in(reply) is None,
        reply.lrc matches Some(c) ==> (c.lyric is None ==> netease::text_in(reply) is None),
        reply.lrc matches Some(c) ==> (c.lyric matches Some(s) ==> netease::text_in(reply) == if s@.len()
            > 0 {
            Some(s@)
        } else {
            None
        }),
        reply.tlyric is None ==> netease::translation_in(reply) is None,
        reply.tlyric matches Some(c) ==> netease::translation_in(reply) == opt_text(c.lyric),
{
}

/// NetEase is asked about the first three songs, one after the other, and then
/// no more.
pub proof fn law_netease_next(search: netease::NetEaseSearch)
    ensures
        search.song_due() == (search.at < 3 && search.at < search.songs@.len()),
        search.song_due() ==> search.next_for_song() == Some(
            netease::lyrics_request(search.songs@[search.at as int]@),
        ),
        !search.song_due() ==> search.next_for_song() is None,
        search.counted() == (search.found@.len() <= search.at <= 3),
{
}

// ---------------------------------------------------------------------------
// QQ Music
// ---------------------------------------------------------------------------

/// What QQ Music is asked: for songs by title and artist, and for the lyrics of
/// a song by its id.
pub proof fn law_qqmusic_asked(request: RequestModel, song: qqmusic::SongModel)
    ensures
        ({
            let a = qqmusic::songs_request(request);
            let b = qqmusic::lyrics_request(song);
            &&& a.method == Method::Get && b.method == Method::Get
            &&& a.url == "https://c.y.qq.com/soso/fcgi-bin/client_search_cp"@
            &&& b.url == "https://c.y.qq.com/lyric/fcgi-bin/fcg_query_lyric_new.fcg"@
            &&& a.referer == Some("https://y.qq.com/"@)
            &&& b.referer == Some("https://y.qq.com/"@)
            &&& a.fields == seq![
                ("w"@, query(request)),
                ("format"@, "json"@),
                ("p"@, "1"@),
                ("n"@, "5"@),
            ]
            &&& b.fields == seq![("songmid"@, song.mid), ("format"@, "json"@), ("nobase64"@, "1"@)]
        }),
{
}

/// The lyrics of a song of QQ Music are read from its text and given the
/// translation, under the names that the song has, and are as good as these
/// match.
pub proof fn law_qqmusic_lyrics(
    request: RequestModel,
    song: qqmusic::SongModel,
    text: Seq<char>,
    translation: Option<Seq<char>>,
)
    ensures
        ({
            let l = qqmusic::song_lyrics(request, song, text, translation);
            let artist = joined(song.artists, ", "@);
            &&& translation is None ==> l.lines == lrc_lyrics(text).lines
            &&& translation matches Some(t) ==> l.lines == with_all_translated(
                lrc_lyrics(text).lines,
                lrc_lyrics(t).lines,
            )
            &&& l.offset_ms == lrc_lyrics(text).offset_ms
            &&& l.metadata.title == Some(song.title)
            &&& l.metadata.artist == Some(artist)
            &&& l.metadata.album == song.album
            &&& l.metadata.source == LyricsSource::QQMusic
            &&& l.metadata.quality == quality_of(match_score(request, song.title, artist))
        }),
{
}

/// The songs, the text and the translation in replies of QQ Music.
pub proof fn law_qqmusic_replies(songs: qqmusic::SearchResponse, reply: qqmusic::LyricResponse)
    ensures
        songs.data is None ==> qqmusic::songs_in(songs).len() == 0,
        songs.data matches Some(d) ==> (d.song matches Some(v) ==> qqmusic::songs_in(songs)
            == v.list@),
        songs.data matches Some(d) ==> (d.song is None ==> qqmusic::songs_in(songs).len() == 0),
        reply.lyric is None ==> qqmusic::text_in(Some(reply)) is None,
        reply.lyric matches Some(s) ==> qqmusic::text_in(Some(reply)) == if s@.len() > 0 {
            Some(s@)
        } else {
            None
        },
        qqmusic::text_in(None) is None,
        qqmusic::translation_in(Some(reply)) == opt_text(reply.trans),
        qqmusic::translation_in(None) is None,
{
}

/// QQ Music is asked about the first three songs, one after the other, and then
/// no more.
pub proof fn law_qqmusic_next(search: qqmusic::QQMusicSearch)
    ensures
        search.song_due() == (search.at < 3 && search.at < search.songs@.len()),
        search.song_due() ==> search.next_for_song() == Some(
            qqmusic::lyrics_request(search.songs@[search.at as int]@),
        ),
        !search.song_due() ==> search.next_for_song() is None,
        search.counted() == (search.found@.len() <= search.at <= 3),
{
}

// ---------------------------------------------------------------------------
// LRCLIB
// ---------------------------------------------------------------------------

/// LRCLIB is asked for the title and the artist.
pub proof fn law_lrclib_asked(request: RequestModel)
    ensures
        lrclib::search_request(request).method == Method::Get,
        lrclib::search_request(request).url == "https://lrclib.net/api/search"@,
        lrclib::search_request(request).referer is None,
        lrclib::search_request(request).fields == seq![("q"@, query(request))],
{
}

/// A result counts what its names count, a missing one nothing, and a tenth
/// more where its lyrics are timed.
pub proof fn law_lrclib_score(request: RequestModel, result: LrclibModel)
    ensures
        ({
            let title = if result.track_name is Some {
                name_score(result.track_name->0, request.title, 67_108_864, 40_265_320)
            } else {
                0
            };
            let artist = if result.artist_name is Some {
                name_score(result.artist_name->0, request.artist, 53_687_092, 26_843_546)
            } else {
                0
            };
            let names = rounded_sum(title as nat, artist as nat);
            &&& result.synced_lyrics is None ==> result_score(request, result) == names
            &&& result.synced_lyrics is Some ==> result_score(request, result) == rounded_sum(
                names,
                13_421_773,
            )
        }),
{
    assert(opt_score(result.track_name, request.title, 67_108_864, 40_265_320) == if result.track_name is Some {
        name_score(result.track_name->0, request.title, 67_108_864, 40_265_320)
    } else {
        0
    });
}

/// The lyrics of a result are read from its timed text, or else from its plain
/// one, under the names that it has.
pub proof fn law_lrclib_lyrics(request: RequestModel, result: LrclibModel, text: Seq<char>)
    ensures
        result.synced_lyrics matches Some(s) ==> result_text(result) == Some(s),
        result.synced_lyrics is None ==> result_text(result) == result.plain_lyrics,
        ({
            let l = result_lyrics(request, result, text);
            &&& l.lines == lrc_lyrics(text).lines
            &&& l.offset_ms == lrc_lyrics(text).offset_ms
            &&& l.metadata.title == result.track_name
            &&& l.metadata.artist == result.artist_name
            &&& l.metadata.album == result.album_name
            &&& l.metadata.source == LyricsSource::Lrclib
            &&& l.metadata.quality == quality_of(result_score(request, result))
        }),
{
}

/// A result alone gives its lyrics, or none where it has no text.
pub proof fn law_lrclib_result(request: RequestModel, result: LrclibModel)
    ensures
        result_text(result) matches Some(text) ==> all_lyrics(request, seq![result]) == seq![
            result_lyrics(request, result, text),
        ],
        result_text(result) is None ==> all_lyrics(request, seq![result]).len() == 0,
{
    reveal_with_fuel(all_lyrics, 2);
    assert(seq![result].drop_last() =~= Seq::empty());
    if let Some(text) = result_text(result) {
        assert(Seq::<LyricsModel>::empty().push(result_lyrics(request, result, text)) =~= seq![
            result_lyrics(request, result, text),
        ]);
    }
}

/// Results give their lyrics one after the other, and the first five are looked
/// at.
pub proof fn law_lrclib_results(
    request: RequestModel,
    first: Seq<LrclibModel>,
    second: Seq<LrclibModel>,
)
    ensures
        all_lyrics(request, first + second) == all_lyrics(request, first) + all_lyrics(
            request,
            second,
        ),
        first.len() <= 5 ==> first_results(first) == first,
        first.len() > 5 ==> first_results(first) == first.subrange(0, 5),
    decreases second.len(),
{
    if second.len() == 0 {
        assert(first + second =~= first);
        assert(all_lyrics(request, first) + all_lyrics(request, second) =~= all_lyrics(
            request,
            first,
        ));
    } else {
        assert((first + second).drop_last() =~= first + second.drop_last());
        assert((first + second).last() == second.last());
        law_lrclib_results(request, first, second.drop_last());
        assert(all_lyrics(request, first + second) =~= all_lyrics(request, first) + all_lyrics(
            request,
            second,
        ));
    }
}

// ---------------------------------------------------------------------------
// Encoded content
// ---------------------------------------------------------------------------

/// Content is what it decodes to where that is text, and else itself.
pub proof fn law_content(text: Seq<char>)
    ensures
        decoded(trimmed(text)) is None ==> content_text(text) == text,
        decoded(trimmed(text)) matches Some(bytes) ==> (valid_utf8(bytes) ==> content_text(text)
            == decode_utf8(bytes)),
        decoded(trimmed(text)) matches Some(bytes) ==> (!valid_utf8(bytes) ==> content_text(text)
            == text),
{
}

/// Whether a byte is a letter, a digit, a plus or a slash.
pub open spec fn in_alphabet(b: u8) -> bool {
    65 <= b <= 90 || 97 <= b <= 122 || 48 <= b <= 57 || b == 43 || b == 47
}

/// Line breaks and spaces are passed over wherever they stand, and nothing
/// else is.
pub proof fn law_breaks(first: Seq<u8>, second: Seq<u8>, b: u8)
    ensures
        unbroken(first + second) == unbroken(first) + unbroken(second),
        b == 10 || b == 13 || b == 32 ==> unbroken(seq![b]).len() == 0,
        b != 10 && b != 13 && b != 32 ==> unbroken(seq![b]) == seq![b],
    decreases second.len(),
{
    reveal_with_fuel(unbroken, 2);
    assert(seq![b].drop_last() =~= Seq::empty());
    assert(Seq::<u8>::empty().push(b) =~= seq![b]);
    if second.len() == 0 {
        assert(first + second =~= first);
        assert(unbroken(first) + unbroken(second) =~= unbroken(first));
    } else {
        assert((first + second).drop_last() =~= first + second.drop_last());
        assert((first + second).last() == second.last());
        law_breaks(first, second.drop_last(), b);
        assert(unbroken(first + second) =~= unbroken(first) + unbroken(second));
    }
}

proof fn lemma_no_padding(s: Seq<u8>, i: int)
    requires
        0 <= i <= s.len(),
        forall|j: int| 0 <= j < s.len() ==> #[trigger] s[j] != 61,
    ensures
        padding_at(s, i) == s.len(),
    decreases s.len() - i,
{
    if i < s.len() {
        assert(s[i] != 61);
        lemma_no_padding(s, i + 1);
    }
}

proof fn lemma_refused(s: Seq<u8>, k: int)
    requires
        0 <= k < s.len(),
        !in_alphabet(s[k]),
        forall|j: int| 0 <= j < s.len() ==> #[trigger] s[j] != 61,
    ensures
        groups_bytes(s) is None,
    decreases s.len(),
{
    let n = if s.len() < 4 {
        s.len() as int
    } else {
        4
    };
    let g = s.take(n);
    if k < n {
        assert forall|j: int| 0 <= j < g.len() implies #[trigger] g[j] != 61 by {
            assert(s[j] != 61);
        }
        lemma_no_padding(g, 0);
        assert(sextet(g[k]) is None);
        assert(group_bytes(g) is None);
    } else {
        let rest = s.skip(n);
        assert forall|j: int| 0 <= j < rest.len() implies #[trigger] rest[j] != 61 by {
            assert(s[n + j] != 61);
        }
        assert(rest[k - n] == s[k]);
        lemma_refused(rest, k - n);
    }
}

/// Content with a byte outside the alphabet, wherever it stands, is not taken
/// for encoded text. There is no padding in it.
pub proof fn law_outside_alphabet(text: Seq<char>, k: int)
    requires
        ({
            let bytes = unbroken(encode_utf8(text));
            &&& 0 <= k < bytes.len()
            &&& !in_alphabet(bytes[k])
            &&& forall|j: int| 0 <= j < bytes.len() ==> #[trigger] bytes[j] != 61
        }),
    ensures
        decoded(text) is None,
{
    lemma_refused(unbroken(encode_utf8(text)), k);
}

/// Numbers of six bits one after the other, cut into bytes.
proof fn lemma_bits(a: nat, b: nat, c: nat, d: nat)
    requires
        a < 64 && b < 64 && c < 64 && d < 64,
    ensures
        ({
            let bits = a * 0x4_0000 + b * 0x1000 + c * 0x40 + d;
            &&& a * 4 + b / 16 == bits / 0x1_0000
            &&& (b % 16) * 16 + c / 4 == bits / 0x100 % 0x100
            &&& (c % 4) * 64 + d == bits % 0x100
        }),
{
    let bits = a * 0x4_0000 + b * 0x1000 + c * 0x40 + d;
    let (x, y) = (b / 16, b % 16);
    let (z, w) = (c / 4, c % 4);
    let first = a * 4 + x;
    let second = y * 16 + z;
    let third = w * 64 + d;
    assert(b == 16 * x + y && c == 4 * z + w);
    assert(second < 0x100 && third < 0x100);
    assert(bits == first * 0x1_0000 + second * 0x100 + third);
    assert(bits / 0x100 == first * 0x100 + second);
}

/// A group of characters gives the bytes of its numbers of six bits up to the
/// first padding, as far as they fill bytes.
pub proof fn law_group(g: Seq<u8>, n: int)
    requires
        g.len() == 4,
        0 <= n <= 4,
        n < 4 ==> g[n] == 61,
        forall|k: int| 0 <= k < n ==> in_alphabet(#[trigger] g[k]),
    ensures
        ({
            let v = |k: int|
                if k < n {
                    sextet(g[k])->0
                } else {
                    0
                };
            let bits = v(0) * 0x4_0000 + v(1) * 0x1000 + v(2) * 0x40 + v(3);
            let bytes = group_bytes(g);
            &&& bytes is Some
            &&& n < 2 ==> bytes->0.len() == 0
            &&& n >= 2 ==> bytes->0.len() == n - 1
            &&& n >= 2 ==> bytes->0[0] == bits / 0x1_0000
            &&& n >= 3 ==> bytes->0[1] == bits / 0x100 % 0x100
            &&& n == 4 ==> bytes->0[2] == bits % 0x100
        }),
{
    assert forall|k: int| 0 <= k < n implies #[trigger] g[k] != 61 by {
        assert(in_alphabet(g[k]));
    }
    lemma_padding_end(g, 0, n);
    assert forall|k: int| 0 <= k < n implies sextet(#[trigger] g[k]) is Some && sextet(g[k])->0
        < 64 by {
        assert(in_alphabet(g[k]));
    }
    let v = |k: int|
        if k < n {
            sextet(g[k])->0
        } else {
            0
        };
    if n >= 2 {
        assert(sextet(g[0])->0 < 64 && sextet(g[1])->0 < 64);
        if n >= 3 {
            assert(sextet(g[2])->0 < 64);
        }
        if n == 4 {
            assert(sextet(g[3])->0 < 64);
        }
        lemma_bits(v(0), v(1), v(2), v(3));
    }
}

/// Groups of four characters follow each other.
pub proof fn law_groups_follow(g: Seq<u8>, rest: Seq<u8>)
    requires
        g.len() == 4,
    ensures
        group_bytes(g) matches Some(a) ==> (groups_bytes(rest) matches Some(b) ==> groups_bytes(
            g + rest,
        ) == Some(a + b)),
        group_bytes(g) is None || groups_bytes(rest) is None ==> groups_bytes(g + rest) is None,
        groups_bytes(seq![]) == Some(Seq::<u8>::empty()),
{
    let s = g + rest;
    assert(s.take(4) =~= g);
    assert(s.skip(4) =~= rest);
}

proof fn lemma_padding_end(s: Seq<u8>, i: int, n: int)
    requires
        0 <= i <= n <= s.len(),
        n < s.len() ==> s[n] == 61,
        forall|j: int| 0 <= j < n ==> #[trigger] s[j] != 61,
    ensures
        padding_at(s, i) == n,
    decreases n - i,
{
    if i < n {
        assert(s[i] != 61);
        lemma_padding_end(s, i + 1, n);
    }
}

/// The number of six bits that each character of the alphabet stands for.
pub proof fn law_sextets(b: u8)
    ensures
        65 <= b <= 90 ==> sextet(b) == Some((b - 65) as nat),
        97 <= b <= 122 ==> sextet(b) == Some((b - 71) as nat),
        48 <= b <= 57 ==> sextet(b) == Some((b + 4) as nat),
        b == 43 ==> sextet(b) == Some(62nat),
        b == 47 ==> sextet(b) == Some(63nat),
        !in_alphabet(b) ==> sextet(b) is None,
{
}

} // verus!
