//! The QQ Music provider: songs, then the lyrics of each.
use super::group::lyrics_models;
use super::http::{opt_http, HttpModel, HttpRequest, Method};
use super::matching::{
    apply_translations, calculate_quality, match_score, quality_of, with_all_translated,
};
use super::{query, query_text, SONG_LIMIT, RequestModel, SearchRequest};
use crate::lyrics::lrc::{self, lrc_lyrics};
use crate::lyrics::{Lyrics, LyricsMetadata, LyricsModel, LyricsSource, MetadataModel};
use crate::text::{copy_opt, empty_text, join, joined, opt_text, texts};
use vstd::prelude::*;

verus! {

/// How requests to QQ Music present themselves.
pub const USER_AGENT: &'static str = "Mozilla/5.0 (X11; Linux x86_64) AppleWebKit/537.36";

/// The reply to the search for songs.
#[derive(Debug)]
pub struct SearchResponse {
    pub data: Option<SearchData>,
}

#[derive(Debug)]
pub struct SearchData {
    pub song: Option<SongList>,
}

#[derive(Debug)]
pub struct SongList {
    pub list: Vec<SongItem>,
}

#[derive(Debug)]
pub struct SongItem {
    pub songmid: String,
    pub songname: String,
    pub singer: Vec<Singer>,
    pub albumname: Option<String>,
}

#[derive(Debug)]
pub struct Singer {
    pub name: String,
}

/// The reply that brings lyrics.
#[derive(Debug)]
pub struct LyricResponse {
    pub lyric: Option<String>,
    pub trans: Option<String>,
}

/// A song, as plain values.
#[verifier::ext_equal]
pub struct SongModel {
    pub mid: Seq<char>,
    pub title: Seq<char>,
    pub artists: Seq<Seq<char>>,
    pub album: Option<Seq<char>>,
}

/// The names in a list.
pub open spec fn names_of(list: Seq<Singer>) -> Seq<Seq<char>> {
    list.map_values(|a: Singer| a.name@)
}

/// The names in a list.
fn singer_names(list: &Vec<Singer>) -> (r: Vec<String>)
    ensures
        texts(r@) == names_of(list@),
{
    let mut out: Vec<String> = Vec::new();
    let mut i: usize = 0;
    while i < list.len()
        invariant
            i <= list@.len(),
            out@.len() == i,
            forall|k: int| 0 <= k < i ==> (#[trigger] out@[k])@ == list@[k].name@,
        decreases list@.len() - i,
    {
        out.push(list[i].name.clone());
        i = i + 1;
    }
    assert(texts(out@) =~= names_of(list@));
    out
}

impl View for SongItem {
    type V = SongModel;

    open spec fn view(&self) -> SongModel {
        SongModel {
            mid: self.songmid@,
            title: self.songname@,
            artists: names_of(self.singer@),
            album: opt_text(self.albumname),
        }
    }
}

/// The songs in a reply, where it has some.
pub open spec fn songs_in(reply: SearchResponse) -> Seq<SongItem> {
    match reply.data {
        Some(SearchData { song: Some(songs) }) => songs.list@,
        _ => Seq::empty(),
    }
}

/// The lyrics in a reply, where it could be read and has some that are not
/// empty.
pub open spec fn text_in(reply: Option<LyricResponse>) -> Option<Seq<char>> {
    match reply {
        Some(LyricResponse { lyric: Some(text), .. }) => if text@.len() > 0 {
            Some(text@)
        } else {
            None
        },
        _ => None,
    }
}

/// The translation in a reply, where it could be read and has one.
pub open spec fn translation_in(reply: Option<LyricResponse>) -> Option<Seq<char>> {
    match reply {
        Some(r) => opt_text(r.trans),
        None => None,
    }
}

/// The search for songs.
pub open spec fn songs_request(request: RequestModel) -> HttpModel {
    HttpModel {
        method: Method::Get,
        url: "https://c.y.qq.com/soso/fcgi-bin/client_search_cp"@,
        fields: seq![
            ("w"@, query(request)),
            ("format"@, "json"@),
            ("p"@, "1"@),
            ("n"@, "5"@),
        ],
        referer: Some("https://y.qq.com/"@),
    }
}

/// The request for the lyrics of a song.
pub open spec fn lyrics_request(song: SongModel) -> HttpModel {
    HttpModel {
        method: Method::Get,
        url: "https://c.y.qq.com/lyric/fcgi-bin/fcg_query_lyric_new.fcg"@,
        fields: seq![("songmid"@, song.mid), ("format"@, "json"@), ("nobase64"@, "1"@)],
        referer: Some("https://y.qq.com/"@),
    }
}

/// The lyrics that the text for a song stands for, with the translations that
/// came with it.
pub open spec fn song_lyrics(
    request: RequestModel,
    song: SongModel,
    text: Seq<char>,
    translation: Option<Seq<char>>,
) -> LyricsModel {
    let parsed = lrc_lyrics(text);
    let artist = joined(song.artists, ", "@);
    LyricsModel {
        lines: match translation {
            Some(t) => with_all_translated(parsed.lines, lrc_lyrics(t).lines),
            None => parsed.lines,
        },
        metadata: MetadataModel {
            title: Some(song.title),
            artist: Some(artist),
            album: song.album,
            source: LyricsSource::QQMusic,
            quality: quality_of(match_score(request, song.title, artist)),
        },
        offset_ms: parsed.offset_ms,
    }
}

/// A search in progress.
#[derive(Debug)]
pub struct QQMusicSearch {
    pub request: SearchRequest,
    pub songs: Vec<SongItem>,
    /// The song whose lyrics are being fetched.
    pub at: usize,
    pub found: Vec<Lyrics>,
}

impl QQMusicSearch {
    /// Whether there is a song whose lyrics are being fetched: one of the first
    /// few.
    pub open spec fn song_due(&self) -> bool {
        self.at < self.songs@.len() && self.at < SONG_LIMIT
    }

    /// Whether no more lyrics were found than songs were asked for.
    pub open spec fn counted(&self) -> bool {
        self.found@.len() <= self.at <= SONG_LIMIT
    }

    /// What is sent once the present song is the one at `at`.
    pub open spec fn next_for_song(&self) -> Option<HttpModel> {
        if self.song_due() {
            Some(lyrics_request(self.songs@[self.at as int]@))
        } else {
            None
        }
    }

    /// Whether nothing but the progress differs from `before`.
    pub open spec fn same_search(&self, before: &QQMusicSearch) -> bool {
        self.request == before.request && self.songs == before.songs
    }

    /// Begin a search with the search for songs.
    pub fn start(request: &SearchRequest) -> (r: (Self, HttpRequest))
        ensures
            r.0.request@ == request@,
            r.0.songs@.len() == 0,
            r.0.at == 0,
            r.0.found@.len() == 0,
            r.0.counted(),
            r.1@ == songs_request(request@),
    {
        let http = HttpRequest::new(
            Method::Get,
            "https://c.y.qq.com/soso/fcgi-bin/client_search_cp",
        ).field("w", query_text(request).as_str()).field("format", "json").field("p", "1").field(
            "n",
            "5",
        ).from_page("https://y.qq.com/");
        assert(http@.fields =~= songs_request(request@).fields);
        (
            QQMusicSearch {
                request: request.clone(),
                songs: Vec::new(),
                at: 0,
                found: Vec::new(),
            },
            http,
        )
    }

    /// The request for the lyrics of the present song; `None` ends the search.
    fn ask_for_song(&self) -> (r: Option<HttpRequest>)
        ensures
            opt_http(r) == self.next_for_song(),
    {
        if self.at >= self.songs.len() || self.at >= SONG_LIMIT {
            return None;
        }
        let http = HttpRequest::new(
            Method::Get,
            "https://c.y.qq.com/lyric/fcgi-bin/fcg_query_lyric_new.fcg",
        ).field("songmid", self.songs[self.at].songmid.as_str()).field("format", "json").field(
            "nobase64",
            "1",
        ).from_page("https://y.qq.com/");
        assert(http@.fields =~= lyrics_request(self.songs@[self.at as int]@).fields);
        Some(http)
    }

    /// Take in the songs.
    pub fn on_songs(&mut self, reply: SearchResponse) -> (r: Option<HttpRequest>)
        ensures
            final(self).request == old(self).request,
            final(self).songs@ == songs_in(reply),
            final(self).at == 0,
            final(self).found@.len() == 0,
            final(self).counted(),
            opt_http(r) == final(self).next_for_song(),
    {
        self.songs = match reply.data {
            Some(SearchData { song: Some(songs) }) => songs.list,
            _ => Vec::new(),
        };
        self.at = 0;
        self.found = Vec::new();
        self.ask_for_song()
    }

    /// The lyrics that the text for the present song stands for.
    fn read_lyrics(&self, text: &str, translation: &Option<String>) -> (r: Option<Lyrics>)
        requires
            self.song_due(),
        ensures
            r is Some,
            r->0@ == song_lyrics(
                self.request@,
                self.songs@[self.at as int]@,
                text@,
                opt_text(*translation),
            ),
    {
        let song = &self.songs[self.at];
        let mut parsed = match lrc::parse(text) {
            Ok(l) => l,
            Err(_) => return None,
        };
        if let Some(t) = translation {
            if let Ok(trans) = lrc::parse(t.as_str()) {
                apply_translations(&mut parsed, &trans);
            }
        }
        let artist = join(&singer_names(&song.singer), ", ");
        let quality = calculate_quality(&self.request, song.songname.as_str(), artist.as_str());
        parsed.metadata = LyricsMetadata {
            title: Some(song.songname.clone()),
            artist: Some(artist),
            album: copy_opt(&song.albumname),
            source: LyricsSource::QQMusic,
            quality,
        };
        Some(parsed)
    }

    /// Take in the lyrics of the present song; `None` is a reply that could not
    /// be read. A
    /// song without lyrics is passed over.
    pub fn on_lyrics(&mut self, reply: Option<LyricResponse>) -> (r: Option<HttpRequest>)
        ensures
            old(self).counted() ==> final(self).counted(),
            final(self).same_search(old(self)),
            old(self).song_due() ==> final(self).at == old(self).at + 1 && lyrics_models(
                final(self).found@,
            ) == match text_in(reply) {
                Some(text) => lyrics_models(old(self).found@).push(
                    song_lyrics(
                        old(self).request@,
                        old(self).songs@[old(self).at as int]@,
                        text,
                        translation_in(reply),
                    ),
                ),
                None => lyrics_models(old(self).found@),
            },
            !old(self).song_due() ==> *final(self) == *old(self),
            opt_http(r) == final(self).next_for_song(),
    {
        if self.at >= self.songs.len() || self.at >= SONG_LIMIT {
            return None;
        }
        let (text, translation) = match reply {
            Some(r) => (r.lyric, r.trans),
            None => (None, None),
        };
        if let Some(text) = text {
            if !empty_text(text.as_str()) {
                if let Some(lyrics) = self.read_lyrics(text.as_str(), &translation) {
                    let ghost before = self.found@;
                    let ghost model = lyrics@;
                    self.found.push(lyrics);
                    assert(lyrics_models(self.found@) =~= lyrics_models(before).push(model));
                }
            }
        }
        assert(lyrics_models(self.found@).len() == self.found@.len());
        assert(lyrics_models(old(self).found@).len() == old(self).found@.len());
        self.at = self.at + 1;
        self.ask_for_song()
    }

    /// The lyrics that were found.
    pub fn finish(self) -> (r: Vec<Lyrics>)
        ensures
            r == self.found,
    {
        self.found
    }
}

// ---------------------------------------------------------------------------
// Laws
// ---------------------------------------------------------------------------

/// The lyrics of the first songs, given the reply for each.
pub open spec fn lyrics_found(
    request: RequestModel,
    songs: Seq<SongItem>,
    replies: Seq<Option<LyricResponse>>,
) -> Seq<LyricsModel>
    decreases replies.len(),
{
    if replies.len() == 0 {
        Seq::empty()
    } else {
        let before = lyrics_found(request, songs, replies.drop_last());
        match text_in(replies.last()) {
            Some(text) => before.push(
                song_lyrics(
                    request,
                    songs[replies.len() - 1]@,
                    text,
                    translation_in(replies.last()),
                ),
            ),
            None => before,
        }
    }
}

impl QQMusicSearch {
    /// Whether the search has dealt with one song for each of the replies and
    /// found the lyrics in them.
    pub open spec fn has_read(&self, replies: Seq<Option<LyricResponse>>) -> bool {
        self.at == replies.len() && lyrics_models(self.found@) == lyrics_found(
            self.request@,
            self.songs@,
            replies,
        )
    }
}

/// A search finds the lyrics of the songs that have some, in the order of the
/// songs: each reply adds those of its song.
pub proof fn law_search_reads_songs(
    before: QQMusicSearch,
    replies: Seq<Option<LyricResponse>>,
    reply: Option<LyricResponse>,
    after: QQMusicSearch,
)
    requires
        before.has_read(replies),
        before.song_due(),
        after.same_search(&before),
        after.at == before.at + 1,
        lyrics_models(after.found@) == (match text_in(reply) {
            Some(text) => lyrics_models(before.found@).push(
                song_lyrics(
                    before.request@,
                    before.songs@[before.at as int]@,
                    text,
                    translation_in(reply),
                ),
            ),
            None => lyrics_models(before.found@),
        }),
    ensures
        after.has_read(replies.push(reply)),
{
    assert(replies.push(reply).drop_last() =~= replies);
}

} // verus!
