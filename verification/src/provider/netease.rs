//! The NetEase provider: songs, then the lyrics of each.
use super::group::lyrics_models;
use super::http::{opt_http, HttpModel, HttpRequest, Method};
use super::matching::{
    apply_translations, match_score, quality_for, quality_of, score_match, with_all_translated,
    SYNCED_BONUS,
};
use super::{query, query_text, SONG_LIMIT, RequestModel, SearchRequest};
use crate::lyrics::lrc::{self, lrc_lyrics};
use crate::lyrics::{Lyrics, LyricsMetadata, LyricsModel, LyricsSource, MetadataModel};
use crate::single::{rounded_sum, sum_rounded};
use crate::text::{copy_opt, decimal, decimal_text, empty_text, join, joined, opt_text, texts};
use vstd::prelude::*;

verus! {

/// How requests to NetEase present themselves.
pub const USER_AGENT: &'static str = "Mozilla/5.0 (X11; Linux x86_64) AppleWebKit/537.36";

/// The reply to the search for songs.
#[derive(Debug)]
pub struct SearchResponse {
    pub result: Option<SearchResult>,
}

#[derive(Debug)]
pub struct SearchResult {
    pub songs: Option<Vec<Song>>,
}

#[derive(Debug)]
pub struct Song {
    pub id: u64,
    pub name: String,
    pub artists: Vec<Artist>,
    pub album: Option<Album>,
}

#[derive(Debug)]
pub struct Artist {
    pub name: String,
}

#[derive(Debug)]
pub struct Album {
    pub name: Option<String>,
}

/// The reply that brings lyrics.
#[derive(Debug)]
pub struct LyricResponse {
    pub lrc: Option<LrcContent>,
    pub tlyric: Option<LrcContent>,
}

#[derive(Debug)]
pub struct LrcContent {
    pub lyric: Option<String>,
}

/// A song, as plain values.
#[verifier::ext_equal]
pub struct SongModel {
    pub id: u64,
    pub title: Seq<char>,
    pub artists: Seq<Seq<char>>,
    pub album: Option<Seq<char>>,
}

/// The names in a list.
pub open spec fn names_of(list: Seq<Artist>) -> Seq<Seq<char>> {
    list.map_values(|a: Artist| a.name@)
}

/// The names in a list.
fn artist_names(list: &Vec<Artist>) -> (r: Vec<String>)
    ensures
        texts(r@) == names_of(list@),
{
    let mut out: Vec<String> = Vec::new();
    let mut i: usize = 0;
    while i < list.len()
        invariant
            i <= list@.len(),
            out@.len() == i,
            forall|k: int| 0 <= k < i ==> (#[trigger] out@[k])@ == list@[k].name@,
        decreases list@.len() - i,
    {
        out.push(list[i].name.clone());
        i = i + 1;
    }
    assert(texts(out@) =~= names_of(list@));
    out
}

impl View for Song {
    type V = SongModel;

    open spec fn view(&self) -> SongModel {
        SongModel {
            id: self.id,
            title: self.name@,
            artists: names_of(self.artists@),
            album: match self.album {
                Some(a) => opt_text(a.name),
                None => None,
            },
        }
    }
}

/// The songs in a reply, where it has some.
pub open spec fn songs_in(reply: SearchResponse) -> Seq<Song> {
    match reply.result {
        Some(SearchResult { songs: Some(songs) }) => songs@,
        _ => Seq::empty(),
    }
}

/// The lyrics in a reply, where it has some that are not empty.
pub open spec fn text_in(reply: LyricResponse) -> Option<Seq<char>> {
    match reply.lrc {
        Some(LrcContent { lyric: Some(text) }) => if text@.len() > 0 {
            Some(text@)
        } else {
            None
        },
        _ => None,
    }
}

/// The translation in a reply, where it has one.
pub open spec fn translation_in(reply: LyricResponse) -> Option<Seq<char>> {
    match reply.tlyric {
        Some(c) => opt_text(c.lyric),
        None => None,
    }
}

/// The search for songs.
pub open spec fn songs_request(request: RequestModel) -> HttpModel {
    HttpModel {
        method: Method::Post,
        url: "https://music.163.com/api/search/get"@,
        fields: seq![("s"@, query(request)), ("type"@, "1"@), ("limit"@, "5"@)],
        referer: Some("https://music.163.com/"@),
    }
}

/// The request for the lyrics of a song.
pub open spec fn lyrics_request(song: SongModel) -> HttpModel {
    HttpModel {
        method: Method::Get,
        url: "https://music.163.com/api/song/lyric"@,
        fields: seq![("id"@, decimal(song.id as nat)), ("lv"@, "1"@), ("tv"@, "1"@)],
        referer: Some("https://music.163.com/"@),
    }
}

/// The lyrics that the text for a song stands for, with the translations that
/// came with it. NetEase generally has well timed lyrics, which counts in its
/// favour.
pub open spec fn song_lyrics(
    request: RequestModel,
    song: SongModel,
    text: Seq<char>,
    translation: Option<Seq<char>>,
) -> LyricsModel {
    let parsed = lrc_lyrics(text);
    let artist = joined(song.artists, ", "@);
    LyricsModel {
        lines: match translation {
            Some(t) => with_all_translated(parsed.lines, lrc_lyrics(t).lines),
            None => parsed.lines,
        },
        metadata: MetadataModel {
            title: Some(song.title),
            artist: Some(artist),
            album: song.album,
            source: LyricsSource::NetEase,
            quality: quality_of(
                rounded_sum(match_score(request, song.title, artist), SYNCED_BONUS as nat),
            ),
        },
        offset_ms: parsed.offset_ms,
    }
}

/// A search in progress.
#[derive(Debug)]
pub struct NetEaseSearch {
    pub request: SearchRequest,
    pub songs: Vec<Song>,
    /// The song whose lyrics are being fetched.
    pub at: usize,
    pub found: Vec<Lyrics>,
}

impl NetEaseSearch {
    /// Whether there is a song whose lyrics are being fetched: one of the first
    /// few.
    pub open spec fn song_due(&self) -> bool {
        self.at < self.songs@.len() && self.at < SONG_LIMIT
    }

    /// Whether no more lyrics were found than songs were asked for.
    pub open spec fn counted(&self) -> bool {
        self.found@.len() <= self.at <= SONG_LIMIT
    }

    /// What is sent once the present song is the one at `at`.
    pub open spec fn next_for_song(&self) -> Option<HttpModel> {
        if self.song_due() {
            Some(lyrics_request(self.songs@[self.at as int]@))
        } else {
            None
        }
    }

    /// Whether nothing but the progress differs from `before`.
    pub open spec fn same_search(&self, before: &NetEaseSearch) -> bool {
        self.request == before.request && self.songs == before.songs
    }

    /// Begin a search with the search for songs.
    pub fn start(request: &SearchRequest) -> (r: (Self, HttpRequest))
        ensures
            r.0.request@ == request@,
            r.0.songs@.len() == 0,
            r.0.at == 0,
            r.0.found@.len() == 0,
            r.0.counted(),
            r.1@ == songs_request(request@),
    {
        let http = HttpRequest::new(Method::Post, "https://music.163.com/api/search/get").field(
            "s",
            query_text(request).as_str(),
        ).field("type", "1").field("limit", "5").from_page("https://music.163.com/");
        assert(http@.fields =~= songs_request(request@).fields);
        (
            NetEaseSearch {
                request: request.clone(),
                songs: Vec::new(),
                at: 0,
                found: Vec::new(),
            },
            http,
        )
    }

    /// The request for the lyrics of the present song; `None` ends the search.
    fn ask_for_song(&self) -> (r: Option<HttpRequest>)
        ensures
            opt_http(r) == self.next_for_song(),
    {
        if self.at >= self.songs.len() || self.at >= SONG_LIMIT {
            return None;
        }
        let id = decimal_text(self.songs[self.at].id as u128);
        let http = HttpRequest::new(Method::Get, "https://music.163.com/api/song/lyric").field(
            "id",
            id.as_str(),
        ).field("lv", "1").field("tv", "1").from_page("https://music.163.com/");
        assert(http@.fields =~= lyrics_request(self.songs@[self.at as int]@).fields);
        Some(http)
    }

    /// Take in the songs.
    pub fn on_songs(&mut self, reply: SearchResponse) -> (r: Option<HttpRequest>)
        ensures
            final(self).request == old(self).request,
            final(self).songs@ == songs_in(reply),
            final(self).at == 0,
            final(self).found@.len() == 0,
            final(self).counted(),
            opt_http(r) == final(self).next_for_song(),
    {
        self.songs = match reply.result {
            Some(SearchResult { songs: Some(songs) }) => songs,
            _ => Vec::new(),
        };
        self.at = 0;
        self.found = Vec::new();
        self.ask_for_song()
    }

    /// The lyrics that the text for the present song stands for.
    fn read_lyrics(&self, text: &str, translation: &Option<String>) -> (r: Option<Lyrics>)
        requires
            self.song_due(),
        ensures
            r is Some,
            r->0@ == song_lyrics(
                self.request@,
                self.songs@[self.at as int]@,
                text@,
                opt_text(*translation),
            ),
    {
        let song = &self.songs[self.at];
        let mut parsed = match lrc::parse(text) {
            Ok(l) => l,
            Err(_) => return None,
        };
        if let Some(t) = translation {
            if let Ok(trans) = lrc::parse(t.as_str()) {
                apply_translations(&mut parsed, &trans);
            }
        }
        let artist = join(&artist_names(&song.artists), ", ");
        let score: u32 = score_match(&self.request, song.name.as_str(), artist.as_str());
        let quality = quality_for(sum_rounded(score, SYNCED_BONUS));
        parsed.metadata = LyricsMetadata {
            title: Some(song.name.clone()),
            artist: Some(artist),
            album: match &song.album {
                Some(a) => copy_opt(&a.name),
                None => None,
            },
            source: LyricsSource::NetEase,
            quality,
        };
        Some(parsed)
    }

    /// Take in the lyrics of the present song. A
    /// song without lyrics is passed over.
    pub fn on_lyrics(&mut self, reply: LyricResponse) -> (r: Option<HttpRequest>)
        ensures
            old(self).counted() ==> final(self).counted(),
            final(self).same_search(old(self)),
            old(self).song_due() ==> final(self).at == old(self).at + 1 && lyrics_models(
                final(self).found@,
            ) == match text_in(reply) {
                Some(text) => lyrics_models(old(self).found@).push(
                    song_lyrics(
                        old(self).request@,
                        old(self).songs@[old(self).at as int]@,
                        text,
                        translation_in(reply),
                    ),
                ),
                None => lyrics_models(old(self).found@),
            },
            !old(self).song_due() ==> *final(self) == *old(self),
            opt_http(r) == final(self).next_for_song(),
    {
        if self.at >= self.songs.len() || self.at >= SONG_LIMIT {
            return None;
        }
        let text = match reply.lrc {
            Some(c) => c.lyric,
            None => None,
        };
        let translation = match reply.tlyric {
            Some(c) => c.lyric,
            None => None,
        };
        if let Some(text) = text {
            if !empty_text(text.as_str()) {
                if let Some(lyrics) = self.read_lyrics(text.as_str(), &translation) {
                    let ghost before = self.found@;
                    let ghost model = lyrics@;
                    self.found.push(lyrics);
                    assert(lyrics_models(self.found@) =~= lyrics_models(before).push(model));
                }
            }
        }
        assert(lyrics_models(self.found@).len() == self.found@.len());
        assert(lyrics_models(old(self).found@).len() == old(self).found@.len());
        self.at = self.at + 1;
        self.ask_for_song()
    }

    /// The lyrics that were found.
    pub fn finish(self) -> (r: Vec<Lyrics>)
        ensures
            r == self.found,
    {
        self.found
    }
}

// ---------------------------------------------------------------------------
// Laws
// ---------------------------------------------------------------------------

/// The lyrics of the first songs, given the reply for each.
pub open spec fn lyrics_found(
    request: RequestModel,
    songs: Seq<Song>,
    replies: Seq<LyricResponse>,
) -> Seq<LyricsModel>
    decreases replies.len(),
{
    if replies.len() == 0 {
        Seq::empty()
    } else {
        let before = lyrics_found(request, songs, replies.drop_last());
        match text_in(replies.last()) {
            Some(text) => before.push(
                song_lyrics(
                    request,
                    songs[replies.len() - 1]@,
                    text,
                    translation_in(replies.last()),
                ),
            ),
            None => before,
        }
    }
}

impl NetEaseSearch {
    /// Whether the search has dealt with one song for each of the replies and
    /// found the lyrics in them.
    pub open spec fn has_read(&self, replies: Seq<LyricResponse>) -> bool {
        self.at == replies.len() && lyrics_models(self.found@) == lyrics_found(
            self.request@,
            self.songs@,
            replies,
        )
    }
}

/// A search finds the lyrics of the songs that have some, in the order of the
/// songs: each reply adds those of its song.
pub proof fn law_search_reads_songs(
    before: NetEaseSearch,
    replies: Seq<LyricResponse>,
    reply: LyricResponse,
    after: NetEaseSearch,
)
    requires
        before.has_read(replies),
        before.song_due(),
        after.same_search(&before),
        after.at == before.at + 1,
        lyrics_models(after.found@) == (match text_in(reply) {
            Some(text) => lyrics_models(before.found@).push(
                song_lyrics(
                    before.request@,
                    before.songs@[before.at as int]@,
                    text,
                    translation_in(reply),
                ),
            ),
            None => lyrics_models(before.found@),
        }),
    ensures
        after.has_read(replies.push(reply)),
{
    assert(replies.push(reply).drop_last() =~= replies);
}

} // verus!
