//! The Kugou provider: songs, then a lyrics candidate for each, then its text.
use super::base64::{content_text, decode_content};
use super::group::lyrics_models;
use super::http::{HttpModel, HttpRequest, Method};
use super::matching::{calculate_quality, match_score, quality_of};
use super::{query, query_text, SONG_LIMIT, RequestModel, SearchRequest};
use crate::lyrics::lrc::{self, lrc_lyrics};
use crate::lyrics::{Lyrics, LyricsMetadata, LyricsModel, LyricsSource, MetadataModel};
use crate::text::{copy_opt, decimal, decimal_text, empty_text, opt_text};
use crate::time::NANOS_PER_MILLI;
use vstd::prelude::*;

verus! {

/// How requests to Kugou present themselves.
pub const USER_AGENT: &'static str = "Mozilla/5.0 (X11; Linux x86_64) AppleWebKit/537.36";

/// The reply to the search for songs.
#[derive(Debug)]
pub struct SearchResponse {
    pub data: Option<SearchData>,
}

#[derive(Debug)]
pub struct SearchData {
    pub info: Option<Vec<SongInfo>>,
}

#[derive(Debug)]
pub struct SongInfo {
    pub hash: String,
    pub songname: String,
    pub singername: Option<String>,
    pub album_name: Option<String>,
}

/// The reply to the search for the lyrics of a song.
#[derive(Debug)]
pub struct LyricSearchResponse {
    pub candidates: Option<Vec<LyricCandidate>>,
}

#[derive(Debug)]
pub struct LyricCandidate {
    pub id: String,
    pub accesskey: String,
}

/// The reply that brings lyrics.
#[derive(Debug)]
pub struct LyricDetailResponse {
    pub content: Option<String>,
}

/// A song, as plain values.
#[verifier::ext_equal]
pub struct SongModel {
    pub hash: Seq<char>,
    pub songname: Seq<char>,
    pub singername: Option<Seq<char>>,
    pub album_name: Option<Seq<char>>,
}

impl View for SongInfo {
    type V = SongModel;

    open spec fn view(&self) -> SongModel {
        SongModel {
            hash: self.hash@,
            songname: self.songname@,
            singername: opt_text(self.singername),
            album_name: opt_text(self.album_name),
        }
    }
}

/// The songs in a reply, where it has some.
pub open spec fn songs_in(reply: SearchResponse) -> Seq<SongInfo> {
    match reply.data {
        Some(SearchData { info: Some(songs) }) => songs@,
        _ => Seq::empty(),
    }
}

/// The first candidate in a reply, where it could be read and has one.
pub open spec fn candidate_in(reply: Option<LyricSearchResponse>) -> Option<LyricCandidate> {
    match reply {
        Some(LyricSearchResponse { candidates: Some(list) }) => if list@.len() > 0 {
            Some(list@[0])
        } else {
            None
        },
        _ => None,
    }
}

/// The content in a reply, where it could be read and has some.
pub open spec fn content_in(reply: Option<LyricDetailResponse>) -> Option<Seq<char>> {
    match reply {
        Some(LyricDetailResponse { content: Some(text) }) => if text@.len() > 0 {
            Some(text@)
        } else {
            None
        },
        _ => None,
    }
}

/// The search for songs.
pub open spec fn songs_request(request: RequestModel) -> HttpModel {
    HttpModel {
        method: Method::Get,
        url: "https://mobileservice.kugou.com/api/v3/search/song"@,
        fields: seq![
            ("keyword"@, query(request)),
            ("page"@, "1"@),
            ("pagesize"@, "5"@),
        ],
        referer: None,
    }
}

/// The wanted duration in milliseconds, or nothing.
pub open spec fn duration_text(request: RequestModel) -> Seq<char> {
    match request.duration {
        Some(d) => decimal(d / (NANOS_PER_MILLI as nat)),
        None => Seq::empty(),
    }
}

/// The search for the lyrics of a song.
pub open spec fn candidates_request(request: RequestModel, song: SongModel) -> HttpModel {
    HttpModel {
        method: Method::Get,
        url: "https://krcs.kugou.com/search"@,
        fields: seq![
            ("keyword"@, query(request)),
            ("hash"@, song.hash),
            ("duration"@, duration_text(request)),
            ("client"@, "pc"@),
            ("ver"@, "1"@),
            ("man"@, "yes"@),
        ],
        referer: None,
    }
}

/// The request for the text of a candidate.
pub open spec fn detail_request(id: Seq<char>, accesskey: Seq<char>) -> HttpModel {
    HttpModel {
        method: Method::Get,
        url: "https://krcs.kugou.com/download"@,
        fields: seq![
            ("id"@, id),
            ("accesskey"@, accesskey),
            ("fmt"@, "lrc"@),
            ("charset"@, "utf8"@),
            ("client"@, "pc"@),
            ("ver"@, "1"@),
        ],
        referer: None,
    }
}

/// The lyrics that the content for a song stands for.
pub open spec fn song_lyrics(
    request: RequestModel,
    song: SongModel,
    content: Seq<char>,
) -> LyricsModel {
    LyricsModel {
        metadata: MetadataModel {
            title: Some(song.songname),
            artist: song.singername,
            album: song.album_name,
            source: LyricsSource::Kugou,
            quality: quality_of(match_score(
                request,
                song.songname,
                match song.singername {
                    Some(s) => s,
                    None => Seq::empty(),
                },
            )),
        },
        ..lrc_lyrics(content_text(content))
    }
}

/// A search in progress.
#[derive(Debug)]
pub struct KugouSearch {
    pub request: SearchRequest,
    pub songs: Vec<SongInfo>,
    /// The song whose lyrics are being fetched.
    pub at: usize,
    pub found: Vec<Lyrics>,
}

/// What a search sends next, and what reply it waits for.
#[derive(Debug)]
pub enum Next {
    Candidates(HttpRequest),
    Detail(HttpRequest),
    Done,
}

/// What a search sends next, as plain values.
pub enum NextModel {
    Candidates(HttpModel),
    Detail(HttpModel),
    Done,
}

impl View for Next {
    type V = NextModel;

    open spec fn view(&self) -> NextModel {
        match *self {
            Next::Candidates(r) => NextModel::Candidates(r@),
            Next::Detail(r) => NextModel::Detail(r@),
            Next::Done => NextModel::Done,
        }
    }
}

impl KugouSearch {
    /// Whether there is a song whose lyrics are being fetched: one of the first
    /// few.
    pub open spec fn song_due(&self) -> bool {
        self.at < self.songs@.len() && self.at < SONG_LIMIT
    }

    /// Whether no more lyrics were found than songs were asked for.
    pub open spec fn counted(&self) -> bool {
        self.found@.len() <= self.at <= SONG_LIMIT
    }

    /// What is sent once the present song is the one at `at`.
    pub open spec fn next_for_song(&self) -> NextModel {
        if self.song_due() {
            NextModel::Candidates(candidates_request(self.request@, self.songs@[self.at as int]@))
        } else {
            NextModel::Done
        }
    }

    /// Whether nothing but the progress differs from `before`.
    pub open spec fn same_search(&self, before: &KugouSearch) -> bool {
        self.request == before.request && self.songs == before.songs
    }

    /// Begin a search with the search for songs.
    pub fn start(request: &SearchRequest) -> (r: (Self, HttpRequest))
        ensures
            r.0.request@ == request@,
            r.0.songs@.len() == 0,
            r.0.at == 0,
            r.0.found@.len() == 0,
            r.0.counted(),
            r.1@ == songs_request(request@),
    {
        let http = HttpRequest::new(
            Method::Get,
            "https://mobileservice.kugou.com/api/v3/search/song",
        ).field("keyword", query_text(request).as_str()).field("page", "1").field("pagesize", "5");
        assert(http@.fields =~= songs_request(request@).fields);
        (
            KugouSearch {
                request: request.clone(),
                songs: Vec::new(),
                at: 0,
                found: Vec::new(),
            },
            http,
        )
    }

    /// The search for the lyrics of the present song.
    fn ask_for_song(&self) -> (r: Next)
        ensures
            r@ == self.next_for_song(),
    {
        if self.at >= self.songs.len() || self.at >= SONG_LIMIT {
            return Next::Done;
        }
        let duration = match self.request.duration {
            Some(d) => decimal_text(d.as_millis()),
            None => String::new(),
        };
        let http = HttpRequest::new(Method::Get, "https://krcs.kugou.com/search").field(
            "keyword",
            query_text(&self.request).as_str(),
        ).field("hash", self.songs[self.at].hash.as_str()).field(
            "duration",
            duration.as_str(),
        ).field("client", "pc").field("ver", "1").field("man", "yes");
        assert(http@.fields =~= candidates_request(
            self.request@,
            self.songs@[self.at as int]@,
        ).fields);
        Next::Candidates(http)
    }

    /// Take in the songs.
    pub fn on_songs(&mut self, reply: SearchResponse) -> (r: Next)
        ensures
            final(self).request == old(self).request,
            final(self).songs@ == songs_in(reply),
            final(self).at == 0,
            final(self).found@.len() == 0,
            final(self).counted(),
            r@ == final(self).next_for_song(),
    {
        self.songs = match reply.data {
            Some(SearchData { info: Some(songs) }) => songs,
            _ => Vec::new(),
        };
        self.at = 0;
        self.found = Vec::new();
        self.ask_for_song()
    }

    /// Go on to the next song.
    fn skip_song(&mut self) -> (r: Next)
        requires
            old(self).song_due(),
        ensures
            final(self).same_search(old(self)),
            final(self).found == old(self).found,
            final(self).at == old(self).at + 1,
            r@ == final(self).next_for_song(),
    {
        self.at = self.at + 1;
        self.ask_for_song()
    }

    /// Take in the candidates for the present song; `None` is a reply that
    /// could not be read. A song without a candidate is passed over.
    pub fn on_candidates(&mut self, reply: Option<LyricSearchResponse>) -> (r: Next)
        ensures
            old(self).counted() ==> final(self).counted(),
            final(self).same_search(old(self)),
            final(self).found == old(self).found,
            old(self).song_due() ==> match candidate_in(reply) {
                Some(c) => final(self).at == old(self).at && r@ == NextModel::Detail(
                    detail_request(c.id@, c.accesskey@),
                ),
                None => final(self).at == old(self).at + 1 && r@ == final(self).next_for_song(),
            },
            !old(self).song_due() ==> final(self).at == old(self).at && r@ == NextModel::Done,
    {
        if self.at >= self.songs.len() || self.at >= SONG_LIMIT {
            return Next::Done;
        }
        if let Some(LyricSearchResponse { candidates: Some(list) }) = reply {
            if list.len() > 0 {
                let http = HttpRequest::new(Method::Get, "https://krcs.kugou.com/download").field(
                    "id",
                    list[0].id.as_str(),
                ).field("accesskey", list[0].accesskey.as_str()).field("fmt", "lrc").field(
                    "charset",
                    "utf8",
                ).field("client", "pc").field("ver", "1");
                assert(http@.fields =~= detail_request(list@[0].id@, list@[0].accesskey@).fields);
                return Next::Detail(http);
            }
        }
        self.skip_song()
    }

    /// The lyrics that the content for the present song stands for.
    fn read_lyrics(&self, content: &str) -> (r: Option<Lyrics>)
        requires
            self.song_due(),
        ensures
            r is Some,
            r->0@ == song_lyrics(self.request@, self.songs@[self.at as int]@, content@),
    {
        let song = &self.songs[self.at];
        let text = decode_content(content);
        let parsed = match lrc::parse(text.as_str()) {
            Ok(l) => l,
            Err(_) => return None,
        };
        let quality = match &song.singername {
            Some(s) => calculate_quality(&self.request, song.songname.as_str(), s.as_str()),
            None => {
                assert(""@ =~= Seq::<char>::empty()) by {
                    reveal_strlit("");
                }
                calculate_quality(&self.request, song.songname.as_str(), "")
            },
        };
        Some(
            Lyrics {
                lines: parsed.lines,
                metadata: LyricsMetadata {
                    title: Some(song.songname.clone()),
                    artist: copy_opt(&song.singername),
                    album: copy_opt(&song.album_name),
                    source: LyricsSource::Kugou,
                    quality,
                },
                offset_ms: parsed.offset_ms,
            },
        )
    }

    /// Take in the lyrics of the present song; `None` is a reply that could not
    /// be read. A song without content is passed over.
    pub fn on_detail(&mut self, reply: Option<LyricDetailResponse>) -> (r: Next)
        ensures
            old(self).counted() ==> final(self).counted(),
            final(self).same_search(old(self)),
            old(self).song_due() ==> final(self).at == old(self).at + 1 && lyrics_models(
                final(self).found@,
            ) == match content_in(reply) {
                Some(text) => lyrics_models(old(self).found@).push(
                    song_lyrics(old(self).request@, old(self).songs@[old(self).at as int]@, text),
                ),
                None => lyrics_models(old(self).found@),
            },
            old(self).song_due() ==> r@ == final(self).next_for_song(),
            !old(self).song_due() ==> *final(self) == *old(self) && r@ == NextModel::Done,
    {
        if self.at >= self.songs.len() || self.at >= SONG_LIMIT {
            return Next::Done;
        }
        if let Some(LyricDetailResponse { content: Some(text) }) = reply {
            if !empty_text(text.as_str()) {
                if let Some(lyrics) = self.read_lyrics(text.as_str()) {
                    let ghost before = self.found@;
                    let ghost model = lyrics@;
                    self.found.push(lyrics);
                    assert(lyrics_models(self.found@) =~= lyrics_models(before).push(model));
                }
            }
        }
        assert(lyrics_models(self.found@).len() == self.found@.len());
        assert(lyrics_models(old(self).found@).len() == old(self).found@.len());
        self.skip_song()
    }

    /// The lyrics that were found.
    pub fn finish(self) -> (r: Vec<Lyrics>)
        ensures
            r == self.found,
    {
        self.found
    }
}

// ---------------------------------------------------------------------------
// Laws
// ---------------------------------------------------------------------------

/// The lyrics of the first songs, given the content that was found for each.
pub open spec fn lyrics_found(
    request: RequestModel,
    songs: Seq<SongInfo>,
    contents: Seq<Option<Seq<char>>>,
) -> Seq<LyricsModel>
    decreases contents.len(),
{
    if contents.len() == 0 {
        Seq::empty()
    } else {
        let before = lyrics_found(request, songs, contents.drop_last());
        match contents.last() {
            Some(text) => before.push(song_lyrics(request, songs[contents.len() - 1]@, text)),
            None => before,
        }
    }
}

impl KugouSearch {
    /// Whether the search has dealt with one song for each of the contents and
    /// found the lyrics in them.
    pub open spec fn has_read(&self, contents: Seq<Option<Seq<char>>>) -> bool {
        self.at == contents.len() && lyrics_models(self.found@) == lyrics_found(
            self.request@,
            self.songs@,
            contents,
        )
    }
}

/// A search finds the lyrics of the songs that have content, in the order of
/// the songs: each reply adds those of its song, and a song without candidate
/// or content adds none.
pub proof fn law_search_reads_songs(
    before: KugouSearch,
    contents: Seq<Option<Seq<char>>>,
    content: Option<Seq<char>>,
    after: KugouSearch,
)
    requires
        before.has_read(contents),
        before.song_due(),
        after.same_search(&before),
        after.at == before.at + 1,
        lyrics_models(after.found@) == (match content {
            Some(text) => lyrics_models(before.found@).push(
                song_lyrics(before.request@, before.songs@[before.at as int]@, text),
            ),
            None => lyrics_models(before.found@),
        }),
    ensures
        after.has_read(contents.push(content)),
{
    assert(contents.push(content).drop_last() =~= contents);
}

} // verus!
