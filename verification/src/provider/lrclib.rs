//! The LRCLIB provider: one search that brings lyrics at once.
use super::group::lyrics_models;
use super::http::{HttpModel, HttpRequest, Method};
use super::matching::{
    name_score, quality_for, quality_of, score_name, ARTIST_FULL, ARTIST_PART, SYNCED_BONUS,
    TITLE_FULL, TITLE_PART,
};
use super::{query, query_text, RequestModel, SearchRequest};
use crate::lyrics::lrc::{self, lrc_lyrics};
use crate::lyrics::{Lyrics, LyricsMetadata, LyricsModel, LyricsSource, MetadataModel};
use crate::single::{rounded_sum, sum_rounded, Single};
use crate::text::{copy_opt, opt_text};
use vstd::prelude::*;

verus! {

/// How requests to LRCLIB present themselves.
pub const USER_AGENT: &'static str = "lyrica/0.1.0";

/// The number of results that are looked at.
pub const RESULT_LIMIT: usize = 5;

/// One result of a search.
#[derive(Debug)]
pub struct LrclibResult {
    pub track_name: Option<String>,
    pub artist_name: Option<String>,
    pub album_name: Option<String>,
    pub synced_lyrics: Option<String>,
    pub plain_lyrics: Option<String>,
}

/// A result, as plain values.
#[verifier::ext_equal]
pub struct LrclibModel {
    pub track_name: Option<Seq<char>>,
    pub artist_name: Option<Seq<char>>,
    pub album_name: Option<Seq<char>>,
    pub synced_lyrics: Option<Seq<char>>,
    pub plain_lyrics: Option<Seq<char>>,
}

impl View for LrclibResult {
    type V = LrclibModel;

    open spec fn view(&self) -> LrclibModel {
        LrclibModel {
            track_name: opt_text(self.track_name),
            artist_name: opt_text(self.artist_name),
            album_name: opt_text(self.album_name),
            synced_lyrics: opt_text(self.synced_lyrics),
            plain_lyrics: opt_text(self.plain_lyrics),
        }
    }
}

/// Results, as plain values.
pub open spec fn result_models(list: Seq<LrclibResult>) -> Seq<LrclibModel> {
    list.map_values(|r: LrclibResult| r@)
}

/// What the server replies.
#[derive(Debug)]
pub enum Reply {
    /// A status other than success, as it is written.
    Refused(String),
    Results(Vec<LrclibResult>),
}

/// Why a search failed.
#[derive(Debug)]
pub struct SearchFailed {
    pub message: String,
}

/// The search.
pub open spec fn search_request(request: RequestModel) -> HttpModel {
    HttpModel {
        method: Method::Get,
        url: "https://lrclib.net/api/search"@,
        fields: seq![("q"@, query(request))],
        referer: None,
    }
}

/// What an optional name counts; a missing one counts nothing.
pub open spec fn opt_score(name: Option<Seq<char>>, wanted: Seq<char>, full: u32, part: u32) -> u32 {
    match name {
        Some(n) => name_score(n, wanted, full, part),
        None => 0,
    }
}

/// How well a result matches a request; timed lyrics count in its favour.
pub open spec fn result_score(request: RequestModel, result: LrclibModel) -> nat {
    let names = rounded_sum(
        opt_score(result.track_name, request.title, TITLE_FULL, TITLE_PART) as nat,
        opt_score(result.artist_name, request.artist, ARTIST_FULL, ARTIST_PART) as nat,
    );
    if result.synced_lyrics is Some {
        rounded_sum(names, SYNCED_BONUS as nat)
    } else {
        names
    }
}

/// The text of a result: timed lyrics rather than plain ones.
pub open spec fn result_text(result: LrclibModel) -> Option<Seq<char>> {
    if result.synced_lyrics is Some {
        result.synced_lyrics
    } else {
        result.plain_lyrics
    }
}

/// The lyrics that a result stands for.
pub open spec fn result_lyrics(
    request: RequestModel,
    result: LrclibModel,
    text: Seq<char>,
) -> LyricsModel {
    LyricsModel {
        metadata: MetadataModel {
            title: result.track_name,
            artist: result.artist_name,
            album: result.album_name,
            source: LyricsSource::Lrclib,
            quality: quality_of(result_score(request, result)),
        },
        ..lrc_lyrics(text)
    }
}

/// The lyrics that the given results stand for; one without lyrics is passed
/// over.
pub open spec fn all_lyrics(request: RequestModel, results: Seq<LrclibModel>) -> Seq<LyricsModel>
    decreases results.len(),
{
    if results.len() == 0 {
        Seq::empty()
    } else {
        let before = all_lyrics(request, results.drop_last());
        match result_text(results.last()) {
            Some(text) => before.push(result_lyrics(request, results.last(), text)),
            None => before,
        }
    }
}

/// The results that are looked at: the first few.
pub open spec fn first_results(results: Seq<LrclibModel>) -> Seq<LrclibModel> {
    if results.len() <= RESULT_LIMIT {
        results
    } else {
        results.take(RESULT_LIMIT as int)
    }
}

/// Begin a search.
pub fn start_search(request: &SearchRequest) -> (r: HttpRequest)
    ensures
        r@ == search_request(request@),
{
    let http = HttpRequest::new(Method::Get, "https://lrclib.net/api/search").field(
        "q",
        query_text(request).as_str(),
    );
    assert(http@.fields =~= search_request(request@).fields);
    http
}

/// How well a result matches a request, from nothing to one.
pub fn calculate_quality(request: &SearchRequest, result: &LrclibResult) -> (r: Single)
    ensures
        r == quality_of(result_score(request@, result@)),
{
    let title: u32 = match &result.track_name {
        Some(t) => score_name(t.as_str(), request.title.as_str(), TITLE_FULL, TITLE_PART),
        None => 0,
    };
    let artist: u32 = match &result.artist_name {
        Some(a) => score_name(a.as_str(), request.artist.as_str(), ARTIST_FULL, ARTIST_PART),
        None => 0,
    };
    let names: u32 = sum_rounded(title, artist);
    if result.synced_lyrics.is_some() {
        quality_for(sum_rounded(names, SYNCED_BONUS))
    } else {
        quality_for(names)
    }
}

/// The lyrics that a result stands for, where it has some.
fn read_result(request: &SearchRequest, result: &LrclibResult) -> (r: Option<Lyrics>)
    ensures
        r is Some == result_text(result@) is Some,
        r matches Some(l) ==> l@ == result_lyrics(request@, result@, result_text(result@)->0),
{
    let text = match (&result.synced_lyrics, &result.plain_lyrics) {
        (Some(synced), _) => synced,
        (None, Some(plain)) => plain,
        _ => return None,
    };
    match lrc::parse(text.as_str()) {
        Ok(parsed) => {
            let mut parsed = parsed;
            parsed.metadata = LyricsMetadata {
                title: copy_opt(&result.track_name),
                artist: copy_opt(&result.artist_name),
                album: copy_opt(&result.album_name),
                source: LyricsSource::Lrclib,
                quality: calculate_quality(request, result),
            };
            Some(parsed)
        },
        Err(_) => None,
    }
}

/// What a search brings: lyrics from the first few results, or an error where
/// the server refuses.
pub fn finish_search(request: &SearchRequest, reply: Reply) -> (r: Result<Vec<Lyrics>, SearchFailed>)
    ensures
        match reply {
            Reply::Refused(status) => r matches Err(e) && e.message@
                == "LRCLIB search returned status "@ + status@,
            Reply::Results(list) => r matches Ok(found) && lyrics_models(found@) == all_lyrics(
                request@,
                first_results(result_models(list@)),
            ),
        },
{
    let list = match reply {
        Reply::Refused(status) => {
            let mut message = "LRCLIB search returned status ".to_owned();
            message.append(status.as_str());
            return Err(SearchFailed { message });
        },
        Reply::Results(list) => list,
    };
    let n: usize = if list.len() < RESULT_LIMIT {
        list.len()
    } else {
        RESULT_LIMIT
    };
    let ghost all = result_models(list@);
    let mut found: Vec<Lyrics> = Vec::new();
    assert(lyrics_models(found@) =~= Seq::empty());
    assert(all.take(0) =~= Seq::empty());
    let mut i: usize = 0;
    while i < n
        invariant
            i <= n <= list@.len(),
            all == result_models(list@),
            lyrics_models(found@) == all_lyrics(request@, all.take(i as int)),
        decreases n - i,
    {
        assert(all.take(i + 1).drop_last() =~= all.take(i as int));
        assert(all[i as int] == list@[i as int]@);
        if let Some(l) = read_result(request, &list[i]) {
            let ghost before = found@;
            let ghost model = l@;
            found.push(l);
            assert(lyrics_models(found@) =~= lyrics_models(before).push(model));
        }
        i = i + 1;
    }
    assert(all.take(n as int) =~= first_results(all));
    Ok(found)
}

} // verus!
