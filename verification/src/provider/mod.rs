//! Lyrics providers.
pub mod base64;
pub mod group;
pub mod http;
pub mod kugou;
pub mod lrclib;
pub mod matching;
pub mod netease;
pub mod qqmusic;

use crate::text::{copy_opt, opt_text};
use crate::time::{opt_nanos, Duration};
use vstd::prelude::*;

verus! {

/// A request to search for lyrics.
#[derive(Debug)]
pub struct SearchRequest {
    pub title: String,
    pub artist: String,
    pub album: Option<String>,
    pub duration: Option<Duration>,
}

/// A request, as plain values.
#[verifier::ext_equal]
pub struct RequestModel {
    pub title: Seq<char>,
    pub artist: Seq<char>,
    pub album: Option<Seq<char>>,
    pub duration: Option<nat>,
}

impl View for SearchRequest {
    type V = RequestModel;

    open spec fn view(&self) -> RequestModel {
        RequestModel {
            title: self.title@,
            artist: self.artist@,
            album: opt_text(self.album),
            duration: opt_nanos(self.duration),
        }
    }
}

impl Clone for SearchRequest {
    fn clone(&self) -> (r: Self)
        ensures
            r@ == self@,
    {
        SearchRequest {
            title: self.title.clone(),
            artist: self.artist.clone(),
            album: copy_opt(&self.album),
            duration: self.duration,
        }
    }
}

/// The number of songs of a search whose lyrics are fetched.
pub const SONG_LIMIT: usize = 3;

/// What a provider is asked for: the title and the artist.
pub open spec fn query(request: RequestModel) -> Seq<char> {
    request.title + seq![' '] + request.artist
}

/// What a provider is asked for: the title and the artist.
pub fn query_text(request: &SearchRequest) -> (r: String)
    ensures
        r@ == query(request@),
{
    let mut out = request.title.clone();
    out.push(' ');
    out.append(request.artist.as_str());
    assert(out@ =~= query(request@));
    out
}

} // verus!
