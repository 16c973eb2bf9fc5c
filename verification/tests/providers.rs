//! What is asked of each provider and what its replies stand for.
use lyrica::lyrics::{lrc, LyricsSource};
use lyrica::provider::base64::{base64_decode, decode_content};
use lyrica::provider::http::{HttpRequest, Method};
use lyrica::provider::matching::{apply_translations, calculate_quality};
use lyrica::provider::{kugou, lrclib, netease, qqmusic, SearchRequest};
use lyrica::single::Single;
use lyrica::time::Duration;

fn request() -> SearchRequest {
    SearchRequest {
        title: "Song".to_string(),
        artist: "Singer".to_string(),
        album: None,
        duration: Some(Duration::from_millis(61_234)),
    }
}

fn fields(r: &HttpRequest) -> Vec<(&str, &str)> {
    r.fields.iter().map(|(a, b)| (a.as_str(), b.as_str())).collect()
}

/// The value of a quality.
fn f(q: Single) -> f32 {
    f32::from_bits(q.bits)
}

fn s(x: &str) -> Option<String> {
    Some(x.to_string())
}

#[test]
fn base64_texts() {
    assert_eq!(base64_decode("SGVsbG8=").unwrap(), b"Hello");
    assert_eq!(base64_decode("SGVs\nbG8h").unwrap(), b"Hello!");
    assert_eq!(base64_decode("SGVsbG8sIHdvcmxkIQ==").unwrap(), b"Hello, world!");
    assert_eq!(base64_decode("").unwrap(), b"");
    assert_eq!(base64_decode("A").unwrap(), b"");
    assert_eq!(base64_decode("AQ").unwrap(), vec![1]);
    assert_eq!(base64_decode("+/+/").unwrap(), vec![0xfb, 0xff, 0xbf]);
    // What follows the padding within a group counts for nothing.
    assert_eq!(base64_decode("AQ=!AQ==").unwrap(), vec![1, 1]);
    // Breaks may stand anywhere, and the padding may be missing.
    assert_eq!(base64_decode(" S\r\nG Vs\nbG8 ").unwrap(), b"Hello");
    assert_eq!(base64_decode("SGVsbG8sIHdvcmxkIQ").unwrap(), b"Hello, world!");
    assert!(base64_decode("A!==").is_err());
    assert!(base64_decode("SGVsbG8é").is_err());
}

#[test]
fn content_may_be_encoded() {
    assert_eq!(decode_content(" WzAwOjAxLjAwXeS9oOWlvQ== \n"), "[00:01.00]你好");
    assert_eq!(decode_content("[00:01.00]raw"), "[00:01.00]raw");
    // Not text when decoded.
    assert_eq!(decode_content("/////w=="), "/////w==");
}

#[test]
fn quality_of_a_match() {
    let r = request();
    assert_eq!(f(calculate_quality(&r, "SONG", "singer")), 0.5f32 + 0.4);
    assert_eq!(f(calculate_quality(&r, "SONG", "Singers")), 0.5f32 + 0.2);
    assert_eq!(f(calculate_quality(&r, "My Song", "singer")), 0.3f32 + 0.4);
    assert_eq!(f(calculate_quality(&r, "My Song", "Singers")), 0.3f32 + 0.2);
    assert_eq!(f(calculate_quality(&r, "other", "Singer")), 0.4f32);
    assert_eq!(f(calculate_quality(&r, "other", "Singers")), 0.2f32);
    assert_eq!(f(calculate_quality(&r, "Song", "other")), 0.5f32);
    assert_eq!(f(calculate_quality(&r, "My Song", "other")), 0.3f32);
    assert_eq!(f(calculate_quality(&r, "", "")), 0.0f32);
}

#[test]
fn quality_of_lrclib_results() {
    let titles = [(Some("SONG"), 0.5f32), (Some("My Song"), 0.3), (Some("x"), 0.0), (None, 0.0)];
    let artists = [(Some("SINGER"), 0.4f32), (Some("Singers"), 0.2), (Some("x"), 0.0), (None, 0.0)];
    for (title, t) in titles {
        for (artist, a) in artists {
            for synced in [false, true] {
                let result = lrclib::LrclibResult {
                    track_name: title.map(|x| x.to_string()),
                    artist_name: artist.map(|x| x.to_string()),
                    album_name: None,
                    synced_lyrics: if synced { s("x") } else { None },
                    plain_lyrics: None,
                };
                let mut score = 0.0f32;
                score += t;
                score += a;
                if synced {
                    score += 0.1;
                }
                assert_eq!(f(lrclib::calculate_quality(&request(), &result)), score.min(1.0));
            }
        }
    }
}

#[test]
fn translations_go_to_the_closest_line() {
    let mut main = lrc::parse("[00:10.00]a\n[00:10.10]b\n[00:20.00]c").unwrap();
    let trans = lrc::parse("[00:10.04]A\n[00:10.09]B\n[00:20.10]too far\n[00:05.00]alone").unwrap();
    apply_translations(&mut main, &trans);
    let found: Vec<Option<&str>> = main.lines.iter().map(|l| l.translation.as_deref()).collect();
    assert_eq!(found, vec![Some("A"), Some("B"), None]);
    // At equal distance the earlier line gets it; 99 ms are within reach.
    let mut main = lrc::parse("[00:10.00]a\n[00:10.10]b\n[00:20.00]c").unwrap();
    let trans = lrc::parse("[00:10.05]X\n[00:20.099]Y").unwrap();
    apply_translations(&mut main, &trans);
    let found: Vec<Option<&str>> = main.lines.iter().map(|l| l.translation.as_deref()).collect();
    assert_eq!(found, vec![Some("X"), None, Some("Y")]);
    let mut none = lrc::parse("").unwrap();
    apply_translations(&mut none, &trans);
    assert!(none.lines.is_empty());
}

#[test]
fn kugou_search() {
    let (mut k, http) = kugou::KugouSearch::start(&request());
    assert_eq!(http.method, Method::Get);
    assert_eq!(http.url, "https://mobileservice.kugou.com/api/v3/search/song");
    assert_eq!(fields(&http), vec![("keyword", "Song Singer"), ("page", "1"), ("pagesize", "5")]);
    assert_eq!(http.referer, None);

    let songs = ["h0", "h1", "h2", "h3"]
        .iter()
        .map(|h| kugou::SongInfo {
            hash: h.to_string(),
            songname: "Song".to_string(),
            singername: s("Singer"),
            album_name: s("Album"),
        })
        .collect();
    let next = k.on_songs(kugou::SearchResponse { data: Some(kugou::SearchData { info: Some(songs) }) });
    let http = match next {
        kugou::Next::Candidates(h) => h,
        _ => panic!("candidates are due"),
    };
    assert_eq!(http.url, "https://krcs.kugou.com/search");
    assert_eq!(
        fields(&http),
        vec![
            ("keyword", "Song Singer"),
            ("hash", "h0"),
            ("duration", "61234"),
            ("client", "pc"),
            ("ver", "1"),
            ("man", "yes")
        ]
    );

    // The first song has a candidate with encoded lyrics.
    let next = k.on_candidates(Some(kugou::LyricSearchResponse {
        candidates: Some(vec![kugou::LyricCandidate { id: "7".to_string(), accesskey: "key".to_string() }]),
    }));
    let http = match next {
        kugou::Next::Detail(h) => h,
        _ => panic!("lyrics are due"),
    };
    assert_eq!(http.url, "https://krcs.kugou.com/download");
    assert_eq!(
        fields(&http),
        vec![
            ("id", "7"),
            ("accesskey", "key"),
            ("fmt", "lrc"),
            ("charset", "utf8"),
            ("client", "pc"),
            ("ver", "1")
        ]
    );
    let next = k.on_detail(Some(kugou::LyricDetailResponse { content: s("WzAwOjAxLjAwXXg=") }));
    assert!(matches!(next, kugou::Next::Candidates(_)));

    // The second song's candidates cannot be read, the third has none.
    assert!(matches!(k.on_candidates(None), kugou::Next::Candidates(_)));
    let next = k.on_candidates(Some(kugou::LyricSearchResponse { candidates: Some(Vec::new()) }));
    // Only three songs are looked at.
    assert!(matches!(next, kugou::Next::Done));

    let found = k.finish();
    assert_eq!(found.len(), 1);
    assert_eq!(found[0].lines[0].content, "x");
    assert_eq!(found[0].metadata.title.as_deref(), Some("Song"));
    assert_eq!(found[0].metadata.artist.as_deref(), Some("Singer"));
    assert_eq!(found[0].metadata.album.as_deref(), Some("Album"));
    assert_eq!(found[0].metadata.source, LyricsSource::Kugou);
    assert_eq!(f(found[0].metadata.quality), 0.5f32 + 0.4);
}

#[test]
fn kugou_without_songs_or_content() {
    let (mut k, _) = kugou::KugouSearch::start(&request());
    assert!(matches!(k.on_songs(kugou::SearchResponse { data: None }), kugou::Next::Done));
    let song = kugou::SongInfo {
        hash: "h".to_string(),
        songname: "x".to_string(),
        singername: None,
        album_name: None,
    };
    k.on_songs(kugou::SearchResponse { data: Some(kugou::SearchData { info: Some(vec![song]) }) });
    let next = k.on_detail(Some(kugou::LyricDetailResponse { content: s("") }));
    assert!(matches!(next, kugou::Next::Done));
    assert!(k.finish().is_empty());
}

fn netease_song(id: u64) -> netease::Song {
    netease::Song {
        id,
        name: "Song".to_string(),
        artists: vec![
            netease::Artist { name: "Singer".to_string() },
            netease::Artist { name: "Other".to_string() },
        ],
        album: Some(netease::Album { name: s("Album") }),
    }
}

#[test]
fn netease_search() {
    let (mut n, http) = netease::NetEaseSearch::start(&request());
    assert_eq!(http.method, Method::Post);
    assert_eq!(http.url, "https://music.163.com/api/search/get");
    assert_eq!(fields(&http), vec![("s", "Song Singer"), ("type", "1"), ("limit", "5")]);
    assert_eq!(http.referer.as_deref(), Some("https://music.163.com/"));
    let http = n
        .on_songs(netease::SearchResponse {
            result: Some(netease::SearchResult { songs: Some(vec![netease_song(12), netease_song(13)]) }),
        })
        .unwrap();
    assert_eq!(http.method, Method::Get);
    assert_eq!(http.url, "https://music.163.com/api/song/lyric");
    assert_eq!(fields(&http), vec![("id", "12"), ("lv", "1"), ("tv", "1")]);
    assert_eq!(http.referer.as_deref(), Some("https://music.163.com/"));
    let next = n.on_lyrics(netease::LyricResponse {
        lrc: Some(netease::LrcContent { lyric: s("[00:01.00]x") }),
        tlyric: Some(netease::LrcContent { lyric: s("[00:01.05]y") }),
    });
    assert_eq!(fields(&next.unwrap())[0], ("id", "13"));
    assert!(n.on_lyrics(netease::LyricResponse { lrc: None, tlyric: None }).is_none());
    let found = n.finish();
    assert_eq!(found.len(), 1);
    assert_eq!(found[0].lines[0].translation.as_deref(), Some("y"));
    assert_eq!(found[0].metadata.artist.as_deref(), Some("Singer, Other"));
    assert_eq!(found[0].metadata.album.as_deref(), Some("Album"));
    assert_eq!(found[0].metadata.source, LyricsSource::NetEase);
    // Full title, artist as a part, and the bonus.
    assert_eq!(f(found[0].metadata.quality), 0.5f32 + 0.2 + 0.1);
}

#[test]
fn netease_looks_at_three_songs() {
    let (mut n, _) = netease::NetEaseSearch::start(&request());
    let songs = vec![netease_song(1), netease_song(2), netease_song(3), netease_song(4)];
    n.on_songs(netease::SearchResponse { result: Some(netease::SearchResult { songs: Some(songs) }) });
    let reply = || netease::LyricResponse {
        lrc: Some(netease::LrcContent { lyric: s("[00:01.00]x") }),
        tlyric: None,
    };
    assert!(n.on_lyrics(reply()).is_some());
    assert!(n.on_lyrics(reply()).is_some());
    assert!(n.on_lyrics(reply()).is_none());
    assert!(n.on_lyrics(reply()).is_none());
    assert_eq!(n.finish().len(), 3);
}

#[test]
fn qqmusic_search() {
    let (mut q, http) = qqmusic::QQMusicSearch::start(&request());
    assert_eq!(http.url, "https://c.y.qq.com/soso/fcgi-bin/client_search_cp");
    assert_eq!(fields(&http), vec![("w", "Song Singer"), ("format", "json"), ("p", "1"), ("n", "5")]);
    assert_eq!(http.referer.as_deref(), Some("https://y.qq.com/"));
    let song = |mid: &str| qqmusic::SongItem {
        songmid: mid.to_string(),
        songname: "Song".to_string(),
        singer: vec![qqmusic::Singer { name: "Singer".to_string() }],
        albumname: None,
    };
    let list = qqmusic::SongList { list: vec![song("m1"), song("m2")] };
    let http = q
        .on_songs(qqmusic::SearchResponse { data: Some(qqmusic::SearchData { song: Some(list) }) })
        .unwrap();
    assert_eq!(http.url, "https://c.y.qq.com/lyric/fcgi-bin/fcg_query_lyric_new.fcg");
    assert_eq!(fields(&http), vec![("songmid", "m1"), ("format", "json"), ("nobase64", "1")]);
    // A reply that cannot be read is passed over.
    assert_eq!(fields(&q.on_lyrics(None).unwrap())[0], ("songmid", "m2"));
    let reply = qqmusic::LyricResponse { lyric: s("[00:02.00]x"), trans: s("[00:02.00]y") };
    assert!(q.on_lyrics(Some(reply)).is_none());
    let found = q.finish();
    assert_eq!(found.len(), 1);
    assert_eq!(found[0].lines[0].translation.as_deref(), Some("y"));
    assert_eq!(f(found[0].metadata.quality), 0.5f32 + 0.4);
    assert_eq!(found[0].metadata.source, LyricsSource::QQMusic);
}

fn lrclib_result(synced: Option<String>, text: Option<String>) -> lrclib::LrclibResult {
    lrclib::LrclibResult {
        track_name: s("Song"),
        artist_name: s("Singer"),
        album_name: None,
        synced_lyrics: synced,
        plain_lyrics: text,
    }
}

#[test]
fn lrclib_search() {
    let http = lrclib::start_search(&request());
    assert_eq!(http.url, "https://lrclib.net/api/search");
    assert_eq!(fields(&http), vec![("q", "Song Singer")]);
    let mut list = vec![
        lrclib_result(s("[00:01.00]timed"), s("plain")),
        lrclib_result(None, s("[00:02.00]plain")),
        lrclib_result(None, None),
        lrclib_result(s("[00:03.00]c"), None),
        lrclib_result(s("[00:04.00]d"), None),
    ];
    list.push(lrclib_result(s("[00:05.00]sixth"), None));
    let found = lrclib::finish_search(&request(), lrclib::Reply::Results(list)).unwrap();
    let texts: Vec<&str> = found.iter().map(|l| l.lines[0].content.as_str()).collect();
    assert_eq!(texts, vec!["timed", "plain", "c", "d"]);
    assert_eq!(f(found[0].metadata.quality), (0.5f32 + 0.4 + 0.1).min(1.0));
    assert_eq!(f(found[1].metadata.quality), 0.5f32 + 0.4);
    assert_eq!(found[0].metadata.source, LyricsSource::Lrclib);
}

#[test]
fn lrclib_refusal() {
    let r = lrclib::finish_search(&request(), lrclib::Reply::Refused("503 Service Unavailable".to_string()));
    assert_eq!(r.err().unwrap().message, "LRCLIB search returned status 503 Service Unavailable");
}

#[test]
fn user_agents() {
    assert_eq!(lrclib::USER_AGENT, "lyrica/0.1.0");
    for agent in [kugou::USER_AGENT, netease::USER_AGENT, qqmusic::USER_AGENT] {
        assert_eq!(agent, "Mozilla/5.0 (X11; Linux x86_64) AppleWebKit/537.36");
    }
}
