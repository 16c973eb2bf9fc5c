//! The LRC format and the lookup of lines.
use lyrica::lyrics::lrc::parse;
use lyrica::lyrics::stamp::{decimal_char, word_char};
use lyrica::lyrics::{Lyrics, LyricsLine, LyricsMetadata, LyricsSource};
use lyrica::single::Single;
use lyrica::text::{contains, lowercase, parse_signed, trim, white_space};
use lyrica::time::Duration;

fn plain(position: u64, content: &str) -> (u64, String) {
    (position, content.to_string())
}

fn lines_of(l: &Lyrics) -> Vec<(u64, String)> {
    l.lines
        .iter()
        .map(|x| (x.position.as_millis() as u64, x.content.clone()))
        .collect()
}

/// The same format read with regular expressions.
fn parse_with_regex(input: &str) -> (Vec<(u64, String)>, Option<String>, Option<String>, Option<String>, i64) {
    let time_re = regex::Regex::new(r"\[(\d{2}):(\d{2})\.(\d{2,3})\]").unwrap();
    let meta_re = regex::Regex::new(r"^\[(\w+):(.+)\]$").unwrap();
    let mut lines: Vec<(u64, String)> = Vec::new();
    let (mut title, mut artist, mut album) = (None, None, None);
    let mut offset = 0i64;
    for raw in input.lines() {
        let raw = raw.trim();
        if raw.is_empty() {
            continue;
        }
        let timed = time_re.find(raw).is_some_and(|m| m.start() == 0);
        if let (false, Some(caps)) = (timed, meta_re.captures(raw)) {
            let value = caps[2].trim().to_string();
            match caps[1].to_lowercase().as_str() {
                "ti" => title = Some(value),
                "ar" => artist = Some(value),
                "al" => album = Some(value),
                "offset" => offset = value.parse::<i64>().unwrap_or(0),
                _ => {}
            }
            continue;
        }
        let stamps: Vec<u64> = time_re
            .captures_iter(raw)
            .filter_map(|c| {
                let min: u64 = c[1].parse().ok()?;
                let sec: u64 = c[2].parse().ok()?;
                let frac: u64 = c[3].parse().ok()?;
                let ms = if c[3].len() == 2 { frac * 10 } else { frac };
                Some(min * 60_000 + sec * 1000 + ms)
            })
            .collect();
        let content = time_re.replace_all(raw, "").trim().to_string();
        for s in stamps {
            lines.push((s, content.clone()));
        }
    }
    lines.sort_by_key(|l| l.0);
    (lines, title, artist, album, offset)
}

#[test]
fn test_parse_basic_lrc() {
    let input = r#"[ti:Test Song]
[ar:Test Artist]
[al:Test Album]
[00:12.34]First line
[00:15.67]Second line
[00:20.00]Third line"#;

    let lyrics = parse(input).unwrap();
    assert_eq!(lyrics.metadata.title.as_deref(), Some("Test Song"));
    assert_eq!(lyrics.metadata.artist.as_deref(), Some("Test Artist"));
    assert_eq!(lyrics.lines.len(), 3);
    assert_eq!(lyrics.lines[0].content, "First line");
    assert_eq!(lyrics.lines[0].position, Duration::from_millis(12 * 1000 + 340));
    assert_eq!(lyrics.lines[1].content, "Second line");
    assert_eq!(lyrics.lines[2].content, "Third line");
}

#[test]
fn test_parse_multiple_timestamps() {
    let input = "[00:12.34][01:12.34]Repeated line";
    let lyrics = parse(input).unwrap();
    assert_eq!(lyrics.lines.len(), 2);
    assert_eq!(lyrics.lines[0].content, "Repeated line");
    assert_eq!(lyrics.lines[1].content, "Repeated line");
    assert!(lyrics.lines[0].position < lyrics.lines[1].position);
}

#[test]
fn test_parse_three_digit_millis() {
    let input = "[00:12.345]Line with 3-digit ms";
    let lyrics = parse(input).unwrap();
    assert_eq!(lyrics.lines[0].position, Duration::from_millis(12 * 1000 + 345));
}

#[test]
fn test_line_at() {
    let input = "[00:05.00]Line 1\n[00:10.00]Line 2\n[00:15.00]Line 3";
    let lyrics = parse(input).unwrap();

    // Before first line.
    let (cur, next) = lyrics.line_at(Duration::from_secs(3));
    assert_eq!(cur, None);
    assert_eq!(next, Some(0));

    // At first line.
    let (cur, next) = lyrics.line_at(Duration::from_secs(5));
    assert_eq!(cur, Some(0));
    assert_eq!(next, Some(1));

    // Between lines.
    let (cur, next) = lyrics.line_at(Duration::from_secs(12));
    assert_eq!(cur, Some(1));
    assert_eq!(next, Some(2));

    // After last line.
    let (cur, next) = lyrics.line_at(Duration::from_secs(20));
    assert_eq!(cur, Some(2));
    assert_eq!(next, None);
}

#[test]
fn lookup_without_lines() {
    let lyrics = parse("no tags here").unwrap();
    assert_eq!(lyrics.lines.len(), 0);
    assert_eq!(lyrics.line_at(Duration::from_secs(3)), (None, None));
    assert_eq!(lyrics.time_to_next_line(Duration::from_secs(3)), None);
}

#[test]
fn offset_moves_the_lookup() {
    let mut lyrics = parse("[00:05.00]Line 1\n[00:10.00]Line 2").unwrap();
    lyrics.offset_ms = 2_000;
    assert_eq!(lyrics.line_at(Duration::from_secs(3)).0, Some(0));
    assert_eq!(lyrics.time_to_next_line(Duration::from_secs(3)), Some(Duration::from_secs(5)));
    lyrics.offset_ms = -2_000;
    assert_eq!(lyrics.line_at(Duration::from_secs(6)).0, None);
    assert_eq!(lyrics.time_to_next_line(Duration::from_secs(6)), Some(Duration::from_secs(1)));
    lyrics.offset_ms = i64::MIN;
    assert_eq!(lyrics.line_at(Duration::from_secs(6)).0, None);
    lyrics.offset_ms = i64::MAX;
    assert_eq!(lyrics.line_at(Duration::from_secs(6)).0, Some(1));
}

#[test]
fn waiting_with_an_offset_beyond_the_start() {
    let lyrics = parse("[offset:-5000]\n[00:01.00]a").unwrap();
    let two = Duration::from_secs(2);
    assert_eq!(lyrics.line_at(two), (None, Some(0)));
    let wait = lyrics.time_to_next_line(two).unwrap();
    assert_eq!(wait, Duration::from_secs(4));
    // Nothing changes before.
    assert_eq!(lyrics.line_at(Duration::from_millis(5_999)), (None, Some(0)));
    assert_eq!(lyrics.line_at(two.saturating_add(wait)), (Some(0), None));
    let mut late = parse("[00:01.00]a").unwrap();
    late.offset_ms = i64::MIN;
    late.lines[0].position = Duration::from_nanos(u128::MAX);
    assert_eq!(late.time_to_next_line(Duration::zero()), Some(Duration::from_nanos(u128::MAX)));
}

#[test]
fn an_offset_moves_the_time_of_the_lookup() {
    let plain = parse("[00:01.00]a\n[00:03.00]b\n[00:04.50]c").unwrap();
    for k in [-9_000i64, -1_500, -1, 0, 1, 700, 6_000] {
        let mut moved = plain.clone();
        moved.offset_ms = k;
        for t in [0i64, 1, 999, 1_000, 2_500, 3_000, 4_499, 4_500, 8_000, 20_000] {
            let there = Duration::from_millis((t + k).max(0) as u64);
            assert_eq!(moved.line_at(Duration::from_millis(t as u64)), plain.line_at(there));
        }
    }
}

#[test]
fn waiting_reaches_the_next_line() {
    let lyrics = parse("[00:05.00]Line 1\n[00:10.50]Line 2").unwrap();
    let now = Duration::from_millis(7_250);
    let wait = lyrics.time_to_next_line(now).unwrap();
    assert_eq!(wait, Duration::from_millis(3_250));
    assert_eq!(lyrics.line_at(now.saturating_add(wait)).0, Some(1));
    assert_eq!(lyrics.time_to_next_line(Duration::from_secs(11)), None);
}

#[test]
fn lines_are_sorted_and_ties_keep_their_order() {
    let lyrics = parse("[00:10.00]b\n[00:05.00]a\n[00:10.00]c\n[00:10.00]d").unwrap();
    assert_eq!(
        lines_of(&lyrics),
        vec![plain(5_000, "a"), plain(10_000, "b"), plain(10_000, "c"), plain(10_000, "d")]
    );
}

#[test]
fn metadata_tags() {
    let lyrics =
        parse("[TI: A Title ]\n[ar:X]\n[al:Y]\n[offset:-250]\n[by:someone]\n[00:01.00]x").unwrap();
    assert_eq!(lyrics.metadata.title.as_deref(), Some("A Title"));
    assert_eq!(lyrics.metadata.artist.as_deref(), Some("X"));
    assert_eq!(lyrics.metadata.album.as_deref(), Some("Y"));
    assert_eq!(lyrics.offset_ms, -250);
    assert_eq!(lyrics.metadata.source, LyricsSource::Unknown);
    assert_eq!(lyrics.metadata.quality, Single { bits: 0.0f32.to_bits() });
    assert_eq!(parse("[offset:+500]").unwrap().offset_ms, 500);
    assert_eq!(parse("[offset:soon]").unwrap().offset_ms, 0);
    assert_eq!(parse("[offset:99999999999999999999]").unwrap().offset_ms, 0);
}

#[test]
fn a_timed_line_may_end_with_a_bracket() {
    assert_eq!(lines_of(&parse("[00:12.34]Hello [x2]").unwrap()), vec![plain(12_340, "Hello [x2]")]);
    assert_eq!(lines_of(&parse("[00:12.34]]").unwrap()), vec![plain(12_340, "]")]);
    assert_eq!(
        lines_of(&parse("[00:12.34][00:13.00]a]").unwrap()),
        vec![plain(12_340, "a]"), plain(13_000, "a]")]
    );
    // Time tags alone stand for lines without text.
    assert_eq!(lines_of(&parse(" [00:12.34] ").unwrap()), vec![plain(12_340, "")]);
    assert_eq!(
        lines_of(&parse("[00:13.00][00:12.34]").unwrap()),
        vec![plain(12_340, ""), plain(13_000, "")]
    );
    // Without a time tag at its start the line is a metadata tag.
    assert_eq!(parse("[ti:a [00:12.34]]").unwrap().metadata.title.as_deref(), Some("a [00:12.34]"));
    assert_eq!(parse("[00:12]").unwrap().lines.len(), 0);
}

#[test]
fn stamps_that_are_none() {
    for text in [
        "[0:12.34]x", "[00:1.34]x", "[00:12.3]x", "[00:12.3456]x", "[00:12:34]x", "[00-12.34]x",
        "00:12.34]x", "[00:12.34x",
    ] {
        assert_eq!(parse(text).unwrap().lines.len(), 0, "{}", text);
    }
    assert_eq!(lines_of(&parse("[99:99.999]x").unwrap()), vec![plain(6_039_999, "x")]);
    assert_eq!(lines_of(&parse("[00:00.00]x").unwrap()), vec![plain(0, "x")]);
}

#[test]
fn digits_of_other_scripts() {
    // Such a stamp is taken out of the text but gives no time.
    let lyrics = parse("[００:12.34]ab[00:01.00]cd").unwrap();
    assert_eq!(lines_of(&lyrics), vec![plain(1_000, "abcd")]);
    assert_eq!(parse("[００:12.34]ab").unwrap().lines.len(), 0);
    // They are word characters too.
    assert_eq!(parse("[ti：x]").unwrap().metadata.title, None);
    assert_eq!(parse("[作词:x]").unwrap().lines.len(), 0);
}

#[test]
fn agrees_with_regular_expressions() {
    let texts = [
        "",
        "\n\n",
        "[ti:Song]\r\n[ar:Someone]\r\n[00:01.00]One\r\n[00:02.50]Two\r\n",
        "  [00:12.34][00:45.67]  twice  ",
        "[00:12.34]a[00:13.34]b[00:14.345]c",
        "[[00:12.34]x",
        "[00:12.345]]",
        "[00:12.34[00:13.34]x",
        "[ti:]",
        "[ti::]",
        "[ti:a]b]",
        "[t i:a]",
        "[Ti_1:a]",
        "[offset: 12 ]",
        "[00:12.34]<00:12.34>Hello <00:12.80>world",
        "[00:12.34][tr:zh]translated",
        "[00:12.34]\u{3000}wide\u{3000}",
        "[00:12.34]你好，世界",
        "[作曲:某人]",
        "[０１:02.03]x",
        "[01:02.0３]x [01:02.03]y",
        "[\u{130}:x]",
        "x [00:01.00] y [00:02.00] z",
        "[03:00.00]late\n[01:00.00]early\n[02:00.00]middle\n[01:00.00]early too",
        "[al:An Album]\n[al:Another]",
        "[00:10.000]three\n[00:10.00]two",
    ];
    for text in texts {
        let lyrics = parse(text).unwrap();
        let expected = parse_with_regex(text);
        assert_eq!(lines_of(&lyrics), expected.0, "{:?}", text);
        assert_eq!(lyrics.metadata.title, expected.1, "{:?}", text);
        assert_eq!(lyrics.metadata.artist, expected.2, "{:?}", text);
        assert_eq!(lyrics.metadata.album, expected.3, "{:?}", text);
        assert_eq!(lyrics.offset_ms, expected.4, "{:?}", text);
    }
}

#[test]
fn agrees_with_regular_expressions_on_mixed_texts() {
    // Texts put together from pieces that matter to the format.
    let pieces = [
        "[", "]", "00", "12", ":", ".", "345", "ti", "offset", "-7", " ", "\n", "x", "[00:12.34]",
        "<00:12.34>", "é", "٣",
    ];
    let mut seed = 12345u64;
    for _ in 0..400 {
        let mut text = String::new();
        for _ in 0..24 {
            seed = seed.wrapping_mul(6364136223846793005).wrapping_add(1442695040888963407);
            text.push_str(pieces[((seed >> 33) % pieces.len() as u64) as usize]);
        }
        let lyrics = parse(&text).unwrap();
        let expected = parse_with_regex(&text);
        assert_eq!(lines_of(&lyrics), expected.0, "{:?}", text);
        assert_eq!(lyrics.metadata.title, expected.1, "{:?}", text);
        assert_eq!(lyrics.offset_ms, expected.4, "{:?}", text);
    }
}

#[test]
fn character_classes_agree_with_regular_expressions() {
    let digit = regex::Regex::new(r"^\d$").unwrap();
    let word = regex::Regex::new(r"^\w$").unwrap();
    let chars = (0u32..128).chain([
        0xaa, 0xb2, 0xb5, 0xd7, 0xe9, 0x300, 0x3b1, 0x660, 0x669, 0x6f5, 0x966, 0x2028, 0x203f, 0x2160,
        0x3007, 0x4e2d, 0xac00, 0xff10, 0xff21, 0x1d7ce, 0x1f600, 0x200d,
    ]);
    for u in chars {
        let c = char::from_u32(u).unwrap();
        assert_eq!(decimal_char(c), digit.is_match(&c.to_string()), "{:?}", c);
        assert_eq!(word_char(c), word.is_match(&c.to_string()), "{:?}", c);
    }
}

#[test]
fn white_space_is_that_of_the_standard_library() {
    for u in 0..=0x10ffffu32 {
        if let Some(c) = char::from_u32(u) {
            assert_eq!(white_space(c), c.is_whitespace(), "{:x}", u);
        }
    }
    assert_eq!(trim(" \t a b \u{3000}\n"), "a b");
    assert_eq!(trim(" \n "), "");
}

#[test]
fn text_helpers() {
    assert_eq!(lowercase("ÀBC İ ΑΣ"), "ÀBC İ ΑΣ".to_lowercase());
    assert_eq!(lowercase("AZaz09[`{@"), "azaz09[`{@");
    for s in ["0", "-0", "+7", "007", "-", "+", "", "1x", " 1", "9223372036854775807",
        "9223372036854775808", "-9223372036854775808", "-9223372036854775809", "--1"]
    {
        assert_eq!(parse_signed(s), s.parse::<i64>().ok(), "{:?}", s);
    }
    for (a, b) in [("abc", "bc"), ("abc", ""), ("", ""), ("", "a"), ("aab", "ab"), ("abc", "abcd")] {
        assert_eq!(contains(a, b), a.contains(b));
    }
}

#[test]
fn lyrics_can_be_copied() {
    let lyrics = Lyrics {
        lines: vec![LyricsLine {
            position: Duration::from_millis(5),
            content: "x".to_string(),
            translation: Some("y".to_string()),
            word_timestamps: None,
        }],
        metadata: LyricsMetadata {
            title: None,
            artist: Some("z".to_string()),
            album: None,
            source: LyricsSource::Local,
            quality: Single { bits: 7 },
        },
        offset_ms: 9,
    };
    assert_eq!(format!("{:?}", lyrics.clone()), format!("{:?}", lyrics));
}

#[test]
fn source_names_and_keys() {
    let table = [
        (LyricsSource::NetEase, "NetEase", Some("netease")),
        (LyricsSource::QQMusic, "QQ Music", Some("qqmusic")),
        (LyricsSource::Kugou, "Kugou", Some("kugou")),
        (LyricsSource::Lrclib, "LRCLIB", Some("lrclib")),
        (LyricsSource::Local, "Local", None),
        (LyricsSource::Unknown, "Unknown", None),
    ];
    for (source, name, key) in table {
        assert_eq!(source.name(), name);
        assert_eq!(source.config_key(), key);
    }
}

#[test]
fn text_behind_tags_is_kept() {
    let lyrics = parse(" [00:02.00][00:01.500]  a [x] <b> [0:1] c \t").unwrap();
    assert_eq!(lines_of(&lyrics), vec![plain(1_500, "a [x] <b> [0:1] c"), plain(2_000, "a [x] <b> [0:1] c")]);
}

#[test]
fn texts_one_below_the_other() {
    let (a, b) = ("[00:02.00]two\n[00:04.00]four", "[00:03.00]three\n[00:02.00]two too");
    let both = parse(&format!("{}\n{}", a, b)).unwrap();
    assert_eq!(
        lines_of(&both),
        vec![plain(2_000, "two"), plain(2_000, "two too"), plain(3_000, "three"), plain(4_000, "four")]
    );
}

#[test]
fn lookups_in_lines_out_of_order_depend_on_lines_and_time_alone() {
    let mut a = parse("[00:01.00]a\n[00:02.00]b\n[00:03.00]c\n[00:04.00]d").unwrap();
    a.lines.swap(0, 2);
    a.lines.swap(1, 3);
    let mut b = a.clone();
    for k in [-2_500i64, -1, 0, 1_500, 9_000] {
        b.offset_ms = k;
        for t in [0i64, 900, 1_000, 2_500, 3_999, 6_000] {
            let there = Duration::from_millis((t + k).max(0) as u64);
            assert_eq!(b.line_at(Duration::from_millis(t as u64)), a.line_at(there));
        }
    }
}
