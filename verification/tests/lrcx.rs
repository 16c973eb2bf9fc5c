//! The LRCX format.
use lyrica::lyrics::lrc::ParseError;
use lyrica::lyrics::lrcx::parse;
use lyrica::lyrics::{lrc, Lyrics};
use lyrica::time::Duration;

type Line = (u64, String, Option<String>, Option<Vec<(u64, u64, String)>>);

fn lines_of(l: &Lyrics) -> Vec<Line> {
    l.lines
        .iter()
        .map(|x| {
            (
                x.position.as_millis() as u64,
                x.content.clone(),
                x.translation.clone(),
                x.word_timestamps.as_ref().map(|ws| {
                    ws.iter()
                        .map(|w| {
                            (w.offset.as_millis() as u64, w.duration.as_millis() as u64, w.word.clone())
                        })
                        .collect()
                }),
            )
        })
        .collect()
}

fn millis(c: &regex::Captures) -> Option<u64> {
    let min: u64 = c[1].parse().ok()?;
    let sec: u64 = c[2].parse().ok()?;
    let frac: u64 = c[3].parse().ok()?;
    Some(min * 60_000 + sec * 1000 + if c[3].len() == 2 { frac * 10 } else { frac })
}

/// The same format read with regular expressions, on top of LRC.
fn parse_with_regex(input: &str) -> Option<Vec<Line>> {
    let word_re = regex::Regex::new(r"<(\d{2}):(\d{2})\.(\d{2,3})>").unwrap();
    let tr_re = regex::Regex::new(r"\[(\d{2}):(\d{2})\.(\d{2,3})\]\[tr(?::(\w+))?\](.+)").unwrap();
    let time_re = regex::Regex::new(r"^\[(\d{2}):(\d{2})\.(\d{2,3})\]").unwrap();
    let meta_re = regex::Regex::new(r"^\[(\w+):(.+)\]$").unwrap();
    let mut translations = Vec::new();
    let mut kept = String::new();
    for raw in input.lines() {
        let line = raw.trim();
        let meta = meta_re.is_match(line) && !time_re.is_match(line);
        let found = tr_re.captures(line);
        if meta || found.is_none() {
            kept.push_str(line);
            kept.push('\n');
        }
        if let Some(c) = found {
            translations.push((millis(&c)?, c[5].to_string()));
        }
    }
    let mut lines = lines_of(&lrc::parse(&kept).unwrap());
    for (pos, text) in &translations {
        if let Some(l) = lines.iter_mut().find(|l| l.0 == *pos) {
            l.2 = Some(text.clone());
        }
    }
    for l in &mut lines {
        if !word_re.is_match(&l.1) {
            continue;
        }
        let parts: Vec<&str> = word_re.split(&l.1).collect();
        let times: Vec<u64> = word_re.captures_iter(&l.1).filter_map(|c| millis(&c)).collect();
        let mut words = Vec::new();
        for (i, t) in times.iter().enumerate() {
            let word = parts.get(i + 1).unwrap_or(&"").trim().to_string();
            if word.is_empty() {
                continue;
            }
            let duration = times.get(i + 1).map(|n| n.saturating_sub(*t)).unwrap_or(500);
            words.push((t.saturating_sub(l.0), duration, word));
        }
        if !words.is_empty() {
            l.1 = word_re.replace_all(&l.1, "").trim().to_string();
            l.3 = Some(words);
        }
    }
    lines.retain(|l| !l.1.is_empty() || !translations.iter().any(|t| t.0 == l.0));
    Some(lines)
}

#[test]
fn test_parse_word_timestamps() {
    let input = "[00:12.00]<00:12.00>Hello <00:12.50>world <00:13.00>test";
    let lyrics = parse(input).unwrap();
    assert_eq!(lyrics.lines.len(), 1);
    let line = &lyrics.lines[0];
    assert_eq!(line.content, "Hello world test");
    let wt = line.word_timestamps.as_ref().unwrap();
    assert_eq!(wt.len(), 3);
    assert_eq!(wt[0].word, "Hello");
    assert_eq!(wt[1].word, "world");
    assert_eq!(wt[2].word, "test");
}

#[test]
fn test_parse_translations() {
    let input = "[00:12.00]Original line\n[00:12.00][tr:zh]translated";
    let lyrics = parse(input).unwrap();
    // Should have one line with translation.
    let line = lyrics.lines.iter().find(|l| l.content == "Original line");
    assert!(line.is_some());
    assert_eq!(line.unwrap().translation.as_deref(), Some("translated"));
}

#[test]
fn word_offsets_and_durations() {
    let lyrics = parse("[00:12.00]<00:12.00>Hello <00:12.50>world <00:13.25>test").unwrap();
    let words = lyrics.lines[0].word_timestamps.as_ref().unwrap();
    assert_eq!(words[0].offset, Duration::zero());
    assert_eq!(words[0].duration, Duration::from_millis(500));
    assert_eq!(words[1].offset, Duration::from_millis(500));
    assert_eq!(words[1].duration, Duration::from_millis(750));
    assert_eq!(words[2].offset, Duration::from_millis(1_250));
    assert_eq!(words[2].duration, Duration::from_millis(500));
}

#[test]
fn blank_words_are_left_out() {
    let lyrics = parse("[00:01.00]<00:01.00> <00:02.00>x<00:03.00>").unwrap();
    let words = lyrics.lines[0].word_timestamps.as_ref().unwrap();
    assert_eq!(words.len(), 1);
    assert_eq!(words[0].duration, Duration::from_secs(1));
    assert_eq!(lyrics.lines[0].content, "x");
    // Without any word the text stays as it is.
    let lyrics = parse("[00:01.00]x <00:01.00>").unwrap();
    assert!(lyrics.lines[0].word_timestamps.is_none());
    assert_eq!(lyrics.lines[0].content, "x <00:01.00>");
}

#[test]
fn a_later_translation_replaces_an_earlier_one() {
    let lyrics =
        parse("[00:12.00]a\n[00:12.00][tr]one\n[00:12.00][tr:en]two\n[00:13.00][tr]none").unwrap();
    assert_eq!(lyrics.lines[0].content, "a");
    assert_eq!(lyrics.lines[0].translation.as_deref(), Some("two"));
}

#[test]
fn a_translation_with_an_unreadable_time_is_an_error() {
    assert_eq!(parse("[００:12.00][tr]x").err(), Some(ParseError::InvalidDigit));
    assert_eq!(
        parse("[00:01.00]a\n[00:12.0٣][tr:en]x\n[00:02.00]b").err(),
        Some(ParseError::InvalidDigit)
    );
    assert!(parse("[００:12.00]x").is_ok());
}

#[test]
fn plain_lrc_reads_the_same() {
    let text = "[ti:T]\n[offset:70]\n[00:02.00]b\n[00:01.00][00:03.00]a";
    assert_eq!(
        format!("{:?}", parse(text).unwrap()),
        format!("{:?}", lrc::parse(text).unwrap())
    );
}

#[test]
fn agrees_with_regular_expressions_on_extended_texts() {
    let pieces = [
        "[00:12.00]", "[00:13.50]", "[tr]", "[tr:zh]", "[tr:]", "[tr", "<00:12.00>", "<00:12.500>",
        "<00:1>", "word", " ", "\n", "\n", "]", "<", "\u{4e2d}", "<00:12.0٣>", ":", "x",
    ];
    let mut seed = 999u64;
    for _ in 0..400 {
        let mut text = String::new();
        for _ in 0..20 {
            seed = seed.wrapping_mul(6364136223846793005).wrapping_add(1442695040888963407);
            text.push_str(pieces[((seed >> 33) % pieces.len() as u64) as usize]);
        }
        let expected = parse_with_regex(&text);
        let found = parse(&text).ok().map(|l| lines_of(&l));
        assert_eq!(found, expected, "{:?}", text);
    }
    for text in ["[００:12.00][tr]x", "[00:12.00][tr:z h]x", "[00:12.00] [tr]x", "[00:12.00][00:13.00][tr]y z"] {
        assert_eq!(parse(text).ok().map(|l| lines_of(&l)), parse_with_regex(text), "{:?}", text);
    }
}

#[test]
fn a_word_stamp_may_appear_once_a_tag_is_taken_out() {
    let text = "[00:01.00]<00:12[00:02.00].00>x";
    let lyrics = parse(text).unwrap();
    assert_eq!(lyrics.lines[0].content, "x");
    assert_eq!(lyrics.lines[0].word_timestamps.as_ref().unwrap()[0].offset, Duration::from_secs(11));
    assert_eq!(Some(lines_of(&lyrics)), parse_with_regex(text));
}

#[test]
fn translation_lines_are_not_kept() {
    let one = "[00:12.00]Original line\n[00:12.00][tr:zh]translated";
    let other = "[00:12.00][tr]translated\n[00:12.00]Original line";
    for text in [one, other] {
        let lyrics = parse(text).unwrap();
        assert_eq!(
            lines_of(&lyrics),
            vec![(12_000, "Original line".to_string(), Some("translated".to_string()), None)]
        );
    }
    // A translation that no line is at the time of is lost.
    assert!(parse("[00:12.00][tr:zh]translated").unwrap().lines.is_empty());
    // A metadata tag is read as one, whatever its value.
    let lyrics = parse("[ti:[00:01.00][tr]x]\n[00:01.00]a").unwrap();
    assert_eq!(lyrics.metadata.title.as_deref(), Some("[00:01.00][tr]x"));
    assert_eq!(lyrics.lines[0].translation.as_deref(), Some("x]"));
}

#[test]
fn translated_lines_without_text_are_not_kept() {
    let lyrics = parse("[00:01.00]\n[00:02.00]\n[00:01.00][tr]x").unwrap();
    assert_eq!(lines_of(&lyrics), vec![(2_000, String::new(), None, None)]);
}

#[test]
fn translated_lines_stay_in_order() {
    let lyrics = parse("[00:02.00]b\n[00:01.00]a [x]\n[00:02.00][tr]B\n[00:01.00][tr]A]").unwrap();
    assert_eq!(
        lines_of(&lyrics),
        vec![
            (1_000, "a [x]".to_string(), Some("A]".to_string()), None),
            (2_000, "b".to_string(), Some("B".to_string()), None)
        ]
    );
}
