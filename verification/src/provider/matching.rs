//! How well a song matches what was searched for, and how the lines of a
//! translation find theirs.
use super::{RequestModel, SearchRequest};
use crate::lyrics::{line_models, LineModel, Lyrics, LyricsLine, LyricsModel};
use crate::single::{rounded_sum, single_magnitude, sum_rounded, Single};
use crate::text::{contains, empty_text, has_part, lowercase, lowercased, same_text};
use crate::time::{distance, NANOS_PER_MILLI, Duration};
use vstd::prelude::*;

verus! {

// ---------------------------------------------------------------------------
// Quality
// ---------------------------------------------------------------------------

// Scores are counted in units of 2^-27, of which every single-precision number
// between a tenth and one is a whole number.

/// A full match of the title, 0.5.
pub const TITLE_FULL: u32 = 67_108_864;

/// A title with the wanted one in it, 0.3.
pub const TITLE_PART: u32 = 40_265_320;

/// A full match of the artist, 0.4.
pub const ARTIST_FULL: u32 = 53_687_092;

/// An artist with the wanted one in it, 0.2.
pub const ARTIST_PART: u32 = 26_843_546;

/// What counts in favour of timed lyrics, 0.1.
pub const SYNCED_BONUS: u32 = 13_421_773;

/// The largest score, 1.0.
pub const FULL_SCORE: u32 = 134_217_728;

/// What a name counts: `full` where it is the wanted one, `part` where the
/// wanted one is part of it, whatever the case of the letters.
pub open spec fn name_score(name: Seq<char>, wanted: Seq<char>, full: u32, part: u32) -> u32 {
    if lowercased(name) == lowercased(wanted) {
        full
    } else if has_part(lowercased(name), lowercased(wanted)) {
        part
    } else {
        0
    }
}

/// How well a title and an artist match a request.
pub open spec fn match_score(request: RequestModel, title: Seq<char>, artist: Seq<char>) -> nat {
    rounded_sum(
        name_score(title, request.title, TITLE_FULL, TITLE_PART) as nat,
        name_score(artist, request.artist, ARTIST_FULL, ARTIST_PART) as nat,
    )
}

/// The quality for a score: at most one.
pub open spec fn quality_of(score: nat) -> Single {
    Single {
        bits: single_magnitude(
            if score < FULL_SCORE {
                score
            } else {
                FULL_SCORE as nat
            },
            -27,
        ) as u32,
    }
}

/// What a name counts.
pub fn score_name(name: &str, wanted: &str, full: u32, part: u32) -> (r: u32)
    ensures
        r == name_score(name@, wanted@, full, part),
{
    let a = lowercase(name);
    let b = lowercase(wanted);
    if same_text(a.as_str(), b.as_str()) {
        full
    } else if contains(a.as_str(), b.as_str()) {
        part
    } else {
        0
    }
}

/// How well a title and an artist match a request.
pub fn score_match(request: &SearchRequest, title: &str, artist: &str) -> (r: u32)
    ensures
        r == match_score(request@, title@, artist@),
        r <= 0x1000_0000,
{
    let t: u32 = score_name(title, request.title.as_str(), TITLE_FULL, TITLE_PART);
    let a: u32 = score_name(artist, request.artist.as_str(), ARTIST_FULL, ARTIST_PART);
    sum_rounded(t, a)
}

/// The quality for a score: at most one.
pub fn quality_for(score: u32) -> (r: Single)
    ensures
        r == quality_of(score as nat),
{
    if score < FULL_SCORE {
        Single::scaled(score, -27)
    } else {
        Single::scaled(FULL_SCORE, -27)
    }
}

/// How well a title and an artist match a request, from nothing to one.
pub fn calculate_quality(request: &SearchRequest, title: &str, artist: &str) -> (r: Single)
    ensures
        r == quality_of(match_score(request@, title@, artist@)),
{
    quality_for(score_match(request, title, artist))
}

// ---------------------------------------------------------------------------
// Translations
// ---------------------------------------------------------------------------

/// A translation belongs to a line less than this far away, in milliseconds.
pub const TRANSLATION_TOLERANCE_MILLIS: u128 = 100;

/// The distance of a line from time `t`, in whole milliseconds.
pub open spec fn millis_apart(line: LineModel, t: nat) -> nat {
    distance(line.position, t) / (NANOS_PER_MILLI as nat)
}

/// The index of the line closest to time `t` among the first `n`; the first
/// one where several are.
pub open spec fn closest(lines: Seq<LineModel>, t: nat, n: int) -> int
    decreases n,
{
    if n <= 1 {
        0
    } else {
        let before = closest(lines, t, n - 1);
        if millis_apart(lines[n - 1], t) < millis_apart(lines[before], t) {
            n - 1
        } else {
            before
        }
    }
}

/// The lines with the text of a translated line given to the line closest to
/// it, where that is within the tolerance.
pub open spec fn with_translated(lines: Seq<LineModel>, tline: LineModel) -> Seq<LineModel> {
    let k = closest(lines, tline.position, lines.len() as int);
    if tline.content.len() > 0 && lines.len() > 0 && millis_apart(lines[k], tline.position)
        < TRANSLATION_TOLERANCE_MILLIS {
        lines.update(k, LineModel { translation: Some(tline.content), ..lines[k] })
    } else {
        lines
    }
}

/// The lines with the texts of several translated lines, one after the other.
pub open spec fn with_all_translated(lines: Seq<LineModel>, tlines: Seq<LineModel>) -> Seq<LineModel>
    decreases tlines.len(),
{
    if tlines.len() == 0 {
        lines
    } else {
        with_translated(with_all_translated(lines, tlines.drop_last()), tlines.last())
    }
}

/// The distance of a line from time `t`, in whole milliseconds.
fn millis_between(line: &LyricsLine, t: Duration) -> (r: u128)
    ensures
        r == millis_apart(line@, t@),
{
    line.position.abs_diff(t).as_millis()
}

/// The index of the line closest to time `t`.
fn closest_line(lines: &Vec<LyricsLine>, t: Duration) -> (r: usize)
    requires
        lines@.len() > 0,
    ensures
        r == closest(line_models(lines@), t@, lines@.len() as int),
        r < lines@.len(),
{
    let ghost models = line_models(lines@);
    let mut k: usize = 0;
    let mut i: usize = 1;
    while i < lines.len()
        invariant
            models == line_models(lines@),
            1 <= i <= lines@.len(),
            k < i,
            k == closest(models, t@, i as int),
        decreases lines@.len() - i,
    {
        assert(models[i as int] == lines@[i as int]@);
        assert(models[k as int] == lines@[k as int]@);
        if millis_between(&lines[i], t) < millis_between(&lines[k], t) {
            k = i;
        }
        i = i + 1;
    }
    k
}

/// Merge translation lines into the main lyrics by matching positions.
pub fn apply_translations(main: &mut Lyrics, trans: &Lyrics)
    ensures
        final(main)@ == (LyricsModel {
            lines: with_all_translated(old(main)@.lines, trans@.lines),
            ..old(main)@
        }),
{
    let ghost first = main@;
    let ghost tlines = trans@.lines;
    let mut i: usize = 0;
    assert(tlines.take(0) =~= Seq::empty());
    while i < trans.lines.len()
        invariant
            i <= trans.lines@.len(),
            tlines == line_models(trans.lines@),
            line_models(main.lines@) == with_all_translated(first.lines, tlines.take(i as int)),
            main.metadata@ == first.metadata,
            main.offset_ms == first.offset_ms,
        decreases trans.lines@.len() - i,
    {
        let ghost before = line_models(main.lines@);
        assert(tlines.take(i + 1).drop_last() =~= tlines.take(i as int));
        assert(tlines[i as int] == trans.lines@[i as int]@);
        let t = trans.lines[i].position;
        if !empty_text(trans.lines[i].content.as_str()) && main.lines.len() > 0 {
            let k = closest_line(&main.lines, t);
            assert(before[k as int] == main.lines@[k as int]@);
            if millis_between(&main.lines[k], t) < TRANSLATION_TOLERANCE_MILLIS {
                main.lines[k].translation = Some(trans.lines[i].content.clone());
                assert(line_models(main.lines@) =~= before.update(
                    k as int,
                    LineModel {
                        translation: Some(tlines[i as int].content),
                        ..before[k as int]
                    },
                ));
            }
        }
        i = i + 1;
    }
    assert(tlines.take(tlines.len() as int) =~= tlines);
}

// ---------------------------------------------------------------------------
// Laws
// ---------------------------------------------------------------------------

/// The closest line is as close as any, and the first that is.
pub proof fn law_closest(lines: Seq<LineModel>, t: nat, n: int)
    requires
        0 < n <= lines.len(),
    ensures
        0 <= closest(lines, t, n) < n,
        forall|i: int|
            0 <= i < n ==> millis_apart(lines[closest(lines, t, n)], t) <= millis_apart(
                #[trigger] lines[i],
                t,
            ),
        forall|i: int|
            0 <= i < closest(lines, t, n) ==> millis_apart(lines[closest(lines, t, n)], t)
                < millis_apart(#[trigger] lines[i], t),
    decreases n,
{
    if n > 1 {
        law_closest(lines, t, n - 1);
    }
}

/// Translating changes nothing but translations.
pub proof fn law_translating_keeps_lines(lines: Seq<LineModel>, tlines: Seq<LineModel>)
    ensures
        with_all_translated(lines, tlines).len() == lines.len(),
        forall|i: int|
            0 <= i < lines.len() ==> #[trigger] with_all_translated(lines, tlines)[i] == (LineModel {
                translation: with_all_translated(lines, tlines)[i].translation,
                ..lines[i]
            }),
    decreases tlines.len(),
{
    if tlines.len() > 0 {
        law_translating_keeps_lines(lines, tlines.drop_last());
        let before = with_all_translated(lines, tlines.drop_last());
        if before.len() > 0 {
            law_closest(before, tlines.last().position, before.len() as int);
        }
    }
}

/// A translated line goes to a line that starts less than the tolerance away,
/// and to none where there is no such line.
pub proof fn law_translation_within_tolerance(lines: Seq<LineModel>, tline: LineModel, i: int)
    requires
        0 <= i < lines.len(),
    ensures
        with_translated(lines, tline)[i] != lines[i] ==> millis_apart(lines[i], tline.position)
            < TRANSLATION_TOLERANCE_MILLIS && with_translated(lines, tline)[i].translation == Some(
            tline.content,
        ),
        (forall|k: int|
            0 <= k < lines.len() ==> millis_apart(#[trigger] lines[k], tline.position)
                >= TRANSLATION_TOLERANCE_MILLIS) ==> with_translated(lines, tline) == lines,
{
    law_closest(lines, tline.position, lines.len() as int);
}

} // verus!
