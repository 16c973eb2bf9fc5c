//! The HTTP API: what the answers say of the state, and what requests ask for.
use crate::display::{CommandModel, DisplayModel};
use crate::lyrics::{LineModel, LyricsModel};
use crate::player::{PlaybackStatus, TrackModel};
use crate::server::{
    answer_lines, control_command, control_name, current_line_valid, current_of, first_texts,
    item_of, items_of, search_for, selection, setting_lyrics, setting_offset, status_of,
    DecisionModel,
};
use crate::text::{decimal, trimmed};
use vstd::prelude::*;

verus! {

/// A span that has no more milliseconds than 64 bits hold.
pub open spec fn in_millis(nanos: nat) -> bool {
    nanos / 1_000_000 < 0x1_0000_0000_0000_0000
}

/// The status names the track, says what playback does and where it is, and
/// whether there are lyrics.
pub proof fn law_status(s: DisplayModel)
    requires
        in_millis(s.position),
    ensures
        ({
            let a = status_of(s);
            &&& s.track matches Some(t) ==> a.track_title == Some(t.title) && a.track_artist == Some(
                t.artist,
            ) && a.track_album == t.album
            &&& s.track is None ==> a.track_title is None && a.track_artist is None
                && a.track_album is None
            &&& s.status == PlaybackStatus::Playing ==> a.playback_status == "playing"@
            &&& s.status == PlaybackStatus::Paused ==> a.playback_status == "paused"@
            &&& s.status == PlaybackStatus::Stopped ==> a.playback_status == "stopped"@
            &&& a.position_ms == s.position / 1_000_000
            &&& a.has_lyrics == s.lyrics is Some
        }),
{
}

/// Every line of the lyrics is in the answer, in order, with its time in
/// milliseconds, its text and its translation.
pub proof fn law_answer_lines(lines: Seq<LineModel>, i: int)
    requires
        0 <= i < lines.len(),
        in_millis(lines[i].position),
    ensures
        answer_lines(lines).len() == lines.len(),
        answer_lines(lines)[i].position_ms == lines[i].position / 1_000_000,
        answer_lines(lines)[i].content == lines[i].content,
        answer_lines(lines)[i].translation == lines[i].translation,
{
}

/// The current line is answered with its text and translation, and with how far
/// playback is into it: the time since it began, and at most the time up to the
/// next line.
pub proof fn law_current_line(s: DisplayModel, l: LyricsModel, i: usize)
    requires
        s.lyrics == Some(l),
        s.current == Some(i),
        i < l.lines.len(),
        s.next matches Some(n) ==> n < l.lines.len(),
        in_millis(s.position),
    ensures
        ({
            let a = current_of(s);
            let line = l.lines[i as int];
            &&& a.content == Some(line.content)
            &&& a.translation == line.translation
            &&& a.position_ms == s.position / 1_000_000
            &&& s.next is None ==> a.elapsed_ms == 0 && a.span_ms == 0
            &&& s.next matches Some(n) ==> {
                let end = l.lines[n as int].position;
                &&& end >= line.position ==> a.span_ms == (end - line.position) / 1_000_000
                &&& end < line.position ==> a.span_ms == 0
                &&& line.position <= s.position <= end ==> a.elapsed_ms == (s.position
                    - line.position) / 1_000_000
                &&& s.position < line.position ==> a.elapsed_ms == 0
                &&& s.position > end ==> a.elapsed_ms == a.span_ms
            }
        }),
{
}

/// The current line can be answered where the lines shown are lines of the
/// lyrics, and always where none is shown.
pub proof fn law_current_line_known(s: DisplayModel, l: LyricsModel, i: usize)
    ensures
        s.lyrics == Some(l) && s.current == Some(i) ==> current_line_valid(s) == (i < l.lines.len()
            && (s.next is None || s.next->0 < l.lines.len())),
        s.lyrics is None || s.current is None ==> current_line_valid(s),
{
}

/// Without lyrics or without a current line nothing but the position is
/// answered.
pub proof fn law_no_current_line(s: DisplayModel)
    requires
        s.lyrics is None || s.current is None,
        in_millis(s.position),
    ensures
        ({
            let a = current_of(s);
            &&& a.content is None && a.translation is None
            &&& a.position_ms == s.position / 1_000_000
            &&& a.elapsed_ms == 0 && a.span_ms == 0
        }),
{
}

/// What counts for a field of a search: what was given unless it is empty, else
/// that of the track, else nothing.
pub open spec fn wanted(given: Option<Seq<char>>, playing: Seq<char>) -> Seq<char> {
    if given is Some && given->0.len() > 0 {
        given->0
    } else {
        playing
    }
}

/// A search is for what was given, filled up with what is playing; it needs a
/// title.
pub proof fn law_search_for(
    title: Option<Seq<char>>,
    artist: Option<Seq<char>>,
    track: Option<TrackModel>,
)
    ensures
        ({
            let t = wanted(
                title,
                if track is Some {
                    track->0.title
                } else {
                    Seq::empty()
                },
            );
            let a = wanted(
                artist,
                if track is Some {
                    track->0.artist
                } else {
                    Seq::empty()
                },
            );
            &&& t.len() == 0 ==> search_for(title, artist, track) is None
            &&& t.len() > 0 ==> search_for(title, artist, track) is Some
            &&& search_for(title, artist, track) matches Some(r) ==> r.title == t && r.artist == a
                && r.album is None && r.duration is None
        }),
{
}

/// A preview takes the texts of lines in order, leaves out those without text,
/// and ends with the lines or when it has as many as it may.
pub proof fn law_preview_lines(lines: Seq<LineModel>, i: int, n: nat)
    requires
        0 <= i < lines.len(),
    ensures
        n > 0 && lines[i].content.len() > 0 ==> first_texts(lines, i, n) == seq![lines[i].content]
            + first_texts(lines, i + 1, (n - 1) as nat),
        lines[i].content.len() == 0 ==> first_texts(lines, i, n) == first_texts(lines, i + 1, n),
        first_texts(lines, i, 0).len() == 0,
        first_texts(lines, lines.len() as int, n).len() == 0,
{
    if n == 0 {
        assert(first_texts(lines, i + 1, 0) =~= Seq::empty());
        assert(first_texts(lines, i, 0) =~= Seq::empty());
    }
}

/// Every candidate is listed, in order, with its source, title, artist,
/// quality, number of lines, and up to three lines of it.
pub proof fn law_listed(list: Seq<LyricsModel>, i: int)
    requires
        0 <= i < list.len(),
    ensures
        items_of(list).len() == list.len(),
        ({
            let a = items_of(list)[i];
            let l = list[i];
            &&& a.index == i
            &&& a.source == l.metadata.source.name_text()
            &&& a.title == l.metadata.title
            &&& a.artist == l.metadata.artist
            &&& a.quality == l.metadata.quality
            &&& a.line_count == l.lines.len()
            &&& a.preview == first_texts(l.lines, 0, 3)
        }),
{
    assert(items_of(list)[i] == item_of(i, list[i]));
}

/// A candidate is selected by its index, and applied as it stands; an index
/// beyond the candidates is refused with the number of them.
pub proof fn law_selection(results: Seq<LyricsModel>, index: usize)
    ensures
        index < results.len() ==> selection(results, index) == DecisionModel::Send(
            CommandModel::ApplyLyrics { lyrics: results[index as int] },
            "Applied lyrics candidate #"@ + decimal(index as nat),
        ),
        index >= results.len() ==> selection(results, index) == DecisionModel::Refuse(
            "Index "@ + decimal(index as nat) + " out of range, "@ + decimal(results.len())
                + " candidates available"@,
        ),
{
}

/// Lyrics are set from any text that is not blank, as it stands.
pub proof fn law_setting_lyrics(lrc: Seq<char>)
    ensures
        trimmed(lrc).len() > 0 ==> setting_lyrics(lrc) == DecisionModel::Send(
            CommandModel::SetLyrics { lrc_text: lrc },
            "Lyrics set"@,
        ),
        trimmed(lrc).len() == 0 ==> setting_lyrics(lrc) == DecisionModel::Refuse(
            "LRC text is empty"@,
        ),
{
}

/// An offset that is set counts before one that is adjusted by, whatever the
/// numbers.
pub proof fn law_setting_offset(set: i64, adjust: i64, other: Option<i64>)
    ensures
        setting_offset(Some(set), other) == DecisionModel::Send(
            CommandModel::SetOffset { offset_ms: set },
            "Offset updated"@,
        ),
        setting_offset(None, Some(adjust)) == DecisionModel::Send(
            CommandModel::AdjustOffset { delta_ms: adjust },
            "Offset updated"@,
        ),
        setting_offset(None, None) == DecisionModel::Refuse("Provide 'set' or 'adjust' field"@),
{
}

/// The path of a control endpoint names its command; a seek goes to the
/// position given, and any other path is none.
pub proof fn law_control(path: Seq<char>, position_ms: u64)
    ensures
        control_command("play-pause"@, position_ms) == Some(CommandModel::PlayPause),
        control_command("play"@, position_ms) == Some(CommandModel::Play),
        control_command("pause"@, position_ms) == Some(CommandModel::Pause),
        control_command("stop"@, position_ms) == Some(CommandModel::Stop),
        control_command("next"@, position_ms) == Some(CommandModel::Next),
        control_command("previous"@, position_ms) == Some(CommandModel::Previous),
        control_command("seek"@, position_ms) == Some(CommandModel::SeekTo { position_ms }),
        path != "play-pause"@ && path != "play"@ && path != "pause"@ && path != "stop"@ && path
            != "next"@ && path != "previous"@ && path != "seek"@ ==> control_command(
            path,
            position_ms,
        ) is None,
        control_name(CommandModel::SeekTo { position_ms }) == Some("SeekTo"@),
        control_name(CommandModel::PlayPause) == Some("PlayPause"@),
        control_name(CommandModel::Play) == Some("Play"@),
        control_name(CommandModel::Pause) == Some("Pause"@),
        control_name(CommandModel::Stop) == Some("Stop"@),
        control_name(CommandModel::Next) == Some("Next"@),
        control_name(CommandModel::Previous) == Some("Previous"@),
{
    reveal_strlit("play-pause");
    reveal_strlit("play");
    reveal_strlit("pause");
    reveal_strlit("stop");
    reveal_strlit("next");
    reveal_strlit("previous");
    reveal_strlit("seek");
    assert("play-pause"@.len() == 10 && "play"@.len() == 4 && "pause"@.len() == 5 && "stop"@.len()
        == 4 && "next"@.len() == 4 && "previous"@.len() == 8 && "seek"@.len() == 4);
    assert("play"@[0] == 'p' && "stop"@[1] == 't' && "next"@[0] == 'n' && "seek"@[1] == 'e');
    assert("stop"@[0] == 's' && "seek"@[0] == 's');
}

} // verus!
