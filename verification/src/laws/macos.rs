//! Players on macOS: what a probe says, which snapshot counts, and which events
//! two of them give.
use crate::player::macos::{
    after_poll, chosen_snapshot, control_verb, diff_events, duration_expr, fields_in, first_active,
    first_pieces, first_playing, first_preferred, id_expr, poll_events, preferred_among,
    script_text, separator_at, snapshot_in, FieldsModel, SeenModel, SnapModel, Source,
};
use crate::player::{EventModel, PlaybackStatus, PlayerControl};
use crate::text::{has_part, lowercased, trimmed};
use vstd::prelude::*;

verus! {

// ---------------------------------------------------------------------------
// Events
// ---------------------------------------------------------------------------

/// Whether a position is more than 800 milliseconds from where it should be
/// half a second after a snapshot, in either direction.
pub open spec fn jumped(prev: SnapModel, position: nat) -> bool {
    let expected = if prev.status == PlaybackStatus::Playing {
        prev.position + 500_000_000
    } else {
        prev.position
    };
    position > expected + 800_000_000 || position + 800_000_000 < expected
}

/// A track with another id gives the event that it has begun, first of all; a
/// change of status is told behind it, and no seek.
pub proof fn law_other_track(prev: SnapModel, curr: SnapModel)
    requires
        prev.source == curr.source,
        prev.track.id != curr.track.id,
    ensures
        prev.status == curr.status ==> diff_events(Some(prev), Some(curr)) == seq![
            EventModel::TrackChanged(curr.track),
        ],
        prev.status != curr.status ==> diff_events(Some(prev), Some(curr)) == seq![
            EventModel::TrackChanged(curr.track),
            EventModel::PlaybackStateChanged(curr.status),
        ],
{
    let events = diff_events(Some(prev), Some(curr));
    assert(prev.status == curr.status ==> events =~= seq![EventModel::TrackChanged(curr.track)]);
    assert(prev.status != curr.status ==> events =~= seq![
        EventModel::TrackChanged(curr.track),
        EventModel::PlaybackStateChanged(curr.status),
    ]);
}

/// While the track stays, a change of status is told, and behind it a seek to
/// where the position has jumped, forward or back.
pub proof fn law_same_track(prev: SnapModel, curr: SnapModel)
    requires
        prev.source == curr.source,
        prev.track.id == curr.track.id,
    ensures
        ({
            let events = diff_events(Some(prev), Some(curr));
            let status = EventModel::PlaybackStateChanged(curr.status);
            let seek = EventModel::Seeked(curr.position);
            let jump = jumped(prev, curr.position);
            &&& prev.status == curr.status && !jump ==> events.len() == 0
            &&& prev.status == curr.status && jump ==> events == seq![seek]
            &&& prev.status != curr.status && !jump ==> events == seq![status]
            &&& prev.status != curr.status && jump ==> events == seq![status, seek]
        }),
{
    let events = diff_events(Some(prev), Some(curr));
    let status = EventModel::PlaybackStateChanged(curr.status);
    let seek = EventModel::Seeked(curr.position);
    let jump = jumped(prev, curr.position);
    assert(prev.status == curr.status && jump ==> events =~= seq![seek]);
    assert(prev.status != curr.status && !jump ==> events =~= seq![status]);
    assert(prev.status != curr.status && jump ==> events =~= seq![status, seek]);
}

/// Another app, or one where none was, gives its track and its status; one that
/// is gone gives that it has quit.
pub proof fn law_other_source(prev: SnapModel, curr: SnapModel)
    ensures
        prev.source != curr.source ==> diff_events(Some(prev), Some(curr)) == seq![
            EventModel::TrackChanged(curr.track),
            EventModel::PlaybackStateChanged(curr.status),
        ],
        diff_events(None, Some(curr)) == seq![
            EventModel::TrackChanged(curr.track),
            EventModel::PlaybackStateChanged(curr.status),
        ],
        diff_events(Some(prev), None) == seq![EventModel::PlayerQuit],
        diff_events(None, None).len() == 0,
{
}

/// A poll is compared with the one before it as soon as there has been a
/// snapshot, and always remembered.
pub proof fn law_poll(seen: SeenModel, current: Option<SnapModel>)
    ensures
        seen.seeded ==> poll_events(seen, current) == diff_events(seen.last, current),
        !seen.seeded ==> poll_events(seen, current).len() == 0,
        after_poll(seen, current).last == current,
        after_poll(seen, current).seeded == (seen.seeded || current is Some),
{
}

// ---------------------------------------------------------------------------
// Probes
// ---------------------------------------------------------------------------

proof fn lemma_separator(s: Seq<char>, sep: char, i: int, k: int)
    requires
        0 <= i <= k <= s.len(),
        k < s.len() ==> s[k] == sep,
        forall|j: int| i <= j < k ==> #[trigger] s[j] != sep,
    ensures
        separator_at(s, sep, i) == k,
    decreases k - i,
{
    if i < k {
        assert(s[i] != sep);
        lemma_separator(s, sep, i + 1, k);
    }
}

/// A piece goes up to the next separator, the rest is cut likewise, and the
/// last of the pieces wanted is all that is left.
pub proof fn law_first_pieces(s: Seq<char>, sep: char, i: int, k: int, n: nat)
    requires
        0 <= i <= k <= s.len(),
        k < s.len() ==> s[k] == sep,
        forall|j: int| i <= j < k ==> #[trigger] s[j] != sep,
    ensures
        n > 1 && k < s.len() ==> first_pieces(s, sep, i, n) == seq![s.subrange(i, k)]
            + first_pieces(s, sep, k + 1, (n - 1) as nat),
        n <= 1 || k == s.len() ==> first_pieces(s, sep, i, n) == seq![
            s.subrange(i, s.len() as int),
        ],
{
    lemma_separator(s, sep, i, k);
    assert(s.skip(i) =~= s.subrange(i, s.len() as int));
}

/// The output of a probe is eight pieces with bars between them. It says
/// something only if the first is the word that all is well, and then each
/// piece is one part of it; a missing number is zero and a missing text empty.
pub proof fn law_probe_read(raw: Seq<char>)
    ensures
        ({
            let parts = first_pieces(trimmed(raw), '|', 0, 8);
            let part = |i: int|
                if i < parts.len() {
                    parts[i]
                } else {
                    Seq::<char>::empty()
                };
            &&& parts.len() > 0
            &&& fields_in(raw) is Some == (parts[0] == "ok"@)
            &&& fields_in(raw) matches Some(f) ==> {
                &&& f.state == part(1)
                &&& f.title == part(2)
                &&& f.artist == part(3)
                &&& f.album == part(4)
                &&& f.duration_ms == if parts.len() > 5 {
                    parts[5]
                } else {
                    "0"@
                }
                &&& f.position_s == if parts.len() > 6 {
                    parts[6]
                } else {
                    "0"@
                }
                &&& f.id == part(7)
            }
        }),
{
}

/// A probe with a title or an artist is a snapshot of what it says, with the
/// position in microseconds and the duration in milliseconds.
pub proof fn law_snapshot(src: Source, f: FieldsModel, duration_ms: Option<u64>, position_us: u64)
    ensures
        f.title.len() == 0 && f.artist.len() == 0 ==> snapshot_in(
            src,
            f,
            duration_ms,
            position_us,
        ) is None,
        f.title.len() > 0 || f.artist.len() > 0 ==> snapshot_in(
            src,
            f,
            duration_ms,
            position_us,
        ) is Some,
        snapshot_in(src, f, duration_ms, position_us) matches Some(s) ==> {
            &&& s.source == src
            &&& s.position == position_us * 1_000
            &&& s.track.id == f.id
            &&& s.track.title == f.title
            &&& s.track.artist == f.artist
            &&& f.album.len() == 0 ==> s.track.album is None
            &&& f.album.len() > 0 ==> s.track.album == Some(f.album)
            &&& duration_ms is None ==> s.track.duration is None
            &&& duration_ms matches Some(ms) ==> s.track.duration == Some((ms * 1_000_000) as nat)
            &&& f.state == "playing"@ ==> s.status == PlaybackStatus::Playing
            &&& f.state == "paused"@ ==> s.status == PlaybackStatus::Paused
            &&& f.state != "playing"@ && f.state != "paused"@ ==> s.status
                == PlaybackStatus::Stopped
        },
{
    reveal_strlit("playing");
    reveal_strlit("paused");
    assert("playing"@.len() == 7 && "paused"@.len() == 6);
}

// ---------------------------------------------------------------------------
// Choosing
// ---------------------------------------------------------------------------

/// Whether an app has the preferred player's name in its own, whatever the case
/// of the letters.
pub open spec fn wanted_app(s: SnapModel, preferred: Seq<char>) -> bool {
    has_part(lowercased(s.source.name_text()), lowercased(preferred))
}

proof fn lemma_preferred(snaps: Seq<SnapModel>, preferred: Seq<char>, i: int, k: int)
    requires
        0 <= i <= k <= snaps.len(),
        forall|j: int| i <= j < k ==> !wanted_app(#[trigger] snaps[j], preferred),
        k < snaps.len() ==> wanted_app(snaps[k], preferred),
    ensures
        first_preferred(snaps, preferred, i) == if k < snaps.len() {
            Some(snaps[k])
        } else {
            None
        },
    decreases k - i,
{
    if i < k {
        assert(!wanted_app(snaps[i], preferred));
        lemma_preferred(snaps, preferred, i + 1, k);
    }
}

proof fn lemma_playing(snaps: Seq<SnapModel>, i: int, k: int)
    requires
        0 <= i <= k <= snaps.len(),
        forall|j: int| i <= j < k ==> (#[trigger] snaps[j]).status != PlaybackStatus::Playing,
        k < snaps.len() ==> snaps[k].status == PlaybackStatus::Playing,
    ensures
        first_playing(snaps, i) == if k < snaps.len() {
            Some(snaps[k])
        } else {
            None
        },
    decreases k - i,
{
    if i < k {
        assert(snaps[i].status != PlaybackStatus::Playing);
        lemma_playing(snaps, i + 1, k);
    }
}

proof fn lemma_active(snaps: Seq<SnapModel>, i: int, k: int)
    requires
        0 <= i <= k <= snaps.len(),
        forall|j: int| i <= j < k ==> (#[trigger] snaps[j]).status == PlaybackStatus::Stopped,
        k < snaps.len() ==> snaps[k].status != PlaybackStatus::Stopped,
    ensures
        first_active(snaps, i) == if k < snaps.len() {
            Some(snaps[k])
        } else {
            None
        },
    decreases k - i,
{
    if i < k {
        assert(snaps[i].status == PlaybackStatus::Stopped);
        lemma_active(snaps, i + 1, k);
    }
}

/// The first snapshot of a preferred app counts, whatever it does.
pub proof fn law_preferred_counts(snaps: Seq<SnapModel>, preferred: Seq<char>, strict: bool, k: int)
    requires
        preferred.len() > 0,
        0 <= k < snaps.len(),
        wanted_app(snaps[k], preferred),
        forall|j: int| 0 <= j < k ==> !wanted_app(#[trigger] snaps[j], preferred),
    ensures
        chosen_snapshot(snaps, preferred, strict) == Some(snaps[k]),
{
    lemma_preferred(snaps, preferred, 0, k);
}

/// Whether no snapshot is of a preferred app and another will do.
pub open spec fn any_will_do(snaps: Seq<SnapModel>, preferred: Seq<char>, strict: bool) -> bool {
    preferred.len() == 0 || (!strict && forall|j: int|
        0 <= j < snaps.len() ==> !wanted_app(#[trigger] snaps[j], preferred))
}

/// Else the first that is playing counts; where none is, the first that is not
/// stopped; and where all are stopped, none.
pub proof fn law_playing_counts(snaps: Seq<SnapModel>, preferred: Seq<char>, strict: bool, k: int)
    requires
        any_will_do(snaps, preferred, strict),
        0 <= k <= snaps.len(),
    ensures
        k < snaps.len() && snaps[k].status == PlaybackStatus::Playing && (forall|j: int|
            0 <= j < k ==> (#[trigger] snaps[j]).status != PlaybackStatus::Playing)
            ==> chosen_snapshot(snaps, preferred, strict) == Some(snaps[k]),
        k < snaps.len() && snaps[k].status != PlaybackStatus::Stopped && (forall|j: int|
            0 <= j < k ==> (#[trigger] snaps[j]).status == PlaybackStatus::Stopped) && (forall|
            j: int,
        |
            0 <= j < snaps.len() ==> (#[trigger] snaps[j]).status != PlaybackStatus::Playing)
            ==> chosen_snapshot(snaps, preferred, strict) == Some(snaps[k]),
        (forall|j: int|
            0 <= j < snaps.len() ==> (#[trigger] snaps[j]).status == PlaybackStatus::Stopped)
            ==> chosen_snapshot(snaps, preferred, strict) is None,
{
    let len = snaps.len() as int;
    if preferred.len() > 0 {
        lemma_preferred(snaps, preferred, 0, len);
    }
    if k < snaps.len() && snaps[k].status == PlaybackStatus::Playing && (forall|j: int|
        0 <= j < k ==> (#[trigger] snaps[j]).status != PlaybackStatus::Playing) {
        lemma_playing(snaps, 0, k);
    }
    if forall|j: int| 0 <= j < snaps.len() ==> (#[trigger] snaps[j]).status
        != PlaybackStatus::Playing {
        lemma_playing(snaps, 0, len);
        if k < snaps.len() && snaps[k].status != PlaybackStatus::Stopped && (forall|j: int|
            0 <= j < k ==> (#[trigger] snaps[j]).status == PlaybackStatus::Stopped) {
            lemma_active(snaps, 0, k);
        }
    }
    if forall|j: int| 0 <= j < snaps.len() ==> (#[trigger] snaps[j]).status
        == PlaybackStatus::Stopped {
        lemma_playing(snaps, 0, len);
        lemma_active(snaps, 0, len);
    }
}

/// Where only the preferred app will do and it is not there, none counts.
pub proof fn law_strict_counts(snaps: Seq<SnapModel>, preferred: Seq<char>)
    requires
        preferred.len() > 0,
        forall|j: int| 0 <= j < snaps.len() ==> !wanted_app(#[trigger] snaps[j], preferred),
    ensures
        chosen_snapshot(snaps, preferred, true) is None,
{
    lemma_preferred(snaps, preferred, 0, snaps.len() as int);
}

/// In strict mode the apps with the preferred name in theirs are probed, in
/// order.
pub proof fn law_probed(first: Seq<Source>, second: Seq<Source>, preferred: Seq<char>)
    ensures
        preferred_among(first + second, preferred) == preferred_among(first, preferred)
            + preferred_among(second, preferred),
    decreases second.len(),
{
    if second.len() == 0 {
        assert(first + second =~= first);
        assert(preferred_among(first, preferred) + preferred_among(second, preferred)
            =~= preferred_among(first, preferred));
    } else {
        assert((first + second).drop_last() =~= first + second.drop_last());
        assert((first + second).last() == second.last());
        law_probed(first, second.drop_last(), preferred);
        assert(preferred_among(first + second, preferred) =~= preferred_among(first, preferred)
            + preferred_among(second, preferred));
    }
}

/// An app alone is probed in strict mode if and only if the preferred name is
/// in its own, whatever the case of the letters.
pub proof fn law_probed_alone(s: Source, preferred: Seq<char>)
    ensures
        has_part(lowercased(s.name_text()), lowercased(preferred)) ==> preferred_among(
            seq![s],
            preferred,
        ) == seq![s],
        !has_part(lowercased(s.name_text()), lowercased(preferred)) ==> preferred_among(
            seq![s],
            preferred,
        ).len() == 0,
{
    reveal_with_fuel(preferred_among, 2);
    assert(seq![s].drop_last() =~= Seq::empty());
    assert(Seq::<Source>::empty().push(s) =~= seq![s]);
}

/// A script tells the app, by its name, what to do; a seek names the position
/// as it is written.
pub proof fn law_scripts(src: Source, verb: Seq<char>, control: PlayerControl, seconds: Seq<char>)
    ensures
        script_text(src, verb) == "tell application \""@ + src.name_text() + "\" to "@ + verb,
        control is SeekTo ==> control_verb(src, control, seconds) == "set player position to "@
            + seconds,
        !(control is SeekTo) ==> control_verb(src, control, seconds) == control_verb(
            src,
            control,
            Seq::empty(),
        ),
{
}

/// What each control tells an app; Spotify is paused where it would be stopped.
pub proof fn law_verbs(src: Source, seconds: Seq<char>)
    ensures
        control_verb(src, PlayerControl::PlayPause, seconds) == "playpause"@,
        control_verb(src, PlayerControl::Play, seconds) == "play"@,
        control_verb(src, PlayerControl::Pause, seconds) == "pause"@,
        control_verb(src, PlayerControl::Next, seconds) == "next track"@,
        control_verb(src, PlayerControl::Previous, seconds) == "previous track"@,
        control_verb(Source::Spotify, PlayerControl::Stop, seconds) == "pause"@,
        control_verb(Source::Music, PlayerControl::Stop, seconds) == "stop"@,
        Source::Spotify.name_text() == "Spotify"@,
        Source::Music.name_text() == "Music"@,
        duration_expr(Source::Spotify) == "duration of t"@,
        duration_expr(Source::Music) == "(duration of t) * 1000"@,
        id_expr(Source::Spotify) == "id of t"@,
        id_expr(Source::Music) == "persistent ID of t"@,
{
}

} // verus!
