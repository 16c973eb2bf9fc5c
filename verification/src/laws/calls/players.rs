//! Calls that watch and control players.
use crate::laws::macos::{
    jumped, law_other_source, law_other_track as law_other_snapshot,
    law_same_track as law_same_snapshot,
};
use crate::laws::mpris::{law_new_track, law_no_answer, law_same_track, law_tick};
use crate::player::macos::{
    choose_snapshot, chosen_snapshot, control_script, control_verb, enabled_sources, fields_in,
    opt_snap, parse_probe_output, probe_script, probe_text, snap_models, snapshot_in, MacOsPlayer,
    ProbeFields, Snapshot, Source,
};
use crate::player::mpris::{
    chosen_player, control_call, player_state, read_position, read_status, read_track,
    select_player, Metadata, Monitor, PlayerCall, Reading,
};
use crate::player::{
    can_interpolate, event_models, interpolate, no_player, opt_track, EventModel, PlaybackStatus,
    PlayerControl, PlayerEvent, PlayerState, Track,
};
use crate::time::{opt_nanos, Duration};
use crate::text::{opt_text, texts};
use vstd::prelude::*;

verus! {

// ---------------------------------------------------------------------------
// On the bus
// ---------------------------------------------------------------------------

/// Monitoring starts from what was read, and tells the track, where there is
/// one, and the status.
pub proof fn law_monitor_start(
    position: Duration,
    reading: Reading,
    r: (Monitor, Vec<PlayerEvent>),
)
    requires
        call_ensures(Monitor::start, (position, reading), r),
    ensures
        r.0.last_position@ == position@,
        r.0.last_status == reading.status,
        r.0.consecutive_errors == 0,
        reading.track matches Some(t) ==> r.0.last_track_id@ == t.id@,
        reading.track is None ==> r.0.last_track_id@.len() == 0,
        reading.track matches Some(t) ==> event_models(r.1@) == seq![
            EventModel::TrackChanged(t@),
            EventModel::PlaybackStateChanged(reading.status),
        ],
        reading.track is None ==> event_models(r.1@) == seq![
            EventModel::PlaybackStateChanged(reading.status),
        ],
{
    if reading.track is Some {
        assert(opt_track(reading.track) is Some);
    } else {
        assert(opt_track(reading.track) is None);
    }
}

/// A track with an id other than the one last seen is told first, also where
/// none has been seen, and is then the one last seen.
pub proof fn law_monitor_new_track(
    m: &mut Monitor,
    reading: Reading,
    t: Track,
    r: (Vec<PlayerEvent>, bool),
)
    requires
        call_ensures(Monitor::on_signal, (m, None, Some(reading)), r),
        reading.track == Some(t),
        t.id@.len() > 0,
        t.id@ != old(m).last_track_id@,
    ensures
        r.0@.len() > 0,
        r.0@[0]@ == EventModel::TrackChanged(t@),
        final(m).last_track_id@ == t.id@,
        final(m).last_status == reading.status,
        final(m).last_position@ == old(m).last_position@,
        final(m).consecutive_errors == 0,
        reading.status != old(m).last_status ==> r.0@.len() == 2 && r.0@[1]@
            == EventModel::PlaybackStateChanged(reading.status),
        reading.status == old(m).last_status ==> r.0@.len() == 1,
        !r.1,
{
    law_new_track(old(m)@, t@, reading.status);
    assert(opt_track(reading.track) == Some(t@));
    assert(event_models(r.0@).len() == r.0@.len());
    assert(event_models(r.0@)[0] == r.0@[0]@);
}

/// While the track stays only a change of the status is told.
pub proof fn law_monitor_same_track(
    m: &mut Monitor,
    reading: Reading,
    r: (Vec<PlayerEvent>, bool),
)
    requires
        call_ensures(Monitor::on_signal, (m, None, Some(reading)), r),
        reading.track matches Some(t) ==> t.id@.len() == 0 || t.id@ == old(m).last_track_id@,
    ensures
        final(m).last_track_id@ == old(m).last_track_id@,
        final(m).last_status == reading.status,
        reading.status != old(m).last_status ==> event_models(r.0@) == seq![
            EventModel::PlaybackStateChanged(reading.status),
        ],
        reading.status == old(m).last_status ==> r.0@.len() == 0,
        !r.1,
{
    law_same_track(old(m)@, opt_track(reading.track), reading.status);
    assert(event_models(r.0@).len() == r.0@.len());
}

/// A seek that the player tells of is passed on as it is, and is the position
/// last seen.
pub proof fn law_monitor_seek(
    m: &mut Monitor,
    p: Duration,
    reading: Option<Reading>,
    r: (Vec<PlayerEvent>, bool),
)
    requires
        call_ensures(Monitor::on_signal, (m, Some(p), reading), r),
    ensures
        r.0@.len() > 0,
        r.0@[0]@ == EventModel::Seeked(p@),
        final(m).last_position@ == p@,
{
    assert(event_models(r.0@)[0] == r.0@[0]@);
}

/// A poll that finds the position more than two seconds away, forward or back,
/// tells of a seek to it before all else; any other tells of none.
pub proof fn law_monitor_tick(
    m: &mut Monitor,
    p: Duration,
    reading: Option<Reading>,
    r: (Vec<PlayerEvent>, bool),
)
    requires
        call_ensures(Monitor::on_tick, (m, p, reading), r),
    ensures
        final(m).last_position@ == p@,
        p@ > old(m).last_position@ + 2_000_000_000 || p@ + 2_000_000_000 < old(m).last_position@
            ==> r.0@.len() > 0 && r.0@[0]@ == EventModel::Seeked(p@),
        p@ <= old(m).last_position@ + 2_000_000_000 && old(m).last_position@ <= p@ + 2_000_000_000
            ==> forall|k: int| 0 <= k < r.0@.len() ==> !((#[trigger] r.0@[k])@ is Seeked),
        reading is None ==> final(m).last_status == old(m).last_status
            && final(m).last_track_id@ == old(m).last_track_id@,
{
    let model = crate::player::mpris::reading_model(reading);
    law_tick(old(m)@, p@, model);
    let events = event_models(r.0@);
    assert(events.len() == r.0@.len());
    assert forall|k: int| 0 <= k < r.0@.len() implies events[k] == (#[trigger] r.0@[k])@ by {}
    if r.0@.len() > 0 {
        assert(events[0] == r.0@[0]@);
    }
}

/// A player that does not answer tells nothing, and is gone with the fifth time
/// in a row.
pub proof fn law_monitor_silence(m: &mut Monitor, r: (Vec<PlayerEvent>, bool))
    requires
        call_ensures(Monitor::on_signal, (m, None, None), r),
    ensures
        r.0@.len() == 0,
        old(m).consecutive_errors < 5 ==> final(m).consecutive_errors == old(m).consecutive_errors
            + 1,
        r.1 == (old(m).consecutive_errors + 1 >= 5),
        final(m).last_track_id@ == old(m).last_track_id@,
        final(m).last_status == old(m).last_status,
        final(m).last_position@ == old(m).last_position@,
{
    law_no_answer(old(m)@);
    assert(event_models(r.0@).len() == r.0@.len());
}

/// What is read of a player: its status, its position in microseconds, and its
/// track from the metadata.
pub proof fn law_read(
    metadata: Metadata,
    us: i64,
    none: Option<Track>,
    track: Option<Track>,
    position: Duration,
    missing: Duration,
)
    requires
        call_ensures(read_track, (Some(metadata),), track),
        call_ensures(read_track, (None,), none),
        call_ensures(read_position, (Some(us),), position),
        call_ensures(read_position, (None,), missing),
    ensures
        opt_track(track) == crate::player::mpris::track_in(metadata),
        none is None,
        us >= 0 ==> position@ == us * 1_000,
        us < 0 ==> position@ == 0,
        missing@ == 0,
{
}

/// The status is what the player calls it.
pub proof fn law_read_status(word: String, r: PlaybackStatus, missing: PlaybackStatus)
    requires
        call_ensures(read_status, (Some(word),), r),
        call_ensures(read_status, (None,), missing),
    ensures
        word@ == "Playing"@ ==> r == PlaybackStatus::Playing,
        word@ == "Paused"@ ==> r == PlaybackStatus::Paused,
        word@ != "Playing"@ && word@ != "Paused"@ ==> r == PlaybackStatus::Stopped,
        missing == PlaybackStatus::Stopped,
{
    crate::laws::mpris::law_status(word@);
}

/// The state of a player is what was read of it.
pub proof fn law_player_state(
    name: &str,
    track: Option<Track>,
    status: PlaybackStatus,
    position: Duration,
    r: PlayerState,
)
    requires
        call_ensures(player_state, (name, track, status, position), r),
    ensures
        r.status == status,
        r.position@ == position@,
        opt_track(r.track) == opt_track(track),
        r.player_name@ == crate::player::mpris::without_prefix(
            name@,
            "org.mpris.MediaPlayer2."@,
        ),
{
}

/// A control calls the method of its name; a seek names the track and the
/// position in whole microseconds.
pub proof fn law_control_call(p: Duration, us: nat, rest: nat, id: &str, seek: PlayerCall)
    requires
        call_ensures(control_call, (PlayerControl::SeekTo(p), id), seek),
        p@ == us * 1_000 + rest,
        rest < 1_000,
        us <= i64::MAX,
    ensures
        seek is SetPosition,
        seek->SetPosition_0@ == id@,
        seek->SetPosition_1 == us,
{
}

// ---------------------------------------------------------------------------
// Positions
// ---------------------------------------------------------------------------

/// A position moves on with time while playing, as far as it is a span.
pub proof fn law_interpolate(
    status: PlaybackStatus,
    p: Duration,
    elapsed: Duration,
    fits: bool,
    r: Duration,
)
    requires
        call_ensures(can_interpolate, (status, p, elapsed), fits),
        call_ensures(interpolate, (status, p, elapsed), r),
    ensures
        fits == ((if status == PlaybackStatus::Playing {
            p@ + elapsed@
        } else {
            p@
        }) <= 18_446_744_073_709_551_615_999_999_999),
        status == PlaybackStatus::Playing ==> r@ == p@ + elapsed@,
        status != PlaybackStatus::Playing ==> r@ == p@,
{
}

/// Without a player nothing plays.
pub proof fn law_no_player(r: PlayerState)
    requires
        call_ensures(no_player, (), r),
    ensures
        r.status == PlaybackStatus::Stopped,
        r.position@ == 0,
        r.track is None,
        r.player_name@.len() == 0,
{
    assert(opt_track(r.track) is None);
}

// ---------------------------------------------------------------------------
// On macOS
// ---------------------------------------------------------------------------

/// All apps are probed, unless only the preferred ones will do.
pub proof fn law_enabled_sources(preferred: &str, strict: bool, r: Vec<Source>)
    requires
        call_ensures(enabled_sources, (preferred, strict), r),
    ensures
        !strict || preferred@.len() == 0 ==> r@ == seq![Source::Spotify, Source::Music],
        strict && preferred@.len() > 0 ==> r@ == crate::player::macos::preferred_among(
            seq![Source::Spotify, Source::Music],
            preferred@,
        ),
{
}

/// The backend starts stopped, with nothing seen.
pub proof fn law_macos_new(preferred: &str, strict: bool, now: Duration, r: MacOsPlayer)
    requires
        call_ensures(MacOsPlayer::new, (preferred, strict, now), r),
    ensures
        r.preferred_player@ == preferred@,
        r.strict == strict,
        r.interp.status == PlaybackStatus::Stopped,
        r.interp.last_position@ == 0,
        r.interp.sampled_at == now,
        r.last is None,
        !r.seeded,
{
}

/// The state of an app is that of its snapshot.
pub proof fn law_macos_state(s: Snapshot, r: PlayerState, none: PlayerState)
    requires
        call_ensures(MacOsPlayer::current_state, (Some(s),), r),
        call_ensures(MacOsPlayer::current_state, (None,), none),
    ensures
        r.status == s.status,
        r.position@ == s.position@,
        opt_track(r.track) == Some(s.track@),
        r.player_name@ == s.source.name_text(),
        none.status == PlaybackStatus::Stopped,
        none.position@ == 0,
        opt_track(none.track) is None,
        none.player_name@.len() == 0,
{
}

/// Between polls the position moves on from the last sample while playing.
pub proof fn law_macos_position(p: &MacOsPlayer, now: Duration, r: Duration)
    requires
        call_ensures(MacOsPlayer::position, (p, now), r),
    ensures
        p.interp.status == PlaybackStatus::Playing && now@ >= p.interp.sampled_at@ ==> r@
            == p.interp.last_position@ + (now@ - p.interp.sampled_at@),
        p.interp.status != PlaybackStatus::Playing || now@ < p.interp.sampled_at@ ==> r@
            == p.interp.last_position@,
{
}

/// A poll is remembered, and is what the position goes by where an app was
/// found.
pub proof fn law_macos_poll(
    p: &mut MacOsPlayer,
    current: Option<Snapshot>,
    now: Duration,
    r: Vec<PlayerEvent>,
)
    requires
        call_ensures(MacOsPlayer::on_poll, (p, current, now), r),
    ensures
        final(p).last == current,
        final(p).seeded == (old(p).seeded || current is Some),
        current matches Some(s) ==> final(p).interp.status == s.status
            && final(p).interp.last_position == s.position && final(p).interp.sampled_at == now,
        current is None ==> final(p).interp == old(p).interp,
        final(p).preferred_player == old(p).preferred_player,
        final(p).strict == old(p).strict,
        !old(p).seeded ==> r@.len() == 0,
{
    assert(final(p).seen().seeded == final(p).seeded);
    assert(event_models(r@).len() == r@.len());
    if current is Some {
        assert(opt_snap(current) is Some);
    } else {
        assert(opt_snap(current) is None);
    }
}

/// The events of a poll: a track with another id, a change of status, a jump of
/// the position forward or back, in this order; a seek never with a new track.
pub proof fn law_macos_events(
    p: &mut MacOsPlayer,
    prev: Snapshot,
    curr: Snapshot,
    now: Duration,
    r: Vec<PlayerEvent>,
)
    requires
        call_ensures(MacOsPlayer::on_poll, (p, Some(curr), now), r),
        old(p).seeded,
        old(p).last == Some(prev),
    ensures
        prev.source != curr.source || prev.track.id@ != curr.track.id@ ==> r@.len() > 0 && r@[0]@
            == EventModel::TrackChanged(curr.track@),
        prev.source == curr.source && prev.track.id@ == curr.track.id@ && jumped(
            prev@,
            curr.position@,
        ) ==> r@.len() > 0 && r@.last()@ == EventModel::Seeked(curr.position@),
        prev.source == curr.source && prev.track.id@ == curr.track.id@ && !jumped(
            prev@,
            curr.position@,
        ) && prev.status == curr.status ==> r@.len() == 0,
        prev.source == curr.source && prev.track.id@ == curr.track.id@ && prev.status != curr.status
            ==> r@.len() > 0 && r@[0]@ == EventModel::PlaybackStateChanged(curr.status),
{
    let events = event_models(r@);
    assert(opt_snap(old(p).last) == Some(prev@));
    assert(events.len() == r@.len());
    assert forall|k: int| 0 <= k < r@.len() implies events[k] == (#[trigger] r@[k])@ by {}
    if prev.source != curr.source {
        law_other_source(prev@, curr@);
    } else if prev.track.id@ != curr.track.id@ {
        law_other_snapshot(prev@, curr@);
    } else {
        law_same_snapshot(prev@, curr@);
    }
}

/// What a probe puts out is read field by field, and makes a snapshot.
pub proof fn law_probe(
    raw: &str,
    r: Option<ProbeFields>,
    f: ProbeFields,
    src: Source,
    duration_ms: Option<u64>,
    position_us: u64,
    s: Option<Snapshot>,
)
    requires
        call_ensures(parse_probe_output, (raw,), r),
        call_ensures(ProbeFields::snapshot, (f, src, duration_ms, position_us), s),
    ensures
        r is Some == fields_in(raw@) is Some,
        r matches Some(fields) ==> fields_in(raw@) == Some(fields@),
        opt_snap(s) == snapshot_in(src, f@, duration_ms, position_us),
        s matches Some(snap) ==> snap.source == src && snap.position@ == position_us * 1_000
            && snap.track.id@ == f.id@ && snap.track.title@ == f.title@ && snap.track.artist@
            == f.artist@,
{
    crate::laws::macos::law_snapshot(src, f@, duration_ms, position_us);
    if let Some(snap) = s {
        assert(opt_snap(s) == Some(snap@));
    }
}

/// A player, or a snapshot, is chosen from what is there.
pub proof fn law_chosen(
    names: &Vec<String>,
    snaps: &Vec<Snapshot>,
    preferred: &str,
    strict: bool,
    name: Option<String>,
    snap: Option<Snapshot>,
)
    requires
        call_ensures(select_player, (names, preferred, strict), name),
        call_ensures(choose_snapshot, (snaps, preferred, strict), snap),
    ensures
        opt_text(name) == chosen_player(texts(names@), preferred@, strict),
        opt_snap(snap) == chosen_snapshot(snap_models(snaps@), preferred@, strict),
{
}

/// Scripts tell the app what the control says, and ask it for what it plays.
pub proof fn law_scripts_made(
    src: Source,
    control: PlayerControl,
    seconds: &str,
    told: String,
    asked: String,
)
    requires
        call_ensures(control_script, (src, control, seconds), told),
        call_ensures(probe_script, (src,), asked),
    ensures
        told@ == "tell application \""@ + src.name_text() + "\" to "@ + control_verb(
            src,
            control,
            seconds@,
        ),
        asked@ == probe_text(src),
{
}

/// Tracks are the same where all their parts are.
pub proof fn law_same_tracks(a: &Track, b: &Track, r: bool)
    requires
        call_ensures(Track::same, (a, b), r),
    ensures
        r == (a.id@ == b.id@ && a.title@ == b.title@ && a.artist@ == b.artist@ && opt_text(a.album)
            == opt_text(b.album) && opt_nanos(a.duration) == opt_nanos(b.duration)),
{
}

/// Positions can be told and predicted as long as they are spans.
pub proof fn law_macos_fits(p: &MacOsPlayer, now: Duration, fits: bool, predicts: bool)
    requires
        call_ensures(MacOsPlayer::position_fits, (p, now), fits),
        call_ensures(MacOsPlayer::can_predict, (p,), predicts),
    ensures
        p.interp.status == PlaybackStatus::Playing && now@ >= p.interp.sampled_at@ ==> fits == (
        p.interp.last_position@ + (now@ - p.interp.sampled_at@)
            <= 18_446_744_073_709_551_615_999_999_999),
        p.interp.status != PlaybackStatus::Playing ==> fits == (p.interp.last_position@
            <= 18_446_744_073_709_551_615_999_999_999),
        p.last is None ==> predicts,
        p.last matches Some(s) ==> predicts == ((if s.status == PlaybackStatus::Playing {
            s.position@ + 500_000_000
        } else {
            s.position@
        }) <= 18_446_744_073_709_551_615_999_999_999),
{
    if let Some(s) = p.last {
        assert(opt_snap(p.last) == Some(s@));
    } else {
        assert(opt_snap(p.last) is None);
    }
}

} // verus!
