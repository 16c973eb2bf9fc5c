//! Music players: what they play and what they report.
pub mod macos;
pub mod mpris;

use crate::text::{copy_opt, opt_text, same_opt, same_text};
use crate::time::{opt_nanos, same_span, MAX_NANOS, Duration};
use vstd::prelude::*;

verus! {

/// Information about the currently playing track.
#[derive(Debug)]
pub struct Track {
    /// Unique identifier (e.g. MPRIS trackid).
    pub id: String,
    pub title: String,
    pub artist: String,
    pub album: Option<String>,
    pub duration: Option<Duration>,
}

/// A track, as plain values.
#[verifier::ext_equal]
pub struct TrackModel {
    pub id: Seq<char>,
    pub title: Seq<char>,
    pub artist: Seq<char>,
    pub album: Option<Seq<char>>,
    pub duration: Option<nat>,
}

impl View for Track {
    type V = TrackModel;

    open spec fn view(&self) -> TrackModel {
        TrackModel {
            id: self.id@,
            title: self.title@,
            artist: self.artist@,
            album: opt_text(self.album),
            duration: opt_nanos(self.duration),
        }
    }
}

impl Clone for Track {
    fn clone(&self) -> (r: Self)
        ensures
            r@ == self@,
    {
        Track {
            id: self.id.clone(),
            title: self.title.clone(),
            artist: self.artist.clone(),
            album: copy_opt(&self.album),
            duration: self.duration,
        }
    }
}

impl Track {
    /// Whether all the fields of the two tracks are equal.
    pub fn same(&self, other: &Track) -> (r: bool)
        ensures
            r == (self@ == other@),
    {
        same_text(self.id.as_str(), other.id.as_str()) && same_text(
            self.title.as_str(),
            other.title.as_str(),
        ) && same_text(self.artist.as_str(), other.artist.as_str()) && same_opt(
            &self.album,
            &other.album,
        ) && same_span(&self.duration, &other.duration)
    }
}

/// An optional track, as plain values.
pub open spec fn opt_track(t: Option<Track>) -> Option<TrackModel> {
    match t {
        Some(t) => Some(t@),
        None => None,
    }
}

/// A copy of an optional track.
pub fn copy_track(t: &Option<Track>) -> (r: Option<Track>)
    ensures
        opt_track(r) == opt_track(*t),
{
    match t {
        Some(t) => Some(t.clone()),
        None => None,
    }
}

/// Playback status of the music player.
#[derive(Clone, Copy, Debug, PartialEq, Eq, Structural)]
pub enum PlaybackStatus {
    Playing,
    Paused,
    Stopped,
}

/// Full snapshot of the player's current state.
#[derive(Debug)]
pub struct PlayerState {
    pub status: PlaybackStatus,
    pub position: Duration,
    pub track: Option<Track>,
    /// Name of the player application (e.g. "Spotify", "Firefox").
    pub player_name: String,
}

/// A player's state, as plain values.
#[verifier::ext_equal]
pub struct PlayerStateModel {
    pub status: PlaybackStatus,
    pub position: nat,
    pub track: Option<TrackModel>,
    pub player_name: Seq<char>,
}

impl View for PlayerState {
    type V = PlayerStateModel;

    open spec fn view(&self) -> PlayerStateModel {
        PlayerStateModel {
            status: self.status,
            position: self.position@,
            track: opt_track(self.track),
            player_name: self.player_name@,
        }
    }
}

/// Events emitted by a player backend.
#[derive(Debug)]
pub enum PlayerEvent {
    TrackChanged(Track),
    PlaybackStateChanged(PlaybackStatus),
    /// Emitted when the user seeks to a new position.
    Seeked(Duration),
    /// Player application was closed.
    PlayerQuit,
}

/// An event, as plain values.
pub enum EventModel {
    TrackChanged(TrackModel),
    PlaybackStateChanged(PlaybackStatus),
    Seeked(nat),
    PlayerQuit,
}

impl View for PlayerEvent {
    type V = EventModel;

    open spec fn view(&self) -> EventModel {
        match *self {
            PlayerEvent::TrackChanged(t) => EventModel::TrackChanged(t@),
            PlayerEvent::PlaybackStateChanged(s) => EventModel::PlaybackStateChanged(s),
            PlayerEvent::Seeked(p) => EventModel::Seeked(p@),
            PlayerEvent::PlayerQuit => EventModel::PlayerQuit,
        }
    }
}

/// What a player can be asked to do.
#[derive(Clone, Copy, Debug, PartialEq, Eq, Structural)]
pub enum PlayerControl {
    PlayPause,
    Play,
    Pause,
    Stop,
    Next,
    Previous,
    /// Seek to an absolute position.
    SeekTo(Duration),
}

/// The playback position some time after it was last known: it moves on while
/// a track is playing.
pub open spec fn moved_on(status: PlaybackStatus, position: nat, elapsed: nat) -> nat {
    if status == PlaybackStatus::Playing {
        position + elapsed
    } else {
        position
    }
}

/// The estimated current playback position (interpolated).
pub fn interpolate(status: PlaybackStatus, position: Duration, elapsed: Duration) -> (r: Duration)
    requires
        moved_on(status, position@, elapsed@) <= MAX_NANOS,
    ensures
        r@ == moved_on(status, position@, elapsed@),
{
    match status {
        PlaybackStatus::Playing => position.saturating_add(elapsed),
        _ => position,
    }
}

/// Whether the interpolated position still is a span of time.
pub fn can_interpolate(status: PlaybackStatus, position: Duration, elapsed: Duration) -> (r: bool)
    ensures
        r == (moved_on(status, position@, elapsed@) <= MAX_NANOS),
{
    match status {
        PlaybackStatus::Playing => position.as_nanos() + elapsed.as_nanos() <= MAX_NANOS,
        _ => position.as_nanos() <= MAX_NANOS,
    }
}

/// The state where no player runs.
pub fn no_player() -> (r: PlayerState)
    ensures
        r@ == (PlayerStateModel {
            status: PlaybackStatus::Stopped,
            position: 0,
            track: None,
            player_name: Seq::empty(),
        }),
{
    PlayerState {
        status: PlaybackStatus::Stopped,
        position: Duration::zero(),
        track: None,
        player_name: String::new(),
    }
}

/// Events, as plain values.
pub open spec fn event_models(v: Seq<PlayerEvent>) -> Seq<EventModel> {
    v.map_values(|e: PlayerEvent| e@)
}

/// Appends an event.
pub fn push_event(out: &mut Vec<PlayerEvent>, e: PlayerEvent)
    ensures
        event_models(final(out)@) == event_models(old(out)@).push(e@),
{
    let ghost before = out@;
    let ghost model = e@;
    out.push(e);
    assert(event_models(out@) =~= event_models(before).push(model));
}

/// No events.
pub fn no_events() -> (r: Vec<PlayerEvent>)
    ensures
        event_models(r@) == Seq::<EventModel>::empty(),
{
    let r: Vec<PlayerEvent> = Vec::new();
    assert(event_models(r@) =~= Seq::<EventModel>::empty());
    r
}

} // verus!
