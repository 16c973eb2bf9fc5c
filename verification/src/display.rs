//! What display backends show and ask for.
use crate::lyrics::{Lyrics, LyricsModel};
use crate::player::{copy_track, opt_track, PlaybackStatus, Track, TrackModel};
use crate::time::Duration;
use vstd::prelude::*;

verus! {

/// State snapshot sent to display backends.
#[derive(Debug)]
pub struct DisplayState {
    pub track: Option<Track>,
    pub lyrics: Option<Lyrics>,
    pub current_line_index: Option<usize>,
    pub next_line_index: Option<usize>,
    pub playback_position: Duration,
    pub status: PlaybackStatus,
    /// Current lyrics offset in milliseconds.
    pub offset_ms: i64,
}

/// A state snapshot, as plain values.
#[verifier::ext_equal]
pub struct DisplayModel {
    pub track: Option<TrackModel>,
    pub lyrics: Option<LyricsModel>,
    pub current: Option<usize>,
    pub next: Option<usize>,
    pub position: nat,
    pub status: PlaybackStatus,
    pub offset_ms: i64,
}

/// Optional lyrics, as plain values.
pub open spec fn opt_lyrics(l: Option<Lyrics>) -> Option<LyricsModel> {
    match l {
        Some(l) => Some(l@),
        None => None,
    }
}

/// A copy of optional lyrics.
pub fn copy_lyrics(l: &Option<Lyrics>) -> (r: Option<Lyrics>)
    ensures
        opt_lyrics(r) == opt_lyrics(*l),
{
    match l {
        Some(l) => Some(l.clone()),
        None => None,
    }
}

impl View for DisplayState {
    type V = DisplayModel;

    open spec fn view(&self) -> DisplayModel {
        DisplayModel {
            track: opt_track(self.track),
            lyrics: opt_lyrics(self.lyrics),
            current: self.current_line_index,
            next: self.next_line_index,
            position: self.playback_position@,
            status: self.status,
            offset_ms: self.offset_ms,
        }
    }
}

impl Clone for DisplayState {
    fn clone(&self) -> (r: Self)
        ensures
            r@ == self@,
    {
        DisplayState {
            track: copy_track(&self.track),
            lyrics: copy_lyrics(&self.lyrics),
            current_line_index: self.current_line_index,
            next_line_index: self.next_line_index,
            playback_position: self.playback_position,
            status: self.status,
            offset_ms: self.offset_ms,
        }
    }
}

/// Nothing playing.
pub open spec fn idle() -> DisplayModel {
    DisplayModel {
        track: None,
        lyrics: None,
        current: None,
        next: None,
        position: 0,
        status: PlaybackStatus::Stopped,
        offset_ms: 0,
    }
}

impl Default for DisplayState {
    fn default() -> (r: Self)
        ensures
            r@ == idle(),
    {
        DisplayState {
            track: None,
            lyrics: None,
            current_line_index: None,
            next_line_index: None,
            playback_position: Duration::zero(),
            status: PlaybackStatus::Stopped,
            offset_ms: 0,
        }
    }
}

/// Commands that can be sent to the scheduler from display backends / API.
#[derive(Debug)]
pub enum SchedulerCommand {
    /// Re-search lyrics for the current track (ignore cache).
    ResearchCurrent,
    /// Search with custom title/artist override.
    SearchCustom { title: String, artist: String },
    /// Manually set lyrics from raw LRC text.
    SetLyrics { lrc_text: String },
    /// Directly apply a parsed Lyrics object (e.g. from search candidate selection).
    ApplyLyrics { lyrics: Lyrics },
    /// Adjust lyrics offset by a delta in milliseconds (positive = lyrics earlier, negative = later).
    AdjustOffset { delta_ms: i64 },
    /// Set lyrics offset to an absolute value in milliseconds.
    SetOffset { offset_ms: i64 },
    /// Toggle play/pause.
    PlayPause,
    /// Start playback.
    Play,
    /// Pause playback.
    Pause,
    /// Stop playback.
    Stop,
    /// Skip to the next track.
    Next,
    /// Skip to the previous track.
    Previous,
    /// Seek to an absolute position in milliseconds.
    SeekTo { position_ms: u64 },
}

/// A command, as plain values.
pub enum CommandModel {
    ResearchCurrent,
    SearchCustom { title: Seq<char>, artist: Seq<char> },
    SetLyrics { lrc_text: Seq<char> },
    ApplyLyrics { lyrics: LyricsModel },
    AdjustOffset { delta_ms: i64 },
    SetOffset { offset_ms: i64 },
    PlayPause,
    Play,
    Pause,
    Stop,
    Next,
    Previous,
    SeekTo { position_ms: u64 },
}

impl View for SchedulerCommand {
    type V = CommandModel;

    open spec fn view(&self) -> CommandModel {
        match *self {
            SchedulerCommand::ResearchCurrent => CommandModel::ResearchCurrent,
            SchedulerCommand::SearchCustom { title, artist } => CommandModel::SearchCustom {
                title: title@,
                artist: artist@,
            },
            SchedulerCommand::SetLyrics { lrc_text } => CommandModel::SetLyrics {
                lrc_text: lrc_text@,
            },
            SchedulerCommand::ApplyLyrics { lyrics } => CommandModel::ApplyLyrics {
                lyrics: lyrics@,
            },
            SchedulerCommand::AdjustOffset { delta_ms } => CommandModel::AdjustOffset { delta_ms },
            SchedulerCommand::SetOffset { offset_ms } => CommandModel::SetOffset { offset_ms },
            SchedulerCommand::PlayPause => CommandModel::PlayPause,
            SchedulerCommand::Play => CommandModel::Play,
            SchedulerCommand::Pause => CommandModel::Pause,
            SchedulerCommand::Stop => CommandModel::Stop,
            SchedulerCommand::Next => CommandModel::Next,
            SchedulerCommand::Previous => CommandModel::Previous,
            SchedulerCommand::SeekTo { position_ms } => CommandModel::SeekTo { position_ms },
        }
    }
}

/// GTK4 transparent overlay display backend.
#[derive(Clone, Copy, Debug, PartialEq, Eq, Structural)]
pub struct GtkDisplay;

impl GtkDisplay {
    pub fn new() -> (r: Self)
        ensures
            r == GtkDisplay,
    {
        GtkDisplay
    }

    /// Why the overlay cannot be shown.
    pub fn unavailable(&self) -> (r: &'static str)
        ensures
            r@ == "GTK display not yet implemented"@,
    {
        "GTK display not yet implemented"
    }
}

} // verus!
