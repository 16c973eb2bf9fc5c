//! The lyrics lifecycle: which lyrics belong to the track that is playing,
//! which line is current, and when the next one is due.
//!
//! Every step takes the reading of a clock that starts at zero and never goes
//! back, changes the state, and returns what the caller has to do: run a
//! search, store lyrics in the cache, control the player, publish a snapshot.
use crate::display::{
    copy_lyrics, idle, opt_lyrics, CommandModel, DisplayModel, DisplayState, SchedulerCommand,
};
use crate::lyrics::laws::{law_lookup_advances, law_wait_reaches_next_line};
use crate::lyrics::lrc::{self, lrc_lyrics};
use crate::lyrics::{
    adjusted_time, in_order, lemma_started_count, lines_found, shown_from, wait_for, Lyrics,
    LyricsModel,
};
use crate::player::{
    EventModel, PlaybackStatus, PlayerControl, PlayerEvent, PlayerState, PlayerStateModel, Track,
    TrackModel,
};
use crate::provider::{RequestModel, SearchRequest};
use crate::text::{copy_opt, empty_text, same_text};
use crate::time::{capped_sum, floored_difference, opt_nanos, MAX_NANOS, NANOS_PER_MILLI, Duration};
use vstd::prelude::*;

verus! {

/// How often the playback position is published while a track is playing, in
/// milliseconds.
pub const POSITION_INTERVAL_MILLIS: u64 = 500;

/// A background search to run, tagged with the track that it is for.
#[derive(Debug)]
pub struct SearchOrder {
    pub track_id: String,
    pub request: SearchRequest,
}

/// A search to run, as plain values.
#[verifier::ext_equal]
pub struct OrderModel {
    pub track_id: Seq<char>,
    pub request: RequestModel,
}

impl View for SearchOrder {
    type V = OrderModel;

    open spec fn view(&self) -> OrderModel {
        OrderModel { track_id: self.track_id@, request: self.request@ }
    }
}

/// Lyrics to store in the cache under a title and an artist.
#[derive(Debug)]
pub struct CacheEntry {
    pub title: String,
    pub artist: String,
    pub lyrics: Lyrics,
}

/// Lyrics to store, as plain values.
#[verifier::ext_equal]
pub struct EntryModel {
    pub title: Seq<char>,
    pub artist: Seq<char>,
    pub lyrics: LyricsModel,
}

impl View for CacheEntry {
    type V = EntryModel;

    open spec fn view(&self) -> EntryModel {
        EntryModel { title: self.title@, artist: self.artist@, lyrics: self.lyrics@ }
    }
}

/// What a command asks of the caller.
#[derive(Debug)]
pub enum Action {
    Nothing,
    Search(SearchOrder),
    Store(CacheEntry),
    Control(PlayerControl),
}

/// What a command asks of the caller, as plain values.
pub enum ActionModel {
    Nothing,
    Search(OrderModel),
    Store(EntryModel),
    PlayPause,
    Play,
    Pause,
    Stop,
    Next,
    Previous,
    SeekTo(nat),
}

impl View for Action {
    type V = ActionModel;

    open spec fn view(&self) -> ActionModel {
        match *self {
            Action::Nothing => ActionModel::Nothing,
            Action::Search(o) => ActionModel::Search(o@),
            Action::Store(e) => ActionModel::Store(e@),
            Action::Control(PlayerControl::PlayPause) => ActionModel::PlayPause,
            Action::Control(PlayerControl::Play) => ActionModel::Play,
            Action::Control(PlayerControl::Pause) => ActionModel::Pause,
            Action::Control(PlayerControl::Stop) => ActionModel::Stop,
            Action::Control(PlayerControl::Next) => ActionModel::Next,
            Action::Control(PlayerControl::Previous) => ActionModel::Previous,
            Action::Control(PlayerControl::SeekTo(p)) => ActionModel::SeekTo(p@),
        }
    }
}

/// How a background search ended.
#[derive(Debug)]
pub enum SearchOutcome {
    Found(Lyrics),
    NotFound,
    Failed,
}

/// Result of a background lyrics search, tagged with the track it was for so
/// that stale results from rapid track switches can be dropped.
#[derive(Debug)]
pub struct LyricsSearchResult {
    pub track_id: String,
    pub title: String,
    pub artist: String,
    pub outcome: SearchOutcome,
}

/// How a background search ended, as plain values.
pub enum OutcomeModel {
    Found(LyricsModel),
    NotFound,
    Failed,
}

impl View for SearchOutcome {
    type V = OutcomeModel;

    open spec fn view(&self) -> OutcomeModel {
        match *self {
            SearchOutcome::Found(l) => OutcomeModel::Found(l@),
            SearchOutcome::NotFound => OutcomeModel::NotFound,
            SearchOutcome::Failed => OutcomeModel::Failed,
        }
    }
}

/// A search result, as plain values.
#[verifier::ext_equal]
pub struct ResultModel {
    pub track_id: Seq<char>,
    pub title: Seq<char>,
    pub artist: Seq<char>,
    pub outcome: OutcomeModel,
}

impl View for LyricsSearchResult {
    type V = ResultModel;

    open spec fn view(&self) -> ResultModel {
        ResultModel {
            track_id: self.track_id@,
            title: self.title@,
            artist: self.artist@,
            outcome: self.outcome@,
        }
    }
}

/// Core scheduler that orchestrates the lyrics lifecycle.
#[derive(Debug)]
pub struct Scheduler {
    pub state: DisplayState,
    /// When the playback position was last brought up to date.
    pub last_position_update: Duration,
    /// When the next line is due.
    pub line_timer: Option<Duration>,
}

/// A scheduler, as plain values.
#[verifier::ext_equal]
pub struct SchedulerModel {
    pub state: DisplayModel,
    pub last_update: nat,
    pub timer: Option<nat>,
}

impl View for Scheduler {
    type V = SchedulerModel;

    open spec fn view(&self) -> SchedulerModel {
        SchedulerModel {
            state: self.state@,
            last_update: self.last_position_update@,
            timer: opt_nanos(self.line_timer),
        }
    }
}

// ---------------------------------------------------------------------------
// Position, current line, timer, snapshot
// ---------------------------------------------------------------------------

/// Whether the playback position at time `now` still is a span of time.
pub open spec fn position_in_range(m: SchedulerModel, now: nat) -> bool {
    m.state.status == PlaybackStatus::Playing ==> m.state.position + floored_difference(
        now,
        m.last_update,
    ) <= MAX_NANOS
}

/// While a track is playing, its position advances with the clock.
pub open spec fn advanced(m: SchedulerModel, now: nat) -> SchedulerModel {
    if m.state.status == PlaybackStatus::Playing {
        SchedulerModel {
            state: DisplayModel {
                position: m.state.position + floored_difference(now, m.last_update),
                ..m.state
            },
            last_update: now,
            ..m
        }
    } else {
        m
    }
}

/// The state with the current and the next line looked up for the playback
/// position. Without lyrics nothing changes.
pub open spec fn located(state: DisplayModel) -> DisplayModel {
    match state.lyrics {
        Some(l) => {
            let found = lines_found(l.lines, adjusted_time(state.position, l.offset_ms));
            DisplayModel { current: found.0, next: found.1, ..state }
        },
        None => state,
    }
}

/// When a timer set at `now` for a line that is `wait` away fires; a line that
/// is due already needs no timer.
pub open spec fn deadline(now: nat, wait: Option<nat>) -> Option<nat> {
    match wait {
        Some(w) => if w > 0 {
            Some(capped_sum(now, w))
        } else {
            None
        },
        None => None,
    }
}

/// When the next line is due: only while a track with lyrics is playing.
pub open spec fn due(state: DisplayModel, now: nat) -> Option<nat> {
    match (state.status, state.lyrics) {
        (PlaybackStatus::Playing, Some(l)) => deadline(
            now,
            wait_for(l.lines, state.position, l.offset_ms),
        ),
        _ => None,
    }
}

/// The snapshot that is published: the offset shown is that of the lyrics.
pub open spec fn published(state: DisplayModel) -> DisplayModel {
    DisplayModel {
        offset_ms: match state.lyrics {
            Some(l) => l.offset_ms,
            None => 0,
        },
        ..state
    }
}

/// The scheduler with the current line looked up, the timer set and the
/// snapshot published.
pub open spec fn refreshed(m: SchedulerModel, now: nat) -> SchedulerModel {
    SchedulerModel {
        state: published(located(m.state)),
        timer: due(located(m.state), now),
        ..m
    }
}

impl Scheduler {
    /// A scheduler with nothing playing.
    pub fn new() -> (r: Self)
        ensures
            r@ == (SchedulerModel { state: idle(), last_update: 0, timer: None }),
    {
        Scheduler {
            state: DisplayState::default(),
            last_position_update: Duration::zero(),
            line_timer: None,
        }
    }

    /// Whether the playback position at time `now` still is a span of time.
    pub fn position_fits(&self, now: Duration) -> (r: bool)
        ensures
            r == position_in_range(self@, now@),
    {
        match self.state.status {
            PlaybackStatus::Playing => {
                let elapsed = now.saturating_sub(self.last_position_update);
                self.state.playback_position.as_nanos() + elapsed.as_nanos() <= MAX_NANOS
            },
            _ => true,
        }
    }

    /// Advance playback position based on elapsed real time.
    pub fn advance_position(&mut self, now: Duration)
        requires
            position_in_range(old(self)@, now@),
        ensures
            final(self)@ == advanced(old(self)@, now@),
    {
        match self.state.status {
            PlaybackStatus::Playing => {
                let elapsed = now.saturating_sub(self.last_position_update);
                self.state.playback_position = self.state.playback_position.saturating_add(elapsed);
                self.last_position_update = now;
            },
            _ => {},
        }
    }

    /// Look up the current and the next line for the playback position.
    pub fn update_line_index(&mut self)
        ensures
            final(self)@ == (SchedulerModel { state: located(old(self)@.state), ..old(self)@ }),
    {
        if let Some(lyrics) = &self.state.lyrics {
            let (current, next) = lyrics.line_at(self.state.playback_position);
            self.state.current_line_index = current;
            self.state.next_line_index = next;
        }
    }

    /// When the next line is due, while a track is playing.
    pub fn schedule_next_line(&self, now: Duration) -> (r: Option<Duration>)
        ensures
            opt_nanos(r) == due(self@.state, now@),
    {
        match self.state.status {
            PlaybackStatus::Playing => {},
            _ => return None,
        }
        match &self.state.lyrics {
            Some(lyrics) => match lyrics.time_to_next_line(self.state.playback_position) {
                Some(wait) => if wait.is_zero() {
                    None
                } else {
                    Some(now.saturating_add(wait))
                },
                None => None,
            },
            None => None,
        }
    }

    /// The snapshot to publish.
    pub fn broadcast(&mut self) -> (r: DisplayState)
        ensures
            r@ == published(old(self)@.state),
            final(self)@ == (SchedulerModel { state: published(old(self)@.state), ..old(self)@ }),
    {
        self.state.offset_ms = match &self.state.lyrics {
            Some(l) => l.offset_ms,
            None => 0,
        };
        self.state.clone()
    }

    /// Look up the current line, set the timer for the next one, and publish.
    pub fn refresh(&mut self, now: Duration) -> (r: DisplayState)
        ensures
            final(self)@ == refreshed(old(self)@, now@),
            r@ == final(self)@.state,
    {
        self.update_line_index();
        self.line_timer = self.schedule_next_line(now);
        self.broadcast()
    }
}

// ---------------------------------------------------------------------------
// Tracks and player events
// ---------------------------------------------------------------------------

/// The search for the lyrics of a track.
pub open spec fn track_search(t: TrackModel) -> OrderModel {
    OrderModel {
        track_id: t.id,
        request: RequestModel {
            title: t.title,
            artist: t.artist,
            album: t.album,
            duration: t.duration,
        },
    }
}

/// An optional search, as plain values.
pub open spec fn opt_order(o: Option<SearchOrder>) -> Option<OrderModel> {
    match o {
        Some(o) => Some(o@),
        None => None,
    }
}

/// The state with the lyrics that the cache holds for a new track.
pub open spec fn with_cached(state: DisplayModel, cached: Option<LyricsModel>) -> DisplayModel {
    DisplayModel { lyrics: cached, current: None, next: None, ..state }
}

/// The state once the player has been found.
pub open spec fn started(
    state: DisplayModel,
    initial: PlayerStateModel,
    cached: Option<LyricsModel>,
) -> DisplayModel {
    let playing = DisplayModel { status: initial.status, position: initial.position, ..state };
    match initial.track {
        Some(t) => published(with_cached(DisplayModel { track: Some(t), ..playing }, cached)),
        None => published(playing),
    }
}

/// The search that a new track calls for: none where the cache holds lyrics.
pub open spec fn search_unless_cached(t: TrackModel, cached: Option<LyricsModel>) -> Option<
    OrderModel,
> {
    if cached is Some {
        None
    } else {
        Some(track_search(t))
    }
}

/// The state after a new track, before its current line is looked up.
pub open spec fn track_changed(
    m: SchedulerModel,
    t: TrackModel,
    cached: Option<LyricsModel>,
    now: nat,
) -> SchedulerModel {
    SchedulerModel {
        state: with_cached(DisplayModel { track: Some(t), position: 0, ..m.state }, cached),
        last_update: now,
        ..m
    }
}

/// The scheduler after a player event at time `now`. `cached` is what the cache
/// holds for the track of a `TrackChanged` event.
pub open spec fn event_handled(
    m: SchedulerModel,
    event: EventModel,
    cached: Option<LyricsModel>,
    now: nat,
) -> SchedulerModel {
    match event {
        EventModel::TrackChanged(t) => refreshed(track_changed(m, t, cached, now), now),
        EventModel::PlaybackStateChanged(status) => {
            let state = DisplayModel { status, ..advanced(m, now).state };
            SchedulerModel { state: published(state), last_update: now, timer: due(state, now) }
        },
        EventModel::Seeked(position) => refreshed(
            SchedulerModel {
                state: DisplayModel { position, ..m.state },
                last_update: now,
                ..m
            },
            now,
        ),
        EventModel::PlayerQuit => SchedulerModel {
            state: idle(),
            last_update: advanced(m, now).last_update,
            timer: None,
        },
    }
}

/// The search that a player event calls for.
pub open spec fn event_search(event: EventModel, cached: Option<LyricsModel>) -> Option<OrderModel> {
    match event {
        EventModel::TrackChanged(t) => search_unless_cached(t, cached),
        _ => None,
    }
}

impl Scheduler {
    /// The search for the lyrics of a track.
    fn search_for(track: &Track) -> (r: SearchOrder)
        ensures
            r@ == track_search(track@),
    {
        SearchOrder {
            track_id: track.id.clone(),
            request: SearchRequest {
                title: track.title.clone(),
                artist: track.artist.clone(),
                album: copy_opt(&track.album),
                duration: track.duration,
            },
        }
    }

    /// Handle a track change: take what the cache holds, else ask for a
    /// background search.
    pub fn handle_track_change(&mut self, track: &Track, cached: Option<Lyrics>) -> (r: Option<
        SearchOrder,
    >)
        ensures
            final(self)@ == (SchedulerModel {
                state: with_cached(old(self)@.state, opt_lyrics(cached)),
                ..old(self)@
            }),
            opt_order(r) == search_unless_cached(track@, opt_lyrics(cached)),
    {
        let hit = cached.is_some();
        self.state.lyrics = cached;
        self.state.current_line_index = None;
        self.state.next_line_index = None;
        if hit {
            None
        } else {
            Some(Self::search_for(track))
        }
    }

    /// Take in the state in which the player was found. `cached` is what the
    /// cache holds for its track.
    pub fn start(&mut self, initial: PlayerState, cached: Option<Lyrics>) -> (r: (
        Option<SearchOrder>,
        DisplayState,
    ))
        ensures
            final(self)@ == (SchedulerModel {
                state: started(old(self)@.state, initial@, opt_lyrics(cached)),
                ..old(self)@
            }),
            r.1@ == final(self)@.state,
            opt_order(r.0) == match initial@.track {
                Some(t) => search_unless_cached(t, opt_lyrics(cached)),
                None => None,
            },
    {
        self.state.status = initial.status;
        self.state.playback_position = initial.position;
        let mut search: Option<SearchOrder> = None;
        if let Some(track) = initial.track {
            self.state.track = Some(track.clone());
            search = self.handle_track_change(&track, cached);
        }
        let shown = self.broadcast();
        (search, shown)
    }

    /// Begin to follow the clock.
    pub fn follow_clock(&mut self, now: Duration)
        ensures
            final(self)@ == (SchedulerModel { last_update: now@, timer: None, ..old(self)@ }),
    {
        self.last_position_update = now;
        self.line_timer = None;
    }

    /// Handle a player event. `cached` is what the cache holds for the track of
    /// a `TrackChanged` event.
    pub fn on_player_event(
        &mut self,
        event: PlayerEvent,
        cached: Option<Lyrics>,
        now: Duration,
    ) -> (r: (Option<SearchOrder>, DisplayState))
        requires
            position_in_range(old(self)@, now@),
        ensures
            final(self)@ == event_handled(old(self)@, event@, opt_lyrics(cached), now@),
            opt_order(r.0) == event_search(event@, opt_lyrics(cached)),
            r.1@ == final(self)@.state,
    {
        self.advance_position(now);
        match event {
            PlayerEvent::TrackChanged(track) => {
                // A new track starts at its beginning; a seek event corrects
                // this if the player reports otherwise.
                self.state.track = Some(track.clone());
                self.state.playback_position = Duration::zero();
                self.last_position_update = now;
                let search = self.handle_track_change(&track, cached);
                assert(self@.state == track_changed(
                    old(self)@,
                    track@,
                    opt_lyrics(cached),
                    now@,
                ).state);
                (search, self.refresh(now))
            },
            PlayerEvent::PlaybackStateChanged(status) => {
                self.state.status = status;
                self.last_position_update = now;
                self.line_timer = self.schedule_next_line(now);
                (None, self.broadcast())
            },
            PlayerEvent::Seeked(position) => {
                self.state.playback_position = position;
                self.last_position_update = now;
                (None, self.refresh(now))
            },
            PlayerEvent::PlayerQuit => {
                self.state = DisplayState::default();
                self.line_timer = None;
                (None, self.broadcast())
            },
        }
    }

    /// The timer fired: the next line is due.
    pub fn on_line_timer(&mut self, now: Duration) -> (r: DisplayState)
        requires
            position_in_range(old(self)@, now@),
        ensures
            final(self)@ == refreshed(advanced(old(self)@, now@), now@),
            r@ == final(self)@.state,
    {
        self.advance_position(now);
        self.refresh(now)
    }

    /// Whether the position is to be published at intervals.
    pub fn wants_ticks(&self) -> (r: bool)
        ensures
            r == (self@.state.status == PlaybackStatus::Playing),
    {
        match self.state.status {
            PlaybackStatus::Playing => true,
            _ => false,
        }
    }

    /// Publish the playback position.
    pub fn on_tick(&mut self, now: Duration) -> (r: DisplayState)
        requires
            position_in_range(old(self)@, now@),
        ensures
            final(self)@ == (SchedulerModel {
                state: published(advanced(old(self)@, now@).state),
                ..advanced(old(self)@, now@)
            }),
            r@ == final(self)@.state,
    {
        self.advance_position(now);
        self.broadcast()
    }
}

// ---------------------------------------------------------------------------
// Commands
// ---------------------------------------------------------------------------

/// The lyrics with another offset.
pub open spec fn with_offset(l: LyricsModel, offset_ms: i64) -> LyricsModel {
    LyricsModel { offset_ms, ..l }
}

/// The lyrics that a command sets in place of the present ones.
pub open spec fn lyrics_set(state: DisplayModel, cmd: CommandModel) -> Option<LyricsModel> {
    match cmd {
        CommandModel::SetLyrics { lrc_text } => Some(lrc_lyrics(lrc_text)),
        CommandModel::ApplyLyrics { lyrics } => Some(lyrics),
        CommandModel::AdjustOffset { delta_ms } => match state.lyrics {
            Some(l) => Some(with_offset(l, (l.offset_ms + delta_ms) as i64)),
            None => None,
        },
        CommandModel::SetOffset { offset_ms } => match state.lyrics {
            Some(l) => Some(with_offset(l, offset_ms)),
            None => None,
        },
        _ => None,
    }
}

/// Whether the offset that a command asks for can be represented.
pub open spec fn offset_in_range(state: DisplayModel, cmd: CommandModel) -> bool {
    match (cmd, state.lyrics) {
        (CommandModel::AdjustOffset { delta_ms }, Some(l)) => i64::MIN <= l.offset_ms + delta_ms
            <= i64::MAX,
        _ => true,
    }
}

/// The state after a command, before the current line is looked up.
pub open spec fn commanded(m: SchedulerModel, cmd: CommandModel, now: nat) -> SchedulerModel {
    let a = advanced(m, now);
    match lyrics_set(a.state, cmd) {
        Some(l) => SchedulerModel { state: DisplayModel { lyrics: Some(l), ..a.state }, ..a },
        None => a,
    }
}

/// What a command asks of the caller. Lyrics that are set by hand are stored
/// for the track that is playing.
pub open spec fn command_action(state: DisplayModel, cmd: CommandModel) -> ActionModel {
    match cmd {
        CommandModel::ResearchCurrent => match state.track {
            Some(t) => ActionModel::Search(track_search(t)),
            None => ActionModel::Nothing,
        },
        CommandModel::SearchCustom { title, artist } => ActionModel::Search(
            OrderModel {
                track_id: match state.track {
                    Some(t) => t.id,
                    None => Seq::empty(),
                },
                request: RequestModel { title, artist, album: None, duration: None },
            },
        ),
        CommandModel::PlayPause => ActionModel::PlayPause,
        CommandModel::Play => ActionModel::Play,
        CommandModel::Pause => ActionModel::Pause,
        CommandModel::Stop => ActionModel::Stop,
        CommandModel::Next => ActionModel::Next,
        CommandModel::Previous => ActionModel::Previous,
        CommandModel::SeekTo { position_ms } => ActionModel::SeekTo(
            (position_ms * NANOS_PER_MILLI) as nat,
        ),
        _ => match (state.track, lyrics_set(state, cmd)) {
            (Some(t), Some(lyrics)) => ActionModel::Store(
                EntryModel { title: t.title, artist: t.artist, lyrics },
            ),
            _ => ActionModel::Nothing,
        },
    }
}

impl Scheduler {
    /// Whether the offset that a command asks for can be represented.
    pub fn offset_fits(&self, cmd: &SchedulerCommand) -> (r: bool)
        ensures
            r == offset_in_range(self@.state, cmd@),
    {
        match (cmd, &self.state.lyrics) {
            (SchedulerCommand::AdjustOffset { delta_ms }, Some(l)) => l.offset_ms.checked_add(
                *delta_ms,
            ).is_some(),
            _ => true,
        }
    }

    /// Show the given lyrics, to be stored for the track that is playing.
    fn set_lyrics(&mut self, lyrics: Lyrics) -> (r: Action)
        ensures
            final(self)@ == (SchedulerModel {
                state: DisplayModel { lyrics: Some(lyrics@), ..old(self)@.state },
                ..old(self)@
            }),
            r@ == match old(self)@.state.track {
                Some(t) => ActionModel::Store(
                    EntryModel { title: t.title, artist: t.artist, lyrics: lyrics@ },
                ),
                None => ActionModel::Nothing,
            },
    {
        let action = match &self.state.track {
            Some(track) => Action::Store(
                CacheEntry {
                    title: track.title.clone(),
                    artist: track.artist.clone(),
                    lyrics: lyrics.clone(),
                },
            ),
            None => Action::Nothing,
        };
        self.state.lyrics = Some(lyrics);
        action
    }

    /// Give the present lyrics another offset.
    fn set_offset(&mut self, offset_ms: i64) -> (r: Action)
        requires
            old(self)@.state.lyrics is Some,
        ensures
            final(self)@ == (SchedulerModel {
                state: DisplayModel {
                    lyrics: Some(with_offset(old(self)@.state.lyrics->0, offset_ms)),
                    ..old(self)@.state
                },
                ..old(self)@
            }),
            r@ == match old(self)@.state.track {
                Some(t) => ActionModel::Store(
                    EntryModel {
                        title: t.title,
                        artist: t.artist,
                        lyrics: with_offset(old(self)@.state.lyrics->0, offset_ms),
                    },
                ),
                None => ActionModel::Nothing,
            },
    {
        match copy_lyrics(&self.state.lyrics) {
            Some(lyrics) => {
                let mut updated = lyrics;
                updated.offset_ms = offset_ms;
                self.set_lyrics(updated)
            },
            None => Action::Nothing,
        }
    }

    /// Handle a scheduler command from API / display backend. Searches and
    /// playback control are handed to the caller.
    pub fn handle_command(&mut self, cmd: SchedulerCommand) -> (r: Action)
        requires
            offset_in_range(old(self)@.state, cmd@),
        ensures
            final(self)@ == (match lyrics_set(old(self)@.state, cmd@) {
                Some(l) => SchedulerModel {
                    state: DisplayModel { lyrics: Some(l), ..old(self)@.state },
                    ..old(self)@
                },
                None => old(self)@,
            }),
            r@ == command_action(old(self)@.state, cmd@),
    {
        match cmd {
            SchedulerCommand::ResearchCurrent => match &self.state.track {
                Some(track) => Action::Search(Self::search_for(track)),
                None => Action::Nothing,
            },
            SchedulerCommand::SearchCustom { title, artist } => {
                let track_id = match &self.state.track {
                    Some(track) => track.id.clone(),
                    None => String::new(),
                };
                Action::Search(
                    SearchOrder {
                        track_id,
                        request: SearchRequest { title, artist, album: None, duration: None },
                    },
                )
            },
            SchedulerCommand::SetLyrics { lrc_text } => match lrc::parse(lrc_text.as_str()) {
                Ok(parsed) => self.set_lyrics(parsed),
                Err(_) => Action::Nothing,
            },
            SchedulerCommand::ApplyLyrics { lyrics } => self.set_lyrics(lyrics),
            SchedulerCommand::AdjustOffset { delta_ms } => {
                let present: Option<i64> = match &self.state.lyrics {
                    Some(l) => Some(l.offset_ms),
                    None => None,
                };
                match present {
                    Some(offset_ms) => self.set_offset(offset_ms + delta_ms),
                    None => Action::Nothing,
                }
            },
            SchedulerCommand::SetOffset { offset_ms } => if self.state.lyrics.is_some() {
                self.set_offset(offset_ms)
            } else {
                Action::Nothing
            },
            SchedulerCommand::PlayPause => Action::Control(PlayerControl::PlayPause),
            SchedulerCommand::Play => Action::Control(PlayerControl::Play),
            SchedulerCommand::Pause => Action::Control(PlayerControl::Pause),
            SchedulerCommand::Stop => Action::Control(PlayerControl::Stop),
            SchedulerCommand::Next => Action::Control(PlayerControl::Next),
            SchedulerCommand::Previous => Action::Control(PlayerControl::Previous),
            SchedulerCommand::SeekTo { position_ms } => Action::Control(
                PlayerControl::SeekTo(Duration::from_millis(position_ms)),
            ),
        }
    }

    /// Begin to handle a command. Once the caller has done what it asks for,
    /// `refresh` completes the step.
    pub fn on_command(&mut self, cmd: SchedulerCommand, now: Duration) -> (r: Action)
        requires
            position_in_range(old(self)@, now@),
            offset_in_range(old(self)@.state, cmd@),
        ensures
            final(self)@ == commanded(old(self)@, cmd@, now@),
            r@ == command_action(old(self)@.state, cmd@),
    {
        self.advance_position(now);
        self.handle_command(cmd)
    }
}

// ---------------------------------------------------------------------------
// Search results
// ---------------------------------------------------------------------------

/// Whether a search result still is for the track that is playing: by track id
/// where both have one, else by title and artist.
pub open spec fn still_wanted(track: Option<TrackModel>, found: ResultModel) -> bool {
    match track {
        Some(t) => if found.track_id.len() > 0 && t.id.len() > 0 {
            found.track_id == t.id
        } else {
            found.title == t.title && found.artist == t.artist
        },
        None => false,
    }
}

/// The lyrics that a search result brings for the track that is playing: none
/// where the search found none or failed.
pub open spec fn lyrics_found(state: DisplayModel, found: ResultModel) -> Option<LyricsModel> {
    match found.outcome {
        OutcomeModel::Found(l) => if still_wanted(state.track, found) {
            Some(l)
        } else {
            None
        },
        OutcomeModel::NotFound | OutcomeModel::Failed => None,
    }
}

/// The state after a search result, before the current line is looked up.
pub open spec fn result_applied(m: SchedulerModel, found: ResultModel) -> SchedulerModel {
    match lyrics_found(m.state, found) {
        Some(l) => SchedulerModel { state: DisplayModel { lyrics: Some(l), ..m.state }, ..m },
        None => m,
    }
}

/// What is stored in the cache after a search result: the lyrics, under the
/// title and artist that were searched for.
pub open spec fn result_stored(state: DisplayModel, found: ResultModel) -> Option<EntryModel> {
    match lyrics_found(state, found) {
        Some(lyrics) => Some(EntryModel { title: found.title, artist: found.artist, lyrics }),
        None => None,
    }
}

/// An optional cache entry, as plain values.
pub open spec fn opt_entry(e: Option<CacheEntry>) -> Option<EntryModel> {
    match e {
        Some(e) => Some(e@),
        None => None,
    }
}

impl Scheduler {
    /// Whether a search result still is for the track that is playing.
    fn wants(&self, found: &LyricsSearchResult) -> (r: bool)
        ensures
            r == still_wanted(self@.state.track, found@),
    {
        match &self.state.track {
            Some(current) => if !empty_text(found.track_id.as_str()) && !empty_text(
                current.id.as_str(),
            ) {
                same_text(found.track_id.as_str(), current.id.as_str())
            } else {
                same_text(found.title.as_str(), current.title.as_str()) && same_text(
                    found.artist.as_str(),
                    current.artist.as_str(),
                )
            },
            None => false,
        }
    }

    /// Apply a background search result iff it still matches the current track.
    pub fn apply_search_result(&mut self, found: LyricsSearchResult) -> (r: Option<CacheEntry>)
        ensures
            final(self)@ == result_applied(old(self)@, found@),
            opt_entry(r) == result_stored(old(self)@.state, found@),
    {
        if !self.wants(&found) {
            return None;
        }
        match found.outcome {
            SearchOutcome::Found(lyrics) => {
                let stored = lyrics.clone();
                self.state.lyrics = Some(lyrics);
                Some(CacheEntry { title: found.title, artist: found.artist, lyrics: stored })
            },
            _ => None,
        }
    }

    /// Handle a background search result.
    pub fn on_search_result(&mut self, found: LyricsSearchResult, now: Duration) -> (r: (
        Option<CacheEntry>,
        DisplayState,
    ))
        requires
            position_in_range(old(self)@, now@),
        ensures
            final(self)@ == refreshed(result_applied(advanced(old(self)@, now@), found@), now@),
            opt_entry(r.0) == result_stored(old(self)@.state, found@),
            r.1@ == final(self)@.state,
    {
        self.advance_position(now);
        let stored = self.apply_search_result(found);
        (stored, self.refresh(now))
    }
}

// ---------------------------------------------------------------------------
// Laws
// ---------------------------------------------------------------------------

/// Whether the lines shown as current and next are lines of the lyrics shown.
pub open spec fn lines_valid(state: DisplayModel) -> bool {
    match state.lyrics {
        Some(l) => {
            &&& l.lines.len() <= usize::MAX
            &&& state.current matches Some(i) ==> i < l.lines.len()
            &&& state.next matches Some(i) ==> i < l.lines.len()
        },
        None => state.current is None && state.next is None,
    }
}

/// Whether lyrics, where there are some, have a number of lines that can be
/// indexed, and without lyrics no line is shown.
pub open spec fn lines_countable(state: DisplayModel) -> bool {
    match state.lyrics {
        Some(l) => l.lines.len() <= usize::MAX,
        None => state.current is None && state.next is None,
    }
}

/// After the current line has been looked up, the lines shown are lines of the
/// lyrics shown, and the offset shown is theirs.
pub proof fn law_refresh_valid(m: SchedulerModel, now: nat)
    requires
        lines_countable(m.state),
    ensures
        lines_valid(refreshed(m, now).state),
        refreshed(m, now).state == published(refreshed(m, now).state),
        refreshed(m, now).state.lyrics == m.state.lyrics,
{
    if let Some(l) = m.state.lyrics {
        lemma_started_count(l.lines, adjusted_time(m.state.position, l.offset_ms));
    }
}

/// A player event leaves valid lines on show.
pub proof fn law_event_valid(
    m: SchedulerModel,
    event: EventModel,
    cached: Option<LyricsModel>,
    now: nat,
)
    requires
        lines_valid(m.state),
        cached matches Some(l) ==> l.lines.len() <= usize::MAX,
    ensures
        lines_valid(event_handled(m, event, cached, now).state),
        event_handled(m, event, cached, now).state == published(
            event_handled(m, event, cached, now).state,
        ),
{
    match event {
        EventModel::TrackChanged(t) => {
            law_refresh_valid(track_changed(m, t, cached, now), now);
        },
        EventModel::Seeked(position) => {
            let moved = SchedulerModel {
                state: DisplayModel { position, ..m.state },
                last_update: now,
                ..m
            };
            law_refresh_valid(moved, now);
        },
        _ => {},
    }
}

/// A command leaves valid lines on show.
pub proof fn law_command_valid(m: SchedulerModel, cmd: CommandModel, now: nat, later: nat)
    requires
        lines_valid(m.state),
        lyrics_set(m.state, cmd) matches Some(l) ==> l.lines.len() <= usize::MAX,
    ensures
        lines_valid(refreshed(commanded(m, cmd, now), later).state),
        refreshed(commanded(m, cmd, now), later).state == published(
            refreshed(commanded(m, cmd, now), later).state,
        ),
{
    law_refresh_valid(commanded(m, cmd, now), later);
}

/// A search result leaves valid lines on show.
pub proof fn law_result_valid(m: SchedulerModel, found: ResultModel, now: nat)
    requires
        lines_valid(m.state),
        lyrics_found(m.state, found) matches Some(l) ==> l.lines.len() <= usize::MAX,
    ensures
        lines_valid(refreshed(result_applied(advanced(m, now), found), now).state),
        refreshed(result_applied(advanced(m, now), found), now).state == published(
            refreshed(result_applied(advanced(m, now), found), now).state,
        ),
{
    law_refresh_valid(result_applied(advanced(m, now), found), now);
}

/// While the clock runs, the position does not depend on how often it was
/// brought up to date.
pub proof fn law_advance_twice(m: SchedulerModel, a: nat, b: nat)
    requires
        m.last_update <= a <= b,
    ensures
        advanced(advanced(m, a), b) == advanced(m, b),
{
}

/// Nothing but a playing track moves the position.
pub proof fn law_still_unless_playing(m: SchedulerModel, now: nat)
    requires
        m.state.status != PlaybackStatus::Playing,
    ensures
        advanced(m, now) == m,
{
}

/// Two changes of the offset are one change by their sum; a change and its
/// opposite leave the lyrics as they were.
pub proof fn law_offset_changes_add(state: DisplayModel, a: i64, b: i64)
    requires
        state.lyrics is Some,
        i64::MIN <= a + b <= i64::MAX,
        i64::MIN <= state.lyrics->0.offset_ms + a <= i64::MAX,
        i64::MIN <= state.lyrics->0.offset_ms + a + b <= i64::MAX,
    ensures
        ({
            let once = DisplayModel {
                lyrics: lyrics_set(state, CommandModel::AdjustOffset { delta_ms: a }),
                ..state
            };
            &&& lyrics_set(once, CommandModel::AdjustOffset { delta_ms: b }) == lyrics_set(
                state,
                CommandModel::AdjustOffset { delta_ms: (a + b) as i64 },
            )
            &&& a + b == 0 ==> lyrics_set(once, CommandModel::AdjustOffset { delta_ms: b })
                == state.lyrics
        }),
{
}

/// The offset commands on a scheduler with lyrics: two adjustments are one by
/// their sum, setting the offset does not depend on what it was, nothing but
/// the offset of the lyrics changes, and the new lyrics are stored for the
/// track that is playing, if any. The clock may be read once for all of them.
pub proof fn law_offset_commands(m: SchedulerModel, a: i64, b: i64, x: i64, now: nat)
    requires
        m.state.lyrics is Some,
        i64::MIN <= a + b <= i64::MAX,
        i64::MIN <= m.state.lyrics->0.offset_ms + a <= i64::MAX,
        i64::MIN <= m.state.lyrics->0.offset_ms + a + b <= i64::MAX,
    ensures
        ({
            let l = m.state.lyrics->0;
            let first = CommandModel::AdjustOffset { delta_ms: a };
            let second = CommandModel::AdjustOffset { delta_ms: b };
            let sum = CommandModel::AdjustOffset { delta_ms: (a + b) as i64 };
            let set = CommandModel::SetOffset { offset_ms: x };
            let once = commanded(m, first, now);
            let twice = commanded(once, second, now);
            let adjusted = with_offset(l, (l.offset_ms + a + b) as i64);
            &&& twice == commanded(m, sum, now)
            &&& twice == with_lyrics(advanced(m, now), adjusted)
            &&& commanded(m, set, now) == with_lyrics(advanced(m, now), with_offset(l, x))
            &&& commanded(once, set, now) == commanded(m, set, now)
            &&& command_action(once.state, second) == stored_for(m.state.track, adjusted)
            &&& command_action(m.state, sum) == stored_for(m.state.track, adjusted)
            &&& command_action(m.state, set) == stored_for(m.state.track, with_offset(l, x))
        }),
{
}

/// Without lyrics the offset commands change nothing and store nothing.
pub proof fn law_offset_needs_lyrics(m: SchedulerModel, a: i64, x: i64, now: nat)
    requires
        m.state.lyrics is None,
    ensures
        commanded(m, CommandModel::AdjustOffset { delta_ms: a }, now) == advanced(m, now),
        commanded(m, CommandModel::SetOffset { offset_ms: x }, now) == advanced(m, now),
        command_action(m.state, CommandModel::AdjustOffset { delta_ms: a }) == ActionModel::Nothing,
        command_action(m.state, CommandModel::SetOffset { offset_ms: x }) == ActionModel::Nothing,
{
}

/// The scheduler with other lyrics on show.
pub open spec fn with_lyrics(m: SchedulerModel, l: LyricsModel) -> SchedulerModel {
    SchedulerModel { state: DisplayModel { lyrics: Some(l), ..m.state }, ..m }
}

/// Lyrics stored for the track that is playing, if any.
pub open spec fn stored_for(track: Option<TrackModel>, lyrics: LyricsModel) -> ActionModel {
    match track {
        Some(t) => ActionModel::Store(
            EntryModel { title: t.title, artist: t.artist, lyrics },
        ),
        None => ActionModel::Nothing,
    }
}

/// The result of the search for a track is taken while that track plays.
pub proof fn law_own_result_wanted(t: TrackModel, found: ResultModel)
    requires
        found.track_id == track_search(t).track_id,
        found.title == track_search(t).request.title,
        found.artist == track_search(t).request.artist,
    ensures
        still_wanted(Some(t), found),
{
}

/// The result of a search for another track changes nothing and is not stored:
/// one with another id, or where an id is missing with another title or artist.
/// Nor is any result once nothing plays.
pub proof fn law_stale_result_dropped(m: SchedulerModel, found: ResultModel)
    requires
        match m.state.track {
            Some(t) => if t.id.len() > 0 && found.track_id.len() > 0 {
                t.id != found.track_id
            } else {
                t.title != found.title || t.artist != found.artist
            },
            None => true,
        },
    ensures
        result_applied(m, found) == m,
        result_stored(m.state, found) is None,
{
}

/// When the timer for the next line fires, that line has started, whatever the
/// offset. The lines must be in order, and the timer must fit in a span.
pub proof fn law_timer_shows_next_line(before: SchedulerModel, set_at: nat)
    requires
        ({
            let m = refreshed(before, set_at);
            let l = m.state.lyrics->0;
            &&& m.timer is Some
            &&& m.last_update <= set_at
            &&& m.state.position <= MAX_NANOS
            &&& l.lines.len() <= usize::MAX
            &&& in_order(l.lines)
            &&& forall|i: int| 0 <= i < l.lines.len() ==> (#[trigger] l.lines[i]).position
                <= MAX_NANOS
            &&& m.state.next matches Some(i) ==> set_at + shown_from(
                l.lines[i as int].position,
                l.offset_ms,
            ) - m.state.position <= MAX_NANOS
        }),
    ensures
        ({
            let m = refreshed(before, set_at);
            let fires = m.timer->0;
            let after = refreshed(advanced(m, fires), fires);
            m.state.next matches Some(i) && after.state.current matches Some(j) && j >= i
        }),
{
    let m = refreshed(before, set_at);
    let l = m.state.lyrics->0;
    let wait = wait_for(l.lines, m.state.position, l.offset_ms)->0;
    let moved = advanced(m, m.timer->0);
    let u = adjusted_time(m.state.position + wait, l.offset_ms);
    let v = adjusted_time(moved.state.position, l.offset_ms);
    law_wait_reaches_next_line(l.lines, m.state.position, l.offset_ms);
    assert(moved.state.position >= m.state.position + wait);
    law_lookup_advances(l.lines, u, v);
    lemma_started_count(l.lines, v);
}

/// A track whose lyrics are in the cache is not searched for, and its lyrics
/// are there at once; any other track is searched for.
pub proof fn law_cache_saves_search(
    m: SchedulerModel,
    t: TrackModel,
    cached: Option<LyricsModel>,
    now: nat,
)
    ensures
        ({
            let after = event_handled(m, EventModel::TrackChanged(t), cached, now);
            &&& after.state.track == Some(t)
            &&& after.state.lyrics == cached
            &&& after.state.position == 0
        }),
        event_search(EventModel::TrackChanged(t), cached) == if cached is Some {
            None::<OrderModel>
        } else {
            Some(track_search(t))
        },
{
}

/// However long a search takes, its result does not touch the position: it is
/// where the clock puts it.
pub proof fn law_search_keeps_time(m: SchedulerModel, found: ResultModel, now: nat)
    ensures
        ({
            let after = refreshed(result_applied(advanced(m, now), found), now);
            &&& after.state.position == advanced(m, now).state.position
            &&& after.state.status == m.state.status
            &&& after.state.track == m.state.track
        }),
{
}

} // verus!
