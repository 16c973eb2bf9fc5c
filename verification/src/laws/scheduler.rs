//! Following playback: what each event, command and search result does to what
//! is shown.
use crate::display::{idle, CommandModel, DisplayModel};
use crate::lyrics::lrc::lrc_lyrics;
use crate::lyrics::{
    adjusted_time, by_position, in_order, lemma_started_count, lines_found, wait_for, LineModel,
    LyricsModel,
};
use crate::player::{EventModel, PlaybackStatus, PlayerStateModel, TrackModel};
use crate::scheduler::{
    advanced, command_action, commanded, due, event_handled, event_search, located, offset_in_range,
    position_in_range, published, refreshed, result_applied, result_stored, search_unless_cached,
    started, track_changed, ActionModel, OrderModel, OutcomeModel, ResultModel, SchedulerModel,
};
use vstd::prelude::*;

verus! {

/// The longest span of time, in nanoseconds.
pub open spec fn longest() -> nat {
    18_446_744_073_709_551_615_999_999_999
}

/// Whether the lines stand in order of their times, and can be indexed.
pub open spec fn ordered_lines(lines: Seq<LineModel>) -> bool {
    &&& lines.len() <= usize::MAX
    &&& forall|i: int, j: int|
        0 <= i <= j < lines.len() ==> (#[trigger] lines[i]).position <= (
        #[trigger] lines[j]).position
    &&& forall|i: int| 0 <= i < lines.len() ==> (#[trigger] lines[i]).position <= longest()
}

/// Whether a line has been reached at a playback position: its time is not
/// beyond the position plus the offset.
pub open spec fn reached(line: LineModel, position: nat, offset_ms: i64) -> bool {
    line.position <= position + offset_ms * 1_000_000 || line.position == 0
}

/// Whether the current line is the last one that has been reached, and the next
/// line the one behind it.
pub open spec fn right_lines(state: DisplayModel) -> bool {
    match state.lyrics {
        Some(l) => ordered_lines(l.lines) && state.position <= longest() ==> {
            &&& match state.current {
                Some(i) => i < l.lines.len() && reached(
                    l.lines[i as int],
                    state.position,
                    l.offset_ms,
                ) && forall|j: int|
                    i < j < l.lines.len() ==> !reached(
                        #[trigger] l.lines[j],
                        state.position,
                        l.offset_ms,
                    ),
                None => forall|j: int|
                    0 <= j < l.lines.len() ==> !reached(
                        #[trigger] l.lines[j],
                        state.position,
                        l.offset_ms,
                    ),
            }
            &&& match state.next {
                Some(n) => n < l.lines.len() && match state.current {
                    Some(i) => n == i + 1,
                    None => n == 0,
                },
                None => match state.current {
                    Some(i) => i + 1 == l.lines.len(),
                    None => l.lines.len() == 0,
                },
            }
        },
        None => true,
    }
}

/// Whether the timer is set for the moment at which the next line is reached:
/// only while a track with lyrics plays and has lines to come.
pub open spec fn right_timer(state: DisplayModel, now: nat, timer: Option<nat>) -> bool {
    match state.lyrics {
        Some(l) => ordered_lines(l.lines) && state.position <= longest() ==> match state.next {
            Some(n) => {
                let left = l.lines[n as int].position - l.offset_ms * 1_000_000 - state.position;
                &&& state.status != PlaybackStatus::Playing ==> timer is None
                &&& state.status == PlaybackStatus::Playing && now + left <= longest() ==> timer
                    == Some((now + left) as nat)
            },
            None => timer is None,
        },
        None => timer is None,
    }
}

/// The position once the clock reads `now`: it has moved on while a track plays.
pub open spec fn position_at(m: SchedulerModel, now: nat) -> nat {
    if m.state.status == PlaybackStatus::Playing && now >= m.last_update {
        (m.state.position + now - m.last_update) as nat
    } else {
        m.state.position
    }
}

proof fn lemma_in_order(lines: Seq<LineModel>)
    requires
        ordered_lines(lines),
    ensures
        in_order(lines),
{
    assert forall|i: int, j: int| 0 <= i <= j < lines.len() implies by_position()(
        #[trigger] lines[i],
    ) <= by_position()(#[trigger] lines[j]) by {}
}

proof fn lemma_reached(line: LineModel, position: nat, offset_ms: i64)
    requires
        position <= longest(),
        line.position <= longest(),
    ensures
        reached(line, position, offset_ms) == (line.position <= adjusted_time(position, offset_ms)),
{
}

/// What is looked up for a state is right, and so is the timer for it.
proof fn lemma_located(state: DisplayModel, now: nat)
    ensures
        right_lines(located(state)),
        right_timer(located(state), now, due(located(state), now)),
{
    if let Some(l) = state.lyrics {
        if ordered_lines(l.lines) && state.position <= longest() {
            let t = adjusted_time(state.position, l.offset_ms);
            lemma_in_order(l.lines);
            crate::lyrics::laws::lemma_in_order_splits(l.lines, t);
            lemma_started_count(l.lines, t);
            assert forall|j: int| 0 <= j < l.lines.len() implies reached(
                #[trigger] l.lines[j],
                state.position,
                l.offset_ms,
            ) == (l.lines[j].position <= t) by {
                lemma_reached(l.lines[j], state.position, l.offset_ms);
            }
            let shown = located(state);
            if let Some(n) = shown.next {
                lemma_reached(l.lines[n as int], state.position, l.offset_ms);
                assert(l.lines[n as int].position > t);
                assert(l.lines[n as int].position <= longest());
            }
        }
    }
}

/// Refreshing looks up the right lines and sets the right timer, shows the
/// offset of the lyrics, and touches nothing else.
pub proof fn law_refresh(m: SchedulerModel, now: nat)
    ensures
        ({
            let after = refreshed(m, now);
            &&& right_lines(after.state)
            &&& right_timer(after.state, now, after.timer)
            &&& after.state.track == m.state.track
            &&& after.state.lyrics == m.state.lyrics
            &&& after.state.position == m.state.position
            &&& after.state.status == m.state.status
            &&& after.last_update == m.last_update
            &&& m.state.lyrics matches Some(l) ==> after.state.offset_ms == l.offset_ms
            &&& m.state.lyrics is None ==> after.state.offset_ms == 0 && after.state.current
                == m.state.current && after.state.next == m.state.next
        }),
{
    lemma_located(m.state, now);
}

/// A seek moves the position to exactly where it says, whether forward or back,
/// and the lines with it; track, status and lyrics stay.
pub proof fn law_seek(m: SchedulerModel, position: nat, cached: Option<LyricsModel>, now: nat)
    ensures
        ({
            let after = event_handled(m, EventModel::Seeked(position), cached, now);
            &&& after.state.position == position
            &&& after.last_update == now
            &&& right_lines(after.state)
            &&& right_timer(after.state, now, after.timer)
            &&& after.state.track == m.state.track
            &&& after.state.status == m.state.status
            &&& after.state.lyrics == m.state.lyrics
            &&& event_search(EventModel::Seeked(position), cached) is None
        }),
{
    let moved = SchedulerModel {
        state: DisplayModel { position, ..m.state },
        last_update: now,
        ..m
    };
    law_refresh(moved, now);
}

/// Whether a search is one for the given track.
pub open spec fn searches_for(search: Option<OrderModel>, t: TrackModel) -> bool {
    match search {
        Some(o) => {
            &&& o.track_id == t.id
            &&& o.request.title == t.title
            &&& o.request.artist == t.artist
            &&& o.request.album == t.album
            &&& o.request.duration == t.duration
        },
        None => false,
    }
}

/// A new track starts at its beginning with the lyrics that the cache holds, and
/// without such lyrics it is searched for under its own id, title, artist,
/// album and duration.
pub proof fn law_track_change(
    m: SchedulerModel,
    t: TrackModel,
    cached: Option<LyricsModel>,
    now: nat,
)
    ensures
        ({
            let after = event_handled(m, EventModel::TrackChanged(t), cached, now);
            let search = event_search(EventModel::TrackChanged(t), cached);
            &&& after.state.track == Some(t)
            &&& after.state.position == 0
            &&& after.state.lyrics == cached
            &&& after.state.status == m.state.status
            &&& after.last_update == now
            &&& right_lines(after.state)
            &&& right_timer(after.state, now, after.timer)
            &&& cached is None ==> after.state.current is None && after.state.next is None
            &&& cached is Some ==> search is None
            &&& cached is None ==> searches_for(search, t)
        }),
{
    law_refresh(track_changed(m, t, cached, now), now);
}

/// A change of the playback status keeps the track, its lyrics and the lines
/// shown; the position is where the clock puts it, and from then on it moves
/// only while playing.
pub proof fn law_status_change(
    m: SchedulerModel,
    status: PlaybackStatus,
    cached: Option<LyricsModel>,
    now: nat,
)
    ensures
        ({
            let after = event_handled(m, EventModel::PlaybackStateChanged(status), cached, now);
            &&& after.state.status == status
            &&& after.state.position == position_at(m, now)
            &&& after.last_update == now
            &&& after.state.track == m.state.track
            &&& after.state.lyrics == m.state.lyrics
            &&& after.state.current == m.state.current
            &&& after.state.next == m.state.next
            &&& status != PlaybackStatus::Playing ==> after.timer is None
            &&& status == PlaybackStatus::Playing ==> after.timer == refreshed(
                SchedulerModel {
                    state: DisplayModel { status, position: position_at(m, now), ..m.state },
                    ..m
                },
                now,
            ).timer
        }),
{
}

/// Once the player has quit nothing is shown and nothing is due.
pub proof fn law_quit(m: SchedulerModel, cached: Option<LyricsModel>, now: nat)
    ensures
        ({
            let after = event_handled(m, EventModel::PlayerQuit, cached, now);
            &&& after.state.track is None
            &&& after.state.lyrics is None
            &&& after.state.current is None
            &&& after.state.next is None
            &&& after.state.position == 0
            &&& after.state.status == PlaybackStatus::Stopped
            &&& after.state.offset_ms == 0
            &&& after.timer is None
            &&& event_search(EventModel::PlayerQuit, cached) is None
        }),
{
}

/// When the clock moves on, the position of a playing track moves on by the same
/// time, and nothing else does.
pub proof fn law_clock(m: SchedulerModel, now: nat)
    ensures
        ({
            let after = advanced(m, now);
            &&& after.state.position == position_at(m, now)
            &&& m.state.status == PlaybackStatus::Playing ==> after.last_update == now
            &&& m.state.status != PlaybackStatus::Playing ==> after.last_update == m.last_update
            &&& after.state.track == m.state.track
            &&& after.state.lyrics == m.state.lyrics
            &&& after.state.current == m.state.current
            &&& after.state.next == m.state.next
            &&& after.state.status == m.state.status
            &&& after.state.offset_ms == m.state.offset_ms
            &&& after.timer == m.timer
        }),
{
}

/// A position fits as long as it is no longer than the longest span, and an
/// offset as long as 64 bits hold it.
pub proof fn law_fits(m: SchedulerModel, now: nat, delta_ms: i64, cmd: CommandModel)
    ensures
        position_in_range(m, now) == (m.state.status != PlaybackStatus::Playing || position_at(m, now)
            <= longest()),
        m.state.lyrics matches Some(l) ==> offset_in_range(
            m.state,
            CommandModel::AdjustOffset { delta_ms },
        ) == (i64::MIN <= l.offset_ms + delta_ms <= i64::MAX),
        m.state.lyrics is None ==> offset_in_range(m.state, cmd),
        !(cmd is AdjustOffset) ==> offset_in_range(m.state, cmd),
{
}

/// Where nothing plays, nothing is shown.
pub proof fn law_idle()
    ensures
        idle().track is None,
        idle().lyrics is None,
        idle().current is None && idle().next is None,
        idle().position == 0,
        idle().status == PlaybackStatus::Stopped,
        idle().offset_ms == 0,
{
}

/// A snapshot shows the offset of the lyrics, and all else as it is.
pub proof fn law_published(state: DisplayModel)
    ensures
        ({
            let shown = published(state);
            &&& state.lyrics matches Some(l) ==> shown.offset_ms == l.offset_ms
            &&& state.lyrics is None ==> shown.offset_ms == 0
            &&& shown.track == state.track
            &&& shown.lyrics == state.lyrics
            &&& shown.current == state.current
            &&& shown.next == state.next
            &&& shown.position == state.position
            &&& shown.status == state.status
        }),
{
}

/// At the start the player's status, position and track are taken over, with
/// the lyrics that the cache holds for the track; without such lyrics the track
/// is searched for.
pub proof fn law_start(
    state: DisplayModel,
    initial: PlayerStateModel,
    cached: Option<LyricsModel>,
)
    ensures
        ({
            let after = started(state, initial, cached);
            &&& after.status == initial.status
            &&& after.position == initial.position
            &&& initial.track matches Some(t) ==> {
                &&& after.track == Some(t)
                &&& after.lyrics == cached
                &&& after.current is None && after.next is None
                &&& cached is Some ==> search_unless_cached(t, cached) is None
                &&& cached is None ==> searches_for(search_unless_cached(t, cached), t)
            }
            &&& initial.track is None ==> after.track == state.track && after.lyrics
                == state.lyrics && after.current == state.current && after.next == state.next
        }),
{
}

// ---------------------------------------------------------------------------
// Commands
// ---------------------------------------------------------------------------

/// Whether nothing but the lyrics and, with the clock, the position has changed.
pub open spec fn only_lyrics_changed(m: SchedulerModel, after: SchedulerModel, now: nat) -> bool {
    &&& after.state.position == position_at(m, now)
    &&& after.state.track == m.state.track
    &&& after.state.status == m.state.status
    &&& after.state.current == m.state.current
    &&& after.state.next == m.state.next
    &&& after.timer == m.timer
}

/// Whether lyrics are to be stored for the track that is playing, if any.
pub open spec fn stores(action: ActionModel, m: SchedulerModel, lyrics: LyricsModel) -> bool {
    match m.state.track {
        Some(t) => action matches ActionModel::Store(e) && e.title == t.title && e.artist == t.artist
            && e.lyrics == lyrics,
        None => action is Nothing,
    }
}

/// Lyrics given as text are shown as they are read, lyrics given as such are
/// shown as they are, and both are stored for the track.
pub proof fn law_lyrics_commands(m: SchedulerModel, text: Seq<char>, lyrics: LyricsModel, now: nat)
    ensures
        ({
            let set = CommandModel::SetLyrics { lrc_text: text };
            let apply = CommandModel::ApplyLyrics { lyrics };
            let a = commanded(m, set, now);
            let b = commanded(m, apply, now);
            &&& a.state.lyrics == Some(lrc_lyrics(text))
            &&& b.state.lyrics == Some(lyrics)
            &&& only_lyrics_changed(m, a, now)
            &&& only_lyrics_changed(m, b, now)
            &&& stores(command_action(m.state, set), m, lrc_lyrics(text))
            &&& stores(command_action(m.state, apply), m, lyrics)
        }),
{
}

/// Whether lyrics are others only in their offset, which is the given one.
pub open spec fn moved_lyrics(l: LyricsModel, r: Option<LyricsModel>, offset_ms: int) -> bool {
    match r {
        Some(r) => r.offset_ms == offset_ms && r.lines == l.lines && r.metadata == l.metadata,
        None => false,
    }
}

/// Adjusting adds to the offset and setting replaces it; the lines and the
/// metadata of the lyrics stay, and the new lyrics are stored for the track.
pub proof fn law_offset_commands(m: SchedulerModel, delta_ms: i64, offset_ms: i64, now: nat)
    requires
        m.state.lyrics matches Some(l) ==> i64::MIN <= l.offset_ms + delta_ms <= i64::MAX,
    ensures
        ({
            let adjust = CommandModel::AdjustOffset { delta_ms };
            let set = CommandModel::SetOffset { offset_ms };
            let a = commanded(m, adjust, now);
            let b = commanded(m, set, now);
            &&& only_lyrics_changed(m, a, now)
            &&& only_lyrics_changed(m, b, now)
            &&& m.state.lyrics matches Some(l) ==> {
                &&& moved_lyrics(l, a.state.lyrics, l.offset_ms + delta_ms)
                &&& moved_lyrics(l, b.state.lyrics, offset_ms as int)
                &&& stores(command_action(m.state, adjust), m, a.state.lyrics->0)
                &&& stores(command_action(m.state, set), m, b.state.lyrics->0)
            }
            &&& m.state.lyrics is None ==> {
                &&& a.state.lyrics is None && b.state.lyrics is None
                &&& command_action(m.state, adjust) is Nothing
                &&& command_action(m.state, set) is Nothing
            }
        }),
{
}

/// A search by command is for the track that is playing, or for what the
/// command names; it changes nothing that is shown.
pub proof fn law_search_commands(m: SchedulerModel, title: Seq<char>, artist: Seq<char>, now: nat)
    ensures
        ({
            let again = CommandModel::ResearchCurrent;
            let custom = CommandModel::SearchCustom { title, artist };
            &&& only_lyrics_changed(m, commanded(m, again, now), now)
            &&& only_lyrics_changed(m, commanded(m, custom, now), now)
            &&& commanded(m, again, now).state.lyrics == m.state.lyrics
            &&& commanded(m, custom, now).state.lyrics == m.state.lyrics
            &&& match m.state.track {
                Some(t) => command_action(m.state, again) matches ActionModel::Search(o)
                    && searches_for(Some(o), t),
                None => command_action(m.state, again) is Nothing,
            }
            &&& command_action(m.state, custom) is Search
            &&& ({
                let o = command_action(m.state, custom)->Search_0;
                &&& o.request.title == title
                &&& o.request.artist == artist
                &&& o.request.album is None
                &&& o.request.duration is None
                &&& m.state.track matches Some(t) ==> o.track_id == t.id
                &&& m.state.track is None ==> o.track_id.len() == 0
            })
        }),
{
}

/// Playback control is passed on to the player, a seek with its position in
/// nanoseconds, and changes nothing that is shown.
pub proof fn law_control_commands(m: SchedulerModel, position_ms: u64, now: nat)
    ensures
        ({
            let seek = CommandModel::SeekTo { position_ms };
            &&& command_action(m.state, seek) == ActionModel::SeekTo((position_ms * 1_000_000) as nat)
            &&& command_action(m.state, CommandModel::PlayPause) is PlayPause
            &&& command_action(m.state, CommandModel::Play) is Play
            &&& command_action(m.state, CommandModel::Pause) is Pause
            &&& command_action(m.state, CommandModel::Stop) is Stop
            &&& command_action(m.state, CommandModel::Next) is Next
            &&& command_action(m.state, CommandModel::Previous) is Previous
            &&& commanded(m, seek, now) == advanced(m, now)
            &&& commanded(m, CommandModel::PlayPause, now) == advanced(m, now)
            &&& commanded(m, CommandModel::Play, now) == advanced(m, now)
            &&& commanded(m, CommandModel::Pause, now) == advanced(m, now)
            &&& commanded(m, CommandModel::Stop, now) == advanced(m, now)
            &&& commanded(m, CommandModel::Next, now) == advanced(m, now)
            &&& commanded(m, CommandModel::Previous, now) == advanced(m, now)
        }),
{
}

// ---------------------------------------------------------------------------
// Search results
// ---------------------------------------------------------------------------

/// Lyrics found for the track that is playing are shown, and stored under the
/// title and artist that were searched for. The track is known by its id where
/// both have one, else by title and artist.
pub proof fn law_found(m: SchedulerModel, found: ResultModel, t: TrackModel, lyrics: LyricsModel)
    requires
        m.state.track == Some(t),
        found.outcome == OutcomeModel::Found(lyrics),
        if found.track_id.len() > 0 && t.id.len() > 0 {
            found.track_id == t.id
        } else {
            found.title == t.title && found.artist == t.artist
        },
    ensures
        ({
            let after = result_applied(m, found);
            &&& after.state.lyrics == Some(lyrics)
            &&& only_lyrics_changed(m, after, m.last_update)
            &&& after.last_update == m.last_update
            &&& result_stored(m.state, found) is Some
            &&& ({
                let e = result_stored(m.state, found)->0;
                e.title == found.title && e.artist == found.artist && e.lyrics == lyrics
            })
        }),
{
}

/// A search that found nothing or failed changes nothing and stores nothing.
pub proof fn law_not_found(m: SchedulerModel, found: ResultModel)
    requires
        found.outcome is NotFound || found.outcome is Failed,
    ensures
        result_applied(m, found) == m,
        result_stored(m.state, found) is None,
{
}

/// Whatever the order of the lines, the timer is set as far ahead as the next
/// line is away, while playing.
pub proof fn law_due(state: DisplayModel, l: LyricsModel, now: nat)
    requires
        state.lyrics == Some(l),
    ensures
        state.status != PlaybackStatus::Playing ==> due(state, now) is None,
        state.status == PlaybackStatus::Playing ==> match wait_for(
            l.lines,
            state.position,
            l.offset_ms,
        ) {
            Some(w) => {
                &&& w == 0 ==> due(state, now) is None
                &&& w > 0 && now + w <= longest() ==> due(state, now) == Some(now + w)
            },
            None => due(state, now) is None,
        },
{
}

/// The lines shown are those of the lookup at the position moved by the offset.
pub proof fn law_located(state: DisplayModel, l: LyricsModel)
    requires
        state.lyrics == Some(l),
    ensures
        located(state).current == lines_found(
            l.lines,
            adjusted_time(state.position, l.offset_ms),
        ).0,
        located(state).next == lines_found(l.lines, adjusted_time(state.position, l.offset_ms)).1,
{
}

} // verus!
