//! Calls of the scheduler.
use crate::display::{opt_lyrics, DisplayState, SchedulerCommand};
use crate::laws::scheduler::{
    law_clock, law_refresh, law_seek, law_status_change, law_track_change, longest, right_lines,
    right_timer, searches_for,
};
use crate::lyrics::lrc::{self, lrc_lyrics, ParseError};
use crate::lyrics::lrcx::{self, lrcx_lyrics};
use crate::lyrics::{Lyrics, LyricsLine};
use crate::player::{opt_track, PlaybackStatus, PlayerEvent, PlayerState, Track};
use crate::scheduler::{
    opt_entry, opt_order, Action, CacheEntry, LyricsSearchResult, Scheduler, SearchOrder,
    SearchOutcome,
};
use crate::time::{opt_nanos, Duration};
use vstd::prelude::*;

verus! {

/// Whether a state shows the same track, lyrics and status as another.
pub open spec fn same_music(a: DisplayState, b: DisplayState) -> bool {
    &&& opt_track(a.track) == opt_track(b.track)
    &&& opt_lyrics(a.lyrics) == opt_lyrics(b.lyrics)
    &&& a.status == b.status
}

/// Where playback is at time `now`, as the scheduler counts.
pub open spec fn position_by(s: Scheduler, now: Duration) -> nat {
    if s.state.status == PlaybackStatus::Playing && now@ >= s.last_position_update@ {
        (s.state.playback_position@ + now@ - s.last_position_update@) as nat
    } else {
        s.state.playback_position@
    }
}

/// Whether what is published is the state of the scheduler.
pub open spec fn publishes(s: Scheduler, r: DisplayState) -> bool {
    r@ == s.state@
}

/// A seek puts the position where it says, forward or back, and looks up the
/// lines there; nothing else changes, and nothing is searched for.
pub proof fn law_on_seek(
    s: &mut Scheduler,
    p: Duration,
    cached: Option<Lyrics>,
    now: Duration,
    r: (Option<SearchOrder>, DisplayState),
)
    requires
        call_ensures(Scheduler::on_player_event, (s, PlayerEvent::Seeked(p), cached, now), r),
    ensures
        final(s).state.playback_position@ == p@,
        final(s).last_position_update@ == now@,
        same_music(final(s).state, old(s).state),
        right_lines(final(s).state@),
        right_timer(final(s).state@, now@, opt_nanos(final(s).line_timer)),
        r.0 is None,
        publishes(*final(s), r.1),
{
    law_seek(old(s)@, p@, opt_lyrics(cached), now@);
}

/// A new track is shown from its beginning, with what the cache holds for it; it
/// is searched for unless the cache holds something.
pub proof fn law_on_track(
    s: &mut Scheduler,
    t: Track,
    cached: Option<Lyrics>,
    now: Duration,
    r: (Option<SearchOrder>, DisplayState),
)
    requires
        call_ensures(Scheduler::on_player_event, (s, PlayerEvent::TrackChanged(t), cached, now), r),
    ensures
        opt_track(final(s).state.track) == Some(t@),
        opt_lyrics(final(s).state.lyrics) == opt_lyrics(cached),
        final(s).state.status == old(s).state.status,
        final(s).state.playback_position@ == 0,
        final(s).last_position_update@ == now@,
        right_lines(final(s).state@),
        right_timer(final(s).state@, now@, opt_nanos(final(s).line_timer)),
        cached is None ==> final(s).state.current_line_index is None
            && final(s).state.next_line_index is None,
        cached is Some ==> r.0 is None,
        cached is None ==> searches_for(opt_order(r.0), t@),
        publishes(*final(s), r.1),
{
    law_track_change(old(s)@, t@, opt_lyrics(cached), now@);
}

/// A new status is taken over; the position is where the clock has put it, and
/// track, lyrics and lines stay.
pub proof fn law_on_status(
    s: &mut Scheduler,
    status: PlaybackStatus,
    cached: Option<Lyrics>,
    now: Duration,
    r: (Option<SearchOrder>, DisplayState),
)
    requires
        call_ensures(
            Scheduler::on_player_event,
            (s, PlayerEvent::PlaybackStateChanged(status), cached, now),
            r,
        ),
    ensures
        final(s).state.status == status,
        opt_track(final(s).state.track) == opt_track(old(s).state.track),
        opt_lyrics(final(s).state.lyrics) == opt_lyrics(old(s).state.lyrics),
        final(s).state.current_line_index == old(s).state.current_line_index,
        final(s).state.next_line_index == old(s).state.next_line_index,
        final(s).state.playback_position@ == position_by(*old(s), now),
        final(s).last_position_update@ == now@,
        status != PlaybackStatus::Playing ==> final(s).line_timer is None,
        r.0 is None,
        publishes(*final(s), r.1),
{
    law_status_change(old(s)@, status, opt_lyrics(cached), now@);
}

/// Once the player has quit nothing is left.
pub proof fn law_on_quit(
    s: &mut Scheduler,
    cached: Option<Lyrics>,
    now: Duration,
    r: (Option<SearchOrder>, DisplayState),
)
    requires
        call_ensures(Scheduler::on_player_event, (s, PlayerEvent::PlayerQuit, cached, now), r),
    ensures
        final(s).state.track is None,
        final(s).state.lyrics is None,
        final(s).state.current_line_index is None && final(s).state.next_line_index is None,
        final(s).state.playback_position@ == 0,
        final(s).state.status == PlaybackStatus::Stopped,
        final(s).state.offset_ms == 0,
        final(s).line_timer is None,
        r.0 is None,
        publishes(*final(s), r.1),
{
    assert(opt_track(final(s).state.track) is None);
    assert(opt_lyrics(final(s).state.lyrics) is None);
}

/// When the timer fires the lines are looked up where the clock has put the
/// position.
pub proof fn law_on_timer(s: &mut Scheduler, now: Duration, r: DisplayState)
    requires
        call_ensures(Scheduler::on_line_timer, (s, now), r),
    ensures
        same_music(final(s).state, old(s).state),
        final(s).state.playback_position@ == position_by(*old(s), now),
        right_lines(final(s).state@),
        right_timer(final(s).state@, now@, opt_nanos(final(s).line_timer)),
        publishes(*final(s), r),
{
    let moved = crate::scheduler::advanced(old(s)@, now@);
    law_clock(old(s)@, now@);
    law_refresh(moved, now@);
}

/// A tick moves the position with the clock and leaves lines and timer alone.
pub proof fn law_on_tick(s: &mut Scheduler, now: Duration, r: DisplayState)
    requires
        call_ensures(Scheduler::on_tick, (s, now), r),
    ensures
        same_music(final(s).state, old(s).state),
        final(s).state.playback_position@ == position_by(*old(s), now),
        final(s).state.current_line_index == old(s).state.current_line_index,
        final(s).state.next_line_index == old(s).state.next_line_index,
        opt_nanos(final(s).line_timer) == opt_nanos(old(s).line_timer),
        old(s).state.status == PlaybackStatus::Playing ==> final(s).last_position_update@ == now@,
        publishes(*final(s), r),
{
    law_clock(old(s)@, now@);
}

/// Ticks are wanted while playing, and only then.
pub proof fn law_wants_ticks(s: &Scheduler, r: bool)
    requires
        call_ensures(Scheduler::wants_ticks, (s,), r),
    ensures
        r == (s.state.status == PlaybackStatus::Playing),
{
}

/// A position fits where it is no longer than the longest span.
pub proof fn law_position_fits(s: &Scheduler, now: Duration, r: bool)
    requires
        call_ensures(Scheduler::position_fits, (s, now), r),
    ensures
        r == (s.state.status != PlaybackStatus::Playing || position_by(*s, now) <= longest()),
{
}

/// A scheduler starts with nothing playing.
pub proof fn law_new_scheduler(r: Scheduler)
    requires
        call_ensures(Scheduler::new, (), r),
    ensures
        r.state.track is None && r.state.lyrics is None,
        r.state.current_line_index is None && r.state.next_line_index is None,
        r.state.status == PlaybackStatus::Stopped,
        r.state.playback_position@ == 0,
        r.state.offset_ms == 0,
        r.line_timer is None,
        r.last_position_update@ == 0,
{
    assert(opt_track(r.state.track) is None);
    assert(opt_lyrics(r.state.lyrics) is None);
    assert(opt_nanos(r.line_timer) is None);
}

/// To follow the clock is to count from its reading, without a timer.
pub proof fn law_follow_clock(s: &mut Scheduler, now: Duration, r: ())
    requires
        call_ensures(Scheduler::follow_clock, (s, now), r),
    ensures
        final(s).last_position_update@ == now@,
        final(s).line_timer is None,
        final(s).state@ == old(s).state@,
{
    assert(opt_nanos(final(s).line_timer) is None);
}

/// At the start the state of the player is taken over.
pub proof fn law_on_start(
    s: &mut Scheduler,
    initial: PlayerState,
    cached: Option<Lyrics>,
    r: (Option<SearchOrder>, DisplayState),
)
    requires
        call_ensures(Scheduler::start, (s, initial, cached), r),
    ensures
        final(s).state.status == initial.status,
        final(s).state.playback_position@ == initial.position@,
        initial.track matches Some(t) ==> {
            &&& opt_track(final(s).state.track) == Some(t@)
            &&& opt_lyrics(final(s).state.lyrics) == opt_lyrics(cached)
            &&& cached is Some ==> r.0 is None
            &&& cached is None ==> searches_for(opt_order(r.0), t@)
        },
        initial.track is None ==> {
            &&& opt_track(final(s).state.track) == opt_track(old(s).state.track)
            &&& opt_lyrics(final(s).state.lyrics) == opt_lyrics(old(s).state.lyrics)
            &&& r.0 is None
        },
        publishes(*final(s), r.1),
{
    if let Some(t) = initial.track {
        assert(initial@.track == Some(t@));
    } else {
        assert(initial@.track is None);
        assert(opt_order(r.0) is None);
    }
    if cached is Some {
        assert(opt_lyrics(cached) is Some);
        assert(opt_order(r.0) is None);
    } else {
        assert(opt_lyrics(cached) is None);
    }
}

/// A new track takes the lyrics of the cache, and the search is for that track.
pub proof fn law_handle_track_change(
    s: &mut Scheduler,
    t: &Track,
    cached: Option<Lyrics>,
    r: Option<SearchOrder>,
)
    requires
        call_ensures(Scheduler::handle_track_change, (s, t, cached), r),
    ensures
        opt_lyrics(final(s).state.lyrics) == opt_lyrics(cached),
        final(s).state.current_line_index is None && final(s).state.next_line_index is None,
        opt_track(final(s).state.track) == opt_track(old(s).state.track),
        final(s).state.playback_position@ == old(s).state.playback_position@,
        cached is Some ==> r is None,
        cached is None ==> searches_for(opt_order(r), t@),
{
    if cached is Some {
        assert(opt_order(r) is None);
    }
}

/// Commands that set lyrics show them and store them for the track; the
/// position moves with the clock, and the rest stays.
pub proof fn law_on_lyrics_command(
    s: &mut Scheduler,
    text: String,
    now: Duration,
    r: Action,
)
    requires
        call_ensures(
            Scheduler::on_command,
            (s, SchedulerCommand::SetLyrics { lrc_text: text }, now),
            r,
        ),
    ensures
        opt_lyrics(final(s).state.lyrics) == Some(lrc_lyrics(text@)),
        opt_track(final(s).state.track) == opt_track(old(s).state.track),
        final(s).state.status == old(s).state.status,
        final(s).state.playback_position@ == position_by(*old(s), now),
        old(s).state.track is None ==> r is Nothing,
        old(s).state.track matches Some(t) ==> r is Store && r->Store_0@.title == t@.title
            && r->Store_0@.artist == t@.artist && r->Store_0@.lyrics == lrc_lyrics(text@),
{
    law_clock(old(s)@, now@);
    let cmd = SchedulerCommand::SetLyrics { lrc_text: text };
    assert(r@ == crate::scheduler::command_action(old(s)@.state, cmd@));
    if old(s).state.track is Some {
        assert(old(s)@.state.track is Some);
    } else {
        assert(old(s)@.state.track is None);
    }
}

/// Lyrics that are applied are shown as they are and stored for the track.
pub proof fn law_on_apply_command(s: &mut Scheduler, lyrics: Lyrics, now: Duration, r: Action)
    requires
        call_ensures(Scheduler::on_command, (s, SchedulerCommand::ApplyLyrics { lyrics }, now), r),
    ensures
        opt_lyrics(final(s).state.lyrics) == Some(lyrics@),
        opt_track(final(s).state.track) == opt_track(old(s).state.track),
        final(s).state.status == old(s).state.status,
        final(s).state.playback_position@ == position_by(*old(s), now),
        old(s).state.track is None ==> r is Nothing,
        old(s).state.track matches Some(t) ==> r is Store && r->Store_0@.title == t@.title
            && r->Store_0@.artist == t@.artist && r->Store_0@.lyrics == lyrics@,
{
    law_clock(old(s)@, now@);
    let cmd = SchedulerCommand::ApplyLyrics { lyrics };
    assert(r@ == crate::scheduler::command_action(old(s)@.state, cmd@));
    if old(s).state.track is Some {
        assert(old(s)@.state.track is Some);
    } else {
        assert(old(s)@.state.track is None);
    }
}

/// The offset is adjusted by what a command says; lines and metadata stay.
pub proof fn law_on_adjust_command(
    s: &mut Scheduler,
    l: Lyrics,
    delta_ms: i64,
    now: Duration,
    r: Action,
)
    requires
        old(s).state.lyrics == Some(l),
        i64::MIN <= l.offset_ms + delta_ms <= i64::MAX,
        call_ensures(
            Scheduler::on_command,
            (s, SchedulerCommand::AdjustOffset { delta_ms }, now),
            r,
        ),
    ensures
        final(s).state.lyrics is Some,
        final(s).state.lyrics->0.offset_ms == l.offset_ms + delta_ms,
        final(s).state.lyrics->0@.lines == l@.lines,
        final(s).state.lyrics->0@.metadata == l@.metadata,
        opt_track(final(s).state.track) == opt_track(old(s).state.track),
        final(s).state.playback_position@ == position_by(*old(s), now),
{
    law_clock(old(s)@, now@);
    assert(opt_lyrics(final(s).state.lyrics) is Some);
}

/// The offset is set to what a command says; lines and metadata stay.
pub proof fn law_on_offset_command(
    s: &mut Scheduler,
    l: Lyrics,
    offset_ms: i64,
    now: Duration,
    r: Action,
)
    requires
        old(s).state.lyrics == Some(l),
        call_ensures(Scheduler::on_command, (s, SchedulerCommand::SetOffset { offset_ms }, now), r),
    ensures
        final(s).state.lyrics is Some,
        final(s).state.lyrics->0.offset_ms == offset_ms,
        final(s).state.lyrics->0@.lines == l@.lines,
        final(s).state.lyrics->0@.metadata == l@.metadata,
        opt_track(final(s).state.track) == opt_track(old(s).state.track),
        final(s).state.playback_position@ == position_by(*old(s), now),
{
    law_clock(old(s)@, now@);
    assert(opt_lyrics(final(s).state.lyrics) is Some);
}

/// A seek by command is passed on to the player, whatever the position.
pub proof fn law_on_seek_command(s: &mut Scheduler, position_ms: u64, now: Duration, r: Action)
    requires
        call_ensures(Scheduler::on_command, (s, SchedulerCommand::SeekTo { position_ms }, now), r),
    ensures
        r is Control,
        r->Control_0 is SeekTo,
        r->Control_0->SeekTo_0@ == position_ms * 1_000_000,
        same_music(final(s).state, old(s).state),
        final(s).state.playback_position@ == position_by(*old(s), now),
{
    law_clock(old(s)@, now@);
    assert(r@ == crate::scheduler::ActionModel::SeekTo((position_ms * 1_000_000) as nat));
}

/// A search by command is for what it names, on behalf of the track.
pub proof fn law_on_search_command(
    s: &mut Scheduler,
    title: String,
    artist: String,
    now: Duration,
    r: Action,
)
    requires
        call_ensures(
            Scheduler::on_command,
            (s, SchedulerCommand::SearchCustom { title, artist }, now),
            r,
        ),
    ensures
        r is Search,
        r->Search_0.request.title@ == title@,
        r->Search_0.request.artist@ == artist@,
        r->Search_0.request.album is None,
        r->Search_0.request.duration is None,
        old(s).state.track matches Some(t) ==> r->Search_0.track_id@ == t.id@,
        old(s).state.track is None ==> r->Search_0.track_id@.len() == 0,
        same_music(final(s).state, old(s).state),
{
    law_clock(old(s)@, now@);
    let cmd = SchedulerCommand::SearchCustom { title, artist };
    assert(r@ == crate::scheduler::command_action(old(s)@.state, cmd@));
    let o = r->Search_0;
    assert(o@.request == o.request@);
    assert(o.request@.album is None && o.request@.duration is None);
    if old(s).state.track is Some {
        assert(old(s)@.state.track is Some);
    } else {
        assert(old(s)@.state.track is None);
    }
}

/// A search result for the track that is playing is shown, where the clock has
/// put the position, and stored under the names that were searched for.
pub proof fn law_on_found(
    s: &mut Scheduler,
    found: LyricsSearchResult,
    lyrics: Lyrics,
    t: Track,
    now: Duration,
    r: (Option<CacheEntry>, DisplayState),
)
    requires
        call_ensures(Scheduler::on_search_result, (s, found, now), r),
        old(s).state.track == Some(t),
        found.outcome == SearchOutcome::Found(lyrics),
        if found.track_id@.len() > 0 && t.id@.len() > 0 {
            found.track_id@ == t.id@
        } else {
            found.title@ == t.title@ && found.artist@ == t.artist@
        },
    ensures
        opt_lyrics(final(s).state.lyrics) == Some(lyrics@),
        opt_track(final(s).state.track) == Some(t@),
        final(s).state.status == old(s).state.status,
        final(s).state.playback_position@ == position_by(*old(s), now),
        right_lines(final(s).state@),
        right_timer(final(s).state@, now@, opt_nanos(final(s).line_timer)),
        r.0 is Some,
        r.0->0.title@ == found.title@ && r.0->0.artist@ == found.artist@ && r.0->0.lyrics@
            == lyrics@,
        publishes(*final(s), r.1),
{
    let moved = crate::scheduler::advanced(old(s)@, now@);
    law_clock(old(s)@, now@);
    assert(old(s)@.state.track == Some(t@));
    law_refresh(crate::scheduler::result_applied(moved, found@), now@);
    assert(opt_entry(r.0) is Some);
}

/// A result for another track, or one without lyrics, leaves the lyrics and is
/// not stored.
pub proof fn law_on_stale(
    s: &mut Scheduler,
    found: LyricsSearchResult,
    t: Track,
    now: Duration,
    r: (Option<CacheEntry>, DisplayState),
)
    requires
        call_ensures(Scheduler::on_search_result, (s, found, now), r),
        old(s).state.track == Some(t),
        !(found.outcome is Found) || if found.track_id@.len() > 0 && t.id@.len() > 0 {
            found.track_id@ != t.id@
        } else {
            found.title@ != t.title@ || found.artist@ != t.artist@
        },
    ensures
        same_music(final(s).state, old(s).state),
        final(s).state.playback_position@ == position_by(*old(s), now),
        r.0 is None,
{
    let moved = crate::scheduler::advanced(old(s)@, now@);
    law_clock(old(s)@, now@);
    assert(old(s)@.state.track == Some(t@));
    law_refresh(crate::scheduler::result_applied(moved, found@), now@);
    assert(opt_entry(r.0) is None);
}

// ---------------------------------------------------------------------------
// Lyrics
// ---------------------------------------------------------------------------

/// Every text can be read as LRC, and as LRCX where the times of its
/// translations can.
pub proof fn law_parse(
    input: &str,
    lrc: Result<Lyrics, ParseError>,
    lrcx: Result<Lyrics, ParseError>,
)
    requires
        call_ensures(lrc::parse, (input,), lrc),
        call_ensures(lrcx::parse, (input,), lrcx),
    ensures
        lrc is Ok && lrc->Ok_0@ == lrc_lyrics(input@),
        lrcx_lyrics(input@) matches Some(m) ==> lrcx is Ok && lrcx->Ok_0@ == m,
        lrcx_lyrics(input@) is None ==> lrcx is Err,
{
}

/// Whether lines stand in order of their times.
pub open spec fn lines_ordered(lines: Seq<LyricsLine>) -> bool {
    forall|i: int, j: int|
        0 <= i <= j < lines.len() ==> (#[trigger] lines[i]).position@ <= (
        #[trigger] lines[j]).position@
}

/// The current line is the last one that has started by the time of playback
/// moved by the offset, and the next line the one behind it.
pub proof fn law_line_at(l: &Lyrics, time: Duration, r: (Option<usize>, Option<usize>))
    requires
        call_ensures(Lyrics::line_at, (l, time), r),
        lines_ordered(l.lines@),
        l.lines@.len() <= usize::MAX,
        0 <= time@ + l.offset_ms * 1_000_000 <= longest(),
    ensures
        ({
            let t = time@ + l.offset_ms * 1_000_000;
            &&& r.0 matches Some(i) ==> i < l.lines@.len() && l.lines@[i as int].position@ <= t
                && forall|j: int|
                i < j < l.lines@.len() ==> (#[trigger] l.lines@[j]).position@ > t
            &&& r.0 is None ==> forall|j: int|
                0 <= j < l.lines@.len() ==> (#[trigger] l.lines@[j]).position@ > t
            &&& r.1 matches Some(n) ==> n < l.lines@.len() && l.lines@[n as int].position@ > t
                && forall|j: int| 0 <= j < n ==> (#[trigger] l.lines@[j]).position@ <= t
            &&& r.1 is None ==> forall|j: int|
                0 <= j < l.lines@.len() ==> (#[trigger] l.lines@[j]).position@ <= t
        }),
{
    let models = l@.lines;
    let t = crate::lyrics::adjusted_time(time@, l.offset_ms);
    assert(t == time@ + l.offset_ms * 1_000_000);
    assert forall|j: int| 0 <= j < l.lines@.len() implies models[j].position == (
    #[trigger] l.lines@[j]).position@ by {}
    assert(crate::lyrics::split_at_time(models, t)) by {
        assert forall|i: int, j: int|
            0 <= i <= j < models.len() && (#[trigger] models[j]).position <= t implies (
        #[trigger] models[i]).position <= t by {
            assert(l.lines@[i].position@ <= l.lines@[j].position@);
        }
    }
    crate::lyrics::lemma_started_count(models, t);
    let k = crate::lyrics::started_count(models, t);
    assert forall|j: int| 0 <= j < l.lines@.len() implies ((#[trigger] l.lines@[j]).position@ <= t
        <==> j < k) by {
        assert(models[j].position == l.lines@[j].position@);
    }
}

/// The next line becomes current once as much time has passed as is said.
pub proof fn law_time_to_next_line(l: &Lyrics, time: Duration, r: Option<Duration>, n: int)
    requires
        call_ensures(Lyrics::time_to_next_line, (l, time), r),
        lines_ordered(l.lines@),
        l.lines@.len() <= usize::MAX,
        0 <= time@ + l.offset_ms * 1_000_000 <= longest(),
        0 <= n <= l.lines@.len(),
        forall|j: int|
            0 <= j < n ==> (#[trigger] l.lines@[j]).position@ <= time@ + l.offset_ms * 1_000_000,
        n < l.lines@.len() ==> l.lines@[n].position@ > time@ + l.offset_ms * 1_000_000,
        n < l.lines@.len() ==> l.lines@[n].position@ - l.offset_ms * 1_000_000 - time@ <= longest(),
    ensures
        n == l.lines@.len() ==> r is None,
        n < l.lines@.len() ==> r is Some && r->0@ == l.lines@[n].position@ - l.offset_ms * 1_000_000
            - time@,
{
    let models = l@.lines;
    let t = crate::lyrics::adjusted_time(time@, l.offset_ms);
    assert(t == time@ + l.offset_ms * 1_000_000);
    assert forall|j: int| 0 <= j < l.lines@.len() implies models[j].position == (
    #[trigger] l.lines@[j]).position@ by {}
    assert(crate::lyrics::split_at_time(models, t)) by {
        assert forall|i: int, j: int|
            0 <= i <= j < models.len() && (#[trigger] models[j]).position <= t implies (
        #[trigger] models[i]).position <= t by {
            assert(l.lines@[i].position@ <= l.lines@[j].position@);
        }
    }
    crate::lyrics::lemma_started_count(models, t);
    let k = crate::lyrics::started_count(models, t);
    if n < l.lines@.len() {
        assert(models[n].position == l.lines@[n].position@);
    }
    if k < n {
        assert(models[k].position == l.lines@[k].position@);
    }
    assert(k == n) by {
        if n > 0 {
            assert(models[n - 1].position == l.lines@[n - 1].position@);
        }
    }
    assert(opt_nanos(r) == crate::lyrics::wait_for(models, time@, l.offset_ms));
}

} // verus!
