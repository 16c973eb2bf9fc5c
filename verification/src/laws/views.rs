//! What the plain values of things are: each is read off its own part.
use crate::config::Config;
use crate::display::{opt_lyrics, CommandModel, DisplayState, SchedulerCommand};
use crate::lyrics::stamp::nanos;
use crate::lyrics::{line_models, word_models, Lyrics, LyricsLine, LyricsMetadata, WordTimestamp};
use crate::player::macos::{opt_snap, snap_models, ProbeFields, Snapshot};
use crate::player::mpris::{reading_model, Monitor, Reading};
use crate::player::{
    event_models, opt_track, EventModel, PlaybackStatus, PlayerControl, PlayerEvent, PlayerState,
    Track,
};
use crate::provider::group::lyrics_models;
use crate::provider::http::{field_models, opt_http, HttpRequest};
use crate::provider::lrclib::{result_models, LrclibResult};
use crate::provider::{kugou, netease, qqmusic, SearchRequest};
use crate::scheduler::{
    opt_entry, opt_order, Action, ActionModel, CacheEntry, LyricsSearchResult, OutcomeModel,
    Scheduler, SearchOrder, SearchOutcome,
};
use crate::server::{
    answer_models, item_models, CommandResponse, CurrentLineResponse, Decision, DecisionModel,
    LyricLineResponse, SearchResultItem, StatusResponse,
};
use crate::text::{cut, is_white_space, opt_text, texts};
use crate::time::{opt_nanos, Duration};
use crate::tui::view::{row_models, LineRow};
use crate::tui::{Effect, EffectModel, TuiState};
use vstd::prelude::*;

verus! {

// ---------------------------------------------------------------------------
// Options and lists
// ---------------------------------------------------------------------------

/// What is there is taken by its plain value, and what is not is nothing.
pub proof fn law_options(
    s: String,
    d: Duration,
    t: Track,
    l: Lyrics,
    snap: Snapshot,
    http: HttpRequest,
    order: SearchOrder,
    entry: CacheEntry,
    reading: Reading,
)
    ensures
        opt_text(Some(s)) == Some(s@) && opt_text(None) is None,
        opt_nanos(Some(d)) == Some(d@) && opt_nanos(None) is None,
        opt_track(Some(t)) == Some(t@) && opt_track(None) is None,
        opt_lyrics(Some(l)) == Some(l@) && opt_lyrics(None) is None,
        opt_snap(Some(snap)) == Some(snap@) && opt_snap(None) is None,
        opt_http(Some(http)) == Some(http@) && opt_http(None) is None,
        opt_order(Some(order)) == Some(order@) && opt_order(None) is None,
        opt_entry(Some(entry)) == Some(entry@) && opt_entry(None) is None,
        reading_model(Some(reading)) == Some((opt_track(reading.track), reading.status)),
        reading_model(None) is None,
{
}

/// Lists of texts, times and pieces are taken one by one, in order.
pub proof fn law_text_lists(
    v: Seq<String>,
    times: Seq<Duration>,
    s: Seq<char>,
    bounds: Seq<(usize, usize)>,
    fields: Seq<(String, String)>,
    i: int,
)
    ensures
        texts(v).len() == v.len(),
        0 <= i < v.len() ==> texts(v)[i] == v[i]@,
        nanos(times).len() == times.len(),
        0 <= i < times.len() ==> nanos(times)[i] == times[i]@,
        cut(s, bounds).len() == bounds.len(),
        0 <= i < bounds.len() ==> cut(s, bounds)[i] == s.subrange(
            bounds[i].0 as int,
            bounds[i].1 as int,
        ),
        field_models(fields).len() == fields.len(),
        0 <= i < fields.len() ==> field_models(fields)[i] == (fields[i].0@, fields[i].1@),
{
}

/// Lists of lyrics, lines and words are taken one by one, in order.
pub proof fn law_lyrics_lists(
    lyrics: Seq<Lyrics>,
    lines: Seq<LyricsLine>,
    words: Seq<WordTimestamp>,
    rows: Seq<LineRow>,
    answers: Seq<LyricLineResponse>,
    items: Seq<SearchResultItem>,
    i: int,
)
    ensures
        lyrics_models(lyrics).len() == lyrics.len(),
        0 <= i < lyrics.len() ==> lyrics_models(lyrics)[i] == lyrics[i]@,
        line_models(lines).len() == lines.len(),
        0 <= i < lines.len() ==> line_models(lines)[i] == lines[i]@,
        word_models(words).len() == words.len(),
        0 <= i < words.len() ==> word_models(words)[i] == words[i]@,
        row_models(rows).len() == rows.len(),
        0 <= i < rows.len() ==> row_models(rows)[i] == rows[i]@,
        answer_models(answers).len() == answers.len(),
        0 <= i < answers.len() ==> answer_models(answers)[i] == answers[i]@,
        item_models(items).len() == items.len(),
        0 <= i < items.len() ==> item_models(items)[i] == items[i]@,
{
}

/// Lists of events, snapshots, results and names are taken one by one, in
/// order.
pub proof fn law_other_lists(
    events: Seq<PlayerEvent>,
    snaps: Seq<Snapshot>,
    results: Seq<LrclibResult>,
    artists: Seq<netease::Artist>,
    singers: Seq<qqmusic::Singer>,
    i: int,
)
    ensures
        event_models(events).len() == events.len(),
        0 <= i < events.len() ==> event_models(events)[i] == events[i]@,
        snap_models(snaps).len() == snaps.len(),
        0 <= i < snaps.len() ==> snap_models(snaps)[i] == snaps[i]@,
        result_models(results).len() == results.len(),
        0 <= i < results.len() ==> result_models(results)[i] == results[i]@,
        netease::names_of(artists).len() == artists.len(),
        0 <= i < artists.len() ==> netease::names_of(artists)[i] == artists[i].name@,
        qqmusic::names_of(singers).len() == singers.len(),
        0 <= i < singers.len() ==> qqmusic::names_of(singers)[i] == singers[i].name@,
{
}

/// White space is what Unicode counts as such.
pub proof fn law_white_space(c: char)
    ensures
        is_white_space(c) == (c == ' ' || 9 <= c as u32 <= 13 || c as u32 == 133 || c as u32 == 160
            || c as u32 == 5760 || 8192 <= c as u32 <= 8202 || c as u32 == 8232 || c as u32 == 8233
            || c as u32 == 8239 || c as u32 == 8287 || c as u32 == 12288),
{
}

// ---------------------------------------------------------------------------
// Lyrics
// ---------------------------------------------------------------------------

/// The plain values of lyrics and their parts.
pub proof fn law_lyrics_values(
    l: Lyrics,
    m: LyricsMetadata,
    line: LyricsLine,
    w: WordTimestamp,
)
    ensures
        l@.lines == line_models(l.lines@) && l@.metadata == l.metadata@ && l@.offset_ms
            == l.offset_ms,
        m@.title == opt_text(m.title) && m@.artist == opt_text(m.artist) && m@.album == opt_text(
            m.album,
        ) && m@.source == m.source && m@.quality == m.quality,
        line@.position == line.position@ && line@.content == line.content@ && line@.translation
            == opt_text(line.translation),
        line.word_timestamps matches Some(v) ==> line@.words == Some(word_models(v@)),
        line.word_timestamps is None ==> line@.words is None,
        w@.offset == w.offset@ && w@.duration == w.duration@ && w@.word == w.word@,
{
}

/// The plain values of requests, settings and songs.
pub proof fn law_request_values(
    r: SearchRequest,
    http: HttpRequest,
    c: Config,
    k: kugou::SongInfo,
    n: netease::Song,
    q: qqmusic::SongItem,
    l: LrclibResult,
)
    ensures
        r@.title == r.title@ && r@.artist == r.artist@ && r@.album == opt_text(r.album)
            && r@.duration == opt_nanos(r.duration),
        http@.method == http.method && http@.url == http.url@ && http@.fields == field_models(
            http.fields@,
        ) && http@.referer == opt_text(http.referer),
        c@.player == c.player@ && c@.strict_player == c.strict_player && c@.search_timeout_secs
            == c.search_timeout_secs && c@.priority_window_secs == c.priority_window_secs
            && c@.api_port == c.api_port && c@.cache_dir == c.cache_dir@ && c@.providers
            == c.providers@,
        k@.hash == k.hash@ && k@.songname == k.songname@ && k@.singername == opt_text(k.singername)
            && k@.album_name == opt_text(k.album_name),
        n@.id == n.id && n@.title == n.name@ && n@.artists == netease::names_of(n.artists@),
        n.album is None ==> n@.album is None,
        n.album matches Some(a) ==> n@.album == opt_text(a.name),
        q@.mid == q.songmid@ && q@.title == q.songname@ && q@.artists == qqmusic::names_of(
            q.singer@,
        ) && q@.album == opt_text(q.albumname),
        l@.track_name == opt_text(l.track_name) && l@.artist_name == opt_text(l.artist_name)
            && l@.album_name == opt_text(l.album_name) && l@.synced_lyrics == opt_text(
            l.synced_lyrics,
        ) && l@.plain_lyrics == opt_text(l.plain_lyrics),
{
}

// ---------------------------------------------------------------------------
// Players
// ---------------------------------------------------------------------------

/// The plain values of tracks, states and what is seen of players.
pub proof fn law_player_values(
    t: Track,
    p: PlayerState,
    m: Monitor,
    f: ProbeFields,
    s: Snapshot,
)
    ensures
        t@.id == t.id@ && t@.title == t.title@ && t@.artist == t.artist@ && t@.album == opt_text(
            t.album,
        ) && t@.duration == opt_nanos(t.duration),
        p@.status == p.status && p@.position == p.position@ && p@.track == opt_track(p.track)
            && p@.player_name == p.player_name@,
        m@.track_id == m.last_track_id@ && m@.position == m.last_position@ && m@.status
            == m.last_status && m@.errors == m.consecutive_errors,
        f@.state == f.state@ && f@.title == f.title@ && f@.artist == f.artist@ && f@.album
            == f.album@ && f@.duration_ms == f.duration_ms@ && f@.position_s == f.position_s@
            && f@.id == f.id@,
        s@.source == s.source && s@.status == s.status && s@.position == s.position@ && s@.track
            == s.track@,
{
}

/// The plain values of events.
pub proof fn law_event_values(t: Track, s: PlaybackStatus, d: Duration)
    ensures
        PlayerEvent::TrackChanged(t)@ == EventModel::TrackChanged(t@),
        PlayerEvent::PlaybackStateChanged(s)@ == EventModel::PlaybackStateChanged(s),
        PlayerEvent::Seeked(d)@ == EventModel::Seeked(d@),
        PlayerEvent::PlayerQuit@ == EventModel::PlayerQuit,
{
}

// ---------------------------------------------------------------------------
// Scheduler and front ends
// ---------------------------------------------------------------------------

/// The plain values of what is displayed and scheduled.
pub proof fn law_scheduler_values(
    d: DisplayState,
    s: Scheduler,
    o: SearchOrder,
    e: CacheEntry,
    r: LyricsSearchResult,
    l: Lyrics,
)
    ensures
        d@.track == opt_track(d.track) && d@.lyrics == opt_lyrics(d.lyrics) && d@.current
            == d.current_line_index && d@.next == d.next_line_index && d@.position
            == d.playback_position@ && d@.status == d.status && d@.offset_ms == d.offset_ms,
        s@.state == s.state@ && s@.last_update == s.last_position_update@ && s@.timer == opt_nanos(
            s.line_timer,
        ),
        o@.track_id == o.track_id@ && o@.request == o.request@,
        e@.title == e.title@ && e@.artist == e.artist@ && e@.lyrics == e.lyrics@,
        r@.track_id == r.track_id@ && r@.title == r.title@ && r@.artist == r.artist@ && r@.outcome
            == r.outcome@,
        SearchOutcome::Found(l)@ == OutcomeModel::Found(l@),
        SearchOutcome::NotFound@ == OutcomeModel::NotFound,
        SearchOutcome::Failed@ == OutcomeModel::Failed,
{
}

/// The plain values of commands and of what they ask for.
pub proof fn law_command_values(
    title: String,
    artist: String,
    lyrics: Lyrics,
    n: i64,
    ms: u64,
    o: SearchOrder,
    e: CacheEntry,
    p: Duration,
)
    ensures
        (SchedulerCommand::SearchCustom { title, artist })@ == (CommandModel::SearchCustom {
            title: title@,
            artist: artist@,
        }),
        (SchedulerCommand::SetLyrics { lrc_text: title })@ == (CommandModel::SetLyrics {
            lrc_text: title@,
        }),
        (SchedulerCommand::ApplyLyrics { lyrics })@ == (CommandModel::ApplyLyrics {
            lyrics: lyrics@,
        }),
        (SchedulerCommand::AdjustOffset { delta_ms: n })@ == (CommandModel::AdjustOffset {
            delta_ms: n,
        }),
        (SchedulerCommand::SetOffset { offset_ms: n })@ == (CommandModel::SetOffset {
            offset_ms: n,
        }),
        (SchedulerCommand::SeekTo { position_ms: ms })@ == (CommandModel::SeekTo {
            position_ms: ms,
        }),
        SchedulerCommand::ResearchCurrent@ == CommandModel::ResearchCurrent,
        Action::Search(o)@ == ActionModel::Search(o@),
        Action::Store(e)@ == ActionModel::Store(e@),
        Action::Nothing@ == ActionModel::Nothing,
        Action::Control(PlayerControl::SeekTo(p))@ == ActionModel::SeekTo(p@),
        Action::Control(PlayerControl::PlayPause)@ == ActionModel::PlayPause,
        Action::Control(PlayerControl::Next)@ == ActionModel::Next,
        Action::Control(PlayerControl::Previous)@ == ActionModel::Previous,
{
}

/// The plain values of the front ends.
pub proof fn law_front_values(
    t: TuiState,
    r: LineRow,
    c: SchedulerCommand,
    q: SearchRequest,
    s: StatusResponse,
    a: LyricLineResponse,
    l: CurrentLineResponse,
    i: SearchResultItem,
)
    ensures
        t@.mode == t.mode && t@.title == t.search_title@ && t@.artist == t.search_artist@
            && t@.focus == t.search_focus && t@.candidates == lyrics_models(t.candidates@)
            && t@.selected == t.selected && t@.searching == t.searching,
        t.status_message is None ==> t@.status is None,
        t.status_message matches Some(m) ==> t@.status == Some((m.0@, m.1@)),
        r@.content == r.content@ && r@.translation == opt_text(r.translation) && r@.current
            == r.current,
        Effect::Send(c)@ == EffectModel::Send(c@) && Effect::Search(q)@ == EffectModel::Search(q@),
        Effect::Nothing@ == EffectModel::Nothing && Effect::Quit@ == EffectModel::Quit,
        s@.track_title == opt_text(s.track_title) && s@.track_artist == opt_text(s.track_artist)
            && s@.track_album == opt_text(s.track_album) && s@.playback_status
            == s.playback_status@ && s@.position_ms == s.position_ms && s@.has_lyrics
            == s.has_lyrics,
        a@.position_ms == a.position_ms && a@.content == a.content@ && a@.translation == opt_text(
            a.translation,
        ),
        l@.content == opt_text(l.content) && l@.translation == opt_text(l.translation)
            && l@.position_ms == l.position_ms && l@.elapsed_ms == l.elapsed_ms && l@.span_ms
            == l.span_ms,
        i@.index == i.index && i@.source == i.source@ && i@.title == opt_text(i.title) && i@.artist
            == opt_text(i.artist) && i@.quality == i.quality && i@.line_count == i.line_count
            && i@.preview == texts(i.preview@),
{
}

/// A decision is to send one command with one answer, or to refuse with one.
pub proof fn law_decision_values(
    c: SchedulerCommand,
    s: String,
    d: CommandModel,
    t: Seq<char>,
    r: CommandResponse,
)
    ensures
        Decision::Send(c, s).is(DecisionModel::Send(d, t)) == (c@ == d && s@ == t),
        Decision::Refuse(r).is(DecisionModel::Refuse(t)) == (!r.ok && r.message@ == t),
        !Decision::Send(c, s).is(DecisionModel::Refuse(t)),
        !Decision::Refuse(r).is(DecisionModel::Send(d, t)),
{
}

} // verus!
