//! Players on macOS, asked by AppleScript. Polling-based; events are derived
//! by comparing successive snapshots.
use super::{
    can_interpolate, event_models, interpolate, moved_on, no_events, no_player, push_event,
    EventModel, PlaybackStatus, PlayerControl, PlayerEvent, PlayerState, PlayerStateModel, Track,
    TrackModel,
};
use crate::text::{
    bounds_within, chars_of, contains, cut, empty_text, has_part, lowercase, lowercased, same_text,
    string_of, trim, trimmed,
};
use crate::time::{
    distance, floored_difference, MAX_NANOS, NANOS_PER_MICRO, NANOS_PER_MILLI, Duration,
};
use vstd::prelude::*;

verus! {

/// How often to probe music apps for state changes, in milliseconds.
pub const POLL_MILLIS: u64 = 500;

/// Drift of the position between two polls beyond which the change is a seek,
/// in milliseconds. Polling jitter alone shouldn't exceed ~250ms.
pub const SEEK_MILLIS: u64 = 800;

// ---------------------------------------------------------------------------
// Sources and scripts
// ---------------------------------------------------------------------------

/// A music app.
#[derive(Clone, Copy, Debug, PartialEq, Eq, Structural)]
pub enum Source {
    Spotify,
    Music,
}

impl Source {
    /// The name of the app.
    pub open spec fn name_text(self) -> Seq<char> {
        match self {
            Source::Spotify => "Spotify"@,
            Source::Music => "Music"@,
        }
    }

    /// Whether the app's name has the preferred player's in it, whatever the
    /// case.
    pub open spec fn preferred(self, preferred: Seq<char>) -> bool {
        has_part(lowercased(self.name_text()), lowercased(preferred))
    }

    pub fn display_name(self) -> (r: &'static str)
        ensures
            r@ == self.name_text(),
    {
        match self {
            Source::Spotify => "Spotify",
            Source::Music => "Music",
        }
    }

    /// Process name to look up when checking liveness. (Same as display_name
    /// today; kept separate so renames don't surprise.)
    pub fn process_name(self) -> (r: &'static str)
        ensures
            r@ == self.name_text(),
    {
        match self {
            Source::Spotify => "Spotify",
            Source::Music => "Music",
        }
    }

    pub fn matches_preferred(self, preferred: &str) -> (r: bool)
        ensures
            r == self.preferred(preferred@),
    {
        contains(lowercase(self.display_name()).as_str(), lowercase(preferred).as_str())
    }
}

/// All sources, in the order in which they are probed.
pub open spec fn all_sources() -> Seq<Source> {
    seq![Source::Spotify, Source::Music]
}

/// The sources with the preferred player's name in theirs.
pub open spec fn preferred_among(sources: Seq<Source>, preferred: Seq<char>) -> Seq<Source>
    decreases sources.len(),
{
    if sources.len() == 0 {
        Seq::empty()
    } else if sources.last().preferred(preferred) {
        preferred_among(sources.drop_last(), preferred).push(sources.last())
    } else {
        preferred_among(sources.drop_last(), preferred)
    }
}

/// The sources that are probed: all of them, but in strict mode only the
/// preferred ones.
pub fn enabled_sources(preferred: &str, strict: bool) -> (r: Vec<Source>)
    ensures
        r@ == (if strict && preferred@.len() > 0 {
            preferred_among(all_sources(), preferred@)
        } else {
            all_sources()
        }),
{
    let all = vec![Source::Spotify, Source::Music];
    assert(all@ =~= all_sources());
    if !strict || empty_text(preferred) {
        return all;
    }
    let mut out: Vec<Source> = Vec::new();
    let mut i: usize = 0;
    assert(all@.take(0) =~= Seq::empty());
    while i < all.len()
        invariant
            i <= all@.len(),
            out@ == preferred_among(all@.take(i as int), preferred@),
        decreases all@.len() - i,
    {
        assert(all@.take(i + 1).drop_last() =~= all@.take(i as int));
        if all[i].matches_preferred(preferred) {
            out.push(all[i]);
        }
        i = i + 1;
    }
    assert(all@.take(all@.len() as int) =~= all@);
    out
}

/// A one-line script: an app is told to do something.
pub open spec fn script_text(src: Source, verb: Seq<char>) -> Seq<char> {
    "tell application \""@ + src.name_text() + "\" to "@ + verb
}

/// Build a one-liner like: tell application "Spotify" to playpause
pub fn command_script(src: Source, verb: &str) -> (r: String)
    ensures
        r@ == script_text(src, verb@),
{
    let mut out = "tell application \"".to_owned();
    out.append(src.display_name());
    out.append("\" to ");
    out.append(verb);
    out
}

/// What an app is told for a control; `seconds` is the position to seek to.
/// Spotify lacks a `stop` verb and is told to pause.
pub open spec fn control_verb(src: Source, control: PlayerControl, seconds: Seq<char>) -> Seq<char> {
    match control {
        PlayerControl::PlayPause => "playpause"@,
        PlayerControl::Play => "play"@,
        PlayerControl::Pause => "pause"@,
        PlayerControl::Stop => match src {
            Source::Spotify => "pause"@,
            Source::Music => "stop"@,
        },
        PlayerControl::Next => "next track"@,
        PlayerControl::Previous => "previous track"@,
        PlayerControl::SeekTo(_) => "set player position to "@ + seconds,
    }
}

/// The script for a control; `seconds` is the position to seek to as it is
/// written in a script.
pub fn control_script(src: Source, control: PlayerControl, seconds: &str) -> (r: String)
    ensures
        r@ == script_text(src, control_verb(src, control, seconds@)),
{
    match control {
        PlayerControl::PlayPause => command_script(src, "playpause"),
        PlayerControl::Play => command_script(src, "play"),
        PlayerControl::Pause => command_script(src, "pause"),
        PlayerControl::Stop => match src {
            Source::Spotify => command_script(src, "pause"),
            Source::Music => command_script(src, "stop"),
        },
        PlayerControl::Next => command_script(src, "next track"),
        PlayerControl::Previous => command_script(src, "previous track"),
        PlayerControl::SeekTo(_) => {
            let mut verb = "set player position to ".to_owned();
            verb.append(seconds);
            command_script(src, verb.as_str())
        },
    }
}

/// How a script asks for the duration of a track in milliseconds: Spotify
/// exposes milliseconds, Music seconds.
pub open spec fn duration_expr(src: Source) -> Seq<char> {
    match src {
        Source::Spotify => "duration of t"@,
        Source::Music => "(duration of t) * 1000"@,
    }
}

/// How a script asks for an identifier of a track that stays the same.
pub open spec fn id_expr(src: Source) -> Seq<char> {
    match src {
        Source::Spotify => "id of t"@,
        Source::Music => "persistent ID of t"@,
    }
}

/// The script that probes a source.
pub open spec fn probe_text(src: Source) -> Seq<char> {
    "tell application \"System Events\"\n    if not (exists process \""@ + src.name_text()
        + "\") then return \"not_running\"\nend tell\ntell application \""@ + src.name_text()
        + "\"\n    try\n        set ps to player state as text\n    on error\n        return \"stopped\"\n    end try\n    if ps is \"stopped\" then return \"stopped\"\n    try\n        set t to current track\n    on error\n        return \"stopped\"\n    end try\n    set dur to "@
        + duration_expr(src)
        + "\n    set pos to player position\n    return \"ok|\" & ps & \"|\" & (name of t) & \"|\" & (artist of t) & \"|\" & (album of t) & \"|\" & dur & \"|\" & pos & \"|\" & ("@
        + id_expr(src) + ")\nend tell"@
}

/// Build the AppleScript probe for one source.
///
/// Output schema (one line):
///   "not_running"
///   "stopped"
///   "ok|<state>|<title>|<artist>|<album>|<duration_ms>|<position_s>|<id>"
///
/// The `System Events` guard prevents AppleScript from launching the app just
/// because it is asked about.
pub fn probe_script(src: Source) -> (r: String)
    ensures
        r@ == probe_text(src),
{
    let mut out = "tell application \"System Events\"\n    if not (exists process \"".to_owned();
    out.append(src.process_name());
    out.append("\") then return \"not_running\"\nend tell\ntell application \"");
    out.append(src.display_name());
    out.append(
        "\"\n    try\n        set ps to player state as text\n    on error\n        return \"stopped\"\n    end try\n    if ps is \"stopped\" then return \"stopped\"\n    try\n        set t to current track\n    on error\n        return \"stopped\"\n    end try\n    set dur to ",
    );
    out.append(
        match src {
            Source::Spotify => "duration of t",
            Source::Music => "(duration of t) * 1000",
        },
    );
    out.append(
        "\n    set pos to player position\n    return \"ok|\" & ps & \"|\" & (name of t) & \"|\" & (artist of t) & \"|\" & (album of t) & \"|\" & dur & \"|\" & pos & \"|\" & (",
    );
    out.append(
        match src {
            Source::Spotify => "id of t",
            Source::Music => "persistent ID of t",
        },
    );
    out.append(")\nend tell");
    out
}

// ---------------------------------------------------------------------------
// Probe output
// ---------------------------------------------------------------------------

/// The index of the first separator from `i` on, or the length.
pub open spec fn separator_at(s: Seq<char>, sep: char, i: int) -> int
    decreases s.len() - i,
{
    if i >= s.len() || s[i] == sep {
        i
    } else {
        separator_at(s, sep, i + 1)
    }
}

/// The first `n` pieces of `s` from index `i` on between separators; the last
/// of them holds all that is left.
pub open spec fn first_pieces(s: Seq<char>, sep: char, i: int, n: nat) -> Seq<Seq<char>>
    decreases n,
{
    let k = separator_at(s, sep, i);
    if n <= 1 || k >= s.len() {
        seq![s.skip(i)]
    } else {
        seq![s.subrange(i, k)] + first_pieces(s, sep, k + 1, (n - 1) as nat)
    }
}

/// A piece, or nothing where there are fewer.
pub open spec fn piece(parts: Seq<Seq<char>>, i: int) -> Seq<char> {
    if 0 <= i < parts.len() {
        parts[i]
    } else {
        Seq::empty()
    }
}

/// What a probe of a running app says.
#[derive(Debug)]
pub struct ProbeFields {
    pub state: String,
    pub title: String,
    pub artist: String,
    pub album: String,
    /// The duration in milliseconds as the script writes it; "0" where it is
    /// missing.
    pub duration_ms: String,
    /// The position in seconds as the script writes it; "0" where it is
    /// missing.
    pub position_s: String,
    pub id: String,
}

/// What a probe says, as plain values.
#[verifier::ext_equal]
pub struct FieldsModel {
    pub state: Seq<char>,
    pub title: Seq<char>,
    pub artist: Seq<char>,
    pub album: Seq<char>,
    pub duration_ms: Seq<char>,
    pub position_s: Seq<char>,
    pub id: Seq<char>,
}

impl View for ProbeFields {
    type V = FieldsModel;

    open spec fn view(&self) -> FieldsModel {
        FieldsModel {
            state: self.state@,
            title: self.title@,
            artist: self.artist@,
            album: self.album@,
            duration_ms: self.duration_ms@,
            position_s: self.position_s@,
            id: self.id@,
        }
    }
}

/// A number as the script writes it, or zero where it is missing.
pub open spec fn number_piece(parts: Seq<Seq<char>>, i: int) -> Seq<char> {
    if 0 <= i < parts.len() {
        parts[i]
    } else {
        "0"@
    }
}

/// What the output of a probe says; none where the app does not run or is
/// stopped, or the output has another form.
pub open spec fn fields_in(raw: Seq<char>) -> Option<FieldsModel> {
    let parts = first_pieces(trimmed(raw), '|', 0, 8);
    if piece(parts, 0) != "ok"@ {
        None
    } else {
        Some(
            FieldsModel {
                state: piece(parts, 1),
                title: piece(parts, 2),
                artist: piece(parts, 3),
                album: piece(parts, 4),
                duration_ms: number_piece(parts, 5),
                position_s: number_piece(parts, 6),
                id: piece(parts, 7),
            },
        )
    }
}

/// The bounds of the first `n` pieces.
fn split_first(s: &Vec<char>, sep: char, n: usize) -> (r: Vec<(usize, usize)>)
    requires
        n >= 1,
    ensures
        cut(s@, r@) == first_pieces(s@, sep, 0, n as nat),
        bounds_within(r@, s@.len()),
{
    let ghost all = first_pieces(s@, sep, 0, n as nat);
    let mut out: Vec<(usize, usize)> = Vec::new();
    let mut start: usize = 0;
    let mut left: usize = n;
    assert(cut(s@, out@) + all =~= all);
    loop
        invariant
            1 <= left,
            start <= s@.len(),
            bounds_within(out@, s@.len()),
            all == first_pieces(s@, sep, 0, n as nat),
            cut(s@, out@) + first_pieces(s@, sep, start as int, left as nat) == all,
        decreases left,
    {
        let mut k: usize = start;
        while k < s.len() && s[k] != sep
            invariant
                start <= k <= s@.len(),
                separator_at(s@, sep, k as int) == separator_at(s@, sep, start as int),
            decreases s@.len() - k,
        {
            k = k + 1;
        }
        let ghost before = out@;
        if left == 1 || k == s.len() {
            let end = s.len();
            out.push((start, end));
            proof {
                let last = s@.subrange(start as int, end as int);
                assert(last =~= s@.skip(start as int));
                assert(cut(s@, out@) =~= cut(s@, before) + seq![last]);
            }
            return out;
        }
        out.push((start, k));
        proof {
            let first = s@.subrange(start as int, k as int);
            let rest = first_pieces(s@, sep, k + 1, (left - 1) as nat);
            assert(cut(s@, out@) =~= cut(s@, before).push(first));
            assert(cut(s@, out@) + rest =~= cut(s@, before) + (seq![first]
                + rest));
        }
        start = k + 1;
        left = left - 1;
    }
}

/// A piece, or what stands for a missing one.
fn piece_text(s: &Vec<char>, bounds: &Vec<(usize, usize)>, i: usize, missing: &str) -> (r: String)
    requires
        bounds_within(bounds@, s@.len()),
    ensures
        r@ == (if i < bounds@.len() {
            cut(s@, bounds@)[i as int]
        } else {
            missing@
        }),
{
    if i < bounds.len() {
        string_of(s, bounds[i].0, bounds[i].1)
    } else {
        missing.to_owned()
    }
}

/// What the output of a probe says.
pub fn parse_probe_output(raw: &str) -> (r: Option<ProbeFields>)
    ensures
        r is Some == fields_in(raw@) is Some,
        r matches Some(f) ==> fields_in(raw@) == Some(f@),
{
    proof {
        reveal_strlit("");
        assert(""@ =~= Seq::<char>::empty());
    }
    let line = chars_of(trim(raw).as_str());
    let bounds = split_first(&line, '|', 8);
    let ghost parts = first_pieces(trimmed(raw@), '|', 0, 8);
    assert(parts.len() == bounds@.len());
    let head = piece_text(&line, &bounds, 0, "");
    assert(head@ == piece(parts, 0));
    if !same_text(head.as_str(), "ok") {
        return None;
    }
    Some(
        ProbeFields {
            state: piece_text(&line, &bounds, 1, ""),
            title: piece_text(&line, &bounds, 2, ""),
            artist: piece_text(&line, &bounds, 3, ""),
            album: piece_text(&line, &bounds, 4, ""),
            duration_ms: piece_text(&line, &bounds, 5, "0"),
            position_s: piece_text(&line, &bounds, 6, "0"),
            id: piece_text(&line, &bounds, 7, ""),
        },
    )
}

/// One snapshot of a music app's state.
#[derive(Debug)]
pub struct Snapshot {
    pub source: Source,
    pub status: PlaybackStatus,
    pub position: Duration,
    pub track: Track,
}

/// A snapshot, as plain values.
#[verifier::ext_equal]
pub struct SnapModel {
    pub source: Source,
    pub status: PlaybackStatus,
    pub position: nat,
    pub track: TrackModel,
}

impl View for Snapshot {
    type V = SnapModel;

    open spec fn view(&self) -> SnapModel {
        SnapModel {
            source: self.source,
            status: self.status,
            position: self.position@,
            track: self.track@,
        }
    }
}

impl Clone for Snapshot {
    fn clone(&self) -> (r: Self)
        ensures
            r@ == self@,
    {
        Snapshot {
            source: self.source,
            status: self.status,
            position: self.position,
            track: self.track.clone(),
        }
    }
}

/// An optional snapshot, as plain values.
pub open spec fn opt_snap(s: Option<Snapshot>) -> Option<SnapModel> {
    match s {
        Some(s) => Some(s@),
        None => None,
    }
}

/// The status that a state stands for.
pub open spec fn state_status(state: Seq<char>) -> PlaybackStatus {
    if state == "playing"@ {
        PlaybackStatus::Playing
    } else if state == "paused"@ {
        PlaybackStatus::Paused
    } else {
        PlaybackStatus::Stopped
    }
}

/// The snapshot that a probe stands for, with its two numbers read; none where
/// there is neither title nor artist.
pub open spec fn snapshot_in(
    src: Source,
    f: FieldsModel,
    duration_ms: Option<u64>,
    position_us: u64,
) -> Option<SnapModel> {
    if f.title.len() == 0 && f.artist.len() == 0 {
        None
    } else {
        Some(
            SnapModel {
                source: src,
                status: state_status(f.state),
                position: (position_us * NANOS_PER_MICRO) as nat,
                track: TrackModel {
                    id: f.id,
                    title: f.title,
                    artist: f.artist,
                    album: if f.album.len() == 0 {
                        None
                    } else {
                        Some(f.album)
                    },
                    duration: match duration_ms {
                        Some(ms) => Some((ms * NANOS_PER_MILLI) as nat),
                        None => None,
                    },
                },
            },
        )
    }
}

impl ProbeFields {
    /// The snapshot that the probe of a source stands for. `duration_ms` and
    /// `position_us` are its two numbers, the first `None` unless it is
    /// positive.
    pub fn snapshot(self, src: Source, duration_ms: Option<u64>, position_us: u64) -> (r: Option<
        Snapshot,
    >)
        ensures
            opt_snap(r) == snapshot_in(src, self@, duration_ms, position_us),
    {
        if empty_text(self.title.as_str()) && empty_text(self.artist.as_str()) {
            return None;
        }
        let status = if same_text(self.state.as_str(), "playing") {
            PlaybackStatus::Playing
        } else if same_text(self.state.as_str(), "paused") {
            PlaybackStatus::Paused
        } else {
            PlaybackStatus::Stopped
        };
        let album = if empty_text(self.album.as_str()) {
            None
        } else {
            Some(self.album)
        };
        let duration = match duration_ms {
            Some(ms) => Some(Duration::from_millis(ms)),
            None => None,
        };
        Some(
            Snapshot {
                source: src,
                status,
                position: Duration::from_micros(position_us),
                track: Track {
                    id: self.id,
                    title: self.title,
                    artist: self.artist,
                    album,
                    duration,
                },
            },
        )
    }
}

// ---------------------------------------------------------------------------
// Choosing a source
// ---------------------------------------------------------------------------

/// Snapshots, as plain values.
pub open spec fn snap_models(v: Seq<Snapshot>) -> Seq<SnapModel> {
    v.map_values(|s: Snapshot| s@)
}

/// The first snapshot from index `i` on of a preferred source.
pub open spec fn first_preferred(snaps: Seq<SnapModel>, preferred: Seq<char>, i: int) -> Option<
    SnapModel,
>
    decreases snaps.len() - i,
{
    if i >= snaps.len() {
        None
    } else if snaps[i].source.preferred(preferred) {
        Some(snaps[i])
    } else {
        first_preferred(snaps, preferred, i + 1)
    }
}

/// The first snapshot from index `i` on of a source that is playing.
pub open spec fn first_playing(snaps: Seq<SnapModel>, i: int) -> Option<SnapModel>
    decreases snaps.len() - i,
{
    if i >= snaps.len() {
        None
    } else if snaps[i].status == PlaybackStatus::Playing {
        Some(snaps[i])
    } else {
        first_playing(snaps, i + 1)
    }
}

/// The first snapshot from index `i` on of a source that is not stopped.
pub open spec fn first_active(snaps: Seq<SnapModel>, i: int) -> Option<SnapModel>
    decreases snaps.len() - i,
{
    if i >= snaps.len() {
        None
    } else if snaps[i].status != PlaybackStatus::Stopped {
        Some(snaps[i])
    } else {
        first_active(snaps, i + 1)
    }
}

/// The snapshot that counts: a preferred source wins; else, unless only that
/// will do, one that is playing; else one that is not stopped.
pub open spec fn chosen_snapshot(snaps: Seq<SnapModel>, preferred: Seq<char>, strict: bool) -> Option<
    SnapModel,
> {
    if preferred.len() > 0 && first_preferred(snaps, preferred, 0) is Some {
        first_preferred(snaps, preferred, 0)
    } else if preferred.len() > 0 && strict {
        None
    } else if first_playing(snaps, 0) is Some {
        first_playing(snaps, 0)
    } else {
        first_active(snaps, 0)
    }
}

/// Pick the best snapshot according to:
///   1. preferred-substring match wins;
///   2. else any source with state=Playing;
///   3. else any non-stopped source;
///   4. else None.
///
/// In strict mode with a non-empty `preferred`, only that source is allowed.
pub fn choose_snapshot(snaps: &Vec<Snapshot>, preferred: &str, strict: bool) -> (r: Option<Snapshot>)
    ensures
        opt_snap(r) == chosen_snapshot(snap_models(snaps@), preferred@, strict),
{
    let ghost all = snap_models(snaps@);
    if !empty_text(preferred) {
        let mut i: usize = 0;
        while i < snaps.len()
            invariant
                i <= snaps@.len(),
                all == snap_models(snaps@),
                preferred@.len() > 0,
                first_preferred(all, preferred@, i as int) == first_preferred(all, preferred@, 0),
            decreases snaps@.len() - i,
        {
            assert(all[i as int] == snaps@[i as int]@);
            if snaps[i].source.matches_preferred(preferred) {
                return Some(snaps[i].clone());
            }
            i = i + 1;
        }
        if strict {
            return None;
        }
    }
    let mut i: usize = 0;
    while i < snaps.len()
        invariant
            i <= snaps@.len(),
            all == snap_models(snaps@),
            preferred@.len() > 0 ==> first_preferred(all, preferred@, 0) is None && !strict,
            first_playing(all, i as int) == first_playing(all, 0),
        decreases snaps@.len() - i,
    {
        assert(all[i as int] == snaps@[i as int]@);
        match snaps[i].status {
            PlaybackStatus::Playing => return Some(snaps[i].clone()),
            _ => {},
        }
        i = i + 1;
    }
    let mut i: usize = 0;
    while i < snaps.len()
        invariant
            i <= snaps@.len(),
            all == snap_models(snaps@),
            preferred@.len() > 0 ==> first_preferred(all, preferred@, 0) is None && !strict,
            first_playing(all, 0) is None,
            first_active(all, i as int) == first_active(all, 0),
        decreases snaps@.len() - i,
    {
        assert(all[i as int] == snaps@[i as int]@);
        match snaps[i].status {
            PlaybackStatus::Stopped => {},
            _ => return Some(snaps[i].clone()),
        }
        i = i + 1;
    }
    None
}

// ---------------------------------------------------------------------------
// Events
// ---------------------------------------------------------------------------

/// The position expected one poll after a snapshot.
pub open spec fn predicted(prev: SnapModel) -> nat {
    moved_on(prev.status, prev.position, (POLL_MILLIS * NANOS_PER_MILLI) as nat)
}

/// The events for what has changed between two snapshots.
pub open spec fn diff_events(last: Option<SnapModel>, current: Option<SnapModel>) -> Seq<EventModel> {
    match (last, current) {
        (Some(prev), Some(curr)) => if prev.source != curr.source {
            seq![
                EventModel::TrackChanged(curr.track),
                EventModel::PlaybackStateChanged(curr.status),
            ]
        } else {
            let track = if prev.track.id != curr.track.id {
                seq![EventModel::TrackChanged(curr.track)]
            } else {
                Seq::empty()
            };
            let status = if prev.status != curr.status {
                seq![EventModel::PlaybackStateChanged(curr.status)]
            } else {
                Seq::empty()
            };
            let seek = if prev.track.id == curr.track.id && distance(curr.position, predicted(prev))
                > SEEK_MILLIS * NANOS_PER_MILLI {
                seq![EventModel::Seeked(curr.position)]
            } else {
                Seq::empty()
            };
            track + status + seek
        },
        (None, Some(curr)) => seq![
            EventModel::TrackChanged(curr.track),
            EventModel::PlaybackStateChanged(curr.status),
        ],
        (Some(_), None) => seq![EventModel::PlayerQuit],
        (None, None) => Seq::empty(),
    }
}

/// Compare last vs current and give events for what changed.
pub fn emit_diff_events(last: &Option<Snapshot>, current: &Option<Snapshot>) -> (r: Vec<PlayerEvent>)
    requires
        opt_snap(*last) matches Some(prev) ==> predicted(prev) <= MAX_NANOS,
    ensures
        event_models(r@) == diff_events(opt_snap(*last), opt_snap(*current)),
{
    let mut events = no_events();
    match (last, current) {
        (Some(prev), Some(curr)) => {
            if prev.source != curr.source {
                push_event(&mut events, PlayerEvent::TrackChanged(curr.track.clone()));
                push_event(&mut events, PlayerEvent::PlaybackStateChanged(curr.status));
            } else {
                let same_id = same_text(prev.track.id.as_str(), curr.track.id.as_str());
                if !same_id {
                    push_event(&mut events, PlayerEvent::TrackChanged(curr.track.clone()));
                }
                if prev.status != curr.status {
                    push_event(&mut events, PlayerEvent::PlaybackStateChanged(curr.status));
                }
                // Where the position should be, had playback been uniform since
                // the last sample. A change of track resets the position by
                // itself and is no seek.
                let expected = interpolate(
                    prev.status,
                    prev.position,
                    Duration::from_millis(POLL_MILLIS),
                );
                let drift = curr.position.abs_diff(expected);
                if same_id && Duration::from_millis(SEEK_MILLIS).shorter_than(&drift) {
                    push_event(&mut events, PlayerEvent::Seeked(curr.position));
                }
            }
        },
        (None, Some(curr)) => {
            push_event(&mut events, PlayerEvent::TrackChanged(curr.track.clone()));
            push_event(&mut events, PlayerEvent::PlaybackStateChanged(curr.status));
        },
        (Some(_), None) => {
            push_event(&mut events, PlayerEvent::PlayerQuit);
        },
        (None, None) => {},
    }
    assert(event_models(events@) =~= diff_events(opt_snap(*last), opt_snap(*current)));
    events
}

/// What was last sampled, for the position between polls.
#[derive(Clone, Copy, Debug)]
pub struct Interp {
    pub status: PlaybackStatus,
    pub last_position: Duration,
    /// When `last_position` was sampled.
    pub sampled_at: Duration,
}

/// macOS player backend driven by AppleScript probes against music apps.
#[derive(Debug)]
pub struct MacOsPlayer {
    pub preferred_player: String,
    pub strict: bool,
    /// Last snapshot observed by the polling loop, used by `position()` for
    /// interpolation between polls.
    pub interp: Interp,
    /// The snapshot of the last poll.
    pub last: Option<Snapshot>,
    /// Whether a snapshot has been seen. The first one gives no events: the
    /// scheduler has had the same state before it subscribed.
    pub seeded: bool,
}

/// What the polls so far have seen, as plain values.
#[verifier::ext_equal]
pub struct SeenModel {
    /// The snapshot of the last poll.
    pub last: Option<SnapModel>,
    /// Whether any poll gave a snapshot.
    pub seeded: bool,
}

/// Before the first poll.
pub open spec fn nothing_seen() -> SeenModel {
    SeenModel { last: None, seeded: false }
}

/// What has been seen after one more poll.
pub open spec fn after_poll(seen: SeenModel, current: Option<SnapModel>) -> SeenModel {
    SeenModel { last: current, seeded: seen.seeded || current is Some }
}

/// The events that a poll gives: none up to the first snapshot, then those for
/// what has changed since the poll before.
pub open spec fn poll_events(seen: SeenModel, current: Option<SnapModel>) -> Seq<EventModel> {
    if seen.seeded {
        diff_events(seen.last, current)
    } else {
        Seq::empty()
    }
}

impl MacOsPlayer {
    /// What the polls so far have seen.
    pub open spec fn seen(&self) -> SeenModel {
        SeenModel { last: opt_snap(self.last), seeded: self.seeded }
    }

    /// Whether the position one poll after the last snapshot still is a span
    /// of time.
    pub open spec fn predictable(&self) -> bool {
        opt_snap(self.last) matches Some(prev) ==> predicted(prev) <= MAX_NANOS
    }

    pub fn new(preferred_player: &str, strict: bool, now: Duration) -> (r: Self)
        ensures
            r.preferred_player@ == preferred_player@,
            r.strict == strict,
            r.interp == (Interp {
                status: PlaybackStatus::Stopped,
                last_position: r.interp.last_position,
                sampled_at: now,
            }),
            r.interp.last_position@ == 0,
            r.last is None,
            !r.seeded,
            r.seen() == nothing_seen(),
            r.predictable(),
    {
        MacOsPlayer {
            preferred_player: preferred_player.to_owned(),
            strict,
            interp: Interp {
                status: PlaybackStatus::Stopped,
                last_position: Duration::zero(),
                sampled_at: now,
            },
            last: None,
            seeded: false,
        }
    }

    /// The state that a snapshot stands for.
    pub fn current_state(snap: Option<Snapshot>) -> (r: PlayerState)
        ensures
            r@ == (match snap {
                Some(s) => PlayerStateModel {
                    status: s.status,
                    position: s.position@,
                    track: Some(s.track@),
                    player_name: s.source.name_text(),
                },
                None => PlayerStateModel {
                    status: PlaybackStatus::Stopped,
                    position: 0,
                    track: None,
                    player_name: Seq::empty(),
                },
            }),
    {
        match snap {
            Some(s) => PlayerState {
                status: s.status,
                position: s.position,
                track: Some(s.track),
                player_name: s.source.display_name().to_owned(),
            },
            None => no_player(),
        }
    }

    /// Whether the position at time `now` still is a span of time.
    pub fn position_fits(&self, now: Duration) -> (r: bool)
        ensures
            r == (moved_on(
                self.interp.status,
                self.interp.last_position@,
                floored_difference(now@, self.interp.sampled_at@),
            ) <= MAX_NANOS),
    {
        can_interpolate(
            self.interp.status,
            self.interp.last_position,
            now.saturating_sub(self.interp.sampled_at),
        )
    }

    /// The estimated current playback position (interpolated).
    pub fn position(&self, now: Duration) -> (r: Duration)
        requires
            moved_on(
                self.interp.status,
                self.interp.last_position@,
                floored_difference(now@, self.interp.sampled_at@),
            ) <= MAX_NANOS,
        ensures
            r@ == moved_on(
                self.interp.status,
                self.interp.last_position@,
                floored_difference(now@, self.interp.sampled_at@),
            ),
    {
        interpolate(
            self.interp.status,
            self.interp.last_position,
            now.saturating_sub(self.interp.sampled_at),
        )
    }

    /// Whether the position one poll after the last snapshot still is a span
    /// of time.
    pub fn can_predict(&self) -> (r: bool)
        ensures
            r == self.predictable(),
    {
        match &self.last {
            Some(prev) => can_interpolate(
                prev.status,
                prev.position,
                Duration::from_millis(POLL_MILLIS),
            ),
            None => true,
        }
    }

    /// Take in the snapshot of a poll at time `now`, and give events for what
    /// has changed since the last one.
    pub fn on_poll(&mut self, current: Option<Snapshot>, now: Duration) -> (r: Vec<PlayerEvent>)
        requires
            old(self).predictable(),
        ensures
            event_models(r@) == poll_events(old(self).seen(), opt_snap(current)),
            final(self).seen() == after_poll(old(self).seen(), opt_snap(current)),
            final(self).last == current,
            final(self).interp == (match current {
                Some(s) => Interp {
                    status: s.status,
                    last_position: s.position,
                    sampled_at: now,
                },
                None => old(self).interp,
            }),
            final(self).preferred_player == old(self).preferred_player,
            final(self).strict == old(self).strict,
    {
        if let Some(snap) = &current {
            self.interp = Interp {
                status: snap.status,
                last_position: snap.position,
                sampled_at: now,
            };
        }
        let events = if self.seeded {
            emit_diff_events(&self.last, &current)
        } else {
            if current.is_some() {
                self.seeded = true;
            }
            no_events()
        };
        self.last = current;
        events
    }
}

// ---------------------------------------------------------------------------
// Laws
// ---------------------------------------------------------------------------

/// While a track plays on undisturbed, polls that are no more than the
/// tolerance off give no events.
pub proof fn law_steady_playback(prev: SnapModel, curr: SnapModel)
    requires
        prev.source == curr.source,
        prev.track.id == curr.track.id,
        prev.status == curr.status,
        distance(curr.position, predicted(prev)) <= SEEK_MILLIS * NANOS_PER_MILLI,
    ensures
        diff_events(Some(prev), Some(curr)) == Seq::<EventModel>::empty(),
{
    assert(diff_events(Some(prev), Some(curr)) =~= Seq::<EventModel>::empty());
}

/// A change of track is never reported as a seek as well.
pub proof fn law_track_change_is_no_seek(prev: SnapModel, curr: SnapModel, k: int)
    requires
        prev.track.id != curr.track.id || prev.source != curr.source,
        0 <= k < diff_events(Some(prev), Some(curr)).len(),
    ensures
        !(diff_events(Some(prev), Some(curr))[k] is Seeked),
        diff_events(Some(prev), Some(curr))[0] == EventModel::TrackChanged(curr.track),
{
}

proof fn lemma_first_snapshots(snaps: Seq<SnapModel>, preferred: Seq<char>, i: int)
    requires
        0 <= i,
    ensures
        first_preferred(snaps, preferred, i) matches Some(s) ==> snaps.contains(s)
            && s.source.preferred(preferred),
        first_playing(snaps, i) matches Some(s) ==> snaps.contains(s) && s.status
            == PlaybackStatus::Playing,
        first_active(snaps, i) matches Some(s) ==> snaps.contains(s) && s.status
            != PlaybackStatus::Stopped,
    decreases snaps.len() - i,
{
    if i < snaps.len() {
        lemma_first_snapshots(snaps, preferred, i + 1);
    }
}

/// The chosen snapshot is one of those taken. It is of a preferred source, and
/// in strict mode only that; or it is of a source that is not stopped.
pub proof fn law_chosen_snapshot(snaps: Seq<SnapModel>, preferred: Seq<char>, strict: bool)
    ensures
        chosen_snapshot(snaps, preferred, strict) matches Some(s) ==> snaps.contains(s),
        strict && preferred.len() > 0 ==> (chosen_snapshot(snaps, preferred, strict) matches Some(s)
            ==> s.source.preferred(preferred)),
        chosen_snapshot(snaps, preferred, strict) matches Some(s) ==> s.status
            != PlaybackStatus::Stopped || (preferred.len() > 0 && s.source.preferred(preferred)),
{
    lemma_first_snapshots(snaps, preferred, 0);
}

/// Strict mode has no effect where no player is preferred.
pub proof fn law_strict_needs_preference(snaps: Seq<SnapModel>)
    ensures
        chosen_snapshot(snaps, Seq::empty(), true) == chosen_snapshot(snaps, Seq::empty(), false),
{
}

/// What has been seen after a run of polls.
pub open spec fn after_polls(polls: Seq<Option<SnapModel>>) -> SeenModel
    decreases polls.len(),
{
    if polls.len() == 0 {
        nothing_seen()
    } else {
        after_poll(after_polls(polls.drop_last()), polls.last())
    }
}

/// The events that poll `j` of a run gives.
pub open spec fn events_of_poll(polls: Seq<Option<SnapModel>>, j: int) -> Seq<EventModel> {
    poll_events(after_polls(polls.take(j)), polls[j])
}

proof fn lemma_after_polls(polls: Seq<Option<SnapModel>>)
    ensures
        after_polls(polls).seeded == (exists|k: int|
            0 <= k < polls.len() && #[trigger] polls[k] is Some),
        after_polls(polls).last == if polls.len() > 0 {
            polls.last()
        } else {
            None
        },
    decreases polls.len(),
{
    if polls.len() > 0 {
        let head = polls.drop_last();
        lemma_after_polls(head);
        if after_polls(head).seeded {
            let k = choose|k: int| 0 <= k < head.len() && #[trigger] head[k] is Some;
            assert(polls[k] is Some);
        } else if polls.last() is Some {
            assert(polls[polls.len() - 1] is Some);
        } else {
            assert forall|k: int| 0 <= k < polls.len() implies !(#[trigger] polls[k] is Some) by {
                if k < head.len() {
                    assert(polls[k] == head[k]);
                }
            }
        }
    }
}

/// Over a run of polls, none up to and with the first snapshot gives events:
/// the first one only seeds. Each later poll gives the events for what has
/// changed since the poll before it.
pub proof fn law_run_of_polls(polls: Seq<Option<SnapModel>>, first: int, j: int)
    requires
        0 <= first <= polls.len(),
        forall|k: int| 0 <= k < first ==> #[trigger] polls[k] is None,
        first < polls.len() ==> polls[first] is Some,
        0 <= j < polls.len(),
    ensures
        events_of_poll(polls, j) == if j <= first {
            Seq::<EventModel>::empty()
        } else {
            diff_events(polls[j - 1], polls[j])
        },
{
    let before = polls.take(j);
    lemma_after_polls(before);
    if j <= first {
        assert forall|k: int| 0 <= k < before.len() implies !(#[trigger] before[k] is Some) by {
            assert(before[k] == polls[k]);
        }
    } else {
        assert(before[first] is Some);
        assert(before.last() == polls[j - 1]);
    }
}

} // verus!
