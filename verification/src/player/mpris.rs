//! Players on the D-Bus session bus (MPRIS2).
use super::{
    event_models, no_events, opt_track, push_event, EventModel, PlaybackStatus, PlayerControl,
    PlayerEvent, PlayerState, PlayerStateModel, Track, TrackModel,
};
use crate::text::{
    chars_of, contains, copy_opt, empty_text, has_part, join, joined, lowercase, lowercased,
    occurs_at, opt_text, part_at, same_text, starts_with, string_of, texts,
};
use crate::time::{distance, opt_nanos, NANOS_PER_MICRO, NANOS_PER_SEC, Duration};
use vstd::prelude::*;

verus! {

/// A jump of the position beyond this between two polls is a seek, in seconds.
pub const SEEK_JUMP_SECS: u64 = 2;

/// A player that fails to answer this often in a row is gone.
pub const ERROR_LIMIT: u32 = 5;

/// What every player's name on the bus starts with.
pub open spec fn name_prefix() -> Seq<char> {
    "org.mpris.MediaPlayer2."@
}

// ---------------------------------------------------------------------------
// Choosing a player
// ---------------------------------------------------------------------------

/// The names on the bus that are players.
pub open spec fn players_among(names: Seq<Seq<char>>) -> Seq<Seq<char>>
    decreases names.len(),
{
    if names.len() == 0 {
        Seq::empty()
    } else if occurs_at(names.last(), name_prefix(), 0) {
        players_among(names.drop_last()).push(names.last())
    } else {
        players_among(names.drop_last())
    }
}

/// Whether a name has the preferred player's in it, whatever the case.
pub open spec fn is_preferred(name: Seq<char>, preferred: Seq<char>) -> bool {
    has_part(lowercased(name), lowercased(preferred))
}

/// The first preferred player from index `i` on.
pub open spec fn first_preferred(names: Seq<Seq<char>>, preferred: Seq<char>, i: int) -> Option<
    Seq<char>,
>
    decreases names.len() - i,
{
    if i >= names.len() {
        None
    } else if is_preferred(names[i], preferred) {
        Some(names[i])
    } else {
        first_preferred(names, preferred, i + 1)
    }
}

/// The player to attach to: the preferred one; where it is not there, or none
/// is preferred, the first one, unless only the preferred one will do.
pub open spec fn chosen_player(
    names: Seq<Seq<char>>,
    preferred: Seq<char>,
    strict: bool,
) -> Option<Seq<char>> {
    let players = players_among(names);
    if preferred.len() > 0 && first_preferred(players, preferred, 0) is Some {
        first_preferred(players, preferred, 0)
    } else if players.len() == 0 || (preferred.len() > 0 && strict) {
        None
    } else {
        Some(players[0])
    }
}

/// The names on the bus that are players.
fn list_players(names: &Vec<String>) -> (r: Vec<String>)
    ensures
        texts(r@) == players_among(texts(names@)),
{
    let ghost all = texts(names@);
    let mut out: Vec<String> = Vec::new();
    let mut i: usize = 0;
    assert(all.take(0) =~= Seq::empty());
    assert(texts(out@) =~= Seq::empty());
    while i < names.len()
        invariant
            i <= names@.len(),
            all == texts(names@),
            texts(out@) == players_among(all.take(i as int)),
        decreases names@.len() - i,
    {
        assert(all.take(i + 1).drop_last() =~= all.take(i as int));
        assert(all[i as int] == names@[i as int]@);
        if starts_with(names[i].as_str(), "org.mpris.MediaPlayer2.") {
            let ghost before = out@;
            out.push(names[i].clone());
            assert(texts(out@) =~= texts(before).push(all[i as int]));
        }
        i = i + 1;
    }
    assert(all.take(all.len() as int) =~= all);
    out
}

/// Find a player among the names on the bus.
pub fn select_player(names: &Vec<String>, preferred: &str, strict: bool) -> (r: Option<String>)
    ensures
        opt_text(r) == chosen_player(texts(names@), preferred@, strict),
{
    let players = list_players(names);
    let ghost all = texts(players@);
    if !empty_text(preferred) {
        let wanted = lowercase(preferred);
        let mut i: usize = 0;
        while i < players.len()
            invariant
                i <= players@.len(),
                all == texts(players@),
                all == players_among(texts(names@)),
                wanted@ == lowercased(preferred@),
                preferred@.len() > 0,
                first_preferred(all, preferred@, i as int) == first_preferred(all, preferred@, 0),
            decreases players@.len() - i,
        {
            assert(all[i as int] == players@[i as int]@);
            if contains(lowercase(players[i].as_str()).as_str(), wanted.as_str()) {
                return Some(players[i].clone());
            }
            i = i + 1;
        }
        if strict {
            return None;
        }
    }
    if players.len() == 0 {
        None
    } else {
        assert(all[0] == players@[0]@);
        Some(players[0].clone())
    }
}

/// `s` without the prefix, as often as it stands at the start.
pub open spec fn without_prefix(s: Seq<char>, prefix: Seq<char>) -> Seq<char>
    decreases s.len(),
{
    if prefix.len() > 0 && occurs_at(s, prefix, 0) {
        without_prefix(s.skip(prefix.len() as int), prefix)
    } else {
        s
    }
}

/// The name of a player for display, from its name on the bus.
pub fn display_name(bus_name: &str) -> (r: String)
    ensures
        r@ == without_prefix(bus_name@, name_prefix()),
{
    let cs = chars_of(bus_name);
    let prefix = chars_of("org.mpris.MediaPlayer2.");
    proof {
        reveal_strlit("org.mpris.MediaPlayer2.");
    }
    let mut i: usize = 0;
    assert(cs@.skip(0) =~= cs@);
    while part_at(&cs, &prefix, i)
        invariant
            i <= cs@.len(),
            prefix@ == name_prefix(),
            prefix@.len() > 0,
            cs@ == bus_name@,
            without_prefix(cs@.skip(i as int), prefix@) == without_prefix(bus_name@, prefix@),
        decreases cs@.len() - i,
    {
        proof {
            let rest = cs@.skip(i as int);
            assert(rest.subrange(0, prefix@.len() as int) =~= cs@.subrange(
                i as int,
                i + prefix@.len(),
            ));
            assert(occurs_at(rest, prefix@, 0));
            assert(rest.skip(prefix@.len() as int) =~= cs@.skip(i + prefix@.len()));
        }
        assert(i + prefix.len() <= cs.len());
        i = i + prefix.len();
    }
    proof {
        let rest = cs@.skip(i as int);
        assert(!occurs_at(rest, prefix@, 0)) by {
            if occurs_at(rest, prefix@, 0) {
                assert(rest.subrange(0, prefix@.len() as int) =~= cs@.subrange(
                    i as int,
                    i + prefix@.len(),
                ));
            }
        }
        assert(cs@.subrange(i as int, cs@.len() as int) =~= rest);
    }
    string_of(&cs, i, cs.len())
}

/// The state of a player.
pub fn player_state(
    bus_name: &str,
    track: Option<Track>,
    status: PlaybackStatus,
    position: Duration,
) -> (r: PlayerState)
    ensures
        r@ == (PlayerStateModel {
            status,
            position: position@,
            track: opt_track(track),
            player_name: without_prefix(bus_name@, name_prefix()),
        }),
{
    PlayerState { status, position, track, player_name: display_name(bus_name) }
}

// ---------------------------------------------------------------------------
// Reading properties
// ---------------------------------------------------------------------------

/// A value of the metadata: what it is as each of the types that are read.
#[derive(Debug)]
pub struct MetaValue {
    pub text: Option<String>,
    pub list: Option<Vec<String>>,
    pub signed: Option<i64>,
    pub unsigned: Option<u64>,
}

/// The metadata of a track.
#[derive(Debug)]
pub struct Metadata {
    pub entries: Vec<(String, MetaValue)>,
}

/// The first value under a key from index `i` on.
pub open spec fn value_under(entries: Seq<(String, MetaValue)>, key: Seq<char>, i: int) -> Option<
    MetaValue,
>
    decreases entries.len() - i,
{
    if i >= entries.len() {
        None
    } else if entries[i].0@ == key {
        Some(entries[i].1)
    } else {
        value_under(entries, key, i + 1)
    }
}

/// The text under a key.
pub open spec fn text_under(m: Metadata, key: Seq<char>) -> Option<Seq<char>> {
    match value_under(m.entries@, key, 0) {
        Some(v) => opt_text(v.text),
        None => None,
    }
}

/// The list of texts under a key; a single text is a list of one.
pub open spec fn list_under(m: Metadata, key: Seq<char>) -> Option<Seq<Seq<char>>> {
    match value_under(m.entries@, key, 0) {
        Some(v) => match (v.list, v.text) {
            (Some(l), _) => Some(texts(l@)),
            (None, Some(s)) => Some(seq![s@]),
            (None, None) => None,
        },
        None => None,
    }
}

/// A number as a signed number of 64 bits.
pub open spec fn reinterpreted(u: u64) -> int {
    if u < 0x8000_0000_0000_0000 {
        u as int
    } else {
        u - 0x1_0000_0000_0000_0000
    }
}

/// A number of microseconds as a span; negative ones are nothing.
pub open spec fn span_of_micros(us: int) -> nat {
    if us > 0 {
        (us * NANOS_PER_MICRO) as nat
    } else {
        0
    }
}

/// The length under a key, in nanoseconds.
pub open spec fn length_under(m: Metadata, key: Seq<char>) -> Option<nat> {
    match value_under(m.entries@, key, 0) {
        Some(v) => match (v.signed, v.unsigned) {
            (Some(us), _) => Some(span_of_micros(us as int)),
            (None, Some(us)) => Some(span_of_micros(reinterpreted(us))),
            (None, None) => None,
        },
        None => None,
    }
}

/// An optional text, or nothing.
pub open spec fn or_empty(s: Option<Seq<char>>) -> Seq<char> {
    match s {
        Some(s) => s,
        None => Seq::empty(),
    }
}

/// The track that metadata describes: none where it is empty or has neither
/// title nor artist.
pub open spec fn track_in(m: Metadata) -> Option<TrackModel> {
    let title = or_empty(text_under(m, "xesam:title"@));
    let artist = match list_under(m, "xesam:artist"@) {
        Some(names) => joined(names, ", "@),
        None => Seq::empty(),
    };
    if title.len() == 0 && artist.len() == 0 {
        None
    } else {
        Some(
            TrackModel {
                id: or_empty(text_under(m, "mpris:trackid"@)),
                title,
                artist,
                album: text_under(m, "xesam:album"@),
                duration: length_under(m, "mpris:length"@),
            },
        )
    }
}

/// A number of microseconds as a span; negative ones are nothing.
pub fn micros_span(us: i64) -> (r: Duration)
    ensures
        r@ == span_of_micros(us as int),
{
    if us > 0 {
        Duration::from_micros(us as u64)
    } else {
        Duration::zero()
    }
}

impl Metadata {
    /// The index of the first value under a key.
    fn find(&self, key: &str) -> (r: Option<usize>)
        ensures
            r is Some == value_under(self.entries@, key@, 0) is Some,
            r matches Some(i) ==> i < self.entries@.len() && value_under(self.entries@, key@, 0)
                == Some(self.entries@[i as int].1),
    {
        let mut i: usize = 0;
        while i < self.entries.len()
            invariant
                i <= self.entries@.len(),
                value_under(self.entries@, key@, i as int) == value_under(self.entries@, key@, 0),
            decreases self.entries@.len() - i,
        {
            if same_text(self.entries[i].0.as_str(), key) {
                return Some(i);
            }
            i = i + 1;
        }
        None
    }

    /// The text under a key.
    fn get_string(&self, key: &str) -> (r: Option<String>)
        ensures
            opt_text(r) == text_under(*self, key@),
    {
        match self.find(key) {
            Some(i) => copy_opt(&self.entries[i].1.text),
            None => None,
        }
    }

    /// The texts under a key, with a comma between neighbours.
    fn get_joined(&self, key: &str) -> (r: String)
        ensures
            r@ == (match list_under(*self, key@) {
                Some(names) => joined(names, ", "@),
                None => Seq::empty(),
            }),
    {
        match self.find(key) {
            Some(i) => match (&self.entries[i].1.list, &self.entries[i].1.text) {
                (Some(l), _) => join(l, ", "),
                (None, Some(s)) => s.clone(),
                (None, None) => String::new(),
            },
            None => String::new(),
        }
    }

    /// The length under a key.
    fn get_length(&self, key: &str) -> (r: Option<Duration>)
        ensures
            opt_nanos(r) == length_under(*self, key@),
    {
        match self.find(key) {
            Some(i) => match (self.entries[i].1.signed, self.entries[i].1.unsigned) {
                (Some(us), _) => Some(micros_span(us)),
                (None, Some(us)) => if us < 0x8000_0000_0000_0000 {
                    Some(Duration::from_micros(us))
                } else {
                    Some(Duration::zero())
                },
                (None, None) => None,
            },
            None => None,
        }
    }
}

/// The track that metadata describes; `None` is metadata that could not be
/// read.
pub fn read_track(metadata: Option<Metadata>) -> (r: Option<Track>)
    ensures
        opt_track(r) == (match metadata {
            Some(m) => track_in(m),
            None => None,
        }),
{
    let m = match metadata {
        Some(m) => m,
        None => return None,
    };
    let title = match m.get_string("xesam:title") {
        Some(s) => s,
        None => String::new(),
    };
    let artist = m.get_joined("xesam:artist");
    if empty_text(title.as_str()) && empty_text(artist.as_str()) {
        return None;
    }
    let id = match m.get_string("mpris:trackid") {
        Some(s) => s,
        None => String::new(),
    };
    Some(
        Track {
            id,
            title,
            artist,
            album: m.get_string("xesam:album"),
            duration: m.get_length("mpris:length"),
        },
    )
}

/// The status that a player reports; one that could not be read is stopped.
pub open spec fn status_named(s: Option<Seq<char>>) -> PlaybackStatus {
    if s == Some("Playing"@) {
        PlaybackStatus::Playing
    } else if s == Some("Paused"@) {
        PlaybackStatus::Paused
    } else {
        PlaybackStatus::Stopped
    }
}

/// The status that a player reports.
pub fn read_status(reported: Option<String>) -> (r: PlaybackStatus)
    ensures
        r == status_named(opt_text(reported)),
{
    match reported {
        Some(s) => if same_text(s.as_str(), "Playing") {
            PlaybackStatus::Playing
        } else if same_text(s.as_str(), "Paused") {
            PlaybackStatus::Paused
        } else {
            PlaybackStatus::Stopped
        },
        None => PlaybackStatus::Stopped,
    }
}

/// The position that a player reports in microseconds; one that could not be
/// read is the start.
pub fn read_position(reported: Option<i64>) -> (r: Duration)
    ensures
        r@ == (match reported {
            Some(us) => span_of_micros(us as int),
            None => 0,
        }),
{
    match reported {
        Some(us) => micros_span(us),
        None => Duration::zero(),
    }
}

// ---------------------------------------------------------------------------
// Monitoring a player
// ---------------------------------------------------------------------------

/// What was last seen of a player.
#[derive(Debug)]
pub struct Monitor {
    pub last_track_id: String,
    pub last_position: Duration,
    pub last_status: PlaybackStatus,
    pub consecutive_errors: u32,
}

/// What was last seen of a player, as plain values.
#[verifier::ext_equal]
pub struct MonitorModel {
    pub track_id: Seq<char>,
    pub position: nat,
    pub status: PlaybackStatus,
    pub errors: u32,
}

impl View for Monitor {
    type V = MonitorModel;

    open spec fn view(&self) -> MonitorModel {
        MonitorModel {
            track_id: self.last_track_id@,
            position: self.last_position@,
            status: self.last_status,
            errors: self.consecutive_errors,
        }
    }
}

/// What a player plays and whether it does.
#[derive(Debug)]
pub struct Reading {
    pub track: Option<Track>,
    pub status: PlaybackStatus,
}

/// Whether the track read is another one than was last seen. A track without an
/// id is never another one.
pub open spec fn is_new_track(m: MonitorModel, track: Option<TrackModel>) -> bool {
    track matches Some(t) && t.id != m.track_id && t.id.len() > 0
}

/// The events for what has changed.
pub open spec fn change_events(
    m: MonitorModel,
    track: Option<TrackModel>,
    status: PlaybackStatus,
) -> Seq<EventModel> {
    let first = if is_new_track(m, track) {
        seq![EventModel::TrackChanged(track->0)]
    } else {
        Seq::empty()
    };
    if status != m.status {
        first.push(EventModel::PlaybackStateChanged(status))
    } else {
        first
    }
}

/// What is known after a reading; `None` is a player that does not answer.
pub open spec fn after_reading(
    m: MonitorModel,
    reading: Option<(Option<TrackModel>, PlaybackStatus)>,
) -> MonitorModel {
    match reading {
        Some((track, status)) => MonitorModel {
            track_id: if is_new_track(m, track) {
                track->0.id
            } else {
                m.track_id
            },
            status,
            errors: 0,
            ..m
        },
        None => MonitorModel {
            errors: if m.errors < ERROR_LIMIT {
                (m.errors + 1) as u32
            } else {
                m.errors
            },
            ..m
        },
    }
}

/// A reading, as plain values.
pub open spec fn reading_model(r: Option<Reading>) -> Option<
    (Option<TrackModel>, PlaybackStatus),
> {
    match r {
        Some(r) => Some((opt_track(r.track), r.status)),
        None => None,
    }
}

/// The events after a reading: none from a player that does not answer.
pub open spec fn reading_events(
    m: MonitorModel,
    reading: Option<(Option<TrackModel>, PlaybackStatus)>,
) -> Seq<EventModel> {
    match reading {
        Some((track, status)) => change_events(m, track, status),
        None => Seq::empty(),
    }
}

/// Whether a player is gone: it has failed to answer too often in a row.
pub open spec fn is_gone(m: MonitorModel) -> bool {
    m.errors >= ERROR_LIMIT
}

/// The events when monitoring starts.
pub open spec fn first_events(track: Option<TrackModel>, status: PlaybackStatus) -> Seq<EventModel> {
    match track {
        Some(t) => seq![EventModel::TrackChanged(t), EventModel::PlaybackStateChanged(status)],
        None => seq![EventModel::PlaybackStateChanged(status)],
    }
}

/// What is known after a signal of the player. `seeked` is the position where
/// it says that the user has sought.
pub open spec fn after_signal(
    m: MonitorModel,
    seeked: Option<nat>,
    reading: Option<(Option<TrackModel>, PlaybackStatus)>,
) -> MonitorModel {
    match seeked {
        Some(p) => after_reading(MonitorModel { position: p, ..m }, reading),
        None => after_reading(m, reading),
    }
}

/// The events after a signal of the player: a seek comes first.
pub open spec fn signal_events(
    m: MonitorModel,
    seeked: Option<nat>,
    reading: Option<(Option<TrackModel>, PlaybackStatus)>,
) -> Seq<EventModel> {
    match seeked {
        Some(p) => seq![EventModel::Seeked(p)] + reading_events(m, reading),
        None => reading_events(m, reading),
    }
}

/// What is known after a poll of the player.
pub open spec fn after_tick(
    m: MonitorModel,
    position: nat,
    reading: Option<(Option<TrackModel>, PlaybackStatus)>,
) -> MonitorModel {
    after_reading(MonitorModel { position, ..m }, reading)
}

/// The events after a poll of the player: a jump of the position is a seek, and
/// comes first.
pub open spec fn tick_events(
    m: MonitorModel,
    position: nat,
    reading: Option<(Option<TrackModel>, PlaybackStatus)>,
) -> Seq<EventModel> {
    if distance(position, m.position) > SEEK_JUMP_SECS * NANOS_PER_SEC {
        seq![EventModel::Seeked(position)] + reading_events(m, reading)
    } else {
        reading_events(m, reading)
    }
}

impl Monitor {
    /// Begin to monitor a player.
    pub fn start(position: Duration, reading: Reading) -> (r: (Self, Vec<PlayerEvent>))
        ensures
            r.0@ == (MonitorModel {
                track_id: match reading.track {
                    Some(t) => t.id@,
                    None => Seq::empty(),
                },
                position: position@,
                status: reading.status,
                errors: 0,
            }),
            event_models(r.1@) == first_events(opt_track(reading.track), reading.status),
    {
        let mut events = no_events();
        let mut last_track_id = String::new();
        let status = reading.status;
        let ghost track = opt_track(reading.track);
        if let Some(track) = reading.track {
            last_track_id = track.id.clone();
            push_event(&mut events, PlayerEvent::TrackChanged(track));
        }
        push_event(&mut events, PlayerEvent::PlaybackStateChanged(status));
        assert(event_models(events@) =~= first_events(track, status));
        (
            Monitor {
                last_track_id,
                last_position: position,
                last_status: status,
                consecutive_errors: 0,
            },
            events,
        )
    }

    /// Compare a reading with what was last seen, and append events for what
    /// has changed.
    fn check_state_changes(&mut self, reading: Option<Reading>, events: &mut Vec<PlayerEvent>)
        ensures
            final(self)@ == after_reading(old(self)@, reading_model(reading)),
            event_models(final(events)@) == event_models(old(events)@) + reading_events(
                old(self)@,
                reading_model(reading),
            ),
    {
        let ghost model = reading_model(reading);
        match reading {
            Some(reading) => {
                let status = reading.status;
                if let Some(track) = reading.track {
                    if !same_text(track.id.as_str(), self.last_track_id.as_str()) && !empty_text(
                        track.id.as_str(),
                    ) {
                        self.last_track_id = track.id.clone();
                        push_event(events, PlayerEvent::TrackChanged(track));
                    }
                }
                if status != self.last_status {
                    self.last_status = status;
                    push_event(events, PlayerEvent::PlaybackStateChanged(status));
                }
                self.consecutive_errors = 0;
            },
            None => {
                if self.consecutive_errors < ERROR_LIMIT {
                    self.consecutive_errors = self.consecutive_errors + 1;
                }
            },
        }
        assert(event_models(events@) =~= event_models(old(events)@) + reading_events(
            old(self)@,
            model,
        ));
    }

    /// A signal of the player. `seeked` is the position where it says that the
    /// user has sought. Returns the events, and whether the player is gone.
    pub fn on_signal(&mut self, seeked: Option<Duration>, reading: Option<Reading>) -> (r: (
        Vec<PlayerEvent>,
        bool,
    ))
        ensures
            final(self)@ == after_signal(old(self)@, opt_nanos(seeked), reading_model(reading)),
            event_models(r.0@) == signal_events(
                old(self)@,
                opt_nanos(seeked),
                reading_model(reading),
            ),
            r.1 == is_gone(final(self)@),
    {
        let mut events = no_events();
        if let Some(position) = seeked {
            self.last_position = position;
            push_event(&mut events, PlayerEvent::Seeked(position));
            assert(event_models(events@) =~= seq![EventModel::Seeked(position@)]);
        }
        let ghost seen = self@;
        let ghost model = reading_model(reading);
        self.check_state_changes(reading, &mut events);
        proof {
            assert(reading_events(seen, model) == reading_events(old(self)@, model));
            assert(event_models(events@) =~= signal_events(old(self)@, opt_nanos(seeked), model));
        }
        (events, self.consecutive_errors >= ERROR_LIMIT)
    }

    /// A poll of the player: a jump of the position is a seek, for players that
    /// do not say so. Returns the events, and whether the player is gone.
    pub fn on_tick(&mut self, position: Duration, reading: Option<Reading>) -> (r: (
        Vec<PlayerEvent>,
        bool,
    ))
        ensures
            final(self)@ == after_tick(old(self)@, position@, reading_model(reading)),
            event_models(r.0@) == tick_events(old(self)@, position@, reading_model(reading)),
            r.1 == is_gone(final(self)@),
    {
        let mut events = no_events();
        let limit = Duration::from_secs(SEEK_JUMP_SECS);
        if limit.shorter_than(&position.abs_diff(self.last_position)) {
            push_event(&mut events, PlayerEvent::Seeked(position));
            assert(event_models(events@) =~= seq![EventModel::Seeked(position@)]);
        }
        self.last_position = position;
        let ghost seen = self@;
        let ghost model = reading_model(reading);
        self.check_state_changes(reading, &mut events);
        proof {
            assert(reading_events(seen, model) == reading_events(old(self)@, model));
            assert(event_models(events@) =~= tick_events(old(self)@, position@, model));
        }
        (events, self.consecutive_errors >= ERROR_LIMIT)
    }
}

// ---------------------------------------------------------------------------
// Control
// ---------------------------------------------------------------------------

/// A call of a method of a player.
#[derive(Debug)]
pub enum PlayerCall {
    /// A method without arguments.
    Plain(&'static str),
    /// `SetPosition` with a track and a position in microseconds.
    SetPosition(String, i64),
}

/// The method for a control without arguments.
pub open spec fn method_name(c: PlayerControl) -> Option<Seq<char>> {
    match c {
        PlayerControl::PlayPause => Some("PlayPause"@),
        PlayerControl::Play => Some("Play"@),
        PlayerControl::Pause => Some("Pause"@),
        PlayerControl::Stop => Some("Stop"@),
        PlayerControl::Next => Some("Next"@),
        PlayerControl::Previous => Some("Previous"@),
        PlayerControl::SeekTo(_) => None,
    }
}

/// A span in whole microseconds, as far as 64 bits with a sign hold it.
pub open spec fn capped_micros(nanos: nat) -> int {
    if nanos / (NANOS_PER_MICRO as nat) <= i64::MAX {
        (nanos / (NANOS_PER_MICRO as nat)) as int
    } else {
        i64::MAX as int
    }
}

/// The call for a control, with the track that is playing.
pub fn control_call(control: PlayerControl, track_id: &str) -> (r: PlayerCall)
    ensures
        match control {
            PlayerControl::SeekTo(p) => r matches PlayerCall::SetPosition(id, us) && id@ == track_id@
                && us == capped_micros(p@),
            _ => r matches PlayerCall::Plain(m) && Some(m@) == method_name(control),
        },
{
    match control {
        PlayerControl::PlayPause => PlayerCall::Plain("PlayPause"),
        PlayerControl::Play => PlayerCall::Plain("Play"),
        PlayerControl::Pause => PlayerCall::Plain("Pause"),
        PlayerControl::Stop => PlayerCall::Plain("Stop"),
        PlayerControl::Next => PlayerCall::Plain("Next"),
        PlayerControl::Previous => PlayerCall::Plain("Previous"),
        PlayerControl::SeekTo(p) => {
            let us: u128 = p.as_nanos() / NANOS_PER_MICRO;
            let capped: i64 = if us <= 0x7fff_ffff_ffff_ffff {
                us as i64
            } else {
                i64::MAX
            };
            PlayerCall::SetPosition(track_id.to_owned(), capped)
        },
    }
}

// ---------------------------------------------------------------------------
// Laws
// ---------------------------------------------------------------------------

proof fn lemma_players(names: Seq<Seq<char>>)
    ensures
        forall|k: int|
            0 <= k < players_among(names).len() ==> names.contains(
                #[trigger] players_among(names)[k],
            ) && occurs_at(players_among(names)[k], name_prefix(), 0),
    decreases names.len(),
{
    if names.len() > 0 {
        lemma_players(names.drop_last());
        let before = players_among(names.drop_last());
        let all = players_among(names);
        assert forall|k: int| 0 <= k < all.len() implies names.contains(#[trigger] all[k])
            && occurs_at(all[k], name_prefix(), 0) by {
            if k < before.len() {
                assert(all[k] == before[k]);
                let j = choose|j: int|
                    0 <= j < names.drop_last().len() && names.drop_last()[j] == before[k];
                assert(names[j] == all[k]);
            } else {
                assert(names[names.len() - 1] == all[k]);
            }
        }
    }
}

proof fn lemma_first_preferred(names: Seq<Seq<char>>, preferred: Seq<char>, i: int)
    requires
        0 <= i,
    ensures
        first_preferred(names, preferred, i) matches Some(n) ==> names.contains(n) && is_preferred(
            n,
            preferred,
        ),
    decreases names.len() - i,
{
    if i < names.len() && !is_preferred(names[i], preferred) {
        lemma_first_preferred(names, preferred, i + 1);
    }
}

/// Only a player on the bus is attached to; in strict mode only one that is
/// preferred, and none where it does not run.
pub proof fn law_chosen_player(names: Seq<Seq<char>>, preferred: Seq<char>, strict: bool)
    ensures
        chosen_player(names, preferred, strict) matches Some(n) ==> names.contains(n) && occurs_at(
            n,
            name_prefix(),
            0,
        ),
        strict && preferred.len() > 0 ==> (chosen_player(names, preferred, strict) matches Some(n)
            ==> is_preferred(n, preferred)),
        !strict && players_among(names).len() > 0 ==> chosen_player(names, preferred, strict) is Some,
{
    lemma_players(names);
    lemma_first_preferred(players_among(names), preferred, 0);
    let players = players_among(names);
    if let Some(n) = chosen_player(names, preferred, strict) {
        let k = choose|k: int| 0 <= k < players.len() && players[k] == n;
        assert(players.contains(n)) by {
            if players.len() > 0 && n == players[0] {
                assert(players[0] == n);
            }
        }
        assert(0 <= k < players.len() && players[k] == n);
    }
}

/// Two readings of the same track and status in a row give events once.
pub proof fn law_no_repeated_events(
    m: MonitorModel,
    track: Option<TrackModel>,
    status: PlaybackStatus,
)
    ensures
        reading_events(after_reading(m, Some((track, status))), Some((track, status))) == Seq::<
            EventModel,
        >::empty(),
{
}

/// A single answer makes a player count as present again; it takes as many
/// failures in a row as the limit to count as gone.
pub proof fn law_gone_after_failures(m: MonitorModel, track: Option<TrackModel>, status: PlaybackStatus)
    ensures
        after_reading(m, Some((track, status))).errors == 0,
        m.errors + 1 < ERROR_LIMIT ==> !is_gone(after_reading(m, None)),
        m.errors + 1 >= ERROR_LIMIT ==> is_gone(after_reading(m, None)),
{
}

/// Strict mode has no effect where no player is preferred.
pub proof fn law_strict_needs_preference(names: Seq<Seq<char>>)
    ensures
        chosen_player(names, Seq::empty(), true) == chosen_player(names, Seq::empty(), false),
{
}

} // verus!
