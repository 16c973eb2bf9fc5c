//! Players on the bus: which one is chosen, what its metadata says, and which
//! events its readings give.
use crate::player::mpris::{
    after_reading, after_signal, after_tick, capped_micros, chosen_player, first_events,
    first_preferred, is_gone, is_preferred, length_under, list_under, method_name, name_prefix,
    players_among, reading_events, signal_events, span_of_micros, status_named, text_under,
    tick_events, track_in, value_under, without_prefix, MetaValue, Metadata, MonitorModel,
};
use crate::player::{moved_on, EventModel, PlaybackStatus, PlayerControl, TrackModel};
use crate::text::{has_part, joined, lowercased, occurs_at, opt_text, texts};
use crate::time::Duration;
use vstd::prelude::*;

verus! {

// ---------------------------------------------------------------------------
// Events
// ---------------------------------------------------------------------------

/// A reading of a track with an id other than the one last seen gives the event
/// that this track has begun, before any other, also where no id has been seen;
/// its id is then the one last seen.
pub proof fn law_new_track(m: MonitorModel, t: TrackModel, status: PlaybackStatus)
    requires
        t.id.len() > 0,
        t.id != m.track_id,
    ensures
        reading_events(m, Some((Some(t), status))).len() > 0,
        reading_events(m, Some((Some(t), status)))[0] == EventModel::TrackChanged(t),
        after_reading(m, Some((Some(t), status))).track_id == t.id,
        status == m.status ==> reading_events(m, Some((Some(t), status))).len() == 1,
        status != m.status ==> reading_events(m, Some((Some(t), status))) == seq![
            EventModel::TrackChanged(t),
            EventModel::PlaybackStateChanged(status),
        ],
{
}

/// A reading without a track, of a track without an id or of the one last seen
/// gives no event of a track, and the id last seen stays.
pub proof fn law_same_track(m: MonitorModel, track: Option<TrackModel>, status: PlaybackStatus)
    requires
        track matches Some(t) ==> t.id.len() == 0 || t.id == m.track_id,
    ensures
        after_reading(m, Some((track, status))).track_id == m.track_id,
        status == m.status ==> reading_events(m, Some((track, status))).len() == 0,
        status != m.status ==> reading_events(m, Some((track, status))) == seq![
            EventModel::PlaybackStateChanged(status),
        ],
{
}

/// Every answer of a player gives the status last seen and forgets failures;
/// the position is left alone.
pub proof fn law_answer(m: MonitorModel, track: Option<TrackModel>, status: PlaybackStatus)
    ensures
        after_reading(m, Some((track, status))).status == status,
        after_reading(m, Some((track, status))).position == m.position,
        after_reading(m, Some((track, status))).errors == 0,
{
}

/// A player that does not answer gives no event, and counts as gone after the
/// fifth time in a row.
pub proof fn law_no_answer(m: MonitorModel)
    ensures
        reading_events(m, None).len() == 0,
        after_reading(m, None).track_id == m.track_id,
        after_reading(m, None).position == m.position,
        after_reading(m, None).status == m.status,
        m.errors < 5 ==> after_reading(m, None).errors == m.errors + 1,
        m.errors >= 5 ==> after_reading(m, None).errors == m.errors,
        is_gone(m) == (m.errors >= 5),
{
}

/// A position more than two seconds from the one last seen, in either
/// direction, is a seek to it, and comes before what the reading gives; any
/// other is none. It is then the position last seen.
pub proof fn law_tick(
    m: MonitorModel,
    position: nat,
    reading: Option<(Option<TrackModel>, PlaybackStatus)>,
)
    ensures
        position > m.position + 2_000_000_000 || position + 2_000_000_000 < m.position
            ==> tick_events(m, position, reading) == seq![EventModel::Seeked(position)]
            + reading_events(m, reading),
        m.position <= position + 2_000_000_000 && position <= m.position + 2_000_000_000
            ==> tick_events(m, position, reading) == reading_events(m, reading),
        after_tick(m, position, reading).position == position,
        after_tick(m, position, reading).track_id == after_reading(m, reading).track_id,
        after_tick(m, position, reading).status == after_reading(m, reading).status,
        after_tick(m, position, reading).errors == after_reading(m, reading).errors,
{
}

/// A signal of a seek is passed on with its position, wherever it goes, before
/// what the reading gives; other signals give what the reading gives.
pub proof fn law_signal(
    m: MonitorModel,
    position: nat,
    reading: Option<(Option<TrackModel>, PlaybackStatus)>,
)
    ensures
        signal_events(m, Some(position), reading) == seq![EventModel::Seeked(position)]
            + reading_events(m, reading),
        signal_events(m, None, reading) == reading_events(m, reading),
        after_signal(m, Some(position), reading).position == position,
        after_signal(m, Some(position), reading).track_id == after_reading(m, reading).track_id,
        after_signal(m, Some(position), reading).status == after_reading(m, reading).status,
        after_signal(m, Some(position), reading).errors == after_reading(m, reading).errors,
        after_signal(m, None, reading) == after_reading(m, reading),
{
}

/// Monitoring starts with the track, where there is one, and the status.
pub proof fn law_first_events(t: TrackModel, status: PlaybackStatus)
    ensures
        first_events(Some(t), status) == seq![
            EventModel::TrackChanged(t),
            EventModel::PlaybackStateChanged(status),
        ],
        first_events(None, status) == seq![EventModel::PlaybackStateChanged(status)],
{
}

/// A position moves on with the time that has passed while playing, and not
/// otherwise.
pub proof fn law_moved_on(position: nat, elapsed: nat)
    ensures
        moved_on(PlaybackStatus::Playing, position, elapsed) == position + elapsed,
        moved_on(PlaybackStatus::Paused, position, elapsed) == position,
        moved_on(PlaybackStatus::Stopped, position, elapsed) == position,
{
}

// ---------------------------------------------------------------------------
// Choosing a player
// ---------------------------------------------------------------------------

/// Whether a name is one of a player on the bus.
pub open spec fn on_bus(name: Seq<char>) -> bool {
    exists|rest: Seq<char>| name == #[trigger] ("org.mpris.MediaPlayer2."@ + rest)
}

/// Whether a name has another in it, whatever the case of the letters.
pub open spec fn names_player(name: Seq<char>, wanted: Seq<char>) -> bool {
    has_part(lowercased(name), lowercased(wanted))
}

proof fn lemma_on_bus(name: Seq<char>)
    ensures
        on_bus(name) == occurs_at(name, name_prefix(), 0),
{
    let prefix = "org.mpris.MediaPlayer2."@;
    if on_bus(name) {
        let rest = choose|rest: Seq<char>| name == #[trigger] (prefix + rest);
        assert(name.subrange(0, prefix.len() as int) =~= prefix);
    }
    if occurs_at(name, name_prefix(), 0) {
        let rest = name.skip(prefix.len() as int);
        assert(name =~= prefix + rest);
    }
}

/// The first player with a name in it is still the first once another follows.
proof fn lemma_preferred_push(names: Seq<Seq<char>>, wanted: Seq<char>, name: Seq<char>, i: int)
    requires
        0 <= i <= names.len(),
    ensures
        first_preferred(names.push(name), wanted, i) == if first_preferred(names, wanted, i) is Some {
            first_preferred(names, wanted, i)
        } else if is_preferred(name, wanted) {
            Some(name)
        } else {
            None
        },
    decreases names.len() - i,
{
    reveal_with_fuel(first_preferred, 2);
    if i < names.len() {
        lemma_preferred_push(names, wanted, name, i + 1);
    }
}

/// The players among names, and the first of them with a name in it.
proof fn lemma_players(names: Seq<Seq<char>>, wanted: Seq<char>, k: int)
    requires
        0 <= k < names.len(),
        on_bus(names[k]),
    ensures
        (forall|i: int| 0 <= i < k ==> !on_bus(#[trigger] names[i])) ==> players_among(names).len()
            > 0 && players_among(names)[0] == names[k],
        names_player(names[k], wanted) && (forall|i: int|
            0 <= i < k ==> !(on_bus(#[trigger] names[i]) && names_player(names[i], wanted)))
            ==> first_preferred(players_among(names), wanted, 0) == Some(names[k]),
    decreases names.len(),
{
    let head = names.drop_last();
    lemma_on_bus(names.last());
    lemma_preferred_push(players_among(head), wanted, names.last(), 0);
    if k < head.len() {
        lemma_players(head, wanted, k);
        if forall|i: int| 0 <= i < k ==> !on_bus(#[trigger] names[i]) {
            assert forall|i: int| 0 <= i < k implies !on_bus(#[trigger] head[i]) by {
                assert(names[i] == head[i]);
            }
        }
        if forall|i: int|
            0 <= i < k ==> !(on_bus(#[trigger] names[i]) && names_player(names[i], wanted)) {
            assert forall|i: int| 0 <= i < k implies !(on_bus(#[trigger] head[i])
                && names_player(head[i], wanted)) by {
                assert(names[i] == head[i]);
            }
        }
    } else {
        if forall|i: int| 0 <= i < k ==> !on_bus(#[trigger] names[i]) {
            assert forall|i: int| 0 <= i < head.len() implies !on_bus(#[trigger] head[i]) by {
                assert(names[i] == head[i]);
            }
            lemma_no_players(head);
        }
        if forall|i: int|
            0 <= i < k ==> !(on_bus(#[trigger] names[i]) && names_player(names[i], wanted)) {
            assert forall|i: int| 0 <= i < head.len() implies !(on_bus(#[trigger] head[i])
                && names_player(head[i], wanted)) by {
                assert(names[i] == head[i]);
            }
            lemma_none_preferred(head, wanted);
        }
    }
}

proof fn lemma_no_players(names: Seq<Seq<char>>)
    requires
        forall|i: int| 0 <= i < names.len() ==> !on_bus(#[trigger] names[i]),
    ensures
        players_among(names).len() == 0,
    decreases names.len(),
{
    if names.len() > 0 {
        let head = names.drop_last();
        assert(!on_bus(names[names.len() - 1]));
        lemma_on_bus(names.last());
        assert forall|i: int| 0 <= i < head.len() implies !on_bus(#[trigger] head[i]) by {
            assert(names[i] == head[i]);
        }
        lemma_no_players(head);
    }
}

proof fn lemma_none_preferred(names: Seq<Seq<char>>, wanted: Seq<char>)
    requires
        forall|i: int|
            0 <= i < names.len() ==> !(on_bus(#[trigger] names[i]) && names_player(
                names[i],
                wanted,
            )),
    ensures
        first_preferred(players_among(names), wanted, 0) is None,
    decreases names.len(),
{
    if names.len() > 0 {
        let head = names.drop_last();
        let last = names[names.len() - 1];
        assert(!(on_bus(last) && names_player(last, wanted)));
        lemma_on_bus(names.last());
        assert forall|i: int| 0 <= i < head.len() implies !(on_bus(#[trigger] head[i])
            && names_player(head[i], wanted)) by {
            assert(names[i] == head[i]);
        }
        lemma_none_preferred(head, wanted);
        lemma_preferred_push(players_among(head), wanted, names.last(), 0);
    }
}

/// Where a player is preferred, the first on the bus with that name in its own
/// is chosen.
pub proof fn law_preferred_chosen(names: Seq<Seq<char>>, wanted: Seq<char>, strict: bool, k: int)
    requires
        wanted.len() > 0,
        0 <= k < names.len(),
        on_bus(names[k]) && names_player(names[k], wanted),
        forall|i: int|
            0 <= i < k ==> !(on_bus(#[trigger] names[i]) && names_player(names[i], wanted)),
    ensures
        chosen_player(names, wanted, strict) == Some(names[k]),
{
    lemma_players(names, wanted, k);
}

/// Where none is preferred, or the preferred one is not there and another will
/// do, the first player on the bus is chosen.
pub proof fn law_first_chosen(names: Seq<Seq<char>>, wanted: Seq<char>, strict: bool, k: int)
    requires
        0 <= k < names.len(),
        on_bus(names[k]),
        forall|i: int| 0 <= i < k ==> !on_bus(#[trigger] names[i]),
        wanted.len() == 0 || (!strict && forall|i: int|
            0 <= i < names.len() ==> !(on_bus(#[trigger] names[i]) && names_player(
                names[i],
                wanted,
            ))),
    ensures
        chosen_player(names, wanted, strict) == Some(names[k]),
{
    lemma_players(names, wanted, k);
    if wanted.len() > 0 {
        lemma_none_preferred(names, wanted);
    }
}

/// None is chosen where no player is on the bus, or where only the preferred
/// one will do and it is not there.
pub proof fn law_none_chosen(names: Seq<Seq<char>>, wanted: Seq<char>, strict: bool)
    requires
        (forall|i: int| 0 <= i < names.len() ==> !on_bus(#[trigger] names[i])) || (wanted.len() > 0
            && strict && forall|i: int|
            0 <= i < names.len() ==> !(on_bus(#[trigger] names[i]) && names_player(
                names[i],
                wanted,
            ))),
    ensures
        chosen_player(names, wanted, strict) is None,
{
    if forall|i: int| 0 <= i < names.len() ==> !on_bus(#[trigger] names[i]) {
        lemma_no_players(names);
    } else {
        lemma_none_preferred(names, wanted);
    }
}

/// A player is shown by what follows the common start of the names on the bus.
pub proof fn law_display_name(rest: Seq<char>)
    ensures
        without_prefix("org.mpris.MediaPlayer2."@ + rest, name_prefix()) == without_prefix(
            rest,
            name_prefix(),
        ),
        !on_bus(rest) ==> without_prefix(rest, name_prefix()) == rest,
{
    let prefix = "org.mpris.MediaPlayer2."@;
    reveal_strlit("org.mpris.MediaPlayer2.");
    let name = prefix + rest;
    assert(name.subrange(0, prefix.len() as int) =~= prefix);
    assert(name.skip(prefix.len() as int) =~= rest);
    assert(occurs_at(name, prefix, 0));
    lemma_on_bus(rest);
}

// ---------------------------------------------------------------------------
// Metadata
// ---------------------------------------------------------------------------

/// Whether entry `k` is the first under a key.
pub open spec fn first_under(m: Metadata, key: Seq<char>, k: int) -> bool {
    &&& 0 <= k < m.entries@.len()
    &&& m.entries@[k].0@ == key
    &&& forall|i: int| 0 <= i < k ==> (#[trigger] m.entries@[i]).0@ != key
}

/// Whether no entry is under a key.
pub open spec fn none_under(m: Metadata, key: Seq<char>) -> bool {
    forall|i: int| 0 <= i < m.entries@.len() ==> (#[trigger] m.entries@[i]).0@ != key
}

proof fn lemma_value_under(entries: Seq<(String, MetaValue)>, key: Seq<char>, i: int, k: int)
    requires
        0 <= i <= k < entries.len(),
        entries[k].0@ == key,
        forall|j: int| i <= j < k ==> (#[trigger] entries[j]).0@ != key,
    ensures
        value_under(entries, key, i) == Some(entries[k].1),
    decreases k - i,
{
    if i < k {
        assert(entries[i].0@ != key);
        lemma_value_under(entries, key, i + 1, k);
    }
}

proof fn lemma_no_value(entries: Seq<(String, MetaValue)>, key: Seq<char>, i: int)
    requires
        0 <= i,
        forall|j: int| i <= j < entries.len() ==> (#[trigger] entries[j]).0@ != key,
    ensures
        value_under(entries, key, i) is None,
    decreases entries.len() - i,
{
    if i < entries.len() {
        assert(entries[i].0@ != key);
        lemma_no_value(entries, key, i + 1);
    }
}

/// What is read under a key is what the first entry with that key holds: its
/// text, its list or else its text alone, and its length, signed or else
/// unsigned, in microseconds that are not below zero.
pub proof fn law_read_under(m: Metadata, key: Seq<char>, k: int)
    requires
        first_under(m, key, k),
    ensures
        ({
            let v = m.entries@[k].1;
            &&& text_under(m, key) == opt_text(v.text)
            &&& v.list matches Some(l) ==> list_under(m, key) == Some(texts(l@))
            &&& v.list is None ==> (v.text matches Some(s) ==> list_under(m, key) == Some(seq![s@]))
            &&& v.list is None && v.text is None ==> list_under(m, key) is None
            &&& v.signed matches Some(us) ==> length_under(m, key) == Some(
                if us >= 0 {
                    (us * 1_000) as nat
                } else {
                    0
                },
            )
            &&& v.signed is None ==> (v.unsigned matches Some(us) ==> length_under(m, key) == Some(
                if us <= 0x7fff_ffff_ffff_ffff {
                    (us * 1_000) as nat
                } else {
                    0
                },
            ))
            &&& v.signed is None && v.unsigned is None ==> length_under(m, key) is None
        }),
{
    lemma_value_under(m.entries@, key, 0, k);
}

/// Nothing is read under a key that is not there.
pub proof fn law_nothing_under(m: Metadata, key: Seq<char>)
    requires
        none_under(m, key),
    ensures
        text_under(m, key) is None,
        list_under(m, key) is None,
        length_under(m, key) is None,
{
    lemma_no_value(m.entries@, key, 0);
}

/// Metadata with a title or an artist describes a track; the artists stand with
/// a comma and a space between neighbours, and each other part of the track is
/// what is under its key.
pub proof fn law_track_read(m: Metadata)
    ensures
        ({
            let title = match text_under(m, "xesam:title"@) {
                Some(s) => s,
                None => Seq::empty(),
            };
            let artist = match list_under(m, "xesam:artist"@) {
                Some(l) => joined(l, ", "@),
                None => Seq::empty(),
            };
            &&& title.len() == 0 && artist.len() == 0 ==> track_in(m) is None
            &&& title.len() > 0 || artist.len() > 0 ==> track_in(m) is Some
            &&& track_in(m) matches Some(t) ==> {
                &&& t.title == title
                &&& t.artist == artist
                &&& t.album == text_under(m, "xesam:album"@)
                &&& t.duration == length_under(m, "mpris:length"@)
                &&& text_under(m, "mpris:trackid"@) matches Some(id) ==> t.id == id
                &&& text_under(m, "mpris:trackid"@) is None ==> t.id.len() == 0
            }
        }),
{
}

/// The status is what the player says where it says that it plays or is paused,
/// and else stopped.
pub proof fn law_status(s: Seq<char>)
    ensures
        status_named(Some("Playing"@)) == PlaybackStatus::Playing,
        status_named(Some("Paused"@)) == PlaybackStatus::Paused,
        s != "Playing"@ && s != "Paused"@ ==> status_named(Some(s)) == PlaybackStatus::Stopped,
        status_named(None) == PlaybackStatus::Stopped,
{
    reveal_strlit("Playing");
    reveal_strlit("Paused");
    assert("Playing"@.len() == 7 && "Paused"@.len() == 6);
}

/// Positions are in microseconds, both ways: none is read below zero, and one
/// that is asked for is cut to whole microseconds.
pub proof fn law_micros(us: int, rest: nat)
    requires
        rest < 1_000,
    ensures
        us >= 0 ==> span_of_micros(us) == us * 1_000,
        us < 0 ==> span_of_micros(us) == 0,
        0 <= us <= i64::MAX ==> capped_micros((us * 1_000 + rest) as nat) == us,
        us > i64::MAX ==> capped_micros((us * 1_000 + rest) as nat) == i64::MAX,
{
}

/// The method that each control calls.
pub proof fn law_methods(p: Duration)
    ensures
        method_name(PlayerControl::PlayPause) == Some("PlayPause"@),
        method_name(PlayerControl::Play) == Some("Play"@),
        method_name(PlayerControl::Pause) == Some("Pause"@),
        method_name(PlayerControl::Stop) == Some("Stop"@),
        method_name(PlayerControl::Next) == Some("Next"@),
        method_name(PlayerControl::Previous) == Some("Previous"@),
        method_name(PlayerControl::SeekTo(p)) is None,
{
}

} // verus!
