//! The track store: a table of aircraft tracks keyed by transponder
//! address, with insert/update, tail reads, aging and eviction.
//!
//! The store is a plain value; callers that share it across tasks put it
//! behind one exclusive lock and route every operation through these
//! methods. Its mathematical value is a map from address to `TrackView`.

use vstd::prelude::*;

use crate::sbs::{SbsDate, SbsMessage, SbsMessageView, SbsTime};

verus! {

/// Seconds the eviction scheduler waits between ticks.
pub const EVICTION_TICK_SECS: usize = 10;

/// Silence, in seconds, past which a track is evicted.
pub const EVICTION_THRESHOLD_SECS: usize = 60;

/// The mathematical value of one track: the constant attributes, the
/// liveness counter, and one append-only sequence per variable attribute.
/// The sequences grow independently; the latest value of a field is the
/// tail of that field's own sequence.
#[verifier::ext_equal]
pub struct TrackView {
    pub hex_ident: Seq<char>,
    pub last_seen: usize,
    pub session_id: Option<Seq<char>>,
    pub aircraft_id: Option<Seq<char>>,
    pub flight_id: Option<Seq<char>>,
    pub call_sign: Option<Seq<char>>,
    pub message_type: Seq<Seq<char>>,
    pub transmission_type: Seq<usize>,
    pub generated_date: Seq<SbsDate>,
    pub generated_time: Seq<SbsTime>,
    pub logged_date: Seq<SbsDate>,
    pub logged_time: Seq<SbsTime>,
    pub altitude: Seq<Option<i64>>,
    pub ground_speed: Seq<Option<i64>>,
    pub track: Seq<Option<i64>>,
    pub latitude: Seq<Option<i64>>,
    pub longitude: Seq<Option<i64>>,
    pub vertical_rate: Seq<Option<i64>>,
    pub squawk: Seq<Option<i32>>,
    pub alert: Seq<Option<bool>>,
    pub emergency: Seq<Option<bool>>,
    pub spi: Seq<Option<bool>>,
    pub is_on_ground: Seq<Option<bool>>,
}

pub open spec fn nonempty_call_sign(cs: Option<Seq<char>>) -> bool {
    match cs {
        Some(c) => c.len() > 0,
        None => false,
    }
}

/// The track created by the first message naming an address: every
/// sequence is seeded with that message's value.
pub open spec fn seed_track(m: SbsMessageView) -> TrackView {
    TrackView {
        hex_ident: m.hex_ident,
        last_seen: 0,
        session_id: m.session_id,
        aircraft_id: m.aircraft_id,
        flight_id: m.flight_id,
        call_sign: m.call_sign,
        message_type: seq![m.message_type],
        transmission_type: seq![m.transmission_type],
        generated_date: seq![m.generated_date],
        generated_time: seq![m.generated_time],
        logged_date: seq![m.logged_date],
        logged_time: seq![m.logged_time],
        altitude: seq![m.altitude],
        ground_speed: seq![m.ground_speed],
        track: seq![m.track],
        latitude: seq![m.latitude],
        longitude: seq![m.longitude],
        vertical_rate: seq![m.vertical_rate],
        squawk: seq![m.squawk],
        alert: seq![m.alert],
        emergency: seq![m.emergency],
        spi: seq![m.spi],
        is_on_ground: seq![m.is_on_ground],
    }
}

/// What one further message does to an existing track: the liveness
/// counter resets, the always-recorded sequences grow by one, and the
/// transmission type decides which payload sequences grow with them.
/// A non-empty call sign on an identification message replaces the stored
/// one; an empty or absent call sign never does.
pub open spec fn apply_update(t: TrackView, m: SbsMessageView) -> TrackView {
    let t1 = TrackView {
        last_seen: 0,
        message_type: t.message_type.push(m.message_type),
        transmission_type: t.transmission_type.push(m.transmission_type),
        generated_date: t.generated_date.push(m.generated_date),
        generated_time: t.generated_time.push(m.generated_time),
        logged_date: t.logged_date.push(m.logged_date),
        logged_time: t.logged_time.push(m.logged_time),
        ..t
    };
    let t2 = if m.transmission_type == 3 {
        TrackView {
            latitude: t1.latitude.push(m.latitude),
            longitude: t1.longitude.push(m.longitude),
            altitude: t1.altitude.push(m.altitude),
            ..t1
        }
    } else {
        t1
    };
    let t3 = if m.transmission_type == 4 {
        TrackView {
            ground_speed: t2.ground_speed.push(m.ground_speed),
            track: t2.track.push(m.track),
            ..t2
        }
    } else {
        t2
    };
    let t4 = if m.transmission_type == 5 && nonempty_call_sign(m.call_sign) {
        TrackView { call_sign: m.call_sign, ..t3 }
    } else {
        t3
    };
    if m.transmission_type == 6 && m.squawk is Some {
        TrackView { squawk: t4.squawk.push(m.squawk), ..t4 }
    } else {
        t4
    }
}

/// What one message does to the whole table: a fresh track under a new
/// address, or an update of the existing one.
pub open spec fn spec_update(
    m: Map<Seq<char>, TrackView>,
    msg: SbsMessageView,
) -> Map<Seq<char>, TrackView> {
    if m.contains_key(msg.hex_ident) {
        m.insert(msg.hex_ident, apply_update(m[msg.hex_ident], msg))
    } else {
        m.insert(msg.hex_ident, seed_track(msg))
    }
}

/// A track aged by `delta` seconds, saturating at the counter's top.
pub open spec fn age_track(t: TrackView, delta: usize) -> TrackView {
    TrackView {
        last_seen: if t.last_seen + delta > usize::MAX {
            usize::MAX
        } else {
            (t.last_seen + delta) as usize
        },
        ..t
    }
}

/// The whole table aged by `delta` seconds.
pub open spec fn age_map(
    m: Map<Seq<char>, TrackView>,
    delta: usize,
) -> Map<Seq<char>, TrackView> {
    Map::new(|k: Seq<char>| m.contains_key(k), |k: Seq<char>| age_track(m[k], delta))
}

/// The table without every track silent for `threshold` seconds or more.
pub open spec fn evict_map(
    m: Map<Seq<char>, TrackView>,
    threshold: usize,
) -> Map<Seq<char>, TrackView> {
    Map::new(
        |k: Seq<char>| m.contains_key(k) && m[k].last_seen < threshold,
        |k: Seq<char>| m[k],
    )
}

pub open spec fn spec_last_seen(m: Map<Seq<char>, TrackView>, id: Seq<char>) -> Option<usize> {
    if m.contains_key(id) {
        Some(m[id].last_seen)
    } else {
        None
    }
}

pub open spec fn spec_squawk(m: Map<Seq<char>, TrackView>, id: Seq<char>) -> Option<i32> {
    if m.contains_key(id) && m[id].squawk.len() > 0 {
        m[id].squawk.last()
    } else {
        None
    }
}

pub open spec fn spec_ground_speed(m: Map<Seq<char>, TrackView>, id: Seq<char>) -> Option<i64> {
    if m.contains_key(id) && m[id].ground_speed.len() > 0 {
        m[id].ground_speed.last()
    } else {
        None
    }
}

pub open spec fn spec_track_angle(m: Map<Seq<char>, TrackView>, id: Seq<char>) -> Option<i64> {
    if m.contains_key(id) && m[id].track.len() > 0 {
        m[id].track.last()
    } else {
        None
    }
}

/// The latest position: the tails of the latitude, longitude and altitude
/// sequences, but only when all three are present.
pub open spec fn spec_latest_pos(
    m: Map<Seq<char>, TrackView>,
    id: Seq<char>,
) -> Option<(i64, i64, i64)> {
    if m.contains_key(id) && m[id].latitude.len() > 0 && m[id].longitude.len() > 0
        && m[id].altitude.len() > 0 {
        match (m[id].latitude.last(), m[id].longitude.last(), m[id].altitude.last()) {
            (Some(la), Some(lo), Some(al)) => Some((la, lo, al)),
            _ => None,
        }
    } else {
        None
    }
}

/// The last known non-empty call sign, or the `-` placeholder.
pub open spec fn spec_call_sign(m: Map<Seq<char>, TrackView>, id: Seq<char>) -> Seq<char> {
    if m.contains_key(id) && nonempty_call_sign(m[id].call_sign) {
        m[id].call_sign.unwrap()
    } else {
        "-"@
    }
}

struct PlaneDataConst {
    session_id: Option<String>,
    aircraft_id: Option<String>,
    hex_ident: String,
    flight_id: Option<String>,
    call_sign: Option<String>,
}

struct PlaneDataVar {
    message_type: Vec<String>,
    transmission_type: Vec<usize>,
    generated_date: Vec<SbsDate>,
    generated_time: Vec<SbsTime>,
    logged_date: Vec<SbsDate>,
    logged_time: Vec<SbsTime>,
    altitude: Vec<Option<i64>>,
    ground_speed: Vec<Option<i64>>,
    track: Vec<Option<i64>>,
    latitude: Vec<Option<i64>>,
    longitude: Vec<Option<i64>>,
    vertical_rate: Vec<Option<i64>>,
    squawk: Vec<Option<i32>>,
    alert: Vec<Option<bool>>,
    emergency: Vec<Option<bool>>,
    spi: Vec<Option<bool>>,
    is_on_ground: Vec<Option<bool>>,
}

struct PlaneDataSet {
    plane_id: String,
    last_seen: usize,
    data_const: PlaneDataConst,
    data_var: PlaneDataVar,
}

impl PlaneDataSet {
    spec fn track_view(self) -> TrackView {
        TrackView {
            hex_ident: self.data_const.hex_ident@,
            last_seen: self.last_seen,
            session_id: self.data_const.session_id.deep_view(),
            aircraft_id: self.data_const.aircraft_id.deep_view(),
            flight_id: self.data_const.flight_id.deep_view(),
            call_sign: self.data_const.call_sign.deep_view(),
            message_type: self.data_var.message_type.deep_view(),
            transmission_type: self.data_var.transmission_type@,
            generated_date: self.data_var.generated_date@,
            generated_time: self.data_var.generated_time@,
            logged_date: self.data_var.logged_date@,
            logged_time: self.data_var.logged_time@,
            altitude: self.data_var.altitude@,
            ground_speed: self.data_var.ground_speed@,
            track: self.data_var.track@,
            latitude: self.data_var.latitude@,
            longitude: self.data_var.longitude@,
            vertical_rate: self.data_var.vertical_rate@,
            squawk: self.data_var.squawk@,
            alert: self.data_var.alert@,
            emergency: self.data_var.emergency@,
            spi: self.data_var.spi@,
            is_on_ground: self.data_var.is_on_ground@,
        }
    }

    spec fn wf(self) -> bool {
        &&& self.plane_id@ == self.data_const.hex_ident@
        &&& self.data_var.message_type@.len() >= 1
        &&& self.data_var.transmission_type@.len() >= 1
        &&& self.data_var.generated_date@.len() >= 1
        &&& self.data_var.generated_time@.len() >= 1
        &&& self.data_var.logged_date@.len() >= 1
        &&& self.data_var.logged_time@.len() >= 1
        &&& self.data_var.altitude@.len() >= 1
        &&& self.data_var.ground_speed@.len() >= 1
        &&& self.data_var.track@.len() >= 1
        &&& self.data_var.latitude@.len() >= 1
        &&& self.data_var.longitude@.len() >= 1
        &&& self.data_var.vertical_rate@.len() >= 1
        &&& self.data_var.squawk@.len() >= 1
        &&& self.data_var.alert@.len() >= 1
        &&& self.data_var.emergency@.len() >= 1
        &&& self.data_var.spi@.len() >= 1
        &&& self.data_var.is_on_ground@.len() >= 1
    }
}

spec fn unique_ids(s: Seq<PlaneDataSet>) -> bool {
    forall|i: int, j: int|
        0 <= i < j < s.len() ==> (#[trigger] s[i].plane_id@) != (#[trigger] s[j].plane_id@)
}

spec fn track_map(s: Seq<PlaneDataSet>) -> Map<Seq<char>, TrackView>
    decreases s.len(),
{
    if s.len() == 0 {
        Map::empty()
    } else {
        track_map(s.drop_last()).insert(s.last().plane_id@, s.last().track_view())
    }
}

proof fn lemma_track_map_contains(s: Seq<PlaneDataSet>, k: Seq<char>)
    ensures
        track_map(s).contains_key(k) <==> exists|i: int|
            0 <= i < s.len() && (#[trigger] s[i].plane_id@) == k,
    decreases s.len(),
{
    if s.len() > 0 {
        lemma_track_map_contains(s.drop_last(), k);
        if s.last().plane_id@ == k {
            assert(s[s.len() - 1].plane_id@ == k);
        } else if track_map(s).contains_key(k) {
            let i = choose|i: int|
                0 <= i < s.drop_last().len() && (#[trigger] s.drop_last()[i].plane_id@) == k;
            assert(s[i].plane_id@ == k);
        } else if exists|i: int| 0 <= i < s.len() && (#[trigger] s[i].plane_id@) == k {
            let i = choose|i: int| 0 <= i < s.len() && (#[trigger] s[i].plane_id@) == k;
            assert(i < s.len() - 1);
            assert(s.drop_last()[i].plane_id@ == k);
        }
    }
}

proof fn lemma_track_map_index(s: Seq<PlaneDataSet>, i: int)
    requires
        unique_ids(s),
        0 <= i < s.len(),
    ensures
        track_map(s).contains_key(s[i].plane_id@),
        track_map(s)[s[i].plane_id@] == s[i].track_view(),
    decreases s.len(),
{
    if i < s.len() - 1 {
        assert(unique_ids(s.drop_last())) by {
            assert(forall|a: int, b: int|
                0 <= a < b < s.drop_last().len() ==> s.drop_last()[a] == s[a] && s.drop_last()[b]
                    == s[b]);
        }
        lemma_track_map_index(s.drop_last(), i);
        assert(s.drop_last()[i] == s[i]);
        assert(s[i].plane_id@ != s.last().plane_id@);
    }
}

proof fn lemma_track_map_update(s: Seq<PlaneDataSet>, i: int, e: PlaneDataSet)
    requires
        unique_ids(s),
        0 <= i < s.len(),
        e.plane_id@ == s[i].plane_id@,
    ensures
        track_map(s.update(i, e)) == track_map(s).insert(e.plane_id@, e.track_view()),
    decreases s.len(),
{
    let s2 = s.update(i, e);
    if i == s.len() - 1 {
        assert(s2.drop_last() =~= s.drop_last());
        assert(s2.last() == e);
        assert(track_map(s2) =~= track_map(s).insert(e.plane_id@, e.track_view()));
    } else {
        assert(unique_ids(s.drop_last())) by {
            assert(forall|a: int, b: int|
                0 <= a < b < s.drop_last().len() ==> s.drop_last()[a] == s[a] && s.drop_last()[b]
                    == s[b]);
        }
        assert(s.drop_last()[i] == s[i]);
        lemma_track_map_update(s.drop_last(), i, e);
        assert(s2.drop_last() =~= s.drop_last().update(i, e));
        assert(s2.last() == s.last());
        assert(e.plane_id@ != s.last().plane_id@);
        assert(track_map(s2) =~= track_map(s).insert(e.plane_id@, e.track_view()));
    }
}

proof fn lemma_track_map_push(s: Seq<PlaneDataSet>, e: PlaneDataSet)
    ensures
        track_map(s.push(e)) == track_map(s).insert(e.plane_id@, e.track_view()),
{
    assert(s.push(e).drop_last() =~= s);
    assert(s.push(e).last() == e);
}

proof fn lemma_track_map_remove(s: Seq<PlaneDataSet>, i: int)
    requires
        unique_ids(s),
        0 <= i < s.len(),
    ensures
        track_map(s.remove(i)) == track_map(s).remove(s[i].plane_id@),
    decreases s.len(),
{
    let s2 = s.remove(i);
    if i == s.len() - 1 {
        assert(s2 =~= s.drop_last());
        lemma_track_map_contains(s.drop_last(), s[i].plane_id@);
        assert(forall|j: int|
            0 <= j < s.drop_last().len() ==> (#[trigger] s.drop_last()[j]) == s[j]);
        assert(!track_map(s.drop_last()).contains_key(s[i].plane_id@));
        assert(track_map(s2) =~= track_map(s).remove(s[i].plane_id@));
    } else {
        assert(unique_ids(s.drop_last())) by {
            assert(forall|a: int, b: int|
                0 <= a < b < s.drop_last().len() ==> s.drop_last()[a] == s[a] && s.drop_last()[b]
                    == s[b]);
        }
        assert(s.drop_last()[i] == s[i]);
        lemma_track_map_remove(s.drop_last(), i);
        assert(s2.drop_last() =~= s.drop_last().remove(i));
        assert(s2.last() == s.last());
        assert(s[i].plane_id@ != s.last().plane_id@);
        assert(track_map(s2) =~= track_map(s).remove(s[i].plane_id@));
    }
}

/// The shared aircraft table, plus the counter of rejected lines that
/// makes silent drops observable.
pub struct SharedDataDb {
    plane_db: Vec<PlaneDataSet>,
    rejected_messages: u64,
}

impl View for SharedDataDb {
    type V = Map<Seq<char>, TrackView>;

    closed spec fn view(&self) -> Map<Seq<char>, TrackView> {
        track_map(self.plane_db@)
    }
}

impl SharedDataDb {
    /// Well-formedness: addresses are unique, and every per-field
    /// sequence of every track was seeded, so tail reads are meaningful.
    pub closed spec fn wf(self) -> bool {
        &&& unique_ids(self.plane_db@)
        &&& forall|i: int|
            0 <= i < self.plane_db@.len() ==> (#[trigger] self.plane_db@[i]).wf()
    }

    /// How many lines were handed in and rejected by the decoder.
    pub closed spec fn rejected(self) -> u64 {
        self.rejected_messages
    }

    pub fn new() -> (db: SharedDataDb)
        ensures
            db.wf(),
            db@ == Map::<Seq<char>, TrackView>::empty(),
            db.rejected() == 0,
    {
        let db = SharedDataDb { plane_db: Vec::new(), rejected_messages: 0 };
        proof {
            assert(db@ =~= Map::<Seq<char>, TrackView>::empty());
        }
        db
    }

    fn find_index(&self, id: &String) -> (r: Option<usize>)
        ensures
            match r {
                Some(i) => i < self.plane_db@.len() && self.plane_db@[i as int].plane_id@ == id@,
                None => forall|j: int|
                    0 <= j < self.plane_db@.len() ==> (#[trigger] self.plane_db@[j].plane_id@)
                        != id@,
            },
    {
        let n = self.plane_db.len();
        let mut i: usize = 0;
        while i < n
            invariant
                0 <= i <= n == self.plane_db@.len(),
                forall|j: int| 0 <= j < i ==> (#[trigger] self.plane_db@[j].plane_id@) != id@,
            decreases n - i,
        {
            if self.plane_db[i].plane_id == *id {
                return Some(i);
            }
            i = i + 1;
        }
        None
    }

    /// Records one decoded message: creates the track when the address is
    /// new, otherwise appends to it and resets its liveness counter.
    pub fn apply_message(&mut self, msg: &SbsMessage)
        requires
            old(self).wf(),
        ensures
            final(self).wf(),
            final(self)@ == spec_update(old(self)@, msg@),
            final(self).rejected() == old(self).rejected(),
    {
        let ghost m0 = self@;
        match self.find_index(&msg.hex_ident) {
            Some(i) => {
                proof {
                    lemma_track_map_contains(self.plane_db@, msg.hex_ident@);
                    lemma_track_map_index(self.plane_db@, i as int);
                }
                let ghost s0 = self.plane_db@;
                let ghost t0 = self.plane_db@[i as int].track_view();
                let mut e = self.plane_db.remove(i);
                e.last_seen = 0;
                e.data_var.message_type.push(msg.message_type.clone());
                e.data_var.transmission_type.push(msg.transmission_type);
                e.data_var.generated_date.push(msg.generated_date);
                e.data_var.generated_time.push(msg.generated_time);
                e.data_var.logged_date.push(msg.logged_date);
                e.data_var.logged_time.push(msg.logged_time);
                if msg.transmission_type == 3 {
                    e.data_var.latitude.push(msg.latitude);
                    e.data_var.longitude.push(msg.longitude);
                    e.data_var.altitude.push(msg.altitude);
                }
                if msg.transmission_type == 4 {
                    e.data_var.ground_speed.push(msg.ground_speed);
                    e.data_var.track.push(msg.track);
                }
                if msg.transmission_type == 5 {
                    if let Some(cs) = &msg.call_sign {
                        if cs.unicode_len() > 0 {
                            e.data_const.call_sign = Some(cs.clone());
                        }
                    }
                }
                if msg.transmission_type == 6 {
                    if msg.squawk.is_some() {
                        e.data_var.squawk.push(msg.squawk);
                    }
                }
                proof {
                    assert(e.track_view() =~= apply_update(t0, msg@));
                }
                self.plane_db.insert(i, e);
                proof {
                    assert(self.plane_db@ =~= s0.update(i as int, self.plane_db@[i as int]));
                    lemma_track_map_update(s0, i as int, self.plane_db@[i as int]);
                    assert(self@ =~= spec_update(m0, msg@));
                }
            },
            None => {
                proof {
                    lemma_track_map_contains(self.plane_db@, msg.hex_ident@);
                }
                let session_id = clone_opt_string(&msg.session_id);
                let aircraft_id = clone_opt_string(&msg.aircraft_id);
                let flight_id = clone_opt_string(&msg.flight_id);
                let call_sign = clone_opt_string(&msg.call_sign);
                let e = PlaneDataSet {
                    plane_id: msg.hex_ident.clone(),
                    last_seen: 0,
                    data_const: PlaneDataConst {
                        session_id,
                        aircraft_id,
                        hex_ident: msg.hex_ident.clone(),
                        flight_id,
                        call_sign,
                    },
                    data_var: PlaneDataVar {
                        message_type: vec_one(msg.message_type.clone()),
                        transmission_type: vec_one(msg.transmission_type),
                        generated_date: vec_one(msg.generated_date),
                        generated_time: vec_one(msg.generated_time),
                        logged_date: vec_one(msg.logged_date),
                        logged_time: vec_one(msg.logged_time),
                        altitude: vec_one(msg.altitude),
                        ground_speed: vec_one(msg.ground_speed),
                        track: vec_one(msg.track),
                        latitude: vec_one(msg.latitude),
                        longitude: vec_one(msg.longitude),
                        vertical_rate: vec_one(msg.vertical_rate),
                        squawk: vec_one(msg.squawk),
                        alert: vec_one(msg.alert),
                        emergency: vec_one(msg.emergency),
                        spi: vec_one(msg.spi),
                        is_on_ground: vec_one(msg.is_on_ground),
                    },
                };
                proof {
                    assert(e.track_view() =~= seed_track(msg@));
                }
                let ghost s0 = self.plane_db@;
                self.plane_db.push(e);
                proof {
                    lemma_track_map_push(s0, self.plane_db@.last());
                    assert(self@ =~= spec_update(m0, msg@));
                }
            },
        }
    }

    /// Records one message given as its fields, in the wire order of the
    /// decoder's output.
    #[allow(clippy::too_many_arguments)]
    pub fn update_data(
        &mut self,
        session_id: Option<String>,
        aircraft_id: Option<String>,
        hex_ident: String,
        flight_id: Option<String>,
        call_sign: Option<String>,
        message_type: String,
        transmission_type: usize,
        generated_date: SbsDate,
        generated_time: SbsTime,
        logged_date: SbsDate,
        logged_time: SbsTime,
        altitude: Option<i64>,
        ground_speed: Option<i64>,
        track: Option<i64>,
        latitude: Option<i64>,
        longitude: Option<i64>,
        vertical_rate: Option<i64>,
        squawk: Option<i32>,
        alert: Option<bool>,
        emergency: Option<bool>,
        spi: Option<bool>,
        is_on_ground: Option<bool>,
    )
        requires
            old(self).wf(),
        ensures
            final(self).wf(),
            final(self)@ == spec_update(
                old(self)@,
                SbsMessageView {
                    message_type: message_type@,
                    transmission_type: transmission_type,
                    session_id: session_id.deep_view(),
                    aircraft_id: aircraft_id.deep_view(),
                    hex_ident: hex_ident@,
                    flight_id: flight_id.deep_view(),
                    generated_date: generated_date,
                    generated_time: generated_time,
                    logged_date: logged_date,
                    logged_time: logged_time,
                    call_sign: call_sign.deep_view(),
                    altitude: altitude,
                    ground_speed: ground_speed,
                    track: track,
                    latitude: latitude,
                    longitude: longitude,
                    vertical_rate: vertical_rate,
                    squawk: squawk,
                    alert: alert,
                    emergency: emergency,
                    spi: spi,
                    is_on_ground: is_on_ground,
                },
            ),
            final(self).rejected() == old(self).rejected(),
    {
        let msg = SbsMessage::new(
            message_type,
            transmission_type,
            session_id,
            aircraft_id,
            hex_ident,
            flight_id,
            generated_date,
            generated_time,
            logged_date,
            logged_time,
            call_sign,
            altitude,
            ground_speed,
            track,
            latitude,
            longitude,
            vertical_rate,
            squawk,
            alert,
            emergency,
            spi,
            is_on_ground,
        );
        self.apply_message(&msg);
    }

    /// Counts one rejected line, saturating at the counter's top.
    pub fn note_rejected(&mut self)
        ensures
            final(self)@ == old(self)@,
            final(self).wf() == old(self).wf(),
            final(self).rejected() == if old(self).rejected() == u64::MAX {
                u64::MAX
            } else {
                (old(self).rejected() + 1) as u64
            },
    {
        if self.rejected_messages < u64::MAX {
            self.rejected_messages = self.rejected_messages + 1;
        }
    }

    pub fn get_rejected_count(&self) -> (r: u64)
        ensures
            r == self.rejected(),
    {
        self.rejected_messages
    }

    /// All currently tracked addresses; the order carries no meaning.
    pub fn get_planes_id(&self) -> (r: Vec<String>)
        requires
            self.wf(),
        ensures
            r.deep_view().no_duplicates(),
            forall|k: Seq<char>| self@.contains_key(k) <==> r.deep_view().contains(k),
    {
        let n = self.plane_db.len();
        let mut r: Vec<String> = Vec::new();
        let mut i: usize = 0;
        while i < n
            invariant
                0 <= i <= n == self.plane_db@.len(),
                r.deep_view().len() == i,
                forall|j: int| 0 <= j < i ==> r.deep_view()[j] == self.plane_db@[j].plane_id@,
            decreases n - i,
        {
            let ghost prev = r.deep_view();
            r.push(self.plane_db[i].plane_id.clone());
            proof {
                assert(r.deep_view() =~~= prev.push(self.plane_db@[i as int].plane_id@));
            }
            i = i + 1;
        }
        proof {
            assert forall|k: Seq<char>| self@.contains_key(k) <==> r.deep_view().contains(k) by {
                lemma_track_map_contains(self.plane_db@, k);
                if r.deep_view().contains(k) {
                    let j = choose|j: int|
                        0 <= j < r.deep_view().len() && r.deep_view()[j] == k;
                    assert(self.plane_db@[j].plane_id@ == k);
                }
                if self@.contains_key(k) {
                    let w = choose|w: int|
                        0 <= w < self.plane_db@.len() && (#[trigger] self.plane_db@[w].plane_id@)
                            == k;
                    assert(r.deep_view()[w] == k);
                }
            }
        }
        r
    }

    /// The liveness counter of a track, absent for an unknown address.
    pub fn get_last_seen(&self, plane_id: String) -> (r: Option<usize>)
        requires
            self.wf(),
        ensures
            r == spec_last_seen(self@, plane_id@),
    {
        proof {
            lemma_track_map_contains(self.plane_db@, plane_id@);
        }
        match self.find_index(&plane_id) {
            Some(i) => {
                proof {
                    lemma_track_map_index(self.plane_db@, i as int);
                }
                Some(self.plane_db[i].last_seen)
            },
            None => None,
        }
    }

    /// The tail of a track's squawk sequence, absent for an unknown
    /// address.
    pub fn get_squawk(&self, plane_id: String) -> (r: Option<i32>)
        requires
            self.wf(),
        ensures
            r == spec_squawk(self@, plane_id@),
    {
        proof {
            lemma_track_map_contains(self.plane_db@, plane_id@);
        }
        match self.find_index(&plane_id) {
            Some(i) => {
                proof {
                    lemma_track_map_index(self.plane_db@, i as int);
                }
                let len = self.plane_db[i].data_var.squawk.len();
                self.plane_db[i].data_var.squawk[len - 1]
            },
            None => None,
        }
    }

    /// The tail of a track's ground-speed sequence, absent for an unknown
    /// address.
    pub fn get_ground_speed(&self, plane_id: String) -> (r: Option<i64>)
        requires
            self.wf(),
        ensures
            r == spec_ground_speed(self@, plane_id@),
    {
        proof {
            lemma_track_map_contains(self.plane_db@, plane_id@);
        }
        match self.find_index(&plane_id) {
            Some(i) => {
                proof {
                    lemma_track_map_index(self.plane_db@, i as int);
                }
                let len = self.plane_db[i].data_var.ground_speed.len();
                self.plane_db[i].data_var.ground_speed[len - 1]
            },
            None => None,
        }
    }

    /// The tail of a track's track-angle sequence, absent for an unknown
    /// address.
    pub fn get_track(&self, plane_id: String) -> (r: Option<i64>)
        requires
            self.wf(),
        ensures
            r == spec_track_angle(self@, plane_id@),
    {
        proof {
            lemma_track_map_contains(self.plane_db@, plane_id@);
        }
        match self.find_index(&plane_id) {
            Some(i) => {
                proof {
                    lemma_track_map_index(self.plane_db@, i as int);
                }
                let len = self.plane_db[i].data_var.track.len();
                self.plane_db[i].data_var.track[len - 1]
            },
            None => None,
        }
    }

    /// The latest position of a track as latitude, longitude and
    /// altitude, only when all three tails are present.
    pub fn get_latest_pos(&self, plane_id: String) -> (r: Option<(i64, i64, i64)>)
        requires
            self.wf(),
        ensures
            r == spec_latest_pos(self@, plane_id@),
    {
        proof {
            lemma_track_map_contains(self.plane_db@, plane_id@);
        }
        match self.find_index(&plane_id) {
            Some(i) => {
                proof {
                    lemma_track_map_index(self.plane_db@, i as int);
                }
                let lat_len = self.plane_db[i].data_var.latitude.len();
                let lon_len = self.plane_db[i].data_var.longitude.len();
                let alt_len = self.plane_db[i].data_var.altitude.len();
                let lat = self.plane_db[i].data_var.latitude[lat_len - 1];
                let lon = self.plane_db[i].data_var.longitude[lon_len - 1];
                let alt = self.plane_db[i].data_var.altitude[alt_len - 1];
                match (lat, lon, alt) {
                    (Some(la), Some(lo), Some(al)) => Some((la, lo, al)),
                    _ => None,
                }
            },
            None => None,
        }
    }

    /// The last known non-empty call sign, or `-` when none ever arrived
    /// or the address is unknown.
    pub fn get_call_sign(&self, plane_id: String) -> (r: String)
        requires
            self.wf(),
        ensures
            r@ == spec_call_sign(self@, plane_id@),
    {
        proof {
            lemma_track_map_contains(self.plane_db@, plane_id@);
        }
        match self.find_index(&plane_id) {
            Some(i) => {
                proof {
                    lemma_track_map_index(self.plane_db@, i as int);
                }
                match &self.plane_db[i].data_const.call_sign {
                    Some(cs) => {
                        if cs.unicode_len() > 0 {
                            cs.clone()
                        } else {
                            unknown_call_sign()
                        }
                    },
                    None => unknown_call_sign(),
                }
            },
            None => unknown_call_sign(),
        }
    }

    /// Removes a track outright; a no-op for an unknown address.
    pub fn remove_plane(&mut self, plane_id: String)
        requires
            old(self).wf(),
        ensures
            final(self).wf(),
            final(self)@ == old(self)@.remove(plane_id@),
            final(self).rejected() == old(self).rejected(),
    {
        let ghost s0 = self.plane_db@;
        proof {
            lemma_track_map_contains(s0, plane_id@);
        }
        match self.find_index(&plane_id) {
            Some(i) => {
                proof {
                    lemma_track_map_remove(s0, i as int);
                    lemma_wf_remove(s0, i as int);
                }
                self.plane_db.remove(i);
            },
            None => {
                proof {
                    assert(self@ =~= old(self)@.remove(plane_id@));
                }
            },
        }
    }

    /// Ages every track by `delta` seconds, saturating at the counter's
    /// top.
    pub fn increase_last_seen(&mut self, delta: usize)
        requires
            old(self).wf(),
        ensures
            final(self).wf(),
            final(self)@ == age_map(old(self)@, delta),
            final(self).rejected() == old(self).rejected(),
    {
        let ghost s0 = self.plane_db@;
        let n = self.plane_db.len();
        let mut i: usize = 0;
        while i < n
            invariant
                0 <= i <= n == self.plane_db@.len(),
                s0.len() == n,
                unique_ids(s0),
                forall|j: int| 0 <= j < n ==> (#[trigger] s0[j]).wf(),
                forall|j: int| i <= j < n ==> self.plane_db@[j] == s0[j],
                forall|j: int|
                    0 <= j < i ==> (#[trigger] self.plane_db@[j]).plane_id@ == s0[j].plane_id@
                        && self.plane_db@[j].track_view() == age_track(s0[j].track_view(), delta)
                        && self.plane_db@[j].wf(),
                self.rejected() == old(self).rejected(),
            decreases n - i,
        {
            let ls: usize = self.plane_db[i].last_seen;
            let nls: usize = if ls > usize::MAX - delta {
                usize::MAX
            } else {
                ls + delta
            };
            let ghost before = self.plane_db@;
            let mut e = self.plane_db.remove(i);
            e.last_seen = nls;
            proof {
                assert(before[i as int].wf());
                assert(e.wf());
            }
            self.plane_db.insert(i, e);
            proof {
                assert(self.plane_db@ =~= before.update(i as int, self.plane_db@[i as int]));
                assert(self.plane_db@[i as int].track_view() =~= age_track(
                    s0[i as int].track_view(),
                    delta,
                ));
                assert(self.plane_db@[i as int].plane_id@ == s0[i as int].plane_id@);
                assert(self.plane_db@[i as int].wf());
            }
            i = i + 1;
        }
        proof {
            assert forall|a: int, b: int|
                0 <= a < b < self.plane_db@.len() implies (
            #[trigger] self.plane_db@[a].plane_id@) != (#[trigger] self.plane_db@[b].plane_id@) by {
                assert(self.plane_db@[a].plane_id@ == s0[a].plane_id@);
                assert(self.plane_db@[b].plane_id@ == s0[b].plane_id@);
            }
            lemma_track_map_age(s0, self.plane_db@, delta);
        }
    }

    /// Removes every track silent for `threshold` seconds or more.
    pub fn evict(&mut self, threshold: usize)
        requires
            old(self).wf(),
        ensures
            final(self).wf(),
            final(self)@ == evict_map(old(self)@, threshold),
            final(self).rejected() == old(self).rejected(),
    {
        let ghost m0 = self@;
        let mut i: usize = 0;
        while i < self.plane_db.len()
            invariant
                0 <= i <= self.plane_db@.len(),
                self.wf(),
                forall|j: int| 0 <= j < i ==> (#[trigger] self.plane_db@[j]).last_seen < threshold,
                evict_map(self@, threshold) == evict_map(m0, threshold),
                self.rejected() == old(self).rejected(),
            decreases self.plane_db@.len() - i,
        {
            if self.plane_db[i].last_seen >= threshold {
                let ghost s1 = self.plane_db@;
                let ghost k = self.plane_db@[i as int].plane_id@;
                proof {
                    lemma_track_map_index(s1, i as int);
                    lemma_track_map_remove(s1, i as int);
                    lemma_wf_remove(s1, i as int);
                }
                self.plane_db.remove(i);
                proof {
                    assert(forall|j: int|
                        0 <= j < i ==> (#[trigger] self.plane_db@[j]) == s1[j]);
                    assert(evict_map(track_map(s1).remove(k), threshold) =~= evict_map(
                        track_map(s1),
                        threshold,
                    ));
                }
            } else {
                i = i + 1;
            }
        }
        proof {
            assert(evict_map(self@, threshold) =~= self@) by {
                assert forall|k: Seq<char>| self@.contains_key(k) implies self@[k].last_seen
                    < threshold by {
                    lemma_track_map_contains(self.plane_db@, k);
                    let j = choose|j: int|
                        0 <= j < self.plane_db@.len() && (#[trigger] self.plane_db@[j].plane_id@)
                            == k;
                    lemma_track_map_index(self.plane_db@, j);
                }
            }
        }
    }

    /// One tick of the eviction scheduler: age everything by the tick
    /// period, then drop what has been silent past the threshold.
    pub fn eviction_tick(&mut self)
        requires
            old(self).wf(),
        ensures
            final(self).wf(),
            final(self)@ == evict_map(
                age_map(old(self)@, EVICTION_TICK_SECS),
                EVICTION_THRESHOLD_SECS,
            ),
            final(self).rejected() == old(self).rejected(),
    {
        self.increase_last_seen(EVICTION_TICK_SECS);
        self.evict(EVICTION_THRESHOLD_SECS);
    }
}

/// Selector for `get_latest`: one of the per-track variable sequences.
#[derive(Clone, Copy, PartialEq, Eq, Debug)]
pub enum TrackField {
    MessageType,
    TransmissionType,
    GeneratedDate,
    GeneratedTime,
    LoggedDate,
    LoggedTime,
    Altitude,
    GroundSpeed,
    TrackAngle,
    Latitude,
    Longitude,
    VerticalRate,
    Squawk,
    Alert,
    Emergency,
    Spi,
    IsOnGround,
}

/// The tail of one variable sequence, as typed as the field itself.
#[derive(Debug, PartialEq)]
pub enum FieldValue {
    Text(String),
    Number(usize),
    Date(SbsDate),
    Time(SbsTime),
    Fixed(Option<i64>),
    SquawkCode(Option<i32>),
    Flag(Option<bool>),
}

#[verifier::ext_equal]
pub enum FieldValueView {
    Text(Seq<char>),
    Number(usize),
    Date(SbsDate),
    Time(SbsTime),
    Fixed(Option<i64>),
    SquawkCode(Option<i32>),
    Flag(Option<bool>),
}

impl View for FieldValue {
    type V = FieldValueView;

    open spec fn view(&self) -> FieldValueView {
        match self {
            FieldValue::Text(s) => FieldValueView::Text(s@),
            FieldValue::Number(n) => FieldValueView::Number(*n),
            FieldValue::Date(d) => FieldValueView::Date(*d),
            FieldValue::Time(t) => FieldValueView::Time(*t),
            FieldValue::Fixed(v) => FieldValueView::Fixed(*v),
            FieldValue::SquawkCode(v) => FieldValueView::SquawkCode(*v),
            FieldValue::Flag(v) => FieldValueView::Flag(*v),
        }
    }
}

/// The tail of the chosen variable sequence of the chosen track, absent
/// for an unknown address.
pub open spec fn spec_get_latest(
    m: Map<Seq<char>, TrackView>,
    field: TrackField,
    id: Seq<char>,
) -> Option<FieldValueView> {
    if !m.contains_key(id) {
        None
    } else {
        let t = m[id];
        match field {
            TrackField::MessageType => Some(FieldValueView::Text(t.message_type.last())),
            TrackField::TransmissionType => Some(
                FieldValueView::Number(t.transmission_type.last()),
            ),
            TrackField::GeneratedDate => Some(FieldValueView::Date(t.generated_date.last())),
            TrackField::GeneratedTime => Some(FieldValueView::Time(t.generated_time.last())),
            TrackField::LoggedDate => Some(FieldValueView::Date(t.logged_date.last())),
            TrackField::LoggedTime => Some(FieldValueView::Time(t.logged_time.last())),
            TrackField::Altitude => Some(FieldValueView::Fixed(t.altitude.last())),
            TrackField::GroundSpeed => Some(FieldValueView::Fixed(t.ground_speed.last())),
            TrackField::TrackAngle => Some(FieldValueView::Fixed(t.track.last())),
            TrackField::Latitude => Some(FieldValueView::Fixed(t.latitude.last())),
            TrackField::Longitude => Some(FieldValueView::Fixed(t.longitude.last())),
            TrackField::VerticalRate => Some(FieldValueView::Fixed(t.vertical_rate.last())),
            TrackField::Squawk => Some(FieldValueView::SquawkCode(t.squawk.last())),
            TrackField::Alert => Some(FieldValueView::Flag(t.alert.last())),
            TrackField::Emergency => Some(FieldValueView::Flag(t.emergency.last())),
            TrackField::Spi => Some(FieldValueView::Flag(t.spi.last())),
            TrackField::IsOnGround => Some(FieldValueView::Flag(t.is_on_ground.last())),
        }
    }
}

impl SharedDataDb {
    /// The tail of any single variable sequence of a track; sequences
    /// grow independently, so tails of different fields need not stem
    /// from the same message.
    pub fn get_latest(&self, field: TrackField, plane_id: String) -> (r: Option<FieldValue>)
        requires
            self.wf(),
        ensures
            match (r, spec_get_latest(self@, field, plane_id@)) {
                (Some(v), Some(sv)) => v@ == sv,
                (None, None) => true,
                _ => false,
            },
    {
        proof {
            lemma_track_map_contains(self.plane_db@, plane_id@);
        }
        match self.find_index(&plane_id) {
            Some(i) => {
                proof {
                    lemma_track_map_index(self.plane_db@, i as int);
                }
                let v = &self.plane_db[i].data_var;
                match field {
                    TrackField::MessageType => {
                        let len = v.message_type.len();
                        proof {
                            assert(self.plane_db@[i as int].track_view().message_type.last()
                                == v.message_type.deep_view()[len - 1]);
                        }
                        Some(FieldValue::Text(v.message_type[len - 1].clone()))
                    },
                    TrackField::TransmissionType => {
                        let len = v.transmission_type.len();
                        Some(FieldValue::Number(v.transmission_type[len - 1]))
                    },
                    TrackField::GeneratedDate => {
                        let len = v.generated_date.len();
                        Some(FieldValue::Date(v.generated_date[len - 1]))
                    },
                    TrackField::GeneratedTime => {
                        let len = v.generated_time.len();
                        Some(FieldValue::Time(v.generated_time[len - 1]))
                    },
                    TrackField::LoggedDate => {
                        let len = v.logged_date.len();
                        Some(FieldValue::Date(v.logged_date[len - 1]))
                    },
                    TrackField::LoggedTime => {
                        let len = v.logged_time.len();
                        Some(FieldValue::Time(v.logged_time[len - 1]))
                    },
                    TrackField::Altitude => {
                        let len = v.altitude.len();
                        Some(FieldValue::Fixed(v.altitude[len - 1]))
                    },
                    TrackField::GroundSpeed => {
                        let len = v.ground_speed.len();
                        Some(FieldValue::Fixed(v.ground_speed[len - 1]))
                    },
                    TrackField::TrackAngle => {
                        let len = v.track.len();
                        Some(FieldValue::Fixed(v.track[len - 1]))
                    },
                    TrackField::Latitude => {
                        let len = v.latitude.len();
                        Some(FieldValue::Fixed(v.latitude[len - 1]))
                    },
                    TrackField::Longitude => {
                        let len = v.longitude.len();
                        Some(FieldValue::Fixed(v.longitude[len - 1]))
                    },
                    TrackField::VerticalRate => {
                        let len = v.vertical_rate.len();
                        Some(FieldValue::Fixed(v.vertical_rate[len - 1]))
                    },
                    TrackField::Squawk => {
                        let len = v.squawk.len();
                        Some(FieldValue::SquawkCode(v.squawk[len - 1]))
                    },
                    TrackField::Alert => {
                        let len = v.alert.len();
                        Some(FieldValue::Flag(v.alert[len - 1]))
                    },
                    TrackField::Emergency => {
                        let len = v.emergency.len();
                        Some(FieldValue::Flag(v.emergency[len - 1]))
                    },
                    TrackField::Spi => {
                        let len = v.spi.len();
                        Some(FieldValue::Flag(v.spi[len - 1]))
                    },
                    TrackField::IsOnGround => {
                        let len = v.is_on_ground.len();
                        Some(FieldValue::Flag(v.is_on_ground[len - 1]))
                    },
                }
            },
            None => None,
        }
    }
}

/// The placeholder call sign for tracks that never reported one.
fn unknown_call_sign() -> (r: String)
    ensures
        r@ == "-"@,
{
    "-".to_owned()
}

/// Dropping one element keeps the addresses unique and the elements
/// well-formed.
proof fn lemma_wf_remove(s: Seq<PlaneDataSet>, i: int)
    requires
        unique_ids(s),
        forall|j: int| 0 <= j < s.len() ==> (#[trigger] s[j]).wf(),
        0 <= i < s.len(),
    ensures
        unique_ids(s.remove(i)),
        forall|j: int| 0 <= j < s.remove(i).len() ==> (#[trigger] s.remove(i)[j]).wf(),
{
    let s2 = s.remove(i);
    assert forall|a: int, b: int|
        0 <= a < b < s2.len() implies (#[trigger] s2[a].plane_id@) != (
    #[trigger] s2[b].plane_id@) by {
        if b < i {
        } else if a < i {
            assert(s2[b] == s[b + 1]);
        } else {
            assert(s2[a] == s[a + 1]);
            assert(s2[b] == s[b + 1]);
        }
    }
    assert forall|j: int| 0 <= j < s2.len() implies (#[trigger] s2[j]).wf() by {
        if j >= i {
            assert(s2[j] == s[j + 1]);
        }
    }
}

proof fn lemma_track_map_age(s: Seq<PlaneDataSet>, s2: Seq<PlaneDataSet>, delta: usize)
    requires
        s.len() == s2.len(),
        forall|j: int|
            0 <= j < s.len() ==> (#[trigger] s2[j]).plane_id@ == s[j].plane_id@
                && s2[j].track_view() == age_track(s[j].track_view(), delta),
    ensures
        track_map(s2) == age_map(track_map(s), delta),
    decreases s.len(),
{
    if s.len() == 0 {
        assert(track_map(s2) =~= age_map(track_map(s), delta));
    } else {
        assert(forall|j: int|
            0 <= j < s.drop_last().len() ==> (#[trigger] s.drop_last()[j]) == s[j]);
        assert(forall|j: int|
            0 <= j < s2.drop_last().len() ==> (#[trigger] s2.drop_last()[j]) == s2[j]);
        lemma_track_map_age(s.drop_last(), s2.drop_last(), delta);
        assert(track_map(s2) =~= age_map(track_map(s), delta));
    }
}

/// A vector holding exactly one value.
fn vec_one<T>(x: T) -> (v: Vec<T>)
    ensures
        v@ == seq![x],
{
    let mut v: Vec<T> = Vec::new();
    v.push(x);
    proof {
        assert(v@ =~= seq![x]);
    }
    v
}

fn clone_opt_string(x: &Option<String>) -> (r: Option<String>)
    ensures
        r.deep_view() == x.deep_view(),
{
    match x {
        Some(s) => Some(s.clone()),
        None => None,
    }
}

} // verus!
