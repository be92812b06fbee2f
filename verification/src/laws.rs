//! Library-wide guarantees, stated and proved over the same spec
//! functions that the executable contracts use.

use vstd::prelude::*;

use crate::decode::{spec_decode, split_commas};
use crate::sbs::SbsMessageView;
use crate::store::{
    age_map, apply_update, evict_map, nonempty_call_sign, spec_call_sign, spec_update, TrackView,
};

verus! {

/// Decoding is deterministic: the same line always yields the same
/// update request, because the decoded form is a function of the line's
/// characters alone.
pub proof fn lemma_decode_deterministic(a: Seq<char>, b: Seq<char>)
    requires
        a == b,
    ensures
        spec_decode(a) == spec_decode(b),
{
}

/// A line that does not split into exactly 22 comma-separated fields is
/// always rejected; by the ingestion contract a rejected line leaves
/// every track unchanged.
pub proof fn lemma_bad_field_count_rejected(line: Seq<char>)
    requires
        split_commas(line).len() != 22,
    ensures
        spec_decode(line) is None,
{
}

/// An update whose call-sign field is empty or absent never changes a
/// track's stored call sign.
pub proof fn lemma_call_sign_preserved(t: TrackView, m: SbsMessageView)
    requires
        !nonempty_call_sign(m.call_sign),
    ensures
        apply_update(t, m).call_sign == t.call_sign,
{
}

/// Once a track has a non-empty call sign, every later update leaves it
/// non-empty: the last known call sign is never blanked.
pub proof fn lemma_call_sign_stays_known(t: TrackView, m: SbsMessageView)
    requires
        nonempty_call_sign(t.call_sign),
    ensures
        nonempty_call_sign(apply_update(t, m).call_sign),
{
}

/// At table level: an update whose call-sign field is empty or absent
/// leaves what `get_call_sign` reports for that address unchanged.
pub proof fn lemma_call_sign_not_blanked(db: Map<Seq<char>, TrackView>, msg: SbsMessageView)
    requires
        db.contains_key(msg.hex_ident),
        !nonempty_call_sign(msg.call_sign),
    ensures
        spec_call_sign(spec_update(db, msg), msg.hex_ident) == spec_call_sign(
            db,
            msg.hex_ident,
        ),
{
}

/// Aging by ten, six times over, then evicting at sixty removes every
/// track that received no update in that window: after the ticks its
/// silence is at least sixty seconds.
pub proof fn lemma_silent_track_evicted(db: Map<Seq<char>, TrackView>, id: Seq<char>)
    ensures
        !evict_map(
            age_map(age_map(age_map(age_map(age_map(age_map(db, 10), 10), 10), 10), 10), 10),
            60,
        ).contains_key(id),
{
    let a = age_map(db, 10);
    let b = age_map(a, 10);
    let c = age_map(b, 10);
    let d = age_map(c, 10);
    let e = age_map(d, 10);
    let f = age_map(e, 10);
    if f.contains_key(id) {
        assert(f[id].last_seen >= 60);
    }
}

/// An update between two aging passes resets the track's silence to
/// zero, so the track survives an eviction pass that follows less than
/// one threshold later.
pub proof fn lemma_update_revives(
    db: Map<Seq<char>, TrackView>,
    msg: SbsMessageView,
    d1: usize,
    d2: usize,
    threshold: usize,
)
    requires
        d2 < threshold,
    ensures
        spec_update(age_map(db, d1), msg)[msg.hex_ident].last_seen == 0,
        evict_map(age_map(spec_update(age_map(db, d1), msg), d2), threshold).contains_key(
            msg.hex_ident,
        ),
{
    let db1 = age_map(db, d1);
    let db2 = spec_update(db1, msg);
    assert(db2[msg.hex_ident].last_seen == 0);
}

/// An update touches no track but its own: every other address keeps
/// exactly the record it had.
pub proof fn lemma_update_preserves_others(
    db: Map<Seq<char>, TrackView>,
    msg: SbsMessageView,
    k: Seq<char>,
)
    requires
        k != msg.hex_ident,
    ensures
        spec_update(db, msg).contains_key(k) == db.contains_key(k),
        db.contains_key(k) ==> spec_update(db, msg)[k] == db[k],
{
}

/// Updates for two different addresses never lose data, in whichever
/// order the store serializes them: after both, both tracks are present,
/// each exactly as its own update alone would have left it.
pub proof fn lemma_updates_independent(
    db: Map<Seq<char>, TrackView>,
    m1: SbsMessageView,
    m2: SbsMessageView,
)
    requires
        m1.hex_ident != m2.hex_ident,
    ensures
        spec_update(spec_update(db, m1), m2).contains_key(m1.hex_ident),
        spec_update(spec_update(db, m1), m2).contains_key(m2.hex_ident),
        spec_update(spec_update(db, m1), m2)[m1.hex_ident] == spec_update(db, m1)[m1.hex_ident],
        spec_update(spec_update(db, m1), m2)[m2.hex_ident] == spec_update(db, m2)[m2.hex_ident],
{
}

} // verus!
