//! Laws that relate several systems, stated over the model and proved
//! once and for all. The per-system guarantees live on the systems'
//! own contracts; the tick contract itself carries the monotone score
//! and the death latch.

use vstd::prelude::*;

use crate::entity::{gap_hit, reap_keep, resolve_e, Entity};
use crate::model::{
    hits_count, lemma_no_hits, reap_seq, resolve_m, teardown_seq, WorldM,
};

verus! {

/// An obstacle pair scores at most once, however many ticks it overlaps
/// the actor: a resolution pass latches every sensor the overlap report
/// names, so a second pass fed the same report changes neither the
/// score nor any entity.
pub proof fn lemma_gap_scores_at_most_once(
    w: WorldM,
    c1: Seq<u64>,
    c2: Seq<u64>,
    overlaps: Seq<u64>,
)
    ensures
        resolve_m(resolve_m(w, c1, overlaps), c2, overlaps).score == resolve_m(
            w,
            c1,
            overlaps,
        ).score,
        resolve_m(resolve_m(w, c1, overlaps), c2, overlaps).entities == resolve_m(
            w,
            c1,
            overlaps,
        ).entities,
{
    let w1 = resolve_m(w, c1, overlaps);
    let w2 = resolve_m(w1, c2, overlaps);
    assert forall|i: int|
        0 <= i < w1.entities.len() implies !gap_hit(#[trigger] w1.entities[i], overlaps) by {
        assert(w1.entities[i] == resolve_e(w.entities[i], overlaps));
    }
    lemma_no_hits(w1.entities, overlaps);
    assert forall|i: int|
        0 <= i < w1.entities.len() implies #[trigger] w2.entities[i] == w1.entities[i] by {
        assert(w2.entities[i] == resolve_e(w1.entities[i], overlaps));
    }
    assert(w2.entities =~= w1.entities);
}

/// A latched gap sensor stays latched: no resolution pass ever clears
/// an `interacted` flag.
pub proof fn lemma_interacted_latched(w: WorldM, contacts: Seq<u64>, overlaps: Seq<u64>)
    ensures
        forall|i: int|
            0 <= i < w.entities.len() && (#[trigger] w.entities[i]).interacted ==> resolve_m(
                w,
                contacts,
                overlaps,
            ).entities[i].interacted,
{
    let m = resolve_m(w, contacts, overlaps);
    assert forall|i: int|
        0 <= i < w.entities.len() && (#[trigger] w.entities[i]).interacted
            implies m.entities[i].interacted by {
        assert(m.entities[i] == resolve_e(w.entities[i], overlaps));
    }
}

/// The reaper keeps exactly the entities within bounds: a session
/// entity other than the actor survives if and only if it has not
/// scrolled strictly past the despawn bound, and everything else
/// always survives.
pub proof fn lemma_reap_exact(s: Seq<Entity>)
    ensures
        forall|e: Entity| #[trigger] reap_seq(s).contains(e) <==> s.contains(e) && reap_keep(e),
    decreases s.len(),
{
    if s.len() > 0 {
        lemma_reap_exact(s.drop_last());
        let d = s.drop_last();
        let m = reap_seq(s);
        let mm = reap_seq(d);
        assert forall|e: Entity| s.contains(e) && reap_keep(e) implies #[trigger] m.contains(
            e,
        ) by {
            let k = choose|k: int| 0 <= k < s.len() && s[k] == e;
            if k < s.len() - 1 {
                assert(d[k] == e);
                assert(mm.contains(e));
                let j = choose|j: int| 0 <= j < mm.len() && mm[j] == e;
                assert(m[j] == e);
            } else {
                assert(m.last() == e);
            }
        }
        assert forall|e: Entity| #[trigger] m.contains(e) implies s.contains(e) && reap_keep(
            e,
        ) by {
            let i = choose|i: int| 0 <= i < m.len() && m[i] == e;
            if reap_keep(s.last()) && i == m.len() - 1 {
                assert(s[s.len() - 1] == e);
            } else {
                assert(mm[i] == e);
                assert(mm.contains(e));
                let j = choose|j: int| 0 <= j < d.len() && d[j] == e;
                assert(s[j] == e);
            }
        }
    }
}

/// Session teardown is complete and exact: no session-tagged entity
/// survives it, and every entity without the session marker does.
pub proof fn lemma_teardown_complete(s: Seq<Entity>)
    ensures
        forall|i: int|
            0 <= i < teardown_seq(s).len() ==> !(#[trigger] teardown_seq(s)[i]).session,
        forall|e: Entity| s.contains(e) && !e.session ==> #[trigger] teardown_seq(s).contains(e),
    decreases s.len(),
{
    if s.len() > 0 {
        lemma_teardown_complete(s.drop_last());
        let d = s.drop_last();
        let m = teardown_seq(s);
        let mm = teardown_seq(d);
        assert forall|i: int| 0 <= i < m.len() implies !(#[trigger] m[i]).session by {
            if !s.last().session && i == m.len() - 1 {
            } else {
                assert(m[i] == mm[i]);
            }
        }
        assert forall|e: Entity| s.contains(e) && !e.session implies #[trigger] m.contains(e) by {
            let k = choose|k: int| 0 <= k < s.len() && s[k] == e;
            if k < s.len() - 1 {
                assert(d[k] == e);
                assert(mm.contains(e));
                let j = choose|j: int| 0 <= j < mm.len() && mm[j] == e;
                assert(m[j] == e);
            } else {
                assert(m.last() == e);
            }
        }
    }
}

} // verus!
