//! General properties of the registry, stated over the transition
//! predicates that the operations ensure, and proved once for all inputs.

use vstd::prelude::*;
use crate::livestock::{
    created, deleted, health_updated, lemma_retained_alerts_elems, meds_wf, HealthStatus,
    LivestockManager,
};

verus! {

/// Some creation step from `pre` to `post` returned `id`, whatever its
/// arguments and its clock reading were.
pub open spec fn creates(pre: LivestockManager, post: LivestockManager, id: u64) -> bool {
    exists|age: u8, breed: Seq<char>, height: u32, now: u64|
        created(pre, post, age, breed, height, now, id)
}

/// Sequential creations return consecutive ids: starting from a registry
/// whose counter reads 0, the k-th creation returns exactly k, with no
/// gaps and no repeats, whatever else each creation was given.
pub proof fn lemma_sequential_ids(states: Seq<LivestockManager>, ids: Seq<u64>, k: int)
    requires
        states.len() == ids.len() + 1,
        states[0].next_id == 0,
        forall|j: int| 0 <= j < ids.len() ==> creates(states[j], states[j + 1], ids[j]),
        0 <= k < ids.len(),
    ensures
        ids[k] == k,
        states[k + 1].next_id == k + 1,
    decreases k,
{
    if k > 0 {
        lemma_sequential_ids(states, ids, k - 1);
    }
    assert(creates(states[k], states[k + 1], ids[k]));
    let (age, breed, height, now) = choose|age: u8, breed: Seq<char>, height: u32, now: u64|
        #[trigger] created(states[k], states[k + 1], age, breed, height, now, ids[k]);
    assert(created(states[k], states[k + 1], age, breed, height, now, ids[k]));
}

/// Medication ids are assigned 1, 2, 3, ... per animal, in list order,
/// independent of any other animal's medication count.
pub proof fn lemma_medication_ids_sequential(m: LivestockManager, id: u64)
    requires
        m.wf(),
        m.has_animal(id),
    ensures
        forall|i: int|
            0 <= i < m.spec_animal(id).medical_records@.len() ==> (#[trigger] m.spec_animal(
                id,
            ).medical_records@[i]).id == i + 1,
{
    let j = m.index_of(id);
    assert(0 <= j < m.animals@.len() && m.animals@[j].id == id);
    assert(meds_wf(m.animals@[j].medical_records@));
}

/// Repeated identical non-Healthy updates each append a fresh alert: two
/// successive updates of one animal to the same non-Healthy status add
/// two alerts for it, never merged and never deduplicated.
pub proof fn lemma_repeated_updates_repeat_alerts(
    s0: LivestockManager,
    s1: LivestockManager,
    s2: LivestockManager,
    id: u64,
    status: HealthStatus,
    t1: u64,
    t2: u64,
)
    requires
        health_updated(s0, s1, id, status, t1, true),
        health_updated(s1, s2, id, status, t2, true),
        status != HealthStatus::Healthy,
    ensures
        s2.health_alerts@.len() == s0.health_alerts@.len() + 2,
        s2.health_alerts@[s2.health_alerts@.len() - 2].animal_id == id,
        s2.health_alerts@[s2.health_alerts@.len() - 2].status == status,
        s2.health_alerts@[s2.health_alerts@.len() - 1].animal_id == id,
        s2.health_alerts@[s2.health_alerts@.len() - 1].status == status,
{
}

/// A deleted animal is gone: its record cannot be found, no alert for it
/// remains, and a second deletion of the same id reports false.
pub proof fn lemma_deleted_animal_gone(pre: LivestockManager, post: LivestockManager, id: u64)
    requires
        pre.wf(),
        deleted(pre, post, id, true),
    ensures
        !post.has_animal(id),
        forall|k: int|
            0 <= k < post.health_alerts@.len() ==> (#[trigger] post.health_alerts@[k]).animal_id
                != id,
        forall|post2: LivestockManager, r2: bool| deleted(post, post2, id, r2) ==> !r2,
{
    let j = pre.index_of(id);
    assert(0 <= j < pre.animals@.len() && pre.animals@[j].id == id);
    assert forall|i: int|
        0 <= i < post.animals@.len() implies (#[trigger] post.animals@[i]).id != id by {
        if i < j {
            assert(post.animals@[i] == pre.animals@[i]);
            if post.animals@[i].id == id {
                pre.lemma_id_unique(i, j);
            }
        } else {
            assert(post.animals@[i] == pre.animals@[i + 1]);
            if post.animals@[i].id == id {
                pre.lemma_id_unique(i + 1, j);
            }
        }
    }
    lemma_retained_alerts_elems(pre.health_alerts@, id);
}

} // verus!
