//! The registry core: animal records, health alerts, and the operations
//! that create, link, update, and remove them.

use vstd::prelude::*;
use vstd::pervasive::VecAdditionalExecFns;
use crate::host;

verus! {

/// One day in nanoseconds, the validity window of a medication.
pub const DAY_NANOS: u64 = 86_400_000_000_000;

/// The health condition of one animal.
#[derive(Clone, Copy, PartialEq, Eq, Structural, Debug)]
pub enum HealthStatus {
    Healthy,
    Sick,
    Critical,
    Recovering,
}

/// A medication attached to one animal. Its id is unique within that
/// animal only and counts up from 1.
pub struct Medication {
    pub id: u64,
    pub name: String,
    pub dosage: String,
    pub start_date: u64,
    pub end_date: u64,
}

/// The two parents of a bred animal; set at creation, never changed.
pub struct ParentIds {
    pub parent1_id: u64,
    pub parent2_id: u64,
}

/// A logged non-Healthy status transition.
pub struct HealthAlert {
    pub animal_id: u64,
    pub status: HealthStatus,
    pub timestamp: u64,
}

/// One tracked animal.
pub struct Livestock {
    pub id: u64,
    pub breed: String,
    pub age: u8,
    pub height: u32,
    pub healthrecords: String,
    pub healthstatus: HealthStatus,
    pub medical_records: Vec<Medication>,
    pub parent_ids: Option<ParentIds>,
    pub created_at: u64,
    pub updated_at: Option<u64>,
}

impl Clone for Medication {
    fn clone(&self) -> (res: Self)
        ensures
            res == *self,
    {
        Medication {
            id: self.id,
            name: self.name.clone(),
            dosage: self.dosage.clone(),
            start_date: self.start_date,
            end_date: self.end_date,
        }
    }
}

impl Clone for ParentIds {
    fn clone(&self) -> (res: Self)
        ensures
            res == *self,
    {
        ParentIds { parent1_id: self.parent1_id, parent2_id: self.parent2_id }
    }
}

impl Clone for HealthAlert {
    fn clone(&self) -> (res: Self)
        ensures
            res == *self,
    {
        HealthAlert { animal_id: self.animal_id, status: self.status, timestamp: self.timestamp }
    }
}

/// `a` carries the same data as `b`: every field is equal, with the
/// medication list compared element by element.
pub open spec fn same_record(a: Livestock, b: Livestock) -> bool {
    &&& a.id == b.id
    &&& a.breed == b.breed
    &&& a.age == b.age
    &&& a.height == b.height
    &&& a.healthrecords == b.healthrecords
    &&& a.healthstatus == b.healthstatus
    &&& a.medical_records@ == b.medical_records@
    &&& a.parent_ids == b.parent_ids
    &&& a.created_at == b.created_at
    &&& a.updated_at == b.updated_at
}

impl Clone for Livestock {
    fn clone(&self) -> (res: Self)
        ensures
            same_record(res, *self),
    {
        let medical_records = self.medical_records.clone();
        proof {
            assert(medical_records@ =~= self.medical_records@);
        }
        let parent_ids = match &self.parent_ids {
            Some(p) => Some(p.clone()),
            None => None,
        };
        Livestock {
            id: self.id,
            breed: self.breed.clone(),
            age: self.age,
            height: self.height,
            healthrecords: self.healthrecords.clone(),
            healthstatus: self.healthstatus,
            medical_records,
            parent_ids,
            created_at: self.created_at,
            updated_at: self.updated_at,
        }
    }
}

/// The human-readable label of a status, mirrored into the health summary
/// string of a record.
pub open spec fn status_label(s: HealthStatus) -> Seq<char> {
    match s {
        HealthStatus::Healthy => "Healthy"@,
        HealthStatus::Sick => "Sick"@,
        HealthStatus::Critical => "Critical"@,
        HealthStatus::Recovering => "Recovering"@,
    }
}

/// The label of a status as an owned string.
pub fn status_text(s: HealthStatus) -> (r: String)
    ensures
        r@ == status_label(s),
{
    match s {
        HealthStatus::Healthy => "Healthy".to_owned(),
        HealthStatus::Sick => "Sick".to_owned(),
        HealthStatus::Critical => "Critical".to_owned(),
        HealthStatus::Recovering => "Recovering".to_owned(),
    }
}

/// Medication ids within one animal are exactly 1, 2, 3, ... in list order.
pub open spec fn meds_wf(meds: Seq<Medication>) -> bool {
    forall|i: int| 0 <= i < meds.len() ==> (#[trigger] meds[i]).id == i + 1
}

/// A record as `create_animal` builds it, apart from its creation time and
/// its parent linkage.
pub open spec fn fresh_animal(a: Livestock, id: u64, age: u8, breed: Seq<char>, height: u32) -> bool {
    &&& a.id == id
    &&& a.age == age
    &&& a.breed@ == breed
    &&& a.height == height
    &&& a.healthstatus == HealthStatus::Healthy
    &&& a.healthrecords@ == status_label(HealthStatus::Healthy)
    &&& a.medical_records@.len() == 0
    &&& a.updated_at is None
}

/// The registry: all animal records, the alert history, and the monotonic
/// id counter.
pub struct LivestockManager {
    pub animals: Vec<Livestock>,
    pub health_alerts: Vec<HealthAlert>,
    pub next_id: u64,
}

impl LivestockManager {
    /// Some record carries the given id.
    pub open spec fn has_animal(self, id: u64) -> bool {
        exists|i: int| 0 <= i < self.animals@.len() && (#[trigger] self.animals@[i]).id == id
    }

    /// The position of the record with the given id (meaningful only when
    /// `has_animal` holds; unique because ids strictly increase).
    pub open spec fn index_of(self, id: u64) -> int {
        choose|i: int| 0 <= i < self.animals@.len() && (#[trigger] self.animals@[i]).id == id
    }

    /// The record with the given id.
    pub open spec fn spec_animal(self, id: u64) -> Livestock {
        self.animals@[self.index_of(id)]
    }

    /// The registry's invariant: records are kept in strictly increasing
    /// id order, every id was allocated below the counter, medication ids
    /// count 1, 2, 3, ... within each animal, and every alert refers to a
    /// record that is still present.
    pub open spec fn wf(self) -> bool {
        &&& forall|i: int, j: int|
            0 <= i < j < self.animals@.len() ==> (#[trigger] self.animals@[i]).id < (
            #[trigger] self.animals@[j]).id
        &&& forall|i: int|
            0 <= i < self.animals@.len() ==> (#[trigger] self.animals@[i]).id < self.next_id
        &&& forall|i: int|
            0 <= i < self.animals@.len() ==> meds_wf((#[trigger] self.animals@[i]).medical_records@)
        &&& forall|k: int|
            0 <= k < self.health_alerts@.len() ==> self.has_animal(
                (#[trigger] self.health_alerts@[k]).animal_id,
            )
    }

    /// An empty registry with the id counter at 0.
    pub fn new() -> (r: Self)
        ensures
            r.wf(),
            r.animals@.len() == 0,
            r.health_alerts@.len() == 0,
            r.next_id == 0,
    {
        LivestockManager { animals: Vec::new(), health_alerts: Vec::new(), next_id: 0 }
    }

    /// Two positions holding the same id are the same position.
    pub proof fn lemma_id_unique(self, i: int, j: int)
        requires
            self.wf(),
            0 <= i < self.animals@.len(),
            0 <= j < self.animals@.len(),
            self.animals@[i].id == self.animals@[j].id,
        ensures
            i == j,
    {
        if i < j {
            assert(self.animals@[i].id < self.animals@[j].id);
        }
        if j < i {
            assert(self.animals@[j].id < self.animals@[i].id);
        }
    }

    /// The position of the record with the given id, or None when no
    /// record carries it.
    pub(crate) fn find_index(&self, id: u64) -> (r: Option<usize>)
        requires
            self.wf(),
        ensures
            r is Some <==> self.has_animal(id),
            r is Some ==> r.unwrap() < self.animals@.len()
                && self.animals@[r.unwrap() as int].id == id
                && r.unwrap() == self.index_of(id),
    {
        let n = self.animals.len();
        let mut i: usize = 0;
        while i < n
            invariant
                self.wf(),
                n == self.animals@.len(),
                i <= n,
                forall|k: int| 0 <= k < i ==> (#[trigger] self.animals@[k]).id != id,
            decreases n - i,
        {
            if self.animals[i].id == id {
                proof {
                    let j = self.index_of(id);
                    self.lemma_id_unique(i as int, j);
                }
                return Some(i);
            }
            i = i + 1;
        }
        None
    }
}

impl Default for LivestockManager {
    /// An empty registry, as `new` builds it.
    fn default() -> (r: Self)
        ensures
            r.wf(),
            r.animals@.len() == 0,
            r.health_alerts@.len() == 0,
            r.next_id == 0,
    {
        LivestockManager::new()
    }
}

/// `post` is `pre` with one fresh record appended: the id came from the
/// counter, the counter moved up by one, and nothing else changed.
pub open spec fn created(
    pre: LivestockManager,
    post: LivestockManager,
    age: u8,
    breed: Seq<char>,
    height: u32,
    now: u64,
    id: u64,
) -> bool {
    &&& id == pre.next_id
    &&& post.next_id == pre.next_id + 1
    &&& post.health_alerts@ == pre.health_alerts@
    &&& post.animals@.len() == pre.animals@.len() + 1
    &&& forall|i: int| 0 <= i < pre.animals@.len() ==> post.animals@[i] == pre.animals@[i]
    &&& fresh_animal(post.animals@.last(), id, age, breed, height)
    &&& post.animals@.last().parent_ids is None
    &&& post.animals@.last().created_at == now
}

impl LivestockManager {
    /// Appending a record whose id is the counter value preserves the
    /// invariant and every previously present id.
    proof fn lemma_append_fresh(pre: LivestockManager, post: LivestockManager)
        requires
            pre.wf(),
            post.next_id > pre.next_id,
            post.animals@.len() == pre.animals@.len() + 1,
            forall|i: int| 0 <= i < pre.animals@.len() ==> post.animals@[i] == pre.animals@[i],
            post.animals@.last().id == pre.next_id,
            meds_wf(post.animals@.last().medical_records@),
            post.health_alerts@ == pre.health_alerts@,
        ensures
            post.wf(),
            forall|id: u64| pre.has_animal(id) ==> post.has_animal(id),
    {
        assert forall|id: u64| pre.has_animal(id) implies post.has_animal(id) by {
            let i = choose|i: int|
                0 <= i < pre.animals@.len() && (#[trigger] pre.animals@[i]).id == id;
            assert(post.animals@[i].id == id);
        }
        assert forall|k: int|
            0 <= k < post.health_alerts@.len() implies post.has_animal(
            (#[trigger] post.health_alerts@[k]).animal_id,
        ) by {
            assert(pre.has_animal(pre.health_alerts@[k].animal_id));
        }
    }

    /// Creates a record with status Healthy, no medications and no
    /// parents, created at `now`, keyed by the next id from the counter.
    pub fn create_animal_at(&mut self, age: u8, breed: String, height: u32, now: u64) -> (id: u64)
        requires
            old(self).wf(),
            old(self).next_id < u64::MAX,
        ensures
            final(self).wf(),
            created(*old(self), *final(self), age, breed@, height, now, id),
            forall|a: u64| old(self).has_animal(a) ==> final(self).has_animal(a),
    {
        let id = self.next_id;
        self.next_id = self.next_id + 1;
        let animal = Livestock {
            id,
            age,
            breed,
            height,
            healthrecords: status_text(HealthStatus::Healthy),
            healthstatus: HealthStatus::Healthy,
            medical_records: Vec::new(),
            parent_ids: None,
            created_at: now,
            updated_at: None,
        };
        self.animals.push(animal);
        proof {
            Self::lemma_append_fresh(*old(self), *self);
        }
        id
    }

    /// Two registries whose records carry the same ids at the same
    /// positions hold the same ids.
    proof fn lemma_same_ids(pre: LivestockManager, post: LivestockManager)
        requires
            post.animals@.len() == pre.animals@.len(),
            forall|i: int|
                0 <= i < pre.animals@.len() ==> (#[trigger] post.animals@[i]).id
                    == pre.animals@[i].id,
        ensures
            forall|x: u64| pre.has_animal(x) <==> post.has_animal(x),
    {
        assert forall|x: u64| pre.has_animal(x) implies post.has_animal(x) by {
            let i = choose|i: int|
                0 <= i < pre.animals@.len() && (#[trigger] pre.animals@[i]).id == x;
            assert(post.animals@[i].id == x);
        }
        assert forall|x: u64| post.has_animal(x) implies pre.has_animal(x) by {
            let i = choose|i: int|
                0 <= i < post.animals@.len() && (#[trigger] post.animals@[i]).id == x;
            assert(pre.animals@[i].id == x);
        }
    }

    /// Creates a record as `create_animal_at` does, taking the creation
    /// time from the host clock.
    pub fn create_animal(&mut self, age: u8, breed: String, height: u32) -> (id: u64)
        requires
            old(self).wf(),
            old(self).next_id < u64::MAX,
        ensures
            final(self).wf(),
            exists|t: u64| created(*old(self), *final(self), age, breed@, height, t, id),
    {
        let now = host::block_timestamp();
        let id = self.create_animal_at(age, breed, height, now);
        proof {
            assert(created(*old(self), *self, age, breed@, height, now, id));
        }
        id
    }
}

/// On success `post` is `pre` with one offspring record appended: age 0,
/// height 0, the given parents linked, id from the counter. On failure
/// (either parent absent) nothing changed, the counter included.
pub open spec fn bred(
    pre: LivestockManager,
    post: LivestockManager,
    parent1_id: u64,
    parent2_id: u64,
    breed: Seq<char>,
    now: u64,
    r: Option<u64>,
) -> bool {
    &&& (r is Some <==> pre.has_animal(parent1_id) && pre.has_animal(parent2_id))
    &&& (r is None ==> post == pre)
    &&& (r is Some ==> {
        &&& r.unwrap() == pre.next_id
        &&& post.next_id == pre.next_id + 1
        &&& post.health_alerts@ == pre.health_alerts@
        &&& post.animals@.len() == pre.animals@.len() + 1
        &&& (forall|i: int| 0 <= i < pre.animals@.len() ==> post.animals@[i] == pre.animals@[i])
        &&& fresh_animal(post.animals@.last(), r.unwrap(), 0, breed, 0)
        &&& post.animals@.last().parent_ids == Some(
            (ParentIds { parent1_id, parent2_id }),
        )
        &&& post.animals@.last().created_at == now
    })
}

/// On a present id `post` is `pre` with that record's status, summary
/// string and update time replaced, and, for a non-Healthy status, one
/// alert appended. On an absent id nothing changed.
pub open spec fn health_updated(
    pre: LivestockManager,
    post: LivestockManager,
    id: u64,
    new_status: HealthStatus,
    now: u64,
    r: bool,
) -> bool {
    &&& (r <==> pre.has_animal(id))
    &&& (!r ==> post == pre)
    &&& (r ==> {
        let j = pre.index_of(id);
        &&& post.next_id == pre.next_id
        &&& post.animals@.len() == pre.animals@.len()
        &&& (forall|i: int|
            0 <= i < pre.animals@.len() && i != j ==> post.animals@[i] == pre.animals@[i])
        &&& ({
            let a = post.animals@[j];
            let b = pre.animals@[j];
            &&& a.id == b.id
            &&& a.breed == b.breed
            &&& a.age == b.age
            &&& a.height == b.height
            &&& a.medical_records@ == b.medical_records@
            &&& a.parent_ids == b.parent_ids
            &&& a.created_at == b.created_at
            &&& a.healthstatus == new_status
            &&& a.healthrecords@ == status_label(new_status)
            &&& a.updated_at == Some(now)
        })
        &&& (new_status == HealthStatus::Healthy ==> post.health_alerts@ == pre.health_alerts@)
        &&& (new_status != HealthStatus::Healthy ==> post.health_alerts@
            == pre.health_alerts@.push((HealthAlert { animal_id: id, status: new_status, timestamp: now })))
    })
}

/// On a present id `post` is `pre` with one medication appended to that
/// record: its id is the prior count plus one, its window is one day.
/// On an absent id nothing changed.
pub open spec fn medicated(
    pre: LivestockManager,
    post: LivestockManager,
    id: u64,
    name: Seq<char>,
    dosage: Seq<char>,
    now: u64,
    r: bool,
) -> bool {
    &&& (r <==> pre.has_animal(id))
    &&& (!r ==> post == pre)
    &&& (r ==> {
        let j = pre.index_of(id);
        &&& post.next_id == pre.next_id
        &&& post.health_alerts@ == pre.health_alerts@
        &&& post.animals@.len() == pre.animals@.len()
        &&& (forall|i: int|
            0 <= i < pre.animals@.len() && i != j ==> post.animals@[i] == pre.animals@[i])
        &&& ({
            let a = post.animals@[j];
            let b = pre.animals@[j];
            &&& a.id == b.id
            &&& a.breed == b.breed
            &&& a.age == b.age
            &&& a.height == b.height
            &&& a.healthrecords == b.healthrecords
            &&& a.healthstatus == b.healthstatus
            &&& a.parent_ids == b.parent_ids
            &&& a.created_at == b.created_at
            &&& a.updated_at == b.updated_at
            &&& a.medical_records@.len() == b.medical_records@.len() + 1
            &&& (forall|k: int|
                0 <= k < b.medical_records@.len() ==> a.medical_records@[k]
                    == b.medical_records@[k])
            &&& ({
                let m = a.medical_records@.last();
                &&& m.id == b.medical_records@.len() + 1
                &&& m.name@ == name
                &&& m.dosage@ == dosage
                &&& m.start_date == now
                &&& m.end_date == now + DAY_NANOS
            })
        })
    })
}

/// The alerts of `alerts` that do not refer to `id`, in their old order.
pub open spec fn retained_alerts(alerts: Seq<HealthAlert>, id: u64) -> Seq<HealthAlert>
    decreases alerts.len(),
{
    if alerts.len() == 0 {
        Seq::empty()
    } else {
        let prefix = retained_alerts(alerts.drop_last(), id);
        if alerts.last().animal_id == id {
            prefix
        } else {
            prefix.push(alerts.last())
        }
    }
}

/// Every retained alert refers to another id and stood in the old list.
pub proof fn lemma_retained_alerts_elems(alerts: Seq<HealthAlert>, id: u64)
    ensures
        forall|k: int|
            0 <= k < retained_alerts(alerts, id).len() ==> (#[trigger] retained_alerts(
                alerts,
                id,
            )[k]).animal_id != id && alerts.contains(retained_alerts(alerts, id)[k]),
    decreases alerts.len(),
{
    if alerts.len() > 0 {
        lemma_retained_alerts_elems(alerts.drop_last(), id);
        assert forall|k: int|
            0 <= k < retained_alerts(alerts.drop_last(), id).len() implies alerts.contains(
            retained_alerts(alerts.drop_last(), id)[k],
        ) by {
            let e = retained_alerts(alerts.drop_last(), id)[k];
            let p = choose|p: int| 0 <= p < alerts.drop_last().len() && alerts.drop_last()[p] == e;
            assert(alerts[p] == e);
        }
        if alerts.last().animal_id != id {
            assert(alerts.contains(alerts.last())) by {
                assert(alerts[alerts.len() - 1] == alerts.last());
            }
        }
    }
}

/// On a present id `post` is `pre` without that record and without every
/// alert that referred to it. On an absent id nothing changed.
pub open spec fn deleted(
    pre: LivestockManager,
    post: LivestockManager,
    id: u64,
    r: bool,
) -> bool {
    &&& (r <==> pre.has_animal(id))
    &&& (!r ==> post == pre)
    &&& (r ==> {
        &&& post.next_id == pre.next_id
        &&& post.animals@ == pre.animals@.remove(pre.index_of(id))
        &&& post.health_alerts@ == retained_alerts(pre.health_alerts@, id)
    })
}

impl LivestockManager {
    /// Breeds two present animals: the offspring is created with age 0 and
    /// height 0, created at `now`, and linked to both parents. When either
    /// parent is absent, nothing happens and no id is consumed.
    pub fn breed_animals_at(
        &mut self,
        parent1_id: u64,
        parent2_id: u64,
        breed: String,
        now: u64,
    ) -> (r: Option<u64>)
        requires
            old(self).wf(),
            old(self).next_id < u64::MAX,
        ensures
            final(self).wf(),
            bred(*old(self), *final(self), parent1_id, parent2_id, breed@, now, r),
    {
        if self.find_index(parent1_id).is_some() && self.find_index(parent2_id).is_some() {
            let offspring_id = self.create_animal_at(0, breed, 0, now);
            let ghost mid = *self;
            let n = self.animals.len();
            let mut offspring = self.animals[n - 1].clone();
            offspring.parent_ids = Some(ParentIds { parent1_id, parent2_id });
            self.animals.set(n - 1, offspring);
            proof {
                assert(self.animals@.last() == self.animals@[n - 1]);
                Self::lemma_same_ids(mid, *self);
                assert forall|k: int|
                    0 <= k < self.health_alerts@.len() implies self.has_animal(
                    (#[trigger] self.health_alerts@[k]).animal_id,
                ) by {
                    assert(mid.has_animal(mid.health_alerts@[k].animal_id));
                }
            }
            Some(offspring_id)
        } else {
            None
        }
    }

    /// Breeds two animals as `breed_animals_at` does, taking the creation
    /// time from the host clock.
    pub fn breed_animals(&mut self, parent1_id: u64, parent2_id: u64, breed: String) -> (r: Option<
        u64,
    >)
        requires
            old(self).wf(),
            old(self).next_id < u64::MAX,
        ensures
            final(self).wf(),
            exists|t: u64| bred(*old(self), *final(self), parent1_id, parent2_id, breed@, t, r),
    {
        let now = host::block_timestamp();
        let r = self.breed_animals_at(parent1_id, parent2_id, breed, now);
        proof {
            assert(bred(*old(self), *self, parent1_id, parent2_id, breed@, now, r));
        }
        r
    }

    /// Sets the status and its summary string, stamps the update time, and
    /// logs an alert for every non-Healthy new status, present or not
    /// before. Returns false, and changes nothing, on an absent id.
    pub fn update_health_status_at(&mut self, id: u64, new_status: HealthStatus, now: u64) -> (r:
        bool)
        requires
            old(self).wf(),
        ensures
            final(self).wf(),
            health_updated(*old(self), *final(self), id, new_status, now, r),
    {
        match self.find_index(id) {
            Some(j) => {
                let mut animal = self.animals[j].clone();
                animal.healthstatus = new_status;
                animal.healthrecords = status_text(new_status);
                animal.updated_at = Some(now);
                self.animals.set(j, animal);
                proof {
                    Self::lemma_same_ids(*old(self), *self);
                }
                if new_status != HealthStatus::Healthy {
                    let ghost mid = *self;
                    self.health_alerts.push(
                        HealthAlert { animal_id: id, status: new_status, timestamp: now },
                    );
                    proof {
                        assert forall|k: int|
                            0 <= k < self.health_alerts@.len() implies self.has_animal(
                            (#[trigger] self.health_alerts@[k]).animal_id,
                        ) by {
                            if k < mid.health_alerts@.len() {
                                assert(old(self).has_animal(old(self).health_alerts@[k].animal_id));
                            } else {
                                assert(self.health_alerts@[k].animal_id == id);
                            }
                        }
                    }
                }
                true
            },
            None => false,
        }
    }

    /// Updates the status as `update_health_status_at` does, taking the
    /// update time from the host clock.
    pub fn update_health_status(&mut self, id: u64, new_status: HealthStatus) -> (r: bool)
        requires
            old(self).wf(),
        ensures
            final(self).wf(),
            exists|t: u64| health_updated(*old(self), *final(self), id, new_status, t, r),
    {
        let now = host::block_timestamp();
        let r = self.update_health_status_at(id, new_status, now);
        proof {
            assert(health_updated(*old(self), *self, id, new_status, now, r));
        }
        r
    }

    /// Appends a medication to a present animal: its id is that animal's
    /// prior count plus one, its window runs from `now` for one day.
    /// Returns false, and changes nothing, on an absent id.
    pub fn add_medication_at(&mut self, animal_id: u64, name: String, dosage: String, now: u64) -> (
        r: bool)
        requires
            old(self).wf(),
            now <= u64::MAX - DAY_NANOS,
            old(self).has_animal(animal_id) ==> old(self).spec_animal(
                animal_id,
            ).medical_records@.len() < u64::MAX,
        ensures
            final(self).wf(),
            medicated(*old(self), *final(self), animal_id, name@, dosage@, now, r),
    {
        match self.find_index(animal_id) {
            Some(j) => {
                let mut animal = self.animals[j].clone();
                let medication = Medication {
                    id: animal.medical_records.len() as u64 + 1,
                    name,
                    dosage,
                    start_date: now,
                    end_date: now + DAY_NANOS,
                };
                animal.medical_records.push(medication);
                self.animals.set(j, animal);
                proof {
                    Self::lemma_same_ids(*old(self), *self);
                    assert forall|k: int|
                        0 <= k < self.health_alerts@.len() implies self.has_animal(
                        (#[trigger] self.health_alerts@[k]).animal_id,
                    ) by {
                        assert(old(self).has_animal(old(self).health_alerts@[k].animal_id));
                    }
                }
                true
            },
            None => false,
        }
    }

    /// Adds a medication as `add_medication_at` does, taking the start
    /// time from the host clock (held below the last representable day).
    pub fn add_medication(&mut self, animal_id: u64, name: String, dosage: String) -> (r: bool)
        requires
            old(self).wf(),
            old(self).has_animal(animal_id) ==> old(self).spec_animal(
                animal_id,
            ).medical_records@.len() < u64::MAX,
        ensures
            final(self).wf(),
            exists|t: u64| medicated(*old(self), *final(self), animal_id, name@, dosage@, t, r),
    {
        let now = host::block_timestamp();
        let start = if now <= u64::MAX - DAY_NANOS {
            now
        } else {
            u64::MAX - DAY_NANOS
        };
        let r = self.add_medication_at(animal_id, name, dosage, start);
        proof {
            assert(medicated(*old(self), *self, animal_id, name@, dosage@, start, r));
        }
        r
    }

    /// Removes a present record and every alert that refers to it.
    /// Returns false, and changes nothing, on an absent id.
    pub fn delete_animal(&mut self, id: u64) -> (r: bool)
        requires
            old(self).wf(),
        ensures
            final(self).wf(),
            deleted(*old(self), *final(self), id, r),
    {
        match self.find_index(id) {
            Some(j) => {
                self.animals.remove(j);
                let ghost alerts0 = self.health_alerts@;
                let mut kept: Vec<HealthAlert> = Vec::new();
                let n = self.health_alerts.len();
                let mut i: usize = 0;
                while i < n
                    invariant
                        n == alerts0.len(),
                        self.health_alerts@ == alerts0,
                        i <= n,
                        kept@ =~= retained_alerts(alerts0.subrange(0, i as int), id),
                    decreases n - i,
                {
                    proof {
                        assert(alerts0.subrange(0, i as int + 1).drop_last() =~= alerts0.subrange(
                            0,
                            i as int,
                        ));
                        assert(alerts0.subrange(0, i as int + 1).last() == alerts0[i as int]);
                    }
                    if self.health_alerts[i].animal_id != id {
                        kept.push(self.health_alerts[i].clone());
                    }
                    i = i + 1;
                }
                proof {
                    assert(alerts0.subrange(0, n as int) =~= alerts0);
                }
                self.health_alerts = kept;
                proof {
                    self.lemma_delete_wf(*old(self), id, j as int);
                }
                true
            },
            None => false,
        }
    }

    /// After removing the record at `j` and the alerts that referred to
    /// its id, the invariant holds again.
    proof fn lemma_delete_wf(self, pre: LivestockManager, id: u64, j: int)
        requires
            pre.wf(),
            0 <= j < pre.animals@.len(),
            pre.animals@[j].id == id,
            self.next_id == pre.next_id,
            self.animals@ == pre.animals@.remove(j),
            self.health_alerts@ == retained_alerts(pre.health_alerts@, id),
        ensures
            self.wf(),
    {
        lemma_retained_alerts_elems(pre.health_alerts@, id);
        assert forall|k: int|
            0 <= k < self.health_alerts@.len() implies self.has_animal(
            (#[trigger] self.health_alerts@[k]).animal_id,
        ) by {
            let e = self.health_alerts@[k];
            let p = choose|p: int|
                0 <= p < pre.health_alerts@.len() && pre.health_alerts@[p] == e;
            assert(pre.has_animal(e.animal_id));
            let w = choose|w: int|
                0 <= w < pre.animals@.len() && (#[trigger] pre.animals@[w]).id == e.animal_id;
            assert(w != j) by {
                assert(pre.animals@[j].id == id);
            }
            if w < j {
                assert(self.animals@[w].id == e.animal_id);
            } else {
                assert(self.animals@[w - 1].id == e.animal_id);
            }
        }
    }
}

} // verus!
