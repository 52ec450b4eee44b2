//! Read-only queries over the registry: single-record lookups, full
//! listings, averages, and status and breed filters.

use vstd::prelude::*;
use crate::host;
use crate::livestock::{
    same_record, HealthAlert, HealthStatus, Livestock, LivestockManager, ParentIds,
};

verus! {

/// The sum of all ages, in record order.
pub open spec fn ages_total(s: Seq<Livestock>) -> int
    decreases s.len(),
{
    if s.len() == 0 {
        0
    } else {
        ages_total(s.drop_last()) + s.last().age
    }
}

/// The sum of all heights, in record order.
pub open spec fn heights_total(s: Seq<Livestock>) -> int
    decreases s.len(),
{
    if s.len() == 0 {
        0
    } else {
        heights_total(s.drop_last()) + s.last().height
    }
}

/// A prefix of the records never sums to more than a longer prefix.
pub proof fn lemma_ages_total_prefix_le(s: Seq<Livestock>, i: int, j: int)
    requires
        0 <= i <= j <= s.len(),
    ensures
        ages_total(s.subrange(0, i)) <= ages_total(s.subrange(0, j)),
    decreases j - i,
{
    if i < j {
        lemma_ages_total_prefix_le(s, i, j - 1);
        assert(s.subrange(0, j).drop_last() =~= s.subrange(0, j - 1));
    }
}

/// A prefix of the records never sums to more than a longer prefix.
pub proof fn lemma_heights_total_prefix_le(s: Seq<Livestock>, i: int, j: int)
    requires
        0 <= i <= j <= s.len(),
    ensures
        heights_total(s.subrange(0, i)) <= heights_total(s.subrange(0, j)),
    decreases j - i,
{
    if i < j {
        lemma_heights_total_prefix_le(s, i, j - 1);
        assert(s.subrange(0, j).drop_last() =~= s.subrange(0, j - 1));
    }
}

/// The records whose status equals `status`, in record order.
pub open spec fn with_status(s: Seq<Livestock>, status: HealthStatus) -> Seq<Livestock>
    decreases s.len(),
{
    if s.len() == 0 {
        Seq::empty()
    } else {
        let prefix = with_status(s.drop_last(), status);
        if s.last().healthstatus == status {
            prefix.push(s.last())
        } else {
            prefix
        }
    }
}

/// The records whose lowercased breed equals `key`, in record order.
pub open spec fn with_breed(s: Seq<Livestock>, key: Seq<char>) -> Seq<Livestock>
    decreases s.len(),
{
    if s.len() == 0 {
        Seq::empty()
    } else {
        let prefix = with_breed(s.drop_last(), key);
        if host::lower_of(s.last().breed@) == key {
            prefix.push(s.last())
        } else {
            prefix
        }
    }
}

impl LivestockManager {
    /// The record with the given id, or None when no record carries it.
    pub fn get_animal(&self, id: u64) -> (r: Option<Livestock>)
        requires
            self.wf(),
        ensures
            r is Some <==> self.has_animal(id),
            r is Some ==> same_record(r.unwrap(), self.spec_animal(id)),
    {
        match self.find_index(id) {
            Some(i) => Some(self.animals[i].clone()),
            None => None,
        }
    }

    /// Every record, in stored order: ascending id, which is creation
    /// order.
    pub fn get_all_animals(&self) -> (r: Vec<Livestock>)
        ensures
            r@.len() == self.animals@.len(),
            forall|i: int|
                0 <= i < r@.len() ==> same_record(#[trigger] r@[i], self.animals@[i]),
    {
        let n = self.animals.len();
        let mut r: Vec<Livestock> = Vec::new();
        let mut i: usize = 0;
        while i < n
            invariant
                n == self.animals@.len(),
                i <= n,
                r@.len() == i,
                forall|k: int| 0 <= k < i ==> same_record(#[trigger] r@[k], self.animals@[k]),
            decreases n - i,
        {
            r.push(self.animals[i].clone());
            i = i + 1;
        }
        r
    }

    /// The full alert history, in insertion order.
    pub fn get_health_alerts(&self) -> (r: Vec<HealthAlert>)
        ensures
            r@ == self.health_alerts@,
    {
        let r = self.health_alerts.clone();
        proof {
            assert(r@ =~= self.health_alerts@);
        }
        r
    }

    /// The parent linkage of the given animal, when it exists and was
    /// bred.
    pub fn get_pedigree(&self, animal_id: u64) -> (r: Option<ParentIds>)
        requires
            self.wf(),
        ensures
            r is Some <==> self.has_animal(animal_id) && self.spec_animal(animal_id).parent_ids
                is Some,
            r == if self.has_animal(animal_id) {
                self.spec_animal(animal_id).parent_ids
            } else {
                None::<ParentIds>
            },
    {
        match self.find_index(animal_id) {
            Some(i) => match &self.animals[i].parent_ids {
                Some(p) => Some(p.clone()),
                None => None,
            },
            None => None,
        }
    }

    /// The integer mean of all ages; 0 for an empty registry.
    pub fn get_average_age(&self) -> (r: u32)
        requires
            self.animals@.len() <= u32::MAX,
            ages_total(self.animals@) <= u32::MAX,
        ensures
            self.animals@.len() == 0 ==> r == 0,
            self.animals@.len() > 0 ==> r == ages_total(self.animals@) / self.animals@.len() as int,
    {
        let n = self.animals.len();
        proof {
            assert(self.animals@.subrange(0, n as int) =~= self.animals@);
        }
        let mut total: u32 = 0;
        let mut i: usize = 0;
        while i < n
            invariant
                n == self.animals@.len(),
                ages_total(self.animals@) <= u32::MAX,
                i <= n,
                total == ages_total(self.animals@.subrange(0, i as int)),
            decreases n - i,
        {
            proof {
                assert(self.animals@.subrange(0, i + 1).drop_last() =~= self.animals@.subrange(
                    0,
                    i as int,
                ));
                lemma_ages_total_prefix_le(self.animals@, i + 1, n as int);
                assert(self.animals@.subrange(0, n as int) =~= self.animals@);
            }
            total = total + self.animals[i].age as u32;
            i = i + 1;
        }
        proof {
            assert(self.animals@.subrange(0, n as int) =~= self.animals@);
        }
        if n == 0 {
            0
        } else {
            total / (n as u32)
        }
    }

    /// The integer mean of all heights; 0 for an empty registry.
    pub fn get_average_height(&self) -> (r: u32)
        requires
            self.animals@.len() <= u32::MAX,
            heights_total(self.animals@) <= u32::MAX,
        ensures
            self.animals@.len() == 0 ==> r == 0,
            self.animals@.len() > 0 ==> r == heights_total(self.animals@)
                / self.animals@.len() as int,
    {
        let n = self.animals.len();
        let mut total: u32 = 0;
        let mut i: usize = 0;
        while i < n
            invariant
                n == self.animals@.len(),
                heights_total(self.animals@) <= u32::MAX,
                i <= n,
                total == heights_total(self.animals@.subrange(0, i as int)),
            decreases n - i,
        {
            proof {
                assert(self.animals@.subrange(0, i + 1).drop_last() =~= self.animals@.subrange(
                    0,
                    i as int,
                ));
                lemma_heights_total_prefix_le(self.animals@, i + 1, n as int);
                assert(self.animals@.subrange(0, n as int) =~= self.animals@);
            }
            total = total + self.animals[i].height;
            i = i + 1;
        }
        proof {
            assert(self.animals@.subrange(0, n as int) =~= self.animals@);
        }
        if n == 0 {
            0
        } else {
            total / (n as u32)
        }
    }

    /// The records with exactly the given status, in stored order.
    pub fn animals_with_status(&self, status: HealthStatus) -> (r: Vec<Livestock>)
        ensures
            r@.len() == with_status(self.animals@, status).len(),
            forall|k: int|
                0 <= k < r@.len() ==> same_record(
                    #[trigger] r@[k],
                    with_status(self.animals@, status)[k],
                ),
    {
        let n = self.animals.len();
        let mut r: Vec<Livestock> = Vec::new();
        let mut i: usize = 0;
        while i < n
            invariant
                n == self.animals@.len(),
                i <= n,
                r@.len() == with_status(self.animals@.subrange(0, i as int), status).len(),
                forall|k: int|
                    0 <= k < r@.len() ==> same_record(
                        #[trigger] r@[k],
                        with_status(self.animals@.subrange(0, i as int), status)[k],
                    ),
            decreases n - i,
        {
            proof {
                assert(self.animals@.subrange(0, i + 1).drop_last() =~= self.animals@.subrange(
                    0,
                    i as int,
                ));
            }
            if self.animals[i].healthstatus == status {
                r.push(self.animals[i].clone());
            }
            i = i + 1;
        }
        proof {
            assert(self.animals@.subrange(0, n as int) =~= self.animals@);
        }
        r
    }

    /// The Sick records, in stored order.
    pub fn get_sick_animals(&self) -> (r: Vec<Livestock>)
        ensures
            r@.len() == with_status(self.animals@, HealthStatus::Sick).len(),
            forall|k: int|
                0 <= k < r@.len() ==> same_record(
                    #[trigger] r@[k],
                    with_status(self.animals@, HealthStatus::Sick)[k],
                ),
    {
        self.animals_with_status(HealthStatus::Sick)
    }

    /// The Healthy records, in stored order.
    pub fn get_healthy_animals(&self) -> (r: Vec<Livestock>)
        ensures
            r@.len() == with_status(self.animals@, HealthStatus::Healthy).len(),
            forall|k: int|
                0 <= k < r@.len() ==> same_record(
                    #[trigger] r@[k],
                    with_status(self.animals@, HealthStatus::Healthy)[k],
                ),
    {
        self.animals_with_status(HealthStatus::Healthy)
    }

    /// The Critical records, in stored order.
    pub fn get_critical_animals(&self) -> (r: Vec<Livestock>)
        ensures
            r@.len() == with_status(self.animals@, HealthStatus::Critical).len(),
            forall|k: int|
                0 <= k < r@.len() ==> same_record(
                    #[trigger] r@[k],
                    with_status(self.animals@, HealthStatus::Critical)[k],
                ),
    {
        self.animals_with_status(HealthStatus::Critical)
    }

    /// The Recovering records, in stored order.
    pub fn get_recovering_animals(&self) -> (r: Vec<Livestock>)
        ensures
            r@.len() == with_status(self.animals@, HealthStatus::Recovering).len(),
            forall|k: int|
                0 <= k < r@.len() ==> same_record(
                    #[trigger] r@[k],
                    with_status(self.animals@, HealthStatus::Recovering)[k],
                ),
    {
        self.animals_with_status(HealthStatus::Recovering)
    }

    /// The records whose breed matches `breed` case-insensitively: both
    /// sides are compared by their lowercase form.
    pub fn get_animal_per_breed(&self, breed: &str) -> (r: Vec<Livestock>)
        ensures
            r@.len() == with_breed(self.animals@, host::lower_of(breed@)).len(),
            forall|k: int|
                0 <= k < r@.len() ==> same_record(
                    #[trigger] r@[k],
                    with_breed(self.animals@, host::lower_of(breed@))[k],
                ),
    {
        let key = host::lowercase(breed);
        let n = self.animals.len();
        let mut r: Vec<Livestock> = Vec::new();
        let mut i: usize = 0;
        while i < n
            invariant
                n == self.animals@.len(),
                i <= n,
                key@ == host::lower_of(breed@),
                r@.len() == with_breed(self.animals@.subrange(0, i as int), key@).len(),
                forall|k: int|
                    0 <= k < r@.len() ==> same_record(
                        #[trigger] r@[k],
                        with_breed(self.animals@.subrange(0, i as int), key@)[k],
                    ),
            decreases n - i,
        {
            proof {
                assert(self.animals@.subrange(0, i + 1).drop_last() =~= self.animals@.subrange(
                    0,
                    i as int,
                ));
            }
            let lowered = host::lowercase(self.animals[i].breed.as_str());
            if lowered == key {
                r.push(self.animals[i].clone());
            }
            i = i + 1;
        }
        proof {
            assert(self.animals@.subrange(0, n as int) =~= self.animals@);
        }
        r
    }
}

} // verus!
