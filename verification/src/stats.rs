//! Aggregate statistics: a keyed list of counts with one entry for the
//! total, one per status that occurs, and one per breed that occurs.
//! Breeds are grouped case-insensitively by their lowercase form.

use vstd::prelude::*;
use vstd::pervasive::VecAdditionalExecFns;
use vstd::string::StringExecFns;
use crate::host;
use crate::livestock::{HealthStatus, Livestock, LivestockManager};

verus! {

/// How many records carry exactly the given status.
pub open spec fn count_status(s: Seq<Livestock>, status: HealthStatus) -> int
    decreases s.len(),
{
    if s.len() == 0 {
        0int
    } else {
        count_status(s.drop_last(), status) + if s.last().healthstatus == status {
            1int
        } else {
            0int
        }
    }
}

/// How many records have the given lowercase breed form.
pub open spec fn count_breed(s: Seq<Livestock>, key: Seq<char>) -> int
    decreases s.len(),
{
    if s.len() == 0 {
        0int
    } else {
        count_breed(s.drop_last(), key) + if host::lower_of(s.last().breed@) == key {
            1int
        } else {
            0int
        }
    }
}

/// The distinct lowercase breed forms, in order of first occurrence.
pub open spec fn breed_keys(s: Seq<Livestock>) -> Seq<Seq<char>>
    decreases s.len(),
{
    if s.len() == 0 {
        Seq::empty()
    } else {
        let prefix = breed_keys(s.drop_last());
        let k = host::lower_of(s.last().breed@);
        if prefix.contains(k) {
            prefix
        } else {
            prefix.push(k)
        }
    }
}

/// The statistics key of a status.
pub open spec fn health_key(status: HealthStatus) -> Seq<char> {
    match status {
        HealthStatus::Healthy => "health_healthy"@,
        HealthStatus::Sick => "health_sick"@,
        HealthStatus::Critical => "health_critical"@,
        HealthStatus::Recovering => "health_recovering"@,
    }
}

/// The statistics key of a status as an owned string.
fn health_key_text(status: HealthStatus) -> (r: String)
    ensures
        r@ == health_key(status),
{
    match status {
        HealthStatus::Healthy => "health_healthy".to_owned(),
        HealthStatus::Sick => "health_sick".to_owned(),
        HealthStatus::Critical => "health_critical".to_owned(),
        HealthStatus::Recovering => "health_recovering".to_owned(),
    }
}

/// The status entries of the statistics: one per status that occurs, in
/// the fixed order Healthy, Sick, Critical, Recovering.
pub open spec fn status_entries(s: Seq<Livestock>) -> Seq<(Seq<char>, int)> {
    status_entry(s, HealthStatus::Healthy) + status_entry(s, HealthStatus::Sick) + status_entry(
        s,
        HealthStatus::Critical,
    ) + status_entry(s, HealthStatus::Recovering)
}

/// The entry of one status: a singleton when it occurs, else nothing.
pub open spec fn status_entry(s: Seq<Livestock>, status: HealthStatus) -> Seq<(Seq<char>, int)> {
    if count_status(s, status) > 0 {
        seq![(health_key(status), count_status(s, status))]
    } else {
        Seq::empty()
    }
}

/// The breed keys hold no duplicates.
pub proof fn lemma_breed_keys_distinct(s: Seq<Livestock>)
    ensures
        forall|p: int, q: int|
            0 <= p < q < breed_keys(s).len() ==> breed_keys(s)[p] != breed_keys(s)[q],
    decreases s.len(),
{
    if s.len() > 0 {
        let prefix = breed_keys(s.drop_last());
        let k = host::lower_of(s.last().breed@);
        lemma_breed_keys_distinct(s.drop_last());
        if !prefix.contains(k) {
            assert forall|p: int, q: int|
                0 <= p < q < breed_keys(s).len() implies breed_keys(s)[p] != breed_keys(
                s,
            )[q] by {
                if q == prefix.len() {
                    assert(breed_keys(s)[q] == k);
                    if prefix[p] == k {
                        assert(prefix.contains(k));
                    }
                }
            }
        }
    }
}

/// A breed form outside the keys has count zero.
pub proof fn lemma_absent_breed_count_zero(s: Seq<Livestock>, key: Seq<char>)
    requires
        !breed_keys(s).contains(key),
    ensures
        count_breed(s, key) == 0,
    decreases s.len(),
{
    if s.len() > 0 {
        let prefix = breed_keys(s.drop_last());
        let k = host::lower_of(s.last().breed@);
        assert forall|x: Seq<char>| prefix.contains(x) implies breed_keys(s).contains(x) by {
            let p = choose|p: int| 0 <= p < prefix.len() && prefix[p] == x;
            assert(breed_keys(s)[p] == x);
        }
        if k == key {
            assert(breed_keys(s).contains(key)) by {
                if prefix.contains(k) {
                } else {
                    assert(breed_keys(s).last() == key);
                }
            }
        }
        lemma_absent_breed_count_zero(s.drop_last(), key);
    }
}

/// The value of the first entry whose key reads `key`, or None when no
/// entry carries it.
pub open spec fn spec_stat_value(pairs: Seq<(String, u64)>, key: Seq<char>) -> Option<u64>
    decreases pairs.len(),
{
    if pairs.len() == 0 {
        None
    } else if pairs[0].0@ == key {
        Some(pairs[0].1)
    } else {
        spec_stat_value(pairs.drop_first(), key)
    }
}

/// Looks a key up in a statistics list, first match first.
pub fn stat_value(stats: &Vec<(String, u64)>, key: &str) -> (r: Option<u64>)
    ensures
        r == spec_stat_value(stats@, key@),
{
    let key_owned = key.to_owned();
    let n = stats.len();
    proof {
        assert(stats@.subrange(0, n as int) =~= stats@);
    }
    let mut i: usize = 0;
    while i < n
        invariant
            n == stats@.len(),
            i <= n,
            key_owned@ == key@,
            spec_stat_value(stats@, key@) == spec_stat_value(
                stats@.subrange(i as int, n as int),
                key@,
            ),
        decreases n - i,
    {
        proof {
            assert(stats@.subrange(i as int, n as int)[0] == stats@[i as int]);
            assert(stats@.subrange(i as int, n as int).drop_first() =~= stats@.subrange(
                i + 1,
                n as int,
            ));
        }
        if stats[i].0 == key_owned {
            return Some(stats[i].1);
        }
        i = i + 1;
    }
    None
}

/// The position of the first entry carrying `key`, or None when no entry
/// does.
fn find_key(acc: &Vec<(String, u64)>, key: &String) -> (r: Option<usize>)
    ensures
        r is Some ==> r.unwrap() < acc@.len() && acc@[r.unwrap() as int].0@ == key@,
        r is None ==> forall|q: int| 0 <= q < acc@.len() ==> (#[trigger] acc@[q]).0@ != key@,
{
    let m = acc.len();
    let mut p: usize = 0;
    while p < m
        invariant
            m == acc@.len(),
            p <= m,
            forall|q: int| 0 <= q < p ==> (#[trigger] acc@[q]).0@ != key@,
        decreases m - p,
    {
        if acc[p].0 == *key {
            return Some(p);
        }
        p = p + 1;
    }
    None
}

impl LivestockManager {
    /// How many records carry exactly the given status.
    fn count_with_status(&self, status: HealthStatus) -> (r: u64)
        ensures
            r == count_status(self.animals@, status),
    {
        let n = self.animals.len();
        let mut cnt: u64 = 0;
        let mut i: usize = 0;
        while i < n
            invariant
                n == self.animals@.len(),
                i <= n,
                cnt <= i,
                cnt == count_status(self.animals@.subrange(0, i as int), status),
            decreases n - i,
        {
            proof {
                assert(self.animals@.subrange(0, i + 1).drop_last() =~= self.animals@.subrange(
                    0,
                    i as int,
                ));
            }
            if self.animals[i].healthstatus == status {
                cnt = cnt + 1;
            }
            i = i + 1;
        }
        proof {
            assert(self.animals@.subrange(0, n as int) =~= self.animals@);
        }
        cnt
    }

    /// The per-breed counts: one entry per distinct lowercase breed form,
    /// in order of first occurrence.
    fn breed_counts(&self) -> (acc: Vec<(String, u64)>)
        ensures
            acc@.len() == breed_keys(self.animals@).len(),
            forall|p: int|
                0 <= p < acc@.len() ==> (#[trigger] acc@[p]).0@ == breed_keys(self.animals@)[p]
                    && acc@[p].1 == count_breed(self.animals@, breed_keys(self.animals@)[p]),
    {
        let n = self.animals.len();
        let mut acc: Vec<(String, u64)> = Vec::new();
        let mut i: usize = 0;
        while i < n
            invariant
                n == self.animals@.len(),
                i <= n,
                acc@.len() == breed_keys(self.animals@.subrange(0, i as int)).len(),
                forall|p: int|
                    0 <= p < acc@.len() ==> (#[trigger] acc@[p]).0@ == breed_keys(
                        self.animals@.subrange(0, i as int),
                    )[p] && acc@[p].1 == count_breed(
                        self.animals@.subrange(0, i as int),
                        breed_keys(self.animals@.subrange(0, i as int))[p],
                    ) && acc@[p].1 <= i,
            decreases n - i,
        {
            let ghost prev = self.animals@.subrange(0, i as int);
            let ghost cur = self.animals@.subrange(0, i + 1);
            proof {
                assert(cur.drop_last() =~= prev);
                assert(cur.last() == self.animals@[i as int]);
                lemma_breed_keys_distinct(prev);
            }
            let lowered = host::lowercase(self.animals[i].breed.as_str());
            if let Some(p) = find_key(&acc, &lowered) {
                proof {
                    assert(breed_keys(prev).contains(lowered@)) by {
                        assert(breed_keys(prev)[p as int] == lowered@);
                    }
                    assert(breed_keys(cur) =~= breed_keys(prev));
                }
                let entry_key = acc[p].0.clone();
                let count = acc[p].1;
                acc.set(p, (entry_key, count + 1));
                proof {
                    assert forall|q: int| 0 <= q < acc@.len() implies (#[trigger] acc@[q]).0@
                        == breed_keys(cur)[q] && acc@[q].1 == count_breed(
                        cur,
                        breed_keys(cur)[q],
                    ) && acc@[q].1 <= i + 1 by {
                        if q != p {
                            assert(breed_keys(cur)[q] != lowered@) by {
                                lemma_breed_keys_distinct(prev);
                                assert(breed_keys(prev)[p as int] == lowered@);
                            }
                        }
                    }
                }
            } else {
                proof {
                    assert(!breed_keys(prev).contains(lowered@)) by {
                        if breed_keys(prev).contains(lowered@) {
                            let q = choose|q: int|
                                0 <= q < breed_keys(prev).len() && breed_keys(prev)[q]
                                    == lowered@;
                            assert(acc@[q].0@ == lowered@);
                        }
                    }
                    assert(breed_keys(cur) =~= breed_keys(prev).push(lowered@));
                    lemma_absent_breed_count_zero(prev, lowered@);
                }
                acc.push((lowered, 1));
                proof {
                    assert forall|q: int| 0 <= q < acc@.len() implies (#[trigger] acc@[q]).0@
                        == breed_keys(cur)[q] && acc@[q].1 == count_breed(
                        cur,
                        breed_keys(cur)[q],
                    ) && acc@[q].1 <= i + 1 by {
                        if q + 1 < acc@.len() {
                            assert(breed_keys(cur)[q] == breed_keys(prev)[q]);
                        } else {
                            assert(breed_keys(cur)[q] == lowered@);
                        }
                    }
                }
            }
            i = i + 1;
        }
        proof {
            assert(self.animals@.subrange(0, n as int) =~= self.animals@);
        }
        acc
    }

    /// The statistics of the registry as a keyed list of counts: first
    /// "total_animals", then "health_<status>" for each status that
    /// occurs (in the fixed status order), then "breed_<breed lowercase>"
    /// for each breed form that occurs, in order of first occurrence.
    pub fn get_statistics(&self) -> (r: Vec<(String, u64)>)
        ensures
            r@.len() == 1 + status_entries(self.animals@).len() + breed_keys(self.animals@).len(),
            r@[0].0@ == "total_animals"@ && r@[0].1 == self.animals@.len(),
            forall|i: int|
                0 <= i < status_entries(self.animals@).len() ==> (#[trigger] r@[1 + i]).0@
                    == status_entries(self.animals@)[i].0 && r@[1 + i].1 == status_entries(
                    self.animals@,
                )[i].1,
            forall|q: int|
                0 <= q < breed_keys(self.animals@).len() ==> (#[trigger] r@[1 + status_entries(
                    self.animals@,
                ).len() + q]).0@ == "breed_"@ + breed_keys(self.animals@)[q] && r@[1
                    + status_entries(self.animals@).len() + q].1 == count_breed(
                    self.animals@,
                    breed_keys(self.animals@)[q],
                ),
    {
        let ghost s = self.animals@;
        let mut r: Vec<(String, u64)> = Vec::new();
        r.push(("total_animals".to_owned(), self.animals.len() as u64));
        let ghost e1 = status_entry(s, HealthStatus::Healthy);
        let ghost e2 = status_entry(s, HealthStatus::Sick);
        let ghost e3 = status_entry(s, HealthStatus::Critical);
        let ghost e4 = status_entry(s, HealthStatus::Recovering);
        let c1 = self.count_with_status(HealthStatus::Healthy);
        if c1 > 0 {
            r.push((health_key_text(HealthStatus::Healthy), c1));
        }
        let c2 = self.count_with_status(HealthStatus::Sick);
        if c2 > 0 {
            r.push((health_key_text(HealthStatus::Sick), c2));
        }
        let c3 = self.count_with_status(HealthStatus::Critical);
        if c3 > 0 {
            r.push((health_key_text(HealthStatus::Critical), c3));
        }
        let c4 = self.count_with_status(HealthStatus::Recovering);
        if c4 > 0 {
            r.push((health_key_text(HealthStatus::Recovering), c4));
        }
        proof {
            assert(status_entries(s) == e1 + e2 + e3 + e4);
            assert(r@.len() == 1 + status_entries(s).len());
            assert forall|i: int|
                0 <= i < status_entries(s).len() implies (#[trigger] r@[1 + i]).0@
                == status_entries(s)[i].0 && r@[1 + i].1 == status_entries(s)[i].1 by {
                assert(status_entries(s)[i] == (e1 + e2 + e3 + e4)[i]);
            }
        }
        let ghost base = r@.len() as int;
        let breeds = self.breed_counts();
        let m = breeds.len();
        let mut q: usize = 0;
        while q < m
            invariant
                m == breeds@.len(),
                q <= m,
                m == breed_keys(s).len(),
                forall|p: int|
                    0 <= p < m ==> (#[trigger] breeds@[p]).0@ == breed_keys(s)[p] && breeds@[p].1
                        == count_breed(s, breed_keys(s)[p]),
                r@.len() == base + q,
                base == 1 + status_entries(s).len(),
                forall|p: int|
                    0 <= p < q ==> (#[trigger] r@[base + p]).0@ == "breed_"@ + breed_keys(s)[p]
                        && r@[base + p].1 == count_breed(s, breed_keys(s)[p]),
                forall|i: int|
                    0 <= i < status_entries(s).len() ==> (#[trigger] r@[1 + i]).0@
                        == status_entries(s)[i].0 && r@[1 + i].1 == status_entries(s)[i].1,
                r@[0].0@ == "total_animals"@ && r@[0].1 == s.len(),
            decreases m - q,
        {
            let prefixed = "breed_".to_owned().concat(breeds[q].0.as_str());
            r.push((prefixed, breeds[q].1));
            q = q + 1;
        }
        r
    }
}

} // verus!
