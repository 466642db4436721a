//! Partitions and the partition map.
//!
//! A partition is a range of entity-id allocations; new entity ids are drawn
//! by advancing the partition's `index`. The partition map is cloned into
//! each in-progress transaction and written back only on a successful
//! commit, so a failed transaction never leaks a partially advanced
//! allocation.

use vstd::prelude::*;
use vstd::pervasive::VecAdditionalExecFns;
use crate::types::Entid;

verus! {

/// One allocation record: ids are drawn from `index` upwards, staying
/// inside `[start, end]`.
#[derive(Clone, Copy, PartialEq, Eq, Structural, Debug)]
pub struct Partition {
    pub start: Entid,
    pub end: Entid,
    pub index: Entid,
}

impl Partition {
    /// The allocation record is inside its range and never negative.
    pub open spec fn wf(&self) -> bool {
        0 <= self.start <= self.index <= self.end
    }

    pub fn new(start: Entid, end: Entid, index: Entid) -> (r: Partition)
        requires
            0 <= start <= index <= end,
        ensures
            r == (Partition { start, end, index }),
            r.wf(),
    {
        Partition { start, end, index }
    }
}

/// A partition under its name, for example `:db.part/user`.
#[derive(Debug)]
pub struct NamedPartition {
    pub name: String,
    pub partition: Partition,
}

/// The mathematical value of a [`NamedPartition`].
#[verifier::ext_equal]
pub struct NamedPartitionV {
    pub name: Seq<char>,
    pub partition: Partition,
}

impl View for NamedPartition {
    type V = NamedPartitionV;

    open spec fn view(&self) -> NamedPartitionV {
        NamedPartitionV { name: self.name@, partition: self.partition }
    }
}

impl Clone for NamedPartition {
    fn clone(&self) -> (r: Self)
        ensures
            r.name@ == self.name@,
            r.partition == self.partition,
    {
        NamedPartition { name: self.name.clone(), partition: self.partition }
    }
}

/// Mapping from partition name to its allocation record.
#[derive(Debug)]
pub struct PartitionMap {
    pub entries: Vec<NamedPartition>,
}

impl View for PartitionMap {
    type V = Seq<NamedPartitionV>;

    open spec fn view(&self) -> Seq<NamedPartitionV> {
        self.entries@.map_values(|e: NamedPartition| e@)
    }
}

/// Some entry of the map value is registered under `name`.
pub open spec fn pm_contains(s: Seq<NamedPartitionV>, name: Seq<char>) -> bool {
    exists|i: int| 0 <= i < s.len() && s[i].name == name
}

/// The allocation record a map value registers under `name`, if any.
pub open spec fn pm_get(s: Seq<NamedPartitionV>, name: Seq<char>) -> Option<Partition> {
    if pm_contains(s, name) {
        let i = choose|i: int| 0 <= i < s.len() && s[i].name == name;
        Some(s[i].partition)
    } else {
        None
    }
}

/// One successful allocation of `n` ids in partition `name`: the record's
/// `index` advances by exactly `n` and every other partition is untouched.
pub open spec fn alloc_step(
    pre: Seq<NamedPartitionV>,
    post: Seq<NamedPartitionV>,
    name: Seq<char>,
    n: int,
) -> bool {
    &&& 0 <= n
    &&& pm_get(pre, name) is Some
    &&& {
        let p = pm_get(pre, name)->Some_0;
        let q = pm_get(post, name)->Some_0;
        &&& pm_get(post, name) is Some
        &&& q.start == p.start
        &&& q.end == p.end
        &&& q.index == p.index + n
    }
    &&& forall|m: Seq<char>| m != name ==> pm_get(post, m) == pm_get(pre, m)
}

/// `post` is `pre` after the given sequence of successful allocations,
/// each an [`alloc_step`] of some count in some partition.
pub open spec fn allocs_applied(
    pre: Seq<NamedPartitionV>,
    post: Seq<NamedPartitionV>,
    evs: Seq<(Seq<char>, int)>,
) -> bool
    decreases evs.len(),
{
    if evs.len() == 0 {
        post == pre
    } else {
        exists|mid: Seq<NamedPartitionV>|
            #[trigger] alloc_step(pre, mid, evs[0].0, evs[0].1)
                && allocs_applied(mid, post, evs.drop_first())
    }
}

/// The total number of ids the allocation sequence draws from `name`.
pub open spec fn total_allocated(evs: Seq<(Seq<char>, int)>, name: Seq<char>) -> int
    decreases evs.len(),
{
    if evs.len() == 0 {
        0
    } else {
        (if evs[0].0 == name { evs[0].1 } else { 0 }) + total_allocated(evs.drop_first(), name)
    }
}

/// After any sequence of successful allocations, each partition's `index`
/// equals its initial `index` plus the total number of ids drawn from that
/// partition, and its range is unchanged.
pub proof fn lemma_allocation_totals(
    pre: Seq<NamedPartitionV>,
    post: Seq<NamedPartitionV>,
    evs: Seq<(Seq<char>, int)>,
    name: Seq<char>,
)
    requires
        allocs_applied(pre, post, evs),
        pm_get(pre, name) is Some,
    ensures
        pm_get(post, name) is Some,
        pm_get(post, name)->Some_0.index
            == pm_get(pre, name)->Some_0.index + total_allocated(evs, name),
        pm_get(post, name)->Some_0.start == pm_get(pre, name)->Some_0.start,
        pm_get(post, name)->Some_0.end == pm_get(pre, name)->Some_0.end,
    decreases evs.len(),
{
    if evs.len() == 0 {
        assert(total_allocated(evs, name) == 0);
    } else {
        let mid = choose|mid: Seq<NamedPartitionV>|
            #[trigger] alloc_step(pre, mid, evs[0].0, evs[0].1)
                && allocs_applied(mid, post, evs.drop_first());
        lemma_allocation_totals(mid, post, evs.drop_first(), name);
    }
}

impl PartitionMap {
    /// The number of entries.
    pub open spec fn spec_len(&self) -> nat {
        self@.len()
    }

    /// The name of the entry at `i`.
    pub open spec fn name_at(&self, i: int) -> Seq<char> {
        self@[i].name
    }

    /// The allocation record of the entry at `i`.
    pub open spec fn partition_at(&self, i: int) -> Partition {
        self@[i].partition
    }

    /// Some partition is registered under `name`.
    pub open spec fn contains_name(&self, name: Seq<char>) -> bool {
        pm_contains(self@, name)
    }

    /// The allocation record registered under `name`, if any.
    pub open spec fn spec_get(&self, name: Seq<char>) -> Option<Partition> {
        pm_get(self@, name)
    }

    /// Names are distinct and every record is inside its range.
    pub open spec fn wf(&self) -> bool {
        &&& forall|i: int, j: int|
            0 <= i < j < self.spec_len() ==> self.name_at(i) != self.name_at(j)
        &&& forall|i: int| 0 <= i < self.spec_len() ==> (#[trigger] self.partition_at(i)).wf()
    }

    proof fn lemma_get_at(&self, i: int)
        requires
            self.wf(),
            0 <= i < self.spec_len(),
        ensures
            self.spec_get(self.name_at(i)) == Some(self.partition_at(i)),
    {
        let s = self@;
        let name = s[i].name;
        assert(pm_contains(s, name));
        let j = choose|j: int| 0 <= j < s.len() && s[j].name == name;
        if i < j {
            assert(self.name_at(i) != self.name_at(j));
        } else if j < i {
            assert(self.name_at(j) != self.name_at(i));
        }
    }

    /// An empty map.
    pub fn new() -> (r: PartitionMap)
        ensures
            r.wf(),
            r.spec_len() == 0,
            forall|n: Seq<char>| r.spec_get(n) is None,
    {
        PartitionMap { entries: Vec::new() }
    }

    fn find(&self, name: &str) -> (r: Option<usize>)
        requires
            self.wf(),
        ensures
            match r {
                Some(i) => i < self.spec_len() && self.name_at(i as int) == name@
                    && self.spec_get(name@) == Some(self.partition_at(i as int)),
                None => !self.contains_name(name@),
            },
    {
        let owned = name.to_owned();
        let n = self.entries.len();
        for i in 0..n
            invariant
                n == self.spec_len(),
                self.wf(),
                owned@ == name@,
                forall|j: int| 0 <= j < i ==> self.name_at(j) != name@,
        {
            if self.entries[i].name == owned {
                proof {
                    assert(self.name_at(i as int) == name@);
                    self.lemma_get_at(i as int);
                }
                return Some(i);
            }
        }
        proof {
            assert forall|j: int| 0 <= j < self@.len() implies self@[j].name != name@ by {
                assert(self.name_at(j) != name@);
            }
        }
        None
    }

    /// Look a partition up by name.
    pub fn get(&self, name: &str) -> (r: Option<&Partition>)
        requires
            self.wf(),
        ensures
            match r {
                Some(p) => self.spec_get(name@) == Some(*p),
                None => self.spec_get(name@) is None,
            },
    {
        match self.find(name) {
            Some(i) => Some(&self.entries[i].partition),
            None => None,
        }
    }

    /// Register `p` under `name`, replacing an existing record of that name.
    pub fn set(&mut self, name: &str, p: Partition)
        requires
            old(self).wf(),
            p.wf(),
        ensures
            final(self).wf(),
            final(self).spec_get(name@) == Some(p),
            forall|n: Seq<char>|
                n != name@ ==> final(self).spec_get(n) == old(self).spec_get(n),
    {
        let found = self.find(name);
        match found {
            Some(i) => {
                let nm = self.entries[i].name.clone();
                self.entries.set(i, NamedPartition { name: nm, partition: p });
                proof {
                    assert(forall|j: int| 0 <= j < self.spec_len()
                        ==> self.name_at(j) == old(self).name_at(j));
                    assert(forall|j: int| 0 <= j < self.spec_len() && j != i
                        ==> self.partition_at(j) == old(self).partition_at(j));
                    assert(self.partition_at(i as int) == p);
                    assert(self.wf());
                    assert forall|n: Seq<char>| n != name@ implies
                        self.spec_get(n) == old(self).spec_get(n) by {
                        Self::lemma_same_entries_get(old(self), self, n);
                    }
                    self.lemma_get_at(i as int);
                }
            },
            None => {
                self.entries.push(NamedPartition { name: name.to_owned(), partition: p });
                proof {
                    let k = self.spec_len() - 1;
                    assert(self.name_at(k) == name@);
                    assert(forall|j: int| 0 <= j < k
                        ==> self.name_at(j) == old(self).name_at(j)
                            && self.partition_at(j) == old(self).partition_at(j));
                    assert(forall|j: int| 0 <= j < k ==> self.name_at(j) != name@);
                    assert(self.wf());
                    assert forall|n: Seq<char>| n != name@ implies
                        self.spec_get(n) == old(self).spec_get(n) by {
                        Self::lemma_same_entries_get(old(self), self, n);
                    }
                    self.lemma_get_at(k);
                }
            },
        }
    }

    /// Two maps that agree on all entries naming `n` agree on `spec_get(n)`.
    proof fn lemma_same_entries_get(a: &PartitionMap, b: &PartitionMap, n: Seq<char>)
        requires
            forall|i: int|
                0 <= i < a.spec_len() && a.name_at(i) == n
                    ==> 0 <= i < b.spec_len() && b.name_at(i) == n
                        && a.partition_at(i) == b.partition_at(i),
            forall|i: int|
                0 <= i < b.spec_len() && b.name_at(i) == n
                    ==> 0 <= i < a.spec_len() && a.name_at(i) == n
                        && a.partition_at(i) == b.partition_at(i),
            a.wf(),
            b.wf(),
        ensures
            a.spec_get(n) == b.spec_get(n),
    {
        if a.contains_name(n) {
            let i = choose|i: int| 0 <= i < a@.len() && a@[i].name == n;
            assert(0 <= i < a.spec_len() && a.name_at(i) == n);
            assert(0 <= i < b.spec_len() && b.name_at(i) == n);
            a.lemma_get_at(i);
            b.lemma_get_at(i);
        } else if b.contains_name(n) {
            let i = choose|i: int| 0 <= i < b@.len() && b@[i].name == n;
            assert(0 <= i < b.spec_len() && b.name_at(i) == n);
            assert(0 <= i < a.spec_len() && a.name_at(i) == n);
            assert(pm_contains(a@, n));
        }
    }

    /// Draw `n` consecutive entity ids from partition `name`.
    ///
    /// On success the result is the first id drawn (the ids are
    /// `r, r+1, ..., r+n-1`) and the partition's `index` has advanced by
    /// `n`. Allocation fails, leaving the map untouched, exactly when the
    /// partition is absent or has fewer than `n` ids left.
    pub fn allocate_entids(&mut self, name: &str, n: u64) -> (r: Option<Entid>)
        requires
            old(self).wf(),
        ensures
            final(self).wf(),
            match r {
                Some(first) => {
                    &&& old(self).spec_get(name@) is Some
                    &&& first == old(self).spec_get(name@)->Some_0.index
                    &&& n <= old(self).spec_get(name@)->Some_0.end - first
                    &&& alloc_step(old(self)@, final(self)@, name@, n as int)
                },
                None => {
                    &&& *final(self) == *old(self)
                    &&& (old(self).spec_get(name@) is Some ==>
                        n > old(self).spec_get(name@)->Some_0.end
                            - old(self).spec_get(name@)->Some_0.index)
                },
            },
    {
        let found = self.find(name);
        match found {
            Some(i) => {
                let p = self.entries[i].partition;
                if n <= (p.end - p.index) as u64 {
                    let next = Partition { start: p.start, end: p.end, index: p.index + n as i64 };
                    let nm = self.entries[i].name.clone();
                    self.entries.set(i, NamedPartition { name: nm, partition: next });
                    proof {
                        assert(forall|j: int| 0 <= j < self.spec_len()
                            ==> self.name_at(j) == old(self).name_at(j));
                        assert(forall|j: int| 0 <= j < self.spec_len() && j != i
                            ==> self.partition_at(j) == old(self).partition_at(j));
                        assert(self.partition_at(i as int) == next);
                        assert(self.wf());
                        assert forall|m: Seq<char>| m != name@ implies
                            self.spec_get(m) == old(self).spec_get(m) by {
                            Self::lemma_same_entries_get(old(self), self, m);
                        }
                        self.lemma_get_at(i as int);
                        assert(pm_get(self@, name@) == Some(next));
                        assert(pm_get(old(self)@, name@) == Some(p));
                        assert forall|m: Seq<char>| m != name@ implies
                            pm_get(self@, m) == pm_get(old(self)@, m) by {
                            assert(self.spec_get(m) == old(self).spec_get(m));
                        }
                        assert(alloc_step(old(self)@, self@, name@, n as int));
                    }
                    Some(p.index)
                } else {
                    None
                }
            },
            None => None,
        }
    }
}

impl Clone for PartitionMap {
    fn clone(&self) -> (r: Self)
        ensures
            r@ == self@,
            self.wf() ==> r.wf(),
            self.wf() ==> forall|n: Seq<char>| r.spec_get(n) == self.spec_get(n),
    {
        let mut entries: Vec<NamedPartition> = Vec::new();
        let len = self.entries.len();
        for i in 0..len
            invariant
                len == self.spec_len(),
                entries@.len() == i,
                forall|j: int| 0 <= j < i
                    ==> entries@[j].name@ == self.name_at(j)
                        && entries@[j].partition == self.partition_at(j),
        {
            entries.push(self.entries[i].clone());
        }
        let r = PartitionMap { entries };
        proof {
            assert forall|j: int| 0 <= j < r@.len() implies r@[j] == self@[j] by {
                assert(entries@[j].name@ == self.name_at(j));
                assert(entries@[j].partition == self.partition_at(j));
                assert(r@[j] == entries@[j]@);
                assert(r@[j] =~= self@[j]);
            }
            assert(r@ =~= self@);
            if self.wf() {
                assert forall|i: int, j: int|
                    0 <= i < j < r.spec_len() implies r.name_at(i) != r.name_at(j) by {
                    assert(self.name_at(i) != self.name_at(j));
                }
                assert forall|i: int| 0 <= i < r.spec_len() implies
                    (#[trigger] r.partition_at(i)).wf() by {
                    assert(self.partition_at(i).wf());
                }
                assert forall|n: Seq<char>| r.spec_get(n) == self.spec_get(n) by {
                    Self::lemma_clone_get(self, &r, n);
                }
            }
        }
        r
    }
}

impl PartitionMap {
    /// Well-formed maps with entrywise equal names and records agree on
    /// every lookup.
    proof fn lemma_clone_get(a: &PartitionMap, b: &PartitionMap, n: Seq<char>)
        requires
            a.wf(),
            a.spec_len() == b.spec_len(),
            forall|i: int| 0 <= i < a.spec_len()
                ==> a.name_at(i) == b.name_at(i) && a.partition_at(i) == b.partition_at(i),
        ensures
            a.spec_get(n) == b.spec_get(n),
    {
        if a.contains_name(n) {
            let i = choose|i: int| 0 <= i < a@.len() && a@[i].name == n;
            assert(0 <= i < a.spec_len() && a.name_at(i) == n);
            assert(0 <= i < b.spec_len() && b.name_at(i) == n);
            assert(pm_contains(b@, n));
            let j = choose|j: int| 0 <= j < b@.len() && b@[j].name == n;
            assert(a.name_at(j) == n);
            if i < j {
                assert(a.name_at(i) != a.name_at(j));
            } else if j < i {
                assert(a.name_at(j) != a.name_at(i));
            }
        } else {
            if b.contains_name(n) {
                let i = choose|i: int| 0 <= i < b@.len() && b@[i].name == n;
                assert(0 <= i < b.spec_len() && b.name_at(i) == n);
                assert(0 <= i < a.spec_len() && a.name_at(i) == n);
                assert(pm_contains(a@, n));
            }
        }
    }
}

} // verus!
