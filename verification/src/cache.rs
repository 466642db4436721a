//! The attribute-value cache.
//!
//! An attribute is either absent from the cache, registered eagerly (all of
//! its values are supplied when it is registered) or registered lazily
//! (values are remembered as lookups bring them in). Registration is
//! idempotent; deregistration of an absent attribute is an error.

use vstd::prelude::*;
use crate::errors::Error;
use crate::types::{Entid, TypedValue, TypedValueV};

verus! {

/// What a cache request asks for.
#[derive(Clone, Copy, PartialEq, Eq, Structural, Debug)]
pub enum CacheAction {
    Register,
    Deregister,
}

/// How a registered attribute is populated.
#[derive(Clone, Copy, PartialEq, Eq, Structural, Debug)]
pub enum CacheMode {
    Eager,
    Lazy,
}

/// The `(entity, value)` pairs held for one registered attribute.
#[derive(Debug)]
pub struct CachedAttribute {
    pub attr: Entid,
    pub mode: CacheMode,
    pub pairs: Vec<(Entid, TypedValue)>,
}

/// The mathematical value of a [`CachedAttribute`].
#[verifier::ext_equal]
pub struct CachedAttributeV {
    pub attr: Entid,
    pub mode: CacheMode,
    pub pairs: Seq<(Entid, TypedValueV)>,
}

/// The mathematical value of a sequence of `(entity, value)` pairs.
pub open spec fn view_pairs(v: Seq<(Entid, TypedValue)>) -> Seq<(Entid, TypedValueV)> {
    v.map_values(|p: (Entid, TypedValue)| (p.0, p.1@))
}

impl View for CachedAttribute {
    type V = CachedAttributeV;

    open spec fn view(&self) -> CachedAttributeV {
        CachedAttributeV { attr: self.attr, mode: self.mode, pairs: view_pairs(self.pairs@) }
    }
}

/// The values recorded for entity `e`, in the order the pairs were added.
pub open spec fn values_for(pairs: Seq<(Entid, TypedValueV)>, e: Entid) -> Seq<TypedValueV>
    decreases pairs.len(),
{
    if pairs.len() == 0 {
        Seq::empty()
    } else {
        let rest = values_for(pairs.drop_last(), e);
        if pairs.last().0 == e {
            rest.push(pairs.last().1)
        } else {
            rest
        }
    }
}

/// The first value recorded for entity `e`, if any: what a cardinality-one
/// lookup returns.
pub open spec fn first_value_for(pairs: Seq<(Entid, TypedValueV)>, e: Entid) -> Option<
    TypedValueV,
> {
    let vs = values_for(pairs, e);
    if vs.len() == 0 {
        None
    } else {
        Some(vs[0])
    }
}

proof fn lemma_values_empty(pairs: Seq<(Entid, TypedValueV)>, e: Entid)
    requires
        forall|j: int| 0 <= j < pairs.len() ==> (#[trigger] pairs[j]).0 != e,
    ensures
        values_for(pairs, e) == Seq::<TypedValueV>::empty(),
    decreases pairs.len(),
{
    if pairs.len() > 0 {
        lemma_values_empty(pairs.drop_last(), e);
    }
}

proof fn lemma_first_value(pairs: Seq<(Entid, TypedValueV)>, e: Entid, i: int)
    requires
        0 <= i < pairs.len(),
        pairs[i].0 == e,
        forall|j: int| 0 <= j < i ==> (#[trigger] pairs[j]).0 != e,
    ensures
        first_value_for(pairs, e) == Some(pairs[i].1),
    decreases pairs.len(),
{
    if i == pairs.len() - 1 {
        lemma_values_empty(pairs.drop_last(), e);
    } else {
        lemma_first_value(pairs.drop_last(), e, i);
    }
}

/// The in-memory attribute cache.
#[derive(Debug)]
pub struct AttributeCacher {
    pub entries: Vec<CachedAttribute>,
}

impl View for AttributeCacher {
    type V = Seq<CachedAttributeV>;

    open spec fn view(&self) -> Seq<CachedAttributeV> {
        self.entries@.map_values(|c: CachedAttribute| c@)
    }
}

/// Some entry caches `attr`.
pub open spec fn cache_contains(c: Seq<CachedAttributeV>, attr: Entid) -> bool {
    exists|i: int| 0 <= i < c.len() && c[i].attr == attr
}

/// The entry caching `attr`, if any.
pub open spec fn cache_entry_for(c: Seq<CachedAttributeV>, attr: Entid) -> Option<
    CachedAttributeV,
> {
    if cache_contains(c, attr) {
        Some(c[choose|i: int| 0 <= i < c.len() && c[i].attr == attr])
    } else {
        None
    }
}

/// What one registration does: a present attribute is left exactly as it
/// was, an absent one gains an entry whose pairs are the fetched values for
/// an eager registration and empty for a lazy one.
pub open spec fn register_post(
    pre: Seq<CachedAttributeV>,
    post: Seq<CachedAttributeV>,
    attr: Entid,
    mode: CacheMode,
    fetched: Seq<(Entid, TypedValueV)>,
) -> bool {
    if cache_contains(pre, attr) {
        post == pre
    } else {
        post == pre.push(
            CachedAttributeV {
                attr,
                mode,
                pairs: if mode is Eager {
                    fetched
                } else {
                    Seq::empty()
                },
            },
        )
    }
}

/// What one deregistration does: the single entry caching `attr` is removed
/// and every other entry keeps its place.
pub open spec fn deregister_post(
    pre: Seq<CachedAttributeV>,
    post: Seq<CachedAttributeV>,
    attr: Entid,
) -> bool {
    exists|i: int|
        0 <= i < pre.len() && pre[i].attr == attr && post == #[trigger] pre.remove(i)
}

/// What recording one lazily fetched value does: the pair is appended to
/// the attribute's entry, every other entry is untouched, and a cache
/// without that attribute is left unchanged.
pub open spec fn record_post(
    pre: Seq<CachedAttributeV>,
    post: Seq<CachedAttributeV>,
    attr: Entid,
    entity: Entid,
    value: TypedValueV,
) -> bool {
    match cache_entry_for(pre, attr) {
        Some(entry) => {
            &&& cache_entry_for(post, attr) == Some(
                CachedAttributeV {
                    attr: entry.attr,
                    mode: entry.mode,
                    pairs: entry.pairs.push((entity, value)),
                },
            )
            &&& forall|a: Entid|
                a != attr ==> cache_entry_for(post, a) == cache_entry_for(pre, a)
        },
        None => post == pre,
    }
}

impl AttributeCacher {
    /// At most one entry per attribute.
    pub open spec fn wf(&self) -> bool {
        forall|i: int, j: int| 0 <= i < j < self@.len() ==> self@[i].attr != self@[j].attr
    }

    proof fn lemma_entry_at(&self, i: int)
        requires
            self.wf(),
            0 <= i < self@.len(),
        ensures
            cache_entry_for(self@, self@[i].attr) == Some(self@[i]),
    {
        let a = self@[i].attr;
        assert(cache_contains(self@, a));
        let j = choose|j: int| 0 <= j < self@.len() && self@[j].attr == a;
        if i < j {
            assert(self@[i].attr != self@[j].attr);
        } else if j < i {
            assert(self@[j].attr != self@[i].attr);
        }
    }

    /// An empty cache.
    pub fn new() -> (r: AttributeCacher)
        ensures
            r.wf(),
            r@.len() == 0,
    {
        AttributeCacher { entries: Vec::new() }
    }

    fn find(&self, attr: Entid) -> (r: Option<usize>)
        requires
            self.wf(),
        ensures
            match r {
                Some(i) => i < self@.len() && self@[i as int].attr == attr
                    && cache_entry_for(self@, attr) == Some(self@[i as int]),
                None => !cache_contains(self@, attr),
            },
    {
        let n = self.entries.len();
        for i in 0..n
            invariant
                n == self@.len(),
                self.wf(),
                forall|j: int| 0 <= j < i ==> self@[j].attr != attr,
        {
            if self.entries[i].attr == attr {
                proof {
                    self.lemma_entry_at(i as int);
                }
                return Some(i);
            }
        }
        None
    }

    /// The mode under which `attr` is registered, if it is.
    pub fn mode_for(&self, attr: Entid) -> (r: Option<CacheMode>)
        requires
            self.wf(),
        ensures
            match r {
                Some(m) => cache_entry_for(self@, attr) is Some
                    && m == cache_entry_for(self@, attr)->Some_0.mode,
                None => !cache_contains(self@, attr),
            },
    {
        match self.find(attr) {
            Some(i) => Some(self.entries[i].mode),
            None => None,
        }
    }

    /// Register `attr`. A second registration of a present attribute leaves
    /// the cache exactly as it was, whatever mode it asks for; a fresh
    /// eager registration installs `fetched` as the attribute's values and
    /// a fresh lazy registration starts with no remembered values.
    pub fn register_attribute(
        &mut self,
        attr: Entid,
        mode: CacheMode,
        fetched: Vec<(Entid, TypedValue)>,
    )
        requires
            old(self).wf(),
        ensures
            final(self).wf(),
            register_post(old(self)@, final(self)@, attr, mode, view_pairs(fetched@)),
    {
        let found = self.find(attr);
        if found.is_none() {
            let ghost pre = self@;
            let ghost fetched_v = view_pairs(fetched@);
            let pairs = if matches!(mode, CacheMode::Eager) {
                fetched
            } else {
                Vec::new()
            };
            self.entries.push(CachedAttribute { attr, mode, pairs });
            proof {
                let entry = CachedAttributeV {
                    attr,
                    mode,
                    pairs: if mode is Eager {
                        fetched_v
                    } else {
                        Seq::empty()
                    },
                };
                if !(mode is Eager) {
                    assert(self@[pre.len() as int].pairs =~= Seq::<(Entid, TypedValueV)>::empty());
                }
                assert(self@[pre.len() as int] =~= entry);
                assert(self@ =~= pre.push(entry));
                assert(self.wf());
            }
        }
    }

    /// Remove `attr` from the cache; an absent attribute is reported as
    /// [`Error::NotCached`].
    pub fn deregister_attribute(&mut self, attr: Entid) -> (r: Result<(), Error>)
        requires
            old(self).wf(),
        ensures
            final(self).wf(),
            match r {
                Ok(_) => deregister_post(old(self)@, final(self)@, attr),
                Err(e) => {
                    &&& !cache_contains(old(self)@, attr)
                    &&& *final(self) == *old(self)
                    &&& e is NotCached
                },
            },
            r is Ok <==> cache_contains(old(self)@, attr),
            !cache_contains(final(self)@, attr),
    {
        let found = self.find(attr);
        match found {
            Some(i) => {
                let ghost pre = self@;
                self.entries.remove(i);
                proof {
                    assert(self@ =~= pre.remove(i as int));
                    assert(self.wf());
                    if cache_contains(self@, attr) {
                        let k = choose|k: int| 0 <= k < self@.len() && self@[k].attr == attr;
                        if k < i {
                            assert(pre[k].attr == attr);
                        } else {
                            assert(pre[k + 1].attr == attr);
                        }
                    }
                }
                Ok(())
            },
            None => Err(Error::NotCached),
        }
    }

    /// The first cached value of `attr` for `entity`: what a
    /// cardinality-one lookup returns.
    pub fn get(&self, attr: Entid, entity: Entid) -> (r: Option<&TypedValue>)
        requires
            self.wf(),
        ensures
            match r {
                Some(v) => cache_entry_for(self@, attr) is Some && first_value_for(
                    cache_entry_for(self@, attr)->Some_0.pairs,
                    entity,
                ) == Some(v@),
                None => cache_entry_for(self@, attr) is None || first_value_for(
                    cache_entry_for(self@, attr)->Some_0.pairs,
                    entity,
                ) is None,
            },
    {
        let found = self.find(attr);
        match found {
            Some(i) => {
                let entry = &self.entries[i];
                let n = entry.pairs.len();
                for k in 0..n
                    invariant
                        n == entry.pairs@.len(),
                        entry@ == cache_entry_for(self@, attr)->Some_0,
                        cache_entry_for(self@, attr) is Some,
                        forall|j: int| 0 <= j < k ==> (#[trigger] entry@.pairs[j]).0 != entity,
                {
                    if entry.pairs[k].0 == entity {
                        proof {
                            lemma_first_value(entry@.pairs, entity, k as int);
                        }
                        return Some(&entry.pairs[k].1);
                    }
                }
                proof {
                    lemma_values_empty(entry@.pairs, entity);
                }
                None
            },
            None => None,
        }
    }

    /// All cached values of `attr` for `entity`, in insertion order, or
    /// nothing when the attribute is not registered.
    pub fn get_all(&self, attr: Entid, entity: Entid) -> (r: Option<Vec<TypedValue>>)
        requires
            self.wf(),
        ensures
            match r {
                Some(vs) => cache_entry_for(self@, attr) is Some
                    && vs@.map_values(|v: TypedValue| v@) == values_for(
                    cache_entry_for(self@, attr)->Some_0.pairs,
                    entity,
                ),
                None => cache_entry_for(self@, attr) is None,
            },
    {
        let found = self.find(attr);
        match found {
            Some(i) => {
                let entry = &self.entries[i];
                let mut out: Vec<TypedValue> = Vec::new();
                let n = entry.pairs.len();
                for k in 0..n
                    invariant
                        n == entry.pairs@.len(),
                        entry@ == cache_entry_for(self@, attr)->Some_0,
                        cache_entry_for(self@, attr) is Some,
                        out@.map_values(|v: TypedValue| v@) == values_for(
                            entry@.pairs.take(k as int),
                            entity,
                        ),
                {
                    let ghost prefix = entry@.pairs.take(k as int);
                    if entry.pairs[k].0 == entity {
                        out.push(entry.pairs[k].1.clone());
                    }
                    proof {
                        let next = entry@.pairs.take(k as int + 1);
                        assert(next.drop_last() =~= prefix);
                        assert(next.last() == entry@.pairs[k as int]);
                        assert(out@.map_values(|v: TypedValue| v@) =~= values_for(next, entity));
                    }
                }
                proof {
                    assert(entry@.pairs.take(n as int) =~= entry@.pairs);
                }
                Some(out)
            },
            None => None,
        }
    }

    /// Record a value brought in by a lazy lookup: the pair is appended to
    /// the attribute's entry, and a cache without that attribute is left
    /// unchanged.
    pub fn record_lookup(&mut self, attr: Entid, entity: Entid, value: TypedValue)
        requires
            old(self).wf(),
        ensures
            final(self).wf(),
            record_post(old(self)@, final(self)@, attr, entity, value@),
    {
        let found = self.find(attr);
        match found {
            Some(i) => {
                let ghost pre = self@;
                let mut entry = self.entries[i].clone();
                entry.pairs.push((entity, value));
                self.entries.set(i, entry);
                proof {
                    assert(self@.len() == pre.len());
                    assert(forall|j: int|
                        0 <= j < pre.len() && j != i ==> self@[j] == pre[j]);
                    let target = CachedAttributeV {
                        attr: pre[i as int].attr,
                        mode: pre[i as int].mode,
                        pairs: pre[i as int].pairs.push((entity, value@)),
                    };
                    assert(self@[i as int].pairs =~= target.pairs);
                    assert(self@[i as int] =~= target);
                    assert forall|a: int, b: int| 0 <= a < b < self@.len() implies
                        self@[a].attr != self@[b].attr by {
                        assert(pre[a].attr != pre[b].attr);
                        assert(self@[a].attr == pre[a].attr);
                        assert(self@[b].attr == pre[b].attr);
                    }
                    assert(self.wf());
                    self.lemma_entry_at(i as int);
                    assert forall|a: Entid| a != attr implies
                        cache_entry_for(self@, a) == cache_entry_for(pre, a) by {
                        Self::lemma_same_entries_entry(pre, self@, a);
                    }
                }
            },
            None => {},
        }
    }

    /// Two well-formed caches whose entries for `a` correspond agree on the
    /// lookup of `a`.
    proof fn lemma_same_entries_entry(
        pre: Seq<CachedAttributeV>,
        post: Seq<CachedAttributeV>,
        a: Entid,
    )
        requires
            pre.len() == post.len(),
            forall|i: int|
                0 <= i < pre.len() && pre[i].attr == a ==> post[i] == pre[i],
            forall|i: int|
                0 <= i < post.len() && post[i].attr == a ==> post[i] == pre[i],
            forall|i: int, j: int| 0 <= i < j < pre.len() ==> pre[i].attr != pre[j].attr,
            forall|i: int, j: int| 0 <= i < j < post.len() ==> post[i].attr != post[j].attr,
        ensures
            cache_entry_for(pre, a) == cache_entry_for(post, a),
    {
        if cache_contains(pre, a) {
            let i = choose|i: int| 0 <= i < pre.len() && pre[i].attr == a;
            assert(post[i] == pre[i]);
            assert(cache_contains(post, a));
            let j = choose|j: int| 0 <= j < post.len() && post[j].attr == a;
            assert(pre[j] == post[j]);
            if i < j {
                assert(pre[i].attr != pre[j].attr);
            } else if j < i {
                assert(pre[j].attr != pre[i].attr);
            }
        } else {
            if cache_contains(post, a) {
                let j = choose|j: int| 0 <= j < post.len() && post[j].attr == a;
                assert(pre[j].attr == a);
            }
        }
    }
}

impl Clone for CachedAttribute {
    fn clone(&self) -> (r: Self)
        ensures
            r@ == self@,
    {
        let mut pairs: Vec<(Entid, TypedValue)> = Vec::new();
        let n = self.pairs.len();
        for k in 0..n
            invariant
                n == self.pairs@.len(),
                pairs@.len() == k,
                forall|j: int| 0 <= j < k
                    ==> (#[trigger] pairs@[j]).0 == self.pairs@[j].0
                        && pairs@[j].1@ == self.pairs@[j].1@,
        {
            let p = &self.pairs[k];
            pairs.push((p.0, p.1.clone()));
        }
        let r = CachedAttribute { attr: self.attr, mode: self.mode, pairs };
        proof {
            assert(r@.pairs =~= self@.pairs);
            assert(r@ =~= self@);
        }
        r
    }
}

/// Registering an attribute twice, with the same mode and the same fetched
/// values, leaves the cache exactly as a single registration does.
pub proof fn lemma_register_idempotent(
    c1: Seq<CachedAttributeV>,
    c2: Seq<CachedAttributeV>,
    c3: Seq<CachedAttributeV>,
    attr: Entid,
    mode: CacheMode,
    fetched: Seq<(Entid, TypedValueV)>,
)
    requires
        register_post(c1, c2, attr, mode, fetched),
        register_post(c2, c3, attr, mode, fetched),
    ensures
        c3 == c2,
{
    if cache_contains(c1, attr) {
        assert(c2 == c1);
        assert(cache_contains(c2, attr));
    } else {
        let entry = CachedAttributeV {
            attr,
            mode,
            pairs: if mode is Eager {
                fetched
            } else {
                Seq::empty()
            },
        };
        assert(c2 == c1.push(entry));
        assert(c2[c1.len() as int].attr == attr);
        assert(cache_contains(c2, attr));
    }
}

} // verus!
