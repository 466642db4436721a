//! Connection metadata and the transaction lifecycle.
//!
//! A [`Conn`] owns the store's metadata — a generation counter, the
//! partition map and the schema snapshot — together with the attribute
//! cache. A writer begins a transaction by snapshotting the metadata and
//! taking the cache; it works on drafts, and on commit the metadata is
//! published atomically: the generation advances by exactly one, the draft
//! partition map and schema replace the current ones. A rollback, or a
//! commit that loses the generation race, leaves the metadata exactly as it
//! was before the transaction began.
//!
//! The backing store's own transaction (deferred for readers, immediate for
//! writers) is handled by the caller around these operations: the caller
//! begins it before [`Conn::begin_transaction`], and commits it between
//! [`InProgress::commit_check`] and [`InProgress::commit`]. A process that
//! shares one connection across threads likewise wraps it in its own lock;
//! the operations here are the critical sections such a lock guards.

use vstd::prelude::*;
use crate::cache::{
    cache_entry_for, deregister_post, first_value_for, record_post, register_post, values_for,
    view_pairs, AttributeCacher, CacheAction, CachedAttributeV, CacheMode,
};
use crate::errors::{BackingError, Error};
use crate::partition::{
    allocs_applied, lemma_allocation_totals, pm_get, total_allocated, NamedPartitionV,
    PartitionMap,
};
use crate::schema::{Attribute, Schema, SchemaEntryV};
use crate::types::{
    kw_render, view_opt, view_values, Entid, KnownEntid, NamespacedKeyword, TypedValue,
    TypedValueV, ValueType,
};

verus! {

/// What a successful transact returns: the id of the transaction entity and
/// the entids allocated for the user-supplied tempid placeholders.
#[derive(Debug, PartialEq, Eq)]
pub struct TxReport {
    pub tx_id: Entid,
    pub tempids: Vec<(String, Entid)>,
}

/// The mathematical value of a [`TxReport`].
#[verifier::ext_equal]
pub struct TxReportV {
    pub tx_id: Entid,
    pub tempids: Seq<(Seq<char>, Entid)>,
}

impl View for TxReport {
    type V = TxReportV;

    open spec fn view(&self) -> TxReportV {
        TxReportV {
            tx_id: self.tx_id,
            tempids: self.tempids@.map_values(|p: (String, Entid)| (p.0@, p.1)),
        }
    }
}

/// The entid resolved for `name`, if the report names it: the first binding
/// wins.
pub open spec fn spec_tempid(tempids: Seq<(Seq<char>, Entid)>, name: Seq<char>) -> Option<Entid>
    decreases tempids.len(),
{
    if tempids.len() == 0 {
        None
    } else if tempids[0].0 == name {
        Some(tempids[0].1)
    } else {
        spec_tempid(tempids.drop_first(), name)
    }
}

proof fn lemma_tempid_at(tempids: Seq<(Seq<char>, Entid)>, name: Seq<char>, i: int)
    requires
        0 <= i < tempids.len(),
        tempids[i].0 == name,
        forall|j: int| 0 <= j < i ==> (#[trigger] tempids[j]).0 != name,
    ensures
        spec_tempid(tempids, name) == Some(tempids[i].1),
    decreases i,
{
    if i > 0 {
        lemma_tempid_at(tempids.drop_first(), name, i - 1);
    }
}

proof fn lemma_tempid_absent(tempids: Seq<(Seq<char>, Entid)>, name: Seq<char>)
    requires
        forall|j: int| 0 <= j < tempids.len() ==> (#[trigger] tempids[j]).0 != name,
    ensures
        spec_tempid(tempids, name) is None,
    decreases tempids.len(),
{
    if tempids.len() > 0 {
        lemma_tempid_absent(tempids.drop_first(), name);
    }
}

impl TxReport {
    /// The entid allocated for a tempid placeholder.
    pub fn tempid(&self, name: &str) -> (r: Option<Entid>)
        ensures
            r == spec_tempid(self@.tempids, name@),
    {
        let owned = name.to_owned();
        let n = self.tempids.len();
        for i in 0..n
            invariant
                n == self.tempids@.len(),
                owned@ == name@,
                forall|j: int| 0 <= j < i ==> (#[trigger] self@.tempids[j]).0 != name@,
        {
            if self.tempids[i].0 == owned {
                proof {
                    lemma_tempid_at(self@.tempids, name@, i as int);
                }
                return Some(self.tempids[i].1);
            }
        }
        proof {
            lemma_tempid_absent(self@.tempids, name@);
        }
        None
    }
}

/// The metadata triple a reader observes under one lock acquisition.
#[derive(Debug)]
pub struct Metadata {
    pub generation: u64,
    pub partition_map: PartitionMap,
    pub schema: Schema,
}

/// The mathematical value of a [`Metadata`].
#[verifier::ext_equal]
pub struct MetadataV {
    pub generation: u64,
    pub partition_map: Seq<NamedPartitionV>,
    pub schema: Seq<SchemaEntryV>,
}

impl View for Metadata {
    type V = MetadataV;

    open spec fn view(&self) -> MetadataV {
        MetadataV {
            generation: self.generation,
            partition_map: self.partition_map@,
            schema: self.schema@,
        }
    }
}

impl Metadata {
    pub open spec fn wf(&self) -> bool {
        self.partition_map.wf() && self.schema.wf()
    }

    fn new(generation: u64, partition_map: PartitionMap, schema: Schema) -> (r: Metadata)
        ensures
            r@ == (MetadataV { generation, partition_map: partition_map@, schema: schema@ }),
            r.partition_map == partition_map,
            r.schema == schema,
    {
        Metadata { generation, partition_map, schema }
    }
}

/// The store connection: the authoritative metadata and the attribute
/// cache. The cache is absent exactly while a transaction holds it.
#[derive(Debug)]
pub struct Conn {
    pub metadata: Metadata,
    pub attribute_cache: Option<AttributeCacher>,
}

/// The mathematical value of a [`Conn`].
#[verifier::ext_equal]
pub struct ConnV {
    pub metadata: MetadataV,
    pub cache: Option<Seq<CachedAttributeV>>,
}

impl View for Conn {
    type V = ConnV;

    open spec fn view(&self) -> ConnV {
        ConnV {
            metadata: self.metadata@,
            cache: match self.attribute_cache {
                Some(c) => Some(c@),
                None => None,
            },
        }
    }
}

/// An in-progress, not yet committed, set of changes to the store: the
/// snapshot generation, the draft partition map and schema, and the cache
/// taken from the connection for the transaction's duration.
///
/// Terminate it with exactly one of [`InProgress::commit`] or
/// [`InProgress::rollback`]: both return the cache to the connection, and a
/// transaction that is merely dropped keeps it, leaving the connection busy.
#[derive(Debug)]
pub struct InProgress {
    pub generation: u64,
    pub partition_map: PartitionMap,
    pub schema: Schema,
    pub cache: AttributeCacher,
}

/// The mathematical value of an [`InProgress`].
#[verifier::ext_equal]
pub struct InProgressV {
    pub generation: u64,
    pub partition_map: Seq<NamedPartitionV>,
    pub schema: Seq<SchemaEntryV>,
    pub cache: Seq<CachedAttributeV>,
}

impl View for InProgress {
    type V = InProgressV;

    open spec fn view(&self) -> InProgressV {
        InProgressV {
            generation: self.generation,
            partition_map: self.partition_map@,
            schema: self.schema@,
            cache: self.cache@,
        }
    }
}

/// An in-progress set of reads: the same snapshot as a writer, exposing
/// only read operations, so the type system prevents mutation through a
/// read-only handle.
#[derive(Debug)]
pub struct InProgressRead(pub InProgress);

/// What beginning a transaction does on success: the metadata is untouched
/// and snapshotted into the transaction, and the cache moves from the
/// connection into the transaction.
pub open spec fn begin_ok(pre: ConnV, post: ConnV, ip: InProgressV) -> bool {
    &&& pre.cache is Some
    &&& post.metadata == pre.metadata
    &&& post.cache is None
    &&& ip.generation == pre.metadata.generation
    &&& ip.partition_map == pre.metadata.partition_map
    &&& ip.schema == pre.metadata.schema
    &&& ip.cache == pre.cache->Some_0
}

/// What a rollback does: the connection's metadata is exactly as it was and
/// the cache returns to the connection.
pub open spec fn rollback_post(ip: InProgressV, pre: ConnV, post: ConnV) -> bool {
    &&& post.metadata == pre.metadata
    &&& post.cache == Some(ip.cache)
}

/// What a successful commit does: the generation advances by exactly one,
/// the draft partition map and schema are published, and the cache returns
/// to the connection.
pub open spec fn commit_ok(ip: InProgressV, pre: ConnV, post: ConnV) -> bool {
    &&& ip.generation == pre.metadata.generation
    &&& post.metadata.generation == pre.metadata.generation + 1
    &&& post.metadata.partition_map == ip.partition_map
    &&& post.metadata.schema == ip.schema
    &&& post.cache == Some(ip.cache)
}

/// What a commit that loses the generation race does: nothing is published.
pub open spec fn commit_race(ip: InProgressV, pre: ConnV, post: ConnV) -> bool {
    &&& ip.generation != pre.metadata.generation
    &&& post.metadata == pre.metadata
    &&& post.cache == Some(ip.cache)
}

impl Conn {
    pub open spec fn wf(&self) -> bool {
        &&& self.metadata.wf()
        &&& match self.attribute_cache {
            Some(c) => c.wf(),
            None => true,
        }
    }

    /// A connection over a freshly bootstrapped store: the initial
    /// partition map and schema at generation zero, with an empty cache.
    pub fn new(partition_map: PartitionMap, schema: Schema) -> (r: Conn)
        requires
            partition_map.wf(),
            schema.wf(),
        ensures
            r.wf(),
            r@.metadata.generation == 0,
            r@.metadata.partition_map == partition_map@,
            r@.metadata.schema == schema@,
            r@.cache == Some(Seq::<CachedAttributeV>::empty()),
    {
        let r = Conn {
            metadata: Metadata::new(0, partition_map, schema),
            attribute_cache: Some(AttributeCacher::new()),
        };
        proof {
            assert(r@.cache->Some_0 =~= Seq::<CachedAttributeV>::empty());
        }
        r
    }

    /// A clone of the current schema snapshot.
    pub fn current_schema(&self) -> (r: Schema)
        ensures
            r@ == self@.metadata.schema,
    {
        self.metadata.schema.clone()
    }

    /// The attribute cache, absent while a transaction holds it.
    pub fn attribute_cache(&self) -> (r: &Option<AttributeCacher>)
        ensures
            r == &self.attribute_cache,
    {
        &self.attribute_cache
    }

    /// Begin a writer transaction: snapshot the generation, clone the
    /// partition map and schema as drafts, and take the cache. While
    /// another transaction holds the cache the store is busy.
    pub fn begin_transaction(&mut self) -> (r: Result<InProgress, Error>)
        requires
            old(self).wf(),
        ensures
            final(self).wf(),
            final(self).metadata == old(self).metadata,
            final(self)@.metadata == old(self)@.metadata,
            match r {
                Ok(ip) => begin_ok(old(self)@, final(self)@, ip@) && ip.wf(),
                Err(e) => {
                    &&& e == Error::Backing(BackingError::Busy)
                    &&& old(self)@.cache is None
                    &&& final(self)@ == old(self)@
                },
            },
    {
        let taken = self.attribute_cache.take();
        match taken {
            Some(cache) => {
                let ip = InProgress {
                    generation: self.metadata.generation,
                    partition_map: self.metadata.partition_map.clone(),
                    schema: self.metadata.schema.clone(),
                    cache,
                };
                proof {
                    assert(final(self)@ =~= (ConnV {
                        metadata: old(self)@.metadata,
                        cache: None,
                    }));
                }
                Ok(ip)
            },
            None => {
                proof {
                    assert(final(self)@ =~= old(self)@);
                }
                Err(Error::Backing(BackingError::Busy))
            },
        }
    }

    /// Begin a read-only transaction over the same snapshot.
    pub fn begin_read(&mut self) -> (r: Result<InProgressRead, Error>)
        requires
            old(self).wf(),
        ensures
            final(self).wf(),
            final(self).metadata == old(self).metadata,
            final(self)@.metadata == old(self)@.metadata,
            match r {
                Ok(ip) => begin_ok(old(self)@, final(self)@, ip.0@) && ip.0.wf(),
                Err(e) => {
                    &&& e == Error::Backing(BackingError::Busy)
                    &&& old(self)@.cache is None
                    &&& final(self)@ == old(self)@
                },
            },
    {
        match self.begin_transaction() {
            Ok(ip) => Ok(InProgressRead(ip)),
            Err(e) => Err(e),
        }
    }
}

impl InProgress {
    pub open spec fn wf(&self) -> bool {
        &&& self.partition_map.wf()
        &&& self.schema.wf()
        &&& self.cache.wf()
    }

    /// Record a successful transactor run: the transactor returns the next
    /// partition map and, when the transaction altered the schema, the next
    /// schema; both replace the drafts. The snapshot generation and the
    /// cache are untouched, as is the connection. A failed transactor run
    /// is recorded by not calling this at all, which leaves the drafts as
    /// they were.
    pub fn apply_tx_result(&mut self, next_partition_map: PartitionMap, next_schema: Option<Schema>)
        requires
            old(self).wf(),
            next_partition_map.wf(),
            match next_schema {
                Some(s) => s.wf(),
                None => true,
            },
        ensures
            final(self).wf(),
            final(self)@.generation == old(self)@.generation,
            final(self)@.cache == old(self)@.cache,
            final(self)@.partition_map == next_partition_map@,
            final(self)@.schema == match next_schema {
                Some(s) => s@,
                None => old(self)@.schema,
            },
    {
        self.partition_map = next_partition_map;
        match next_schema {
            Some(s) => {
                self.schema = s;
            },
            None => {},
        }
    }

    /// The check a commit makes under the metadata lock: the commit may go
    /// ahead exactly when no other writer advanced the generation since
    /// this transaction began.
    pub fn commit_check(&self, conn: &Conn) -> (r: Result<(), Error>)
        ensures
            r is Ok <==> self@.generation == conn@.metadata.generation,
            r is Err ==> r->Err_0 is Race,
    {
        if self.generation == conn.metadata.generation {
            Ok(())
        } else {
            Err(Error::Race)
        }
    }

    /// Publish this transaction: verify the generation, then advance it by
    /// exactly one, move the draft partition map and schema into the
    /// metadata, and return the cache. On a generation race nothing is
    /// published and the metadata is exactly as it was.
    pub fn commit(self, conn: &mut Conn) -> (r: Result<(), Error>)
        requires
            old(conn).wf(),
            self.wf(),
            old(conn)@.metadata.generation < u64::MAX,
        ensures
            final(conn).wf(),
            match r {
                Ok(_) => commit_ok(self@, old(conn)@, final(conn)@),
                Err(e) => e is Race && commit_race(self@, old(conn)@, final(conn)@)
                    && final(conn).metadata == old(conn).metadata,
            },
            r is Ok <==> self@.generation == old(conn)@.metadata.generation,
    {
        let InProgress { generation, partition_map, schema, cache } = self;
        if generation != conn.metadata.generation {
            conn.attribute_cache = Some(cache);
            return Err(Error::Race);
        }
        conn.metadata.generation = conn.metadata.generation + 1;
        conn.metadata.partition_map = partition_map;
        if !schema.same(&conn.metadata.schema) {
            conn.metadata.schema = schema;
        }
        conn.attribute_cache = Some(cache);
        Ok(())
    }

    /// Discard this transaction: the connection's metadata is exactly as it
    /// was before the transaction began, and the cache returns to the
    /// connection. The caller rolls the backing-store transaction back.
    pub fn rollback(self, conn: &mut Conn)
        requires
            old(conn).wf(),
            self.wf(),
        ensures
            final(conn).wf(),
            final(conn).metadata == old(conn).metadata,
            rollback_post(self@, old(conn)@, final(conn)@),
    {
        conn.attribute_cache = Some(self.cache);
    }
}

/// What a cardinality-one lookup through the cache returns, and what it
/// does to the cache. `store` is the value the backing store holds for
/// `(entity, attr)`, handed in by the caller; an eagerly cached attribute
/// answers from the cache alone, a lazily cached one answers from the cache
/// on a hit and records the store's value on a miss, and an uncached one
/// passes the store's value through.
pub open spec fn lookup_value_ok(
    attr: Entid,
    pre: Seq<CachedAttributeV>,
    post: Seq<CachedAttributeV>,
    entity: Entid,
    store: Option<TypedValueV>,
    v: Option<TypedValueV>,
) -> bool {
    match cache_entry_for(pre, attr) {
        None => v == store && post == pre,
        Some(c) => match c.mode {
            CacheMode::Eager => v == first_value_for(c.pairs, entity) && post == pre,
            CacheMode::Lazy => match first_value_for(c.pairs, entity) {
                Some(cv) => v == Some(cv) && post == pre,
                None => v == store && match store {
                    Some(sv) => record_post(pre, post, attr, entity, sv),
                    None => post == pre,
                },
            },
        },
    }
}

/// What a set-valued lookup returns: an eagerly cached attribute answers
/// with all of its cached values, anything else passes the store's values
/// through; the cache is never changed.
pub open spec fn lookup_values_ok(
    attr: Entid,
    cache: Seq<CachedAttributeV>,
    entity: Entid,
    store: Seq<TypedValueV>,
    vs: Seq<TypedValueV>,
) -> bool {
    match cache_entry_for(cache, attr) {
        Some(c) => match c.mode {
            CacheMode::Eager => vs == values_for(c.pairs, entity),
            CacheMode::Lazy => vs == store,
        },
        None => vs == store,
    }
}

/// The one cardinality-one read path, shared by the connection and by an
/// in-progress transaction: resolve the attribute in the given schema, then
/// answer through the cache as [`lookup_value_ok`] describes.
fn lookup_value_in(
    schema: &Schema,
    cache: &mut AttributeCacher,
    entity: Entid,
    attribute: &NamespacedKeyword,
    store_value: Option<TypedValue>,
) -> (r: Result<Option<TypedValue>, Error>)
    requires
        schema.wf(),
        old(cache).wf(),
    ensures
        final(cache).wf(),
        match r {
            Err(e) => {
                &&& schema.entry_for_ident(attribute@) is None
                &&& e matches Error::UnknownAttribute(s) && s@ == kw_render(attribute@)
                &&& final(cache)@ == old(cache)@
            },
            Ok(v) => {
                &&& schema.entry_for_ident(attribute@) is Some
                &&& lookup_value_ok(
                    schema.entry_for_ident(attribute@)->Some_0.entid,
                    old(cache)@,
                    final(cache)@,
                    entity,
                    view_opt(store_value),
                    view_opt(v),
                )
            },
        },
{
    let attr = match schema.get_entid(attribute) {
        Some(k) => k.0,
        None => {
            return Err(Error::UnknownAttribute(attribute.render()));
        },
    };
    match cache.mode_for(attr) {
        None => Ok(store_value),
        Some(CacheMode::Eager) => {
            match cache.get(attr, entity) {
                Some(v) => Ok(Some(v.clone())),
                None => Ok(None),
            }
        },
        Some(CacheMode::Lazy) => {
            let hit = match cache.get(attr, entity) {
                Some(v) => Some(v.clone()),
                None => None,
            };
            match hit {
                Some(v) => Ok(Some(v)),
                None => match store_value {
                    Some(sv) => {
                        let out = sv.clone();
                        cache.record_lookup(attr, entity, sv);
                        Ok(Some(out))
                    },
                    None => Ok(None),
                },
            }
        },
    }
}

/// The one set-valued read path, shared by the connection and by an
/// in-progress transaction.
fn lookup_values_in(
    schema: &Schema,
    cache: &AttributeCacher,
    entity: Entid,
    attribute: &NamespacedKeyword,
    store_values: Vec<TypedValue>,
) -> (r: Result<Vec<TypedValue>, Error>)
    requires
        schema.wf(),
        cache.wf(),
    ensures
        match r {
            Err(e) => {
                &&& schema.entry_for_ident(attribute@) is None
                &&& e matches Error::UnknownAttribute(s) && s@ == kw_render(attribute@)
            },
            Ok(vs) => {
                &&& schema.entry_for_ident(attribute@) is Some
                &&& lookup_values_ok(
                    schema.entry_for_ident(attribute@)->Some_0.entid,
                    cache@,
                    entity,
                    view_values(store_values@),
                    view_values(vs@),
                )
            },
        },
{
    let attr = match schema.get_entid(attribute) {
        Some(k) => k.0,
        None => {
            return Err(Error::UnknownAttribute(attribute.render()));
        },
    };
    match cache.mode_for(attr) {
        Some(CacheMode::Eager) => {
            match cache.get_all(attr, entity) {
                Some(vs) => Ok(vs),
                None => Ok(store_values),
            }
        },
        _ => Ok(store_values),
    }
}

impl Conn {
    /// Look the cardinality-one value of `attribute` on `entity` up,
    /// answering from the cache where it can; `store_value` is what the
    /// backing store holds for the pair, fetched by the caller. While a
    /// transaction holds the cache the store is busy.
    pub fn lookup_value_for_attribute(
        &mut self,
        entity: Entid,
        attribute: &NamespacedKeyword,
        store_value: Option<TypedValue>,
    ) -> (r: Result<Option<TypedValue>, Error>)
        requires
            old(self).wf(),
        ensures
            final(self).wf(),
            final(self)@.metadata == old(self)@.metadata,
            match r {
                Err(e) => match e {
                    Error::Backing(b) => b is Busy && old(self)@.cache is None
                        && final(self)@ == old(self)@,
                    Error::UnknownAttribute(s) => {
                        &&& old(self).metadata.schema.entry_for_ident(attribute@) is None
                        &&& s@ == kw_render(attribute@)
                        &&& final(self)@ == old(self)@
                    },
                    _ => false,
                },
                Ok(v) => {
                    &&& old(self)@.cache is Some
                    &&& final(self)@.cache is Some
                    &&& old(self).metadata.schema.entry_for_ident(attribute@) is Some
                    &&& lookup_value_ok(
                        old(self).metadata.schema.entry_for_ident(attribute@)->Some_0.entid,
                        old(self)@.cache->Some_0,
                        final(self)@.cache->Some_0,
                        entity,
                        view_opt(store_value),
                        view_opt(v),
                    )
                },
            },
    {
        let taken = self.attribute_cache.take();
        match taken {
            Some(mut cache) => {
                let r = lookup_value_in(
                    &self.metadata.schema,
                    &mut cache,
                    entity,
                    attribute,
                    store_value,
                );
                self.attribute_cache = Some(cache);
                proof {
                    if r is Err {
                        assert(final(self)@ =~= old(self)@);
                    }
                }
                r
            },
            None => {
                proof {
                    assert(final(self)@ =~= old(self)@);
                }
                Err(Error::Backing(BackingError::Busy))
            },
        }
    }

    /// Look all values of `attribute` on `entity` up; `store_values` is
    /// what the backing store holds for the pair.
    pub fn lookup_values_for_attribute(
        &self,
        entity: Entid,
        attribute: &NamespacedKeyword,
        store_values: Vec<TypedValue>,
    ) -> (r: Result<Vec<TypedValue>, Error>)
        requires
            self.wf(),
        ensures
            match r {
                Err(e) => match e {
                    Error::Backing(b) => b is Busy && self@.cache is None,
                    Error::UnknownAttribute(s) => {
                        &&& self.metadata.schema.entry_for_ident(attribute@) is None
                        &&& s@ == kw_render(attribute@)
                    },
                    _ => false,
                },
                Ok(vs) => {
                    &&& self@.cache is Some
                    &&& self.metadata.schema.entry_for_ident(attribute@) is Some
                    &&& lookup_values_ok(
                        self.metadata.schema.entry_for_ident(attribute@)->Some_0.entid,
                        self@.cache->Some_0,
                        entity,
                        view_values(store_values@),
                        view_values(vs@),
                    )
                },
            },
    {
        match &self.attribute_cache {
            Some(cache) => lookup_values_in(
                &self.metadata.schema,
                cache,
                entity,
                attribute,
                store_values,
            ),
            None => Err(Error::Backing(BackingError::Busy)),
        }
    }

    /// Register or deregister `attribute` in the cache. Registration is
    /// eager: `fetched` holds the store's `(entity, value)` pairs for the
    /// attribute, fetched by the caller, and is idempotent — a present
    /// attribute is left exactly as it is. Deregistration of an attribute
    /// that is not cached fails with [`Error::NotCached`], and an ident the
    /// schema does not know fails with [`Error::UnknownAttribute`].
    pub fn cache(
        &mut self,
        attribute: &NamespacedKeyword,
        action: CacheAction,
        fetched: Vec<(Entid, TypedValue)>,
    ) -> (r: Result<(), Error>)
        requires
            old(self).wf(),
        ensures
            final(self).wf(),
            final(self)@.metadata == old(self)@.metadata,
            match r {
                Ok(_) => {
                    &&& old(self)@.cache is Some
                    &&& final(self)@.cache is Some
                    &&& old(self).metadata.schema.entry_for_ident(attribute@) is Some
                    &&& {
                        let a = old(self).metadata.schema.entry_for_ident(
                            attribute@,
                        )->Some_0.entid;
                        match action {
                            CacheAction::Register => register_post(
                                old(self)@.cache->Some_0,
                                final(self)@.cache->Some_0,
                                a,
                                CacheMode::Eager,
                                view_pairs(fetched@),
                            ),
                            CacheAction::Deregister => deregister_post(
                                old(self)@.cache->Some_0,
                                final(self)@.cache->Some_0,
                                a,
                            ),
                        }
                    }
                },
                Err(e) => {
                    &&& final(self)@ == old(self)@
                    &&& match e {
                        Error::Backing(b) => b is Busy && old(self)@.cache is None,
                        Error::UnknownAttribute(s) => {
                            &&& old(self)@.cache is Some
                            &&& old(self).metadata.schema.entry_for_ident(attribute@) is None
                            &&& s@ == kw_render(attribute@)
                        },
                        Error::NotCached => {
                            &&& old(self)@.cache is Some
                            &&& old(self).metadata.schema.entry_for_ident(attribute@) is Some
                            &&& action is Deregister
                            &&& !crate::cache::cache_contains(
                                old(self)@.cache->Some_0,
                                old(self).metadata.schema.entry_for_ident(
                                    attribute@,
                                )->Some_0.entid,
                            )
                        },
                        _ => false,
                    }
                },
            },
    {
        let taken = self.attribute_cache.take();
        match taken {
            Some(mut cache) => {
                let found = self.metadata.schema.get_entid(attribute);
                match found {
                    Some(k) => {
                        let r = match action {
                            CacheAction::Register => {
                                cache.register_attribute(k.0, CacheMode::Eager, fetched);
                                Ok(())
                            },
                            CacheAction::Deregister => cache.deregister_attribute(k.0),
                        };
                        self.attribute_cache = Some(cache);
                        proof {
                            if r is Err {
                                assert(final(self)@ =~= old(self)@);
                            }
                        }
                        r
                    },
                    None => {
                        let msg = attribute.render();
                        self.attribute_cache = Some(cache);
                        proof {
                            assert(final(self)@ =~= old(self)@);
                        }
                        Err(Error::UnknownAttribute(msg))
                    },
                }
            },
            None => {
                proof {
                    assert(final(self)@ =~= old(self)@);
                }
                Err(Error::Backing(BackingError::Busy))
            },
        }
    }
}

impl InProgress {
    /// Look the cardinality-one value of `attribute` on `entity` up inside
    /// this transaction: the draft schema resolves the attribute, so the
    /// transaction reads its own schema writes, and `store_value` is what
    /// the backing store — through this transaction's own backing handle,
    /// so including its own datom writes — holds for the pair.
    pub fn lookup_value_for_attribute(
        &mut self,
        entity: Entid,
        attribute: &NamespacedKeyword,
        store_value: Option<TypedValue>,
    ) -> (r: Result<Option<TypedValue>, Error>)
        requires
            old(self).wf(),
        ensures
            final(self).wf(),
            final(self)@.generation == old(self)@.generation,
            final(self)@.partition_map == old(self)@.partition_map,
            final(self)@.schema == old(self)@.schema,
            match r {
                Err(e) => {
                    &&& old(self).schema.entry_for_ident(attribute@) is None
                    &&& e matches Error::UnknownAttribute(s) && s@ == kw_render(attribute@)
                    &&& final(self)@ == old(self)@
                },
                Ok(v) => {
                    &&& old(self).schema.entry_for_ident(attribute@) is Some
                    &&& lookup_value_ok(
                        old(self).schema.entry_for_ident(attribute@)->Some_0.entid,
                        old(self)@.cache,
                        final(self)@.cache,
                        entity,
                        view_opt(store_value),
                        view_opt(v),
                    )
                },
            },
    {
        let r = lookup_value_in(&self.schema, &mut self.cache, entity, attribute, store_value);
        proof {
            if r is Err {
                assert(final(self)@ =~= old(self)@);
            }
        }
        r
    }

    /// Look all values of `attribute` on `entity` up inside this
    /// transaction.
    pub fn lookup_values_for_attribute(
        &self,
        entity: Entid,
        attribute: &NamespacedKeyword,
        store_values: Vec<TypedValue>,
    ) -> (r: Result<Vec<TypedValue>, Error>)
        requires
            self.wf(),
        ensures
            match r {
                Err(e) => {
                    &&& self.schema.entry_for_ident(attribute@) is None
                    &&& e matches Error::UnknownAttribute(s) && s@ == kw_render(attribute@)
                },
                Ok(vs) => {
                    &&& self.schema.entry_for_ident(attribute@) is Some
                    &&& lookup_values_ok(
                        self.schema.entry_for_ident(attribute@)->Some_0.entid,
                        self@.cache,
                        entity,
                        view_values(store_values@),
                        view_values(vs@),
                    )
                },
            },
    {
        lookup_values_in(&self.schema, &self.cache, entity, attribute, store_values)
    }

    /// The entid aliased by `ident` in the draft schema.
    pub fn get_entid(&self, ident: &NamespacedKeyword) -> (r: Option<KnownEntid>)
        requires
            self.wf(),
        ensures
            match r {
                Some(k) => self.schema.entry_for_ident(ident@) is Some
                    && k.0 == self.schema.entry_for_ident(ident@)->Some_0.entid,
                None => self.schema.entry_for_ident(ident@) is None,
            },
    {
        self.schema.get_entid(ident)
    }

    /// The ident aliasing `entid` in the draft schema.
    pub fn get_ident(&self, entid: Entid) -> (r: Option<&NamespacedKeyword>)
        requires
            self.wf(),
        ensures
            match r {
                Some(k) => self.schema.entry_for_entid(entid) is Some
                    && k@ == self.schema.entry_for_entid(entid)->Some_0.ident,
                None => self.schema.entry_for_entid(entid) is None,
            },
    {
        self.schema.get_ident(entid)
    }

    /// The attribute definition under `entid` in the draft schema.
    pub fn attribute_for_entid(&self, entid: Entid) -> (r: Option<&Attribute>)
        requires
            self.wf(),
        ensures
            match r {
                Some(a) => self.schema.entry_for_entid(entid) is Some
                    && *a == self.schema.entry_for_entid(entid)->Some_0.attribute,
                None => self.schema.entry_for_entid(entid) is None,
            },
    {
        self.schema.attribute_for_entid(entid)
    }

    /// The attribute definition under `ident` in the draft schema, with its
    /// entid.
    pub fn attribute_for_ident(&self, ident: &NamespacedKeyword) -> (r: Option<(
        &Attribute,
        KnownEntid,
    )>)
        requires
            self.wf(),
        ensures
            match r {
                Some(p) => self.schema.entry_for_ident(ident@) is Some
                    && *p.0 == self.schema.entry_for_ident(ident@)->Some_0.attribute
                    && p.1.0 == self.schema.entry_for_ident(ident@)->Some_0.entid,
                None => self.schema.entry_for_ident(ident@) is None,
            },
    {
        self.schema.attribute_for_ident(ident)
    }

    /// True exactly when `entid` identifies an attribute in the draft
    /// schema.
    pub fn is_attribute(&self, entid: Entid) -> (r: bool)
        requires
            self.wf(),
        ensures
            r == self.schema.contains_entid(entid),
    {
        self.schema.is_attribute(entid)
    }

    /// True exactly when `ident` identifies an attribute in the draft
    /// schema.
    pub fn identifies_attribute(&self, ident: &NamespacedKeyword) -> (r: bool)
        requires
            self.wf(),
        ensures
            r == self.schema.contains_ident(ident@),
    {
        self.schema.identifies_attribute(ident)
    }

    /// The entid of the ident naming a value type in the draft schema.
    pub fn entid_for_type(&self, t: ValueType) -> (r: Option<KnownEntid>)
        requires
            self.wf(),
        ensures
            match r {
                Some(k) => self.schema.entry_for_ident(
                    crate::schema::value_type_keyword_v(t),
                ) is Some && k.0 == self.schema.entry_for_ident(
                    crate::schema::value_type_keyword_v(t),
                )->Some_0.entid,
                None => self.schema.entry_for_ident(
                    crate::schema::value_type_keyword_v(t),
                ) is None,
            },
    {
        self.schema.entid_for_type(t)
    }
}

impl InProgressRead {
    /// Look the cardinality-one value of `attribute` on `entity` up inside
    /// this read transaction.
    pub fn lookup_value_for_attribute(
        &mut self,
        entity: Entid,
        attribute: &NamespacedKeyword,
        store_value: Option<TypedValue>,
    ) -> (r: Result<Option<TypedValue>, Error>)
        requires
            old(self).0.wf(),
        ensures
            final(self).0.wf(),
            final(self).0@.generation == old(self).0@.generation,
            final(self).0@.partition_map == old(self).0@.partition_map,
            final(self).0@.schema == old(self).0@.schema,
            match r {
                Err(e) => {
                    &&& old(self).0.schema.entry_for_ident(attribute@) is None
                    &&& e matches Error::UnknownAttribute(s) && s@ == kw_render(attribute@)
                },
                Ok(v) => {
                    &&& old(self).0.schema.entry_for_ident(attribute@) is Some
                    &&& lookup_value_ok(
                        old(self).0.schema.entry_for_ident(attribute@)->Some_0.entid,
                        old(self).0@.cache,
                        final(self).0@.cache,
                        entity,
                        view_opt(store_value),
                        view_opt(v),
                    )
                },
            },
    {
        self.0.lookup_value_for_attribute(entity, attribute, store_value)
    }

    /// Look all values of `attribute` on `entity` up inside this read
    /// transaction.
    pub fn lookup_values_for_attribute(
        &self,
        entity: Entid,
        attribute: &NamespacedKeyword,
        store_values: Vec<TypedValue>,
    ) -> (r: Result<Vec<TypedValue>, Error>)
        requires
            self.0.wf(),
        ensures
            match r {
                Err(e) => {
                    &&& self.0.schema.entry_for_ident(attribute@) is None
                    &&& e matches Error::UnknownAttribute(s) && s@ == kw_render(attribute@)
                },
                Ok(vs) => {
                    &&& self.0.schema.entry_for_ident(attribute@) is Some
                    &&& lookup_values_ok(
                        self.0.schema.entry_for_ident(attribute@)->Some_0.entid,
                        self.0@.cache,
                        entity,
                        view_values(store_values@),
                        view_values(vs@),
                    )
                },
            },
    {
        self.0.lookup_values_for_attribute(entity, attribute, store_values)
    }

    /// The entid aliased by `ident` in the snapshot.
    pub fn get_entid(&self, ident: &NamespacedKeyword) -> (r: Option<KnownEntid>)
        requires
            self.0.wf(),
        ensures
            match r {
                Some(k) => self.0.schema.entry_for_ident(ident@) is Some
                    && k.0 == self.0.schema.entry_for_ident(ident@)->Some_0.entid,
                None => self.0.schema.entry_for_ident(ident@) is None,
            },
    {
        self.0.get_entid(ident)
    }

    /// The ident aliasing `entid` in the snapshot.
    pub fn get_ident(&self, entid: Entid) -> (r: Option<&NamespacedKeyword>)
        requires
            self.0.wf(),
        ensures
            match r {
                Some(k) => self.0.schema.entry_for_entid(entid) is Some
                    && k@ == self.0.schema.entry_for_entid(entid)->Some_0.ident,
                None => self.0.schema.entry_for_entid(entid) is None,
            },
    {
        self.0.get_ident(entid)
    }

    /// The attribute definition under `entid` in the snapshot.
    pub fn attribute_for_entid(&self, entid: Entid) -> (r: Option<&Attribute>)
        requires
            self.0.wf(),
        ensures
            match r {
                Some(a) => self.0.schema.entry_for_entid(entid) is Some
                    && *a == self.0.schema.entry_for_entid(entid)->Some_0.attribute,
                None => self.0.schema.entry_for_entid(entid) is None,
            },
    {
        self.0.attribute_for_entid(entid)
    }

    /// The attribute definition under `ident` in the snapshot, with its
    /// entid.
    pub fn attribute_for_ident(&self, ident: &NamespacedKeyword) -> (r: Option<(
        &Attribute,
        KnownEntid,
    )>)
        requires
            self.0.wf(),
        ensures
            match r {
                Some(p) => self.0.schema.entry_for_ident(ident@) is Some
                    && *p.0 == self.0.schema.entry_for_ident(ident@)->Some_0.attribute
                    && p.1.0 == self.0.schema.entry_for_ident(ident@)->Some_0.entid,
                None => self.0.schema.entry_for_ident(ident@) is None,
            },
    {
        self.0.attribute_for_ident(ident)
    }

    /// The entid of the ident naming a value type in the snapshot.
    pub fn entid_for_type(&self, t: ValueType) -> (r: Option<KnownEntid>)
        requires
            self.0.wf(),
        ensures
            match r {
                Some(k) => self.0.schema.entry_for_ident(
                    crate::schema::value_type_keyword_v(t),
                ) is Some && k.0 == self.0.schema.entry_for_ident(
                    crate::schema::value_type_keyword_v(t),
                )->Some_0.entid,
                None => self.0.schema.entry_for_ident(
                    crate::schema::value_type_keyword_v(t),
                ) is None,
            },
    {
        self.0.entid_for_type(t)
    }

    /// True exactly when `entid` identifies an attribute in the snapshot.
    pub fn is_attribute(&self, entid: Entid) -> (r: bool)
        requires
            self.0.wf(),
        ensures
            r == self.0.schema.contains_entid(entid),
    {
        self.0.is_attribute(entid)
    }

    /// True exactly when `ident` identifies an attribute in the snapshot.
    pub fn identifies_attribute(&self, ident: &NamespacedKeyword) -> (r: bool)
        requires
            self.0.wf(),
        ensures
            r == self.0.schema.contains_ident(ident@),
    {
        self.0.identifies_attribute(ident)
    }

    /// Discard this read transaction, returning the cache to the
    /// connection; the metadata is untouched.
    pub fn rollback(self, conn: &mut Conn)
        requires
            old(conn).wf(),
            self.0.wf(),
        ensures
            final(conn).wf(),
            rollback_post(self.0@, old(conn)@, final(conn)@),
    {
        self.0.rollback(conn)
    }
}

/// For an attribute registered eagerly with exactly the pairs the backing
/// store holds, a lookup through the cache returns, for every entity, the
/// value the store itself returns for that entity: the cache and the bypass
/// agree.
pub proof fn lemma_cached_lookup_agrees_with_store(
    pre: Seq<CachedAttributeV>,
    post: Seq<CachedAttributeV>,
    cache2: Seq<CachedAttributeV>,
    attr: Entid,
    store_pairs: Seq<(Entid, TypedValueV)>,
    entity: Entid,
    v: Option<TypedValueV>,
)
    requires
        !crate::cache::cache_contains(pre, attr),
        register_post(pre, post, attr, CacheMode::Eager, store_pairs),
        forall|i: int, j: int| 0 <= i < j < pre.len() ==> pre[i].attr != pre[j].attr,
        lookup_value_ok(attr, post, cache2, entity, first_value_for(store_pairs, entity), v),
    ensures
        v == first_value_for(store_pairs, entity),
{
    let entry = CachedAttributeV { attr, mode: CacheMode::Eager, pairs: store_pairs };
    assert(post == pre.push(entry));
    assert(post[pre.len() as int] == entry);
    assert(crate::cache::cache_contains(post, attr));
    let i = choose|i: int| 0 <= i < post.len() && post[i].attr == attr;
    if i < pre.len() {
        assert(pre[i].attr == attr);
    }
    assert(cache_entry_for(post, attr) == Some(entry));
}

/// The set-valued counterpart: for an attribute registered eagerly with
/// exactly the pairs the backing store holds, a set-valued lookup through
/// the cache returns, for every entity, exactly the values the store holds
/// for that entity.
pub proof fn lemma_cached_values_agree_with_store(
    pre: Seq<CachedAttributeV>,
    post: Seq<CachedAttributeV>,
    attr: Entid,
    store_pairs: Seq<(Entid, TypedValueV)>,
    entity: Entid,
    vs: Seq<TypedValueV>,
)
    requires
        !crate::cache::cache_contains(pre, attr),
        register_post(pre, post, attr, CacheMode::Eager, store_pairs),
        forall|i: int, j: int| 0 <= i < j < pre.len() ==> pre[i].attr != pre[j].attr,
        lookup_values_ok(attr, post, entity, values_for(store_pairs, entity), vs),
    ensures
        vs == values_for(store_pairs, entity),
{
    let entry = CachedAttributeV { attr, mode: CacheMode::Eager, pairs: store_pairs };
    assert(post == pre.push(entry));
    assert(post[pre.len() as int] == entry);
    assert(crate::cache::cache_contains(post, attr));
    let i = choose|i: int| 0 <= i < post.len() && post[i].attr == attr;
    if i < pre.len() {
        assert(pre[i].attr == attr);
    }
    assert(cache_entry_for(post, attr) == Some(entry));
}

/// One whole committed transaction: begun on `pre`, its draft partition map
/// advanced by the given allocations, and committed onto `post`.
pub open spec fn committed_round(pre: ConnV, post: ConnV, evs: Seq<(Seq<char>, int)>) -> bool {
    exists|mid: ConnV, ip0: InProgressV, ip1: InProgressV|
        begin_ok(pre, mid, ip0)
            && #[trigger] allocs_applied(ip0.partition_map, ip1.partition_map, evs)
            && #[trigger] commit_ok(ip1, mid, post)
}

/// `post` is `pre` after the given sequence of committed transactions.
pub open spec fn committed_rounds(
    pre: ConnV,
    post: ConnV,
    rounds: Seq<Seq<(Seq<char>, int)>>,
) -> bool
    decreases rounds.len(),
{
    if rounds.len() == 0 {
        post == pre
    } else {
        exists|mid: ConnV|
            #[trigger] committed_round(pre, mid, rounds[0])
                && committed_rounds(mid, post, rounds.drop_first())
    }
}

/// The total number of ids the committed transactions drew from `name`.
pub open spec fn rounds_total(rounds: Seq<Seq<(Seq<char>, int)>>, name: Seq<char>) -> int
    decreases rounds.len(),
{
    if rounds.len() == 0 {
        0
    } else {
        total_allocated(rounds[0], name) + rounds_total(rounds.drop_first(), name)
    }
}

/// After any sequence of committed transactions, each partition's next
/// index equals its initial index plus the total number of ids allocated in
/// that partition across those transactions — and the generation has
/// advanced by exactly one per commit.
pub proof fn lemma_allocation_totals_across_commits(
    pre: ConnV,
    post: ConnV,
    rounds: Seq<Seq<(Seq<char>, int)>>,
    name: Seq<char>,
)
    requires
        committed_rounds(pre, post, rounds),
        pm_get(pre.metadata.partition_map, name) is Some,
    ensures
        pm_get(post.metadata.partition_map, name) is Some,
        pm_get(post.metadata.partition_map, name)->Some_0.index
            == pm_get(pre.metadata.partition_map, name)->Some_0.index
            + rounds_total(rounds, name),
        post.metadata.generation == pre.metadata.generation + rounds.len(),
    decreases rounds.len(),
{
    if rounds.len() == 0 {
    } else {
        let mid = choose|mid: ConnV|
            #[trigger] committed_round(pre, mid, rounds[0])
                && committed_rounds(mid, post, rounds.drop_first());
        let (cm, ip0, ip1) = choose|cm: ConnV, ip0: InProgressV, ip1: InProgressV|
            begin_ok(pre, cm, ip0)
                && #[trigger] allocs_applied(ip0.partition_map, ip1.partition_map, rounds[0])
                && #[trigger] commit_ok(ip1, cm, mid);
        lemma_allocation_totals(ip0.partition_map, ip1.partition_map, rounds[0], name);
        lemma_allocation_totals_across_commits(mid, post, rounds.drop_first(), name);
    }
}

/// Every successful commit advances the generation by exactly one.
pub proof fn lemma_commit_advances_generation(ip: InProgressV, pre: ConnV, post: ConnV)
    requires
        commit_ok(ip, pre, post),
    ensures
        post.metadata.generation == pre.metadata.generation + 1,
{
}

/// A transaction that is begun and then rolled back — whatever it did to
/// its drafts in between — leaves the connection's metadata exactly as it
/// was before it began.
pub proof fn lemma_rollback_restores_metadata(
    c0: ConnV,
    c1: ConnV,
    ip0: InProgressV,
    ip1: InProgressV,
    c2: ConnV,
)
    requires
        begin_ok(c0, c1, ip0),
        rollback_post(ip1, c1, c2),
    ensures
        c2.metadata == c0.metadata,
{
}

/// A commit that loses the generation race publishes nothing: the metadata
/// after the failed commit is exactly the metadata before the transaction
/// began.
pub proof fn lemma_failed_commit_restores_metadata(
    c0: ConnV,
    c1: ConnV,
    ip0: InProgressV,
    ip1: InProgressV,
    c2: ConnV,
)
    requires
        begin_ok(c0, c1, ip0),
        commit_race(ip1, c1, c2),
    ensures
        c2.metadata == c0.metadata,
{
}

/// A transaction that is rolled back leaves the partition map — and with it
/// every partition's next index, in particular the transaction partition
/// from which tx ids are drawn — exactly as before it began: the ids it
/// would have used stay unused.
pub proof fn lemma_rollback_leaves_ids_unused(
    c0: ConnV,
    c1: ConnV,
    ip0: InProgressV,
    ip1: InProgressV,
    c2: ConnV,
)
    requires
        begin_ok(c0, c1, ip0),
        rollback_post(ip1, c1, c2),
    ensures
        c2.metadata.partition_map == c0.metadata.partition_map,
        c2.metadata.generation == c0.metadata.generation,
{
}

} // verus!
