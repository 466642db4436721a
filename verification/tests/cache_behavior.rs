//! The attribute cache: registration, deregistration, and lookups through
//! the connection and through in-progress transactions. The backing store's
//! answer for a lookup enters as a plain value.

use datom_conn::cache::{AttributeCacher, CacheAction, CacheMode};
use datom_conn::conn::Conn;
use datom_conn::errors::Error;
use datom_conn::partition::{Partition, PartitionMap};
use datom_conn::schema::{Attribute, Schema};
use datom_conn::types::{NamespacedKeyword, TypedValue, ValueType};

fn simple_partition_map() -> PartitionMap {
    let mut pm = PartitionMap::new();
    pm.set(":db.part/user", Partition::new(0x10000, i64::MAX, 0x10000));
    pm.set(":db.part/tx", Partition::new(0x10000000, i64::MAX, 0x10000001));
    pm
}

/// A schema holding `:foo/bar` (long) and `:foo/baz` (boolean).
fn foo_schema() -> Schema {
    let mut s = Schema::new();
    assert!(s.define(
        100,
        NamespacedKeyword::new("foo", "bar"),
        Attribute::simple(ValueType::Long),
    ));
    assert!(s.define(
        101,
        NamespacedKeyword::new("foo", "baz"),
        Attribute::simple(ValueType::Boolean),
    ));
    s
}

fn foo_conn() -> Conn {
    Conn::new(simple_partition_map(), foo_schema())
}

#[test]
fn test_add_to_cache_failure_no_attribute() {
    let mut conn = foo_conn();
    let kw = NamespacedKeyword::new("foo", "bat");
    let res = conn.cache(&kw, CacheAction::Register, vec![]);
    match res.unwrap_err() {
        Error::UnknownAttribute(msg) => assert_eq!(msg, ":foo/bat"),
        x => panic!("expected UnknownAttribute error, got {:?}", x),
    }
}

#[test]
fn test_lookup_attribute_with_caching() {
    let mut conn = foo_conn();
    let kw = NamespacedKeyword::new("foo", "bar");
    let entid: i64 = 0x10004;

    // What the backing store holds for :foo/bar.
    let store_pairs = vec![
        (0x10001, TypedValue::Long(100)),
        (0x10002, TypedValue::Long(200)),
        (0x10003, TypedValue::Long(300)),
        (entid, TypedValue::Long(400)),
        (0x10005, TypedValue::Long(500)),
    ];

    // Uncached: the lookup passes the store's answer through.
    let uncached_val = conn
        .lookup_value_for_attribute(entid, &kw, Some(TypedValue::Long(400)))
        .expect("Expected value on lookup");
    assert_eq!(uncached_val, Some(TypedValue::Long(400)));

    conn.cache(&kw, CacheAction::Register, store_pairs)
        .expect("expected caching to work");

    // Cached: the lookup answers from the cache alone and agrees with the
    // uncached answer.
    for _ in 1..5 {
        let cached_val = conn
            .lookup_value_for_attribute(entid, &kw, None)
            .expect("Expected value on lookup");
        assert_eq!(cached_val, uncached_val);
    }
}

#[test]
fn test_register_is_idempotent() {
    let mut conn = foo_conn();
    let kw = NamespacedKeyword::new("foo", "bar");
    let pairs = vec![(0x10001, TypedValue::Long(7))];

    conn.cache(&kw, CacheAction::Register, pairs.clone()).expect("first register");
    conn.cache(&kw, CacheAction::Register, pairs).expect("second register");

    let cache = conn.attribute_cache().as_ref().expect("cache present");
    assert_eq!(cache.entries.len(), 1);
    assert_eq!(
        cache.get(100, 0x10001),
        Some(&TypedValue::Long(7)),
    );

    // Even a registration asking for other values leaves the entry alone.
    conn.cache(&kw, CacheAction::Register, vec![(0x10001, TypedValue::Long(9))])
        .expect("third register");
    let cache = conn.attribute_cache().as_ref().expect("cache present");
    assert_eq!(cache.get(100, 0x10001), Some(&TypedValue::Long(7)));
}

#[test]
fn test_register_mismatched_mode_keeps_prior() {
    let mut cacher = AttributeCacher::new();
    cacher.register_attribute(100, CacheMode::Lazy, vec![]);
    assert_eq!(cacher.mode_for(100), Some(CacheMode::Lazy));
    cacher.register_attribute(100, CacheMode::Eager, vec![(1, TypedValue::Long(5))]);
    assert_eq!(cacher.mode_for(100), Some(CacheMode::Lazy));
    assert_eq!(cacher.get(100, 1), None);
}

#[test]
fn test_deregister_not_cached() {
    let mut conn = foo_conn();
    let kw = NamespacedKeyword::new("foo", "bar");
    match conn.cache(&kw, CacheAction::Deregister, vec![]) {
        Err(Error::NotCached) => {},
        x => panic!("expected NotCached error, got {:?}", x),
    }

    let mut cacher = AttributeCacher::new();
    assert_eq!(cacher.deregister_attribute(100), Err(Error::NotCached));
}

#[test]
fn test_deregister_then_passthrough() {
    let mut conn = foo_conn();
    let kw = NamespacedKeyword::new("foo", "bar");
    conn.cache(&kw, CacheAction::Register, vec![(1, TypedValue::Long(5))])
        .expect("register");
    let v = conn.lookup_value_for_attribute(1, &kw, None).expect("lookup");
    assert_eq!(v, Some(TypedValue::Long(5)));

    conn.cache(&kw, CacheAction::Deregister, vec![]).expect("deregister");

    // Uncached again: the store's answer is passed through.
    let v = conn
        .lookup_value_for_attribute(1, &kw, Some(TypedValue::Long(6)))
        .expect("lookup");
    assert_eq!(v, Some(TypedValue::Long(6)));
}

#[test]
fn test_eager_cache_is_authoritative() {
    let mut conn = foo_conn();
    let kw = NamespacedKeyword::new("foo", "bar");
    conn.cache(&kw, CacheAction::Register, vec![(1, TypedValue::Long(5))])
        .expect("register");

    // The cached attribute answers from the cache even when the caller
    // hands a store value in: entity 2 has no cached value, so none is
    // returned.
    let v = conn
        .lookup_value_for_attribute(2, &kw, Some(TypedValue::Long(9)))
        .expect("lookup");
    assert_eq!(v, None);
}

#[test]
fn test_lazy_cache_records_lookups() {
    let mut conn = foo_conn();
    // Register :foo/bar lazily, directly on the cache.
    let cache = conn.attribute_cache.as_mut().expect("cache present");
    cache.register_attribute(100, CacheMode::Lazy, vec![]);

    let kw = NamespacedKeyword::new("foo", "bar");
    let mut ip = conn.begin_transaction().expect("begun successfully");

    // First lookup misses and records the store's value.
    let v = ip
        .lookup_value_for_attribute(7, &kw, Some(TypedValue::Long(42)))
        .expect("lookup");
    assert_eq!(v, Some(TypedValue::Long(42)));

    // Second lookup hits without consulting the store.
    let v = ip.lookup_value_for_attribute(7, &kw, None).expect("lookup");
    assert_eq!(v, Some(TypedValue::Long(42)));

    ip.rollback(&mut conn);

    // The recorded value survives in the returned cache.
    let v = conn.lookup_value_for_attribute(7, &kw, None).expect("lookup");
    assert_eq!(v, Some(TypedValue::Long(42)));
}

#[test]
fn test_lookup_values_eager_and_passthrough() {
    let mut conn = foo_conn();
    let kw = NamespacedKeyword::new("foo", "bar");

    // Uncached: the store's values come back unchanged.
    let vs = conn
        .lookup_values_for_attribute(1, &kw, vec![TypedValue::Long(1), TypedValue::Long(2)])
        .expect("lookup");
    assert_eq!(vs, vec![TypedValue::Long(1), TypedValue::Long(2)]);

    conn.cache(
        &kw,
        CacheAction::Register,
        vec![
            (1, TypedValue::Long(10)),
            (2, TypedValue::Long(20)),
            (1, TypedValue::Long(30)),
        ],
    )
    .expect("register");

    // Cached: all pairs for the entity, in insertion order.
    let vs = conn.lookup_values_for_attribute(1, &kw, vec![]).expect("lookup");
    assert_eq!(vs, vec![TypedValue::Long(10), TypedValue::Long(30)]);

    let vs = conn.lookup_values_for_attribute(3, &kw, vec![]).expect("lookup");
    assert_eq!(vs, Vec::<TypedValue>::new());
}

#[test]
fn test_lookup_unknown_attribute() {
    let mut conn = foo_conn();
    let kw = NamespacedKeyword::new("foo", "bat");
    match conn.lookup_value_for_attribute(1, &kw, None) {
        Err(Error::UnknownAttribute(msg)) => assert_eq!(msg, ":foo/bat"),
        x => panic!("expected UnknownAttribute error, got {:?}", x),
    }
    match conn.lookup_values_for_attribute(1, &kw, vec![]) {
        Err(Error::UnknownAttribute(msg)) => assert_eq!(msg, ":foo/bat"),
        x => panic!("expected UnknownAttribute error, got {:?}", x),
    }
}

#[test]
fn test_cache_busy_while_transaction_holds_it() {
    let mut conn = foo_conn();
    let kw = NamespacedKeyword::new("foo", "bar");
    let ip = conn.begin_transaction().expect("begun successfully");
    match conn.lookup_value_for_attribute(1, &kw, None) {
        Err(Error::Backing(b)) => assert_eq!(b, datom_conn::errors::BackingError::Busy),
        x => panic!("expected busy, got {:?}", x),
    }
    match conn.cache(&kw, CacheAction::Register, vec![]) {
        Err(Error::Backing(b)) => assert_eq!(b, datom_conn::errors::BackingError::Busy),
        x => panic!("expected busy, got {:?}", x),
    }
    ip.rollback(&mut conn);
}
