//! Units: the schema's bidirectional lookups, the partition map's
//! allocation arithmetic, keyword rendering and tempid resolution.

use datom_conn::conn::TxReport;
use datom_conn::partition::{Partition, PartitionMap};
use datom_conn::schema::{value_type_keyword, Attribute, Schema, Uniqueness};
use datom_conn::types::{KnownEntid, NamespacedKeyword, ValueType};

#[test]
fn test_schema_bidirectional_lookup() {
    let mut s = Schema::new();
    let ident = NamespacedKeyword::new("db", "ident");
    assert!(s.define(1, ident.clone(), Attribute::simple(ValueType::Keyword)));

    assert_eq!(s.get_entid(&ident), Some(KnownEntid(1)));
    assert_eq!(s.get_ident(1), Some(&ident));
    assert!(s.is_attribute(1));
    assert!(!s.is_attribute(2));
    assert!(s.identifies_attribute(&ident));
    assert!(!s.identifies_attribute(&NamespacedKeyword::new("db", "other")));

    let a = s.attribute_for_entid(1).expect("attribute");
    assert_eq!(a.value_type, ValueType::Keyword);
    assert_eq!(a.unique, Uniqueness::NonUnique);
    assert!(!a.multival);

    let (a, k) = s.attribute_for_ident(&ident).expect("attribute");
    assert_eq!(a.value_type, ValueType::Keyword);
    assert_eq!(k, KnownEntid(1));
}

#[test]
fn test_schema_define_refuses_duplicates() {
    let mut s = Schema::new();
    assert!(s.define(1, NamespacedKeyword::new("a", "b"), Attribute::simple(ValueType::Long)));
    // Same entid under a fresh ident.
    assert!(!s.define(1, NamespacedKeyword::new("a", "c"), Attribute::simple(ValueType::Long)));
    // Same ident under a fresh entid.
    assert!(!s.define(2, NamespacedKeyword::new("a", "b"), Attribute::simple(ValueType::Long)));
    assert_eq!(s.entries.len(), 1);
}

#[test]
fn test_schema_same() {
    let mut a = Schema::new();
    let mut b = Schema::new();
    assert!(a.same(&b));
    assert!(a.define(1, NamespacedKeyword::new("x", "y"), Attribute::simple(ValueType::Long)));
    assert!(!a.same(&b));
    assert!(b.define(1, NamespacedKeyword::new("x", "y"), Attribute::simple(ValueType::Long)));
    assert!(a.same(&b));
    let c = a.clone();
    assert!(c.same(&a));
}

#[test]
fn test_entid_for_type() {
    let mut s = Schema::new();
    assert!(s.define(
        24,
        NamespacedKeyword::new("db.type", "long"),
        Attribute::simple(ValueType::Ref),
    ));
    assert_eq!(s.entid_for_type(ValueType::Long), Some(KnownEntid(24)));
    assert_eq!(s.entid_for_type(ValueType::Boolean), None);
    assert_eq!(value_type_keyword(ValueType::Text).render(), ":db.type/string");
}

#[test]
fn test_keyword_render_and_same() {
    let kw = NamespacedKeyword::new("foo", "bar");
    assert_eq!(kw.render(), ":foo/bar");
    assert!(kw.same(&NamespacedKeyword::new("foo", "bar")));
    assert!(!kw.same(&NamespacedKeyword::new("foo", "baz")));
    assert!(!kw.same(&NamespacedKeyword::new("fop", "bar")));
}

#[test]
fn test_partition_set_get() {
    let mut pm = PartitionMap::new();
    assert!(pm.get(":db.part/user").is_none());
    pm.set(":db.part/user", Partition::new(0x10000, i64::MAX, 0x10000));
    pm.set(":db.part/tx", Partition::new(0x10000000, i64::MAX, 0x10000000));
    let p = pm.get(":db.part/user").expect("present");
    assert_eq!(p.start, 0x10000);
    assert_eq!(p.index, 0x10000);

    // Replacing under the same name keeps one entry.
    pm.set(":db.part/user", Partition::new(0x10000, i64::MAX, 0x10007));
    assert_eq!(pm.entries.len(), 2);
    assert_eq!(pm.get(":db.part/user").expect("present").index, 0x10007);
}

#[test]
fn test_partition_allocation() {
    let mut pm = PartitionMap::new();
    pm.set(":db.part/user", Partition::new(0x10000, i64::MAX, 0x10000));

    let first = pm.allocate_entids(":db.part/user", 3).expect("ids left");
    assert_eq!(first, 0x10000);
    let second = pm.allocate_entids(":db.part/user", 1).expect("ids left");
    assert_eq!(second, 0x10003);
    assert_eq!(pm.get(":db.part/user").expect("present").index, 0x10004);

    // A missing partition yields nothing and changes nothing.
    assert_eq!(pm.allocate_entids(":db.part/nope", 1), None);
    assert_eq!(pm.get(":db.part/user").expect("present").index, 0x10004);
}

#[test]
fn test_partition_allocation_exhaustion() {
    let mut pm = PartitionMap::new();
    pm.set(":small", Partition::new(0, 10, 5));

    // More than the room that is left is refused, and the map is untouched.
    assert_eq!(pm.allocate_entids(":small", 6), None);
    assert_eq!(pm.get(":small").expect("present").index, 5);

    // Exactly the room that is left succeeds.
    let first = pm.allocate_entids(":small", 5).expect("ids left");
    assert_eq!(first, 5);
    assert_eq!(pm.get(":small").expect("present").index, 10);
    assert_eq!(pm.allocate_entids(":small", 1), None);

    // Zero ids always fit.
    assert_eq!(pm.allocate_entids(":small", 0), Some(10));
}

#[test]
fn test_tempid_resolution() {
    let report = TxReport {
        tx_id: 0x10000001,
        tempids: vec![("one".to_string(), 0x10000), ("two".to_string(), 0x10001)],
    };
    assert_eq!(report.tempid("one"), Some(0x10000));
    assert_eq!(report.tempid("two"), Some(0x10001));
    assert_eq!(report.tempid("three"), None);
}

#[test]
fn test_partition_map_clone_is_independent() {
    let mut pm = PartitionMap::new();
    pm.set(":db.part/user", Partition::new(0x10000, i64::MAX, 0x10000));
    let mut copy = pm.clone();
    copy.allocate_entids(":db.part/user", 5).expect("ids left");
    assert_eq!(pm.get(":db.part/user").expect("present").index, 0x10000);
    assert_eq!(copy.get(":db.part/user").expect("present").index, 0x10005);
}
