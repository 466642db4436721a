//! Transaction lifecycle: begin, transact, commit, rollback, and the
//! generation counter. The external transactor is simulated here: it
//! allocates a tx id and one entid per tempid from a clone of the draft
//! partition map, and hands the result back to the in-progress transaction.

use datom_conn::cache::CacheAction;
use datom_conn::conn::{Conn, InProgress, TxReport};
use datom_conn::errors::{BackingError, Error};
use datom_conn::partition::{Partition, PartitionMap};
use datom_conn::schema::{Attribute, Schema};
use datom_conn::types::{NamespacedKeyword, TypedValue, ValueType};

const USER0: i64 = 0x10000;
const TX0: i64 = 0x10000000;

fn bootstrap_partition_map() -> PartitionMap {
    let mut pm = PartitionMap::new();
    pm.set(":db.part/db", Partition::new(0, 0xFFFF, 41));
    pm.set(":db.part/user", Partition::new(USER0, i64::MAX, USER0));
    pm.set(":db.part/tx", Partition::new(TX0, i64::MAX, TX0 + 1));
    pm
}

fn bootstrap_schema() -> Schema {
    let mut s = Schema::new();
    assert!(s.define(
        1,
        NamespacedKeyword::new("db", "ident"),
        Attribute::simple(ValueType::Keyword),
    ));
    assert!(s.define(
        3,
        NamespacedKeyword::new("db.schema", "attribute"),
        Attribute::simple(ValueType::Ref),
    ));
    s
}

fn fresh_conn() -> Conn {
    Conn::new(bootstrap_partition_map(), bootstrap_schema())
}

fn user_index(conn: &Conn) -> i64 {
    conn.metadata.partition_map.get(":db.part/user").expect("user partition").index
}

/// Simulated transactor: draws a tx id and one user entid per tempid from a
/// clone of the draft partition map, then installs the advanced map.
fn sim_transact(ip: &mut InProgress, tempids: &[&str]) -> TxReport {
    let mut pm = ip.partition_map.clone();
    let tx_id = pm.allocate_entids(":db.part/tx", 1).expect("tx ids left");
    let mut resolved: Vec<(String, i64)> = Vec::new();
    if !tempids.is_empty() {
        let first = pm
            .allocate_entids(":db.part/user", tempids.len() as u64)
            .expect("user ids left");
        for (k, name) in tempids.iter().enumerate() {
            resolved.push((name.to_string(), first + k as i64));
        }
    }
    ip.apply_tx_result(pm, None);
    TxReport { tx_id, tempids: resolved }
}

#[test]
fn test_commit_advances_generation() {
    let mut conn = fresh_conn();
    assert_eq!(conn.metadata.generation, 0);
    let mut ip = conn.begin_transaction().expect("begun successfully");
    sim_transact(&mut ip, &["one"]);
    ip.commit(&mut conn).expect("commit succeeded");
    assert_eq!(conn.metadata.generation, 1);

    let mut ip = conn.begin_transaction().expect("begun successfully");
    sim_transact(&mut ip, &[]);
    ip.commit(&mut conn).expect("commit succeeded");
    assert_eq!(conn.metadata.generation, 2);
}

#[test]
fn test_compound_transact() {
    let mut conn = fresh_conn();
    let tempid_offset = user_index(&conn);

    let mut in_progress = conn.begin_transaction().expect("begun successfully");
    let report = sim_transact(&mut in_progress, &["one", "two"]);
    let one = report.tempid("one").expect("found one");
    let two = report.tempid("two").expect("found two");
    assert!(one != two);
    assert!(one == tempid_offset || one == tempid_offset + 1);
    assert!(two == tempid_offset || two == tempid_offset + 1);

    let report = sim_transact(&mut in_progress, &["three"]);
    let three = report.tempid("three").expect("found three");
    in_progress.commit(&mut conn).expect("commit succeeded");
    assert!(one != three);
    assert!(two != three);

    assert_eq!(tempid_offset + 3, user_index(&conn));
}

#[test]
fn test_compound_rollback() {
    let mut conn = fresh_conn();
    let tempid_offset = user_index(&conn);
    assert_eq!(tempid_offset, USER0);

    let mut in_progress = conn.begin_transaction().expect("begun successfully");
    let report = sim_transact(&mut in_progress, &["one", "two"]);
    let one = report.tempid("one").expect("found it");
    let two = report.tempid("two").expect("found it");
    assert!(one != two);
    assert!(one == tempid_offset || one == tempid_offset + 1);
    assert!(two == tempid_offset || two == tempid_offset + 1);

    // Inside the transaction the draft map has advanced.
    assert_eq!(
        in_progress.partition_map.get(":db.part/user").expect("user partition").index,
        tempid_offset + 2,
    );

    in_progress.rollback(&mut conn);

    // The partition map and generation are unchanged.
    assert_eq!(tempid_offset, user_index(&conn));
    assert_eq!(conn.metadata.generation, 0);
}

#[test]
fn test_tx_ids_monotonic() {
    let mut conn = fresh_conn();

    let mut ip = conn.begin_transaction().expect("begun successfully");
    let report = sim_transact(&mut ip, &[]);
    ip.commit(&mut conn).expect("commit succeeded");
    assert_eq!(report.tx_id, 0x10000000 + 1);

    // A transaction that never reaches the transactor (say, its text failed
    // to parse) consumes nothing.

    let mut ip = conn.begin_transaction().expect("begun successfully");
    let report = sim_transact(&mut ip, &["t"]);
    ip.commit(&mut conn).expect("commit succeeded");
    assert_eq!(report.tx_id, 0x10000000 + 2);
}

#[test]
fn test_second_writer_busy() {
    let mut conn = fresh_conn();
    let ip = conn.begin_transaction().expect("begun successfully");
    match conn.begin_transaction() {
        Err(Error::Backing(BackingError::Busy)) => {},
        x => panic!("expected busy, got {:?}", x.map(|_| ())),
    }
    // Readers contend for the same cache handle.
    match conn.begin_read() {
        Err(Error::Backing(BackingError::Busy)) => {},
        x => panic!("expected busy, got {:?}", x.map(|_| ())),
    }
    ip.rollback(&mut conn);
    // Once the first writer is gone a new transaction may begin.
    let ip = conn.begin_transaction().expect("begun successfully");
    ip.rollback(&mut conn);
}

#[test]
fn test_race_detected() {
    let mut conn = fresh_conn();

    // A writer from an earlier generation: its snapshot predates a commit.
    let stale = InProgress {
        generation: conn.metadata.generation,
        partition_map: bootstrap_partition_map(),
        schema: bootstrap_schema(),
        cache: datom_conn::cache::AttributeCacher::new(),
    };

    let mut ip = conn.begin_transaction().expect("begun successfully");
    sim_transact(&mut ip, &["w"]);
    ip.commit(&mut conn).expect("commit succeeded");
    assert_eq!(conn.metadata.generation, 1);

    assert_eq!(stale.commit_check(&conn), Err(Error::Race));
    let user_before = user_index(&conn);
    match stale.commit(&mut conn) {
        Err(Error::Race) => {},
        x => panic!("expected race, got {:?}", x),
    }
    // Nothing was published.
    assert_eq!(conn.metadata.generation, 1);
    assert_eq!(user_index(&conn), user_before);
}

#[test]
fn test_reads_observe_own_schema_writes() {
    let mut conn = fresh_conn();
    let kw = NamespacedKeyword::new("a", "keyword1");

    let mut ip = conn.begin_transaction().expect("begun successfully");
    // Simulated schema-altering transact: the transactor returns a new schema.
    let mut pm = ip.partition_map.clone();
    let attr_id = pm.allocate_entids(":db.part/user", 1).expect("ids left");
    let mut next_schema = ip.schema.clone();
    assert!(next_schema.define(attr_id, kw.clone(), Attribute::simple(ValueType::Long)));
    ip.apply_tx_result(pm, Some(next_schema));

    // The transaction sees its own schema write; the connection does not yet.
    assert!(ip.identifies_attribute(&kw));
    assert!(ip.get_entid(&kw).is_some());
    assert!(conn.current_schema().get_entid(&kw).is_none());

    ip.commit(&mut conn).expect("commit succeeded");

    // After commit the published schema carries it.
    assert!(conn.current_schema().get_entid(&kw).is_some());
}

#[test]
fn test_failed_transact_leaves_drafts_intact() {
    let mut conn = fresh_conn();
    let mut ip = conn.begin_transaction().expect("begun successfully");
    let user_before = ip.partition_map.get(":db.part/user").expect("user partition").index;

    // A transactor failure: ids were drawn from a clone that is then
    // discarded, so the drafts never move.
    let mut scratch = ip.partition_map.clone();
    scratch.allocate_entids(":db.part/user", 7).expect("ids left");

    assert_eq!(
        ip.partition_map.get(":db.part/user").expect("user partition").index,
        user_before,
    );
    sim_transact(&mut ip, &["ok"]);
    ip.commit(&mut conn).expect("commit succeeded");
    assert_eq!(user_index(&conn), user_before + 1);
}

#[test]
fn test_allocation_totals_across_commits() {
    let mut conn = fresh_conn();
    let start = user_index(&conn);
    for (i, n) in [1usize, 2, 3].iter().enumerate() {
        let mut ip = conn.begin_transaction().expect("begun successfully");
        let names: Vec<String> = (0..*n).map(|k| format!("t{}_{}", i, k)).collect();
        let name_refs: Vec<&str> = names.iter().map(|s| s.as_str()).collect();
        sim_transact(&mut ip, &name_refs);
        ip.commit(&mut conn).expect("commit succeeded");
    }
    assert_eq!(user_index(&conn), start + 6);
    assert_eq!(conn.metadata.generation, 3);
}

#[test]
fn test_commit_check_passes_for_sole_writer() {
    let mut conn = fresh_conn();
    let mut ip = conn.begin_transaction().expect("begun successfully");
    sim_transact(&mut ip, &["x"]);
    assert_eq!(ip.commit_check(&conn), Ok(()));
    ip.commit(&mut conn).expect("commit succeeded");
}

#[test]
fn test_read_transaction_lookups() {
    let mut conn = fresh_conn();
    let ident = NamespacedKeyword::new("db", "ident");
    conn.cache(
        &ident,
        CacheAction::Register,
        vec![(10, TypedValue::Keyword(NamespacedKeyword::new("a", "b")))],
    )
    .expect("register");

    let mut read = conn.begin_read().expect("read");
    assert!(read.identifies_attribute(&ident));
    assert!(read.is_attribute(1));
    assert!(!read.is_attribute(999));

    let v = read
        .lookup_value_for_attribute(10, &ident, None)
        .expect("lookup succeeded");
    assert_eq!(v, Some(TypedValue::Keyword(NamespacedKeyword::new("a", "b"))));

    let vs = read
        .lookup_values_for_attribute(10, &ident, vec![])
        .expect("lookup succeeded");
    assert_eq!(vs, vec![TypedValue::Keyword(NamespacedKeyword::new("a", "b"))]);

    read.rollback(&mut conn);
    assert_eq!(conn.metadata.generation, 0);
    assert!(conn.attribute_cache().is_some());
}

#[test]
fn test_in_progress_schema_accessors() {
    let mut conn = fresh_conn();
    let ip = conn.begin_transaction().expect("begun successfully");
    let ident = NamespacedKeyword::new("db", "ident");
    assert_eq!(ip.get_entid(&ident).map(|k| k.0), Some(1));
    assert_eq!(ip.get_ident(1), Some(&ident));
    let (a, k) = ip.attribute_for_ident(&ident).expect("attribute");
    assert_eq!(a.value_type, ValueType::Keyword);
    assert_eq!(k.0, 1);
    assert!(ip.attribute_for_entid(1).is_some());
    assert!(ip.entid_for_type(ValueType::Long).is_none());
    ip.rollback(&mut conn);
}

#[test]
fn test_cache_survives_transaction() {
    let mut conn = fresh_conn();
    let kw = NamespacedKeyword::new("db", "ident");
    conn.cache(
        &kw,
        CacheAction::Register,
        vec![(42, TypedValue::Keyword(NamespacedKeyword::new("a", "b")))],
    )
    .expect("expected caching to work");

    let ip = conn.begin_transaction().expect("begun successfully");
    assert!(conn.attribute_cache().is_none());
    ip.rollback(&mut conn);

    // The cache handle is back and still holds the registration.
    let v = conn
        .lookup_value_for_attribute(42, &kw, None)
        .expect("lookup succeeded");
    assert_eq!(v, Some(TypedValue::Keyword(NamespacedKeyword::new("a", "b"))));
}
