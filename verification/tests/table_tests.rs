use catalog_txn::ids::{DatabaseId, RoleId};
use catalog_txn::objects::{DatabaseKey, DatabaseValue};
use catalog_txn::table::TableTransaction;

fn db_value(name: &str) -> DatabaseValue {
    DatabaseValue {
        name: name.to_string(),
        owner_id: RoleId::User(1),
        privileges: vec![],
    }
}

fn key(id: u64) -> DatabaseKey {
    DatabaseKey {
        id: DatabaseId::User(id),
    }
}

#[test]
fn insert_rejects_key_and_predicate_conflicts() {
    let mut table = TableTransaction::new(vec![(key(1), db_value("a"))]).unwrap();
    // Taken key.
    assert!(table.insert(key(1), db_value("b")).is_err());
    // Name conflict under a fresh key: the uniqueness predicate fires.
    assert!(table.insert(key(2), db_value("a")).is_err());
    // Both fresh: accepted.
    assert!(table.insert(key(2), db_value("b")).is_ok());
    // The failed inserts left the live contents unchanged.
    let items = table.items();
    assert_eq!(items.len(), 2);
}

#[test]
fn new_rejects_conflicting_snapshots() {
    assert!(TableTransaction::new(vec![(key(1), db_value("a")), (key(2), db_value("a"))]).is_err());
    assert!(TableTransaction::new(vec![(key(1), db_value("a")), (key(1), db_value("b"))]).is_err());
    assert!(TableTransaction::new(vec![(key(1), db_value("a")), (key(2), db_value("b"))]).is_ok());
}

#[test]
fn set_bypasses_the_uniqueness_predicate() {
    let mut table = TableTransaction::new(vec![(key(1), db_value("a"))]).unwrap();
    let prev = table.set(key(2), Some(db_value("a")));
    assert!(prev.is_none());
    let prev = table.set(key(2), Some(db_value("c")));
    assert_eq!(prev.unwrap().name, "a");
    let prev = table.set(key(9), None);
    assert!(prev.is_none());
    assert_eq!(table.items().len(), 2);
}

#[test]
fn pending_coalesces_per_key() {
    let mut table = TableTransaction::new(vec![(key(1), db_value("a"))]).unwrap();
    // Insert then delete a fresh key: nothing pending for it.
    table.insert(key(2), db_value("b")).unwrap();
    table.set(key(2), None);
    // Update a base row twice: one retraction, one insertion, the final
    // value only.
    table.update_by_key(&key(1), db_value("a2")).unwrap();
    table.update_by_key(&key(1), db_value("a3")).unwrap();
    let pending = table.pending();
    assert_eq!(pending.len(), 2);
    assert_eq!((pending[0].1.name.as_str(), pending[0].2), ("a", -1));
    assert_eq!((pending[1].1.name.as_str(), pending[1].2), ("a3", 1));
}

#[test]
fn update_by_key_counts_and_checks() {
    let mut table =
        TableTransaction::new(vec![(key(1), db_value("a")), (key(2), db_value("b"))]).unwrap();
    // Absent key: zero rows touched, no error.
    assert_eq!(table.update_by_key(&key(9), db_value("z")).unwrap(), 0);
    // Renaming row 1 to row 2's name violates uniqueness.
    assert!(table.update_by_key(&key(1), db_value("b")).is_err());
    // Renaming to a fresh name touches exactly one row.
    assert_eq!(table.update_by_key(&key(1), db_value("c")).unwrap(), 1);
    let pending = table.pending();
    assert_eq!(pending.len(), 2);
}

#[test]
fn get_sees_pending_state() {
    let mut table = TableTransaction::new(vec![(key(1), db_value("a"))]).unwrap();
    assert_eq!(table.get(&key(1)).unwrap().name, "a");
    table.set(key(1), None);
    assert!(table.get(&key(1)).is_none());
    table.insert(key(1), db_value("b")).unwrap();
    assert_eq!(table.get(&key(1)).unwrap().name, "b");
}
