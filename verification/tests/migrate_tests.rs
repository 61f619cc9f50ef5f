use dealer_store::schema::{Schema, CURRENT_VERSION};
use dealer_store::store::Store;

#[test]
fn migrate_empty_store_reaches_current_version() {
    let mut store = Store::new();
    store.migrate(1_000).unwrap();
    assert_eq!(store.versions.len(), 5);
    for (i, rec) in store.versions.iter().enumerate() {
        assert_eq!(rec.version, (i + 1) as i64);
        assert_eq!(rec.applied_at, 1_000);
    }
    assert_eq!(store.schema, Schema { tables_created: true, client_cols: 14, vehicle_cols: 23, deal_cols: 19, document_cols: 10, setting_cols: 3 });
    assert_eq!(store.versions.last().unwrap().version, CURRENT_VERSION);
}

#[test]
fn migrate_twice_is_idempotent() {
    let mut store = Store::new();
    store.migrate(1_000).unwrap();
    let schema_after_first = store.schema;
    let versions_after_first = store.versions.clone();
    store.migrate(2_000).unwrap();
    assert_eq!(store.schema, schema_after_first);
    assert_eq!(store.versions, versions_after_first);
}

#[test]
fn migrate_from_partial_version_applies_only_newer() {
    let mut store = Store::new();
    store.migrate(10).unwrap();
    let mut store2 = Store::new();
    // a store already recorded at version 3 only runs migrations 4 and 5
    store2.schema = Schema {
        tables_created: true,
        client_cols: 13,
        vehicle_cols: 22,
        deal_cols: 18,
        document_cols: 10,
        setting_cols: 3,
    };
    store2.versions.push(dealer_store::entities::VersionRecord { version: 1, applied_at: 1 });
    store2.versions.push(dealer_store::entities::VersionRecord { version: 2, applied_at: 2 });
    store2.versions.push(dealer_store::entities::VersionRecord { version: 3, applied_at: 3 });
    store2.migrate(99).unwrap();
    assert_eq!(store2.versions.len(), 5);
    assert_eq!(store2.versions[3].version, 4);
    assert_eq!(store2.versions[3].applied_at, 99);
    assert_eq!(store2.versions[4].version, 5);
    assert_eq!(store2.schema, store.schema);
}

#[test]
fn migration_bodies_are_rerunnable() {
    // simulate a crash between a body and its version record: the schema
    // already has the column, the record is missing
    let mut store = Store::new();
    store.schema = Schema {
        tables_created: true,
        client_cols: 12,
        vehicle_cols: 21,
        deal_cols: 17,
        document_cols: 7,
        setting_cols: 3,
    };
    store.versions.push(dealer_store::entities::VersionRecord { version: 1, applied_at: 1 });
    store.migrate(50).unwrap();
    assert_eq!(store.schema.client_cols, 14);
    assert_eq!(store.versions.len(), 5);
}
