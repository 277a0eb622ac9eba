use catalog_txn::error::Error;
use catalog_txn::ids::{
    AclMode, CatalogItemType, ClusterId, CommentObjectId, GlobalId, ObjectType, RoleId,
};
use catalog_txn::objects::{
    ClusterIntrospectionSourceIndexKey, ClusterIntrospectionSourceIndexValue, GidMappingKey,
    GidMappingValue, SystemObjectMapping,
};
use catalog_txn::transaction::{Snapshot, Transaction};

fn empty_snapshot() -> Snapshot {
    Snapshot {
        databases: vec![],
        schemas: vec![],
        roles: vec![],
        items: vec![],
        comments: vec![],
        clusters: vec![],
        cluster_replicas: vec![],
        introspection_sources: vec![],
        id_allocator: vec![],
        configs: vec![],
        settings: vec![],
        timestamps: vec![],
        system_object_mappings: vec![],
        system_configurations: vec![],
        default_privileges: vec![],
        system_privileges: vec![],
    }
}

#[test]
fn comments_are_upserted_and_dropped_per_object() {
    let mut txn = Transaction::new(empty_snapshot()).unwrap();
    let table_obj = CommentObjectId::Item(GlobalId::User(1));
    let other_obj = CommentObjectId::Item(GlobalId::User(2));
    txn.update_comment(table_obj, None, Some("a table".to_string()))
        .unwrap();
    txn.update_comment(table_obj, Some(1), Some("a column".to_string()))
        .unwrap();
    txn.update_comment(other_obj, None, Some("another".to_string()))
        .unwrap();
    // Last write wins within the transaction.
    txn.update_comment(table_obj, None, Some("a better table".to_string()))
        .unwrap();
    let mut deleted = txn.drop_comments(table_obj).unwrap();
    deleted.sort_by_key(|d| d.1);
    assert_eq!(deleted.len(), 2);
    assert_eq!(deleted[0].2, "a better table");
    assert_eq!(deleted[1].2, "a column");
    let batch = txn.commit();
    // Only the untouched object's comment survives to the batch.
    assert_eq!(batch.comments.len(), 1);
    assert_eq!(batch.comments[0].1.comment, "another");
}

#[test]
fn privileges_use_last_write_wins_set_semantics() {
    let mut txn = Transaction::new(empty_snapshot()).unwrap();
    txn.set_default_privilege(
        RoleId::User(1),
        None,
        None,
        ObjectType::Table,
        RoleId::Public,
        Some(AclMode { bits: 3 }),
    )
    .unwrap();
    txn.set_default_privilege(
        RoleId::User(1),
        None,
        None,
        ObjectType::Table,
        RoleId::Public,
        Some(AclMode { bits: 5 }),
    )
    .unwrap();
    txn.set_system_privilege(RoleId::Public, RoleId::System(1), Some(AclMode { bits: 1 }))
        .unwrap();
    txn.set_system_privilege(RoleId::Public, RoleId::System(1), None)
        .unwrap();
    let batch = txn.commit();
    assert_eq!(batch.default_privileges.len(), 1);
    assert_eq!(batch.default_privileges[0].1.privileges.bits, 5);
    assert_eq!(batch.default_privileges[0].2, 1);
    // Setting then clearing a fresh key nets out to nothing.
    assert!(batch.system_privileges.is_empty());
}

#[test]
fn system_configs_upsert_remove_clear() {
    let mut s = empty_snapshot();
    s.system_configurations.push((
        catalog_txn::objects::ServerConfigurationKey {
            name: "max_tables".to_string(),
        },
        catalog_txn::objects::ServerConfigurationValue {
            value: "25".to_string(),
        },
    ));
    let mut txn = Transaction::new(s).unwrap();
    txn.upsert_system_config("max_tables", "100".to_string())
        .unwrap();
    txn.upsert_system_config("max_sinks", "5".to_string())
        .unwrap();
    txn.remove_system_config("max_sinks");
    let batch = txn.commit();
    // The replaced base row commits as retract+insert; the transient
    // max_sinks row nets out to nothing.
    assert_eq!(batch.system_configurations.len(), 2);
    assert_eq!(batch.system_configurations[0].2, -1);
    assert_eq!(batch.system_configurations[0].1.value, "25");
    assert_eq!(batch.system_configurations[1].2, 1);
    assert_eq!(batch.system_configurations[1].1.value, "100");

    let mut s2 = empty_snapshot();
    s2.system_configurations.push((
        catalog_txn::objects::ServerConfigurationKey {
            name: "max_tables".to_string(),
        },
        catalog_txn::objects::ServerConfigurationValue {
            value: "25".to_string(),
        },
    ));
    let mut txn2 = Transaction::new(s2).unwrap();
    txn2.clear_system_configs();
    let batch2 = txn2.commit();
    assert_eq!(batch2.system_configurations.len(), 1);
    assert_eq!(batch2.system_configurations[0].2, -1);
}

#[test]
fn system_object_mappings_match_by_stored_id() {
    let mut s = empty_snapshot();
    s.system_object_mappings.push((
        GidMappingKey {
            schema_name: "mz_catalog".to_string(),
            object_type: CatalogItemType::View,
            object_name: "mz_tables".to_string(),
        },
        GidMappingValue {
            id: 10,
            fingerprint: "old".to_string(),
        },
    ));
    let mut txn = Transaction::new(s).unwrap();
    let mapping = SystemObjectMapping {
        schema_name: "mz_catalog".to_string(),
        object_type: CatalogItemType::View,
        object_name: "mz_tables".to_string(),
        id: 20,
        fingerprint: "new".to_string(),
    };
    txn.update_system_object_mappings(vec![(GlobalId::System(10), mapping.clone())])
        .unwrap();
    // A mapping whose old id matches nothing fails, naming every
    // requested id.
    match txn.update_system_object_mappings(vec![(GlobalId::System(99), mapping)]) {
        Err(Error::FailedBuiltinSchemaMigration(ids)) => assert_eq!(ids, "s99"),
        other => panic!("expected FailedBuiltinSchemaMigration, got {other:?}"),
    }
    let batch = txn.commit();
    assert_eq!(batch.system_gid_mapping.len(), 2);
    assert_eq!(batch.system_gid_mapping[0].2, -1);
    assert_eq!(batch.system_gid_mapping[0].1.fingerprint, "old");
    assert_eq!(batch.system_gid_mapping[1].2, 1);
    assert_eq!(batch.system_gid_mapping[1].1.id, 20);
}

#[test]
fn introspection_source_gid_updates_need_existing_rows() {
    let mut s = empty_snapshot();
    s.introspection_sources.push((
        ClusterIntrospectionSourceIndexKey {
            cluster_id: ClusterId::System(1),
            name: "log_a".to_string(),
        },
        ClusterIntrospectionSourceIndexValue { index_id: 5 },
    ));
    let mut txn = Transaction::new(s).unwrap();
    txn.update_introspection_source_index_gids(vec![(
        ClusterId::System(1),
        "log_a".to_string(),
        GlobalId::System(50),
    )])
    .unwrap();
    match txn.update_introspection_source_index_gids(vec![(
        ClusterId::System(1),
        "log_missing".to_string(),
        GlobalId::System(51),
    )]) {
        Err(Error::FailedBuiltinSchemaMigration(id)) => assert_eq!(id, "s51"),
        other => panic!("expected FailedBuiltinSchemaMigration, got {other:?}"),
    }
}

#[test]
fn update_items_bulk_replaces_and_names_missing() {
    let mut s = empty_snapshot();
    for (gid, name) in [(1u64, "a"), (2, "b")] {
        s.items.push((
            catalog_txn::objects::ItemKey {
                gid: GlobalId::User(gid),
            },
            catalog_txn::objects::ItemValue {
                schema_id: catalog_txn::ids::SchemaId::User(1),
                name: name.to_string(),
                create_sql: format!("CREATE VIEW {name}"),
                owner_id: RoleId::User(1),
                privileges: vec![],
            },
        ));
    }
    let mut txn = Transaction::new(s).unwrap();
    let renamed = |gid: u64, name: &str| catalog_txn::objects::Item {
        id: GlobalId::User(gid),
        schema_id: catalog_txn::ids::SchemaId::User(1),
        name: name.to_string(),
        create_sql: format!("CREATE VIEW {name}"),
        owner_id: RoleId::User(1),
        privileges: vec![],
    };
    txn.update_items(vec![
        (GlobalId::User(1), renamed(1, "a2")),
        (GlobalId::User(2), renamed(2, "b2")),
    ])
    .unwrap();
    match txn.update_items(vec![
        (GlobalId::User(1), renamed(1, "a3")),
        (GlobalId::User(9), renamed(9, "zz")),
    ]) {
        Err(Error::UnknownItem(ids)) => assert_eq!(ids, "u9"),
        other => panic!("expected UnknownItem, got {other:?}"),
    }
    let items = txn.loaded_items();
    assert_eq!(items.len(), 2);
    // The found entry of the failing bulk call was still applied.
    assert_eq!(items[0].name, "a3");
    assert_eq!(items[1].name, "b2");
}
