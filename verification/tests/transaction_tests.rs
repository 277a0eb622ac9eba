use catalog_txn::error::Error;
use catalog_txn::ids::{
    ClusterId, DatabaseId, GlobalId, MzAclItem, ReplicaId, RoleId, SchemaId, AclMode,
};
use catalog_txn::objects::{
    ClusterConfig, ClusterIntrospectionSourceIndexKey, ClusterIntrospectionSourceIndexValue,
    ClusterKey, ClusterReplicaKey, ClusterReplicaValue, ClusterValue, ClusterVariant, IdAllocKey,
    IdAllocValue, Item, ItemKey, ItemValue, ReplicaConfig, ReplicaLocation, ReplicaLogging,
    RoleAttributes, RoleKey, RoleMembership, RoleValue, RoleVars, Timeline,
};
use catalog_txn::transaction::{
    add_new_builtin_cluster_replicas_migration, add_new_builtin_clusters_migration,
    builtin_cluster_replica_config, BootstrapArgs, BuiltinCluster, BuiltinClusterReplica,
    Snapshot, Transaction,
};

fn empty_snapshot() -> Snapshot {
    Snapshot {
        databases: vec![],
        schemas: vec![],
        roles: vec![],
        items: vec![],
        comments: vec![],
        clusters: vec![],
        cluster_replicas: vec![],
        introspection_sources: vec![],
        id_allocator: vec![],
        configs: vec![],
        settings: vec![],
        timestamps: vec![],
        system_object_mappings: vec![],
        system_configurations: vec![],
        default_privileges: vec![],
        system_privileges: vec![],
    }
}

fn seeded_snapshot() -> Snapshot {
    let mut s = empty_snapshot();
    for name in [
        "database",
        "schema",
        "user_role",
        "system_cluster",
        "system_replica",
    ] {
        s.id_allocator.push((
            IdAllocKey {
                name: name.to_string(),
            },
            IdAllocValue { next_id: 1 },
        ));
    }
    s
}

fn no_privs() -> Vec<MzAclItem> {
    vec![]
}

fn one_priv() -> Vec<MzAclItem> {
    vec![MzAclItem {
        grantee: RoleId::Public,
        grantor: RoleId::System(1),
        acl_mode: AclMode { bits: 7 },
    }]
}

fn unmanaged_config() -> ClusterConfig {
    ClusterConfig {
        variant: ClusterVariant::Unmanaged,
    }
}

fn replica_config() -> ReplicaConfig {
    ReplicaConfig {
        location: ReplicaLocation::Unmanaged { workers: 1 },
        logging: ReplicaLogging {
            log_logging: false,
            interval_ms: Some(1000),
        },
        idle_arrangement_merge_effort: None,
    }
}

fn item(id: GlobalId, schema_id: SchemaId, name: &str) -> Item {
    Item {
        id,
        schema_id,
        name: name.to_string(),
        create_sql: format!("CREATE VIEW {name}"),
        owner_id: RoleId::User(1),
        privileges: vec![],
    }
}

#[test]
fn insert_user_database_allocates_increasing_ids() {
    let mut txn = Transaction::new(seeded_snapshot()).unwrap();
    let d1 = txn
        .insert_user_database("d1", RoleId::User(1), no_privs())
        .unwrap();
    let d2 = txn
        .insert_user_database("d2", RoleId::User(1), no_privs())
        .unwrap();
    assert_eq!(d1, DatabaseId::User(1));
    assert_eq!(d2, DatabaseId::User(2));
}

#[test]
fn duplicate_database_name_is_rejected_and_nothing_more_changes() {
    let mut txn = Transaction::new(seeded_snapshot()).unwrap();
    txn.insert_user_database("d1", RoleId::User(1), no_privs())
        .unwrap();
    match txn.insert_user_database("d1", RoleId::User(2), no_privs()) {
        Err(Error::DatabaseAlreadyExists(name)) => assert_eq!(name, "d1"),
        other => panic!("expected DatabaseAlreadyExists, got {other:?}"),
    }
    // The transaction stays open and usable; only the one database row is
    // pending (the failed insert made no table mutation).
    let batch = txn.commit();
    assert_eq!(batch.databases.len(), 1);
    assert_eq!(batch.databases[0].2, 1);
    assert_eq!(batch.databases[0].1.name, "d1");
}

#[test]
fn get_and_increment_id_is_monotonic() {
    let mut txn = Transaction::new(seeded_snapshot()).unwrap();
    let a = txn.get_and_increment_id("database".to_string()).unwrap();
    let b = txn.get_and_increment_id("database".to_string()).unwrap();
    let c = txn.get_and_increment_id("database".to_string()).unwrap();
    assert_eq!((a, b, c), (1, 2, 3));
}

#[test]
fn exhausted_allocator_reports_id_exhaustion_without_mutating() {
    let mut s = empty_snapshot();
    s.id_allocator.push((
        IdAllocKey {
            name: "database".to_string(),
        },
        IdAllocValue { next_id: u64::MAX },
    ));
    let mut txn = Transaction::new(s).unwrap();
    assert!(matches!(
        txn.get_and_increment_id("database".to_string()),
        Err(Error::IdExhaustion)
    ));
    // Still exhausted: the failed call changed nothing.
    assert!(matches!(
        txn.get_and_increment_id("database".to_string()),
        Err(Error::IdExhaustion)
    ));
    let batch = txn.commit();
    assert!(batch.id_allocator.is_empty());
}

#[test]
fn insert_then_delete_coalesces_to_empty_diff() {
    let mut txn = Transaction::new(empty_snapshot()).unwrap();
    let gid = GlobalId::User(7);
    txn.insert_item(
        gid,
        SchemaId::User(1),
        "v",
        "CREATE VIEW v".to_string(),
        RoleId::User(1),
        no_privs(),
    )
    .unwrap();
    txn.remove_item(gid).unwrap();
    let batch = txn.commit();
    assert!(batch.items.is_empty());
}

#[test]
fn insert_then_update_coalesces_to_single_insert() {
    let mut txn = Transaction::new(empty_snapshot()).unwrap();
    let gid = GlobalId::User(7);
    txn.insert_item(
        gid,
        SchemaId::User(1),
        "v",
        "CREATE VIEW v AS SELECT 1".to_string(),
        RoleId::User(1),
        no_privs(),
    )
    .unwrap();
    txn.update_item(gid, item(gid, SchemaId::User(1), "v2"))
        .unwrap();
    let batch = txn.commit();
    assert_eq!(batch.items.len(), 1);
    assert_eq!(batch.items[0].2, 1);
    assert_eq!(batch.items[0].1.name, "v2");
}

#[test]
fn replacing_a_base_row_emits_retract_then_insert() {
    let mut s = empty_snapshot();
    s.items.push((
        ItemKey {
            gid: GlobalId::User(7),
        },
        ItemValue {
            schema_id: SchemaId::User(1),
            name: "v".to_string(),
            create_sql: "CREATE VIEW v".to_string(),
            owner_id: RoleId::User(1),
            privileges: vec![],
        },
    ));
    let mut txn = Transaction::new(s).unwrap();
    txn.update_item(GlobalId::User(7), item(GlobalId::User(7), SchemaId::User(1), "w"))
        .unwrap();
    let batch = txn.commit();
    assert_eq!(batch.items.len(), 2);
    assert_eq!((batch.items[0].1.name.as_str(), batch.items[0].2), ("v", -1));
    assert_eq!((batch.items[1].1.name.as_str(), batch.items[1].2), ("w", 1));
}

#[test]
fn setting_a_base_row_to_its_own_value_is_a_no_op() {
    let mut s = empty_snapshot();
    s.items.push((
        ItemKey {
            gid: GlobalId::User(7),
        },
        ItemValue {
            schema_id: SchemaId::User(1),
            name: "v".to_string(),
            create_sql: "CREATE VIEW v".to_string(),
            owner_id: RoleId::User(1),
            privileges: vec![],
        },
    ));
    let mut txn = Transaction::new(s).unwrap();
    let mut it = item(GlobalId::User(7), SchemaId::User(1), "v");
    it.create_sql = "CREATE VIEW v".to_string();
    txn.update_item(GlobalId::User(7), it).unwrap();
    let batch = txn.commit();
    assert!(batch.items.is_empty());
}

fn cluster_snapshot() -> Snapshot {
    let mut s = empty_snapshot();
    s.clusters.push((
        ClusterKey {
            id: ClusterId::User(1),
        },
        ClusterValue {
            name: "c1".to_string(),
            linked_object_id: None,
            owner_id: RoleId::User(1),
            privileges: vec![],
            config: ClusterConfig {
                variant: ClusterVariant::Unmanaged,
            },
        },
    ));
    for (rid, rname) in [(1u64, "r1"), (2, "r2")] {
        s.cluster_replicas.push((
            ClusterReplicaKey {
                id: ReplicaId::User(rid),
            },
            ClusterReplicaValue {
                cluster_id: ClusterId::User(1),
                name: rname.to_string(),
                config: ReplicaConfig {
                    location: ReplicaLocation::Unmanaged { workers: 1 },
                    logging: ReplicaLogging {
                        log_logging: false,
                        interval_ms: Some(1000),
                    },
                    idle_arrangement_merge_effort: None,
                },
                owner_id: RoleId::User(1),
            },
        ));
    }
    for log in ["log_a", "log_b"] {
        s.introspection_sources.push((
            ClusterIntrospectionSourceIndexKey {
                cluster_id: ClusterId::User(1),
                name: log.to_string(),
            },
            ClusterIntrospectionSourceIndexValue { index_id: 10 },
        ));
    }
    s
}

#[test]
fn removing_a_cluster_cascades_to_exactly_its_dependents() {
    // The cluster owns two replicas and two introspection-source rows:
    // removing it must retract exactly 2 + 2 + 1 rows in one batch.
    let mut txn = Transaction::new(cluster_snapshot()).unwrap();
    txn.remove_cluster(ClusterId::User(1)).unwrap();
    let batch = txn.commit();
    assert_eq!(batch.clusters.len(), 1);
    assert_eq!(batch.clusters[0].2, -1);
    assert_eq!(batch.cluster_replicas.len(), 2);
    assert!(batch.cluster_replicas.iter().all(|d| d.2 == -1));
    assert_eq!(batch.introspection_sources.len(), 2);
    assert!(batch.introspection_sources.iter().all(|d| d.2 == -1));
}

#[test]
fn removing_an_unknown_cluster_changes_nothing() {
    let mut txn = Transaction::new(cluster_snapshot()).unwrap();
    match txn.remove_cluster(ClusterId::User(9)) {
        Err(Error::UnknownCluster(id)) => assert_eq!(id, "u9"),
        other => panic!("expected UnknownCluster, got {other:?}"),
    }
    let batch = txn.commit();
    assert!(batch.clusters.is_empty());
    assert!(batch.cluster_replicas.is_empty());
    assert!(batch.introspection_sources.is_empty());
}

#[test]
fn cluster_migration_is_idempotent() {
    let mut s = seeded_snapshot();
    s.clusters.push((
        ClusterKey {
            id: ClusterId::System(7),
        },
        ClusterValue {
            name: "already_there".to_string(),
            linked_object_id: None,
            owner_id: RoleId::System(1),
            privileges: vec![],
            config: ClusterConfig {
                variant: ClusterVariant::Unmanaged,
            },
        },
    ));
    let builtins = vec![
        BuiltinCluster {
            name: "already_there".to_string(),
            privileges: one_priv(),
        },
        BuiltinCluster {
            name: "fresh".to_string(),
            privileges: vec![],
        },
    ];
    let mut txn = Transaction::new(s).unwrap();
    add_new_builtin_clusters_migration(&mut txn, &builtins).unwrap();
    // Running the helper again inserts nothing further.
    add_new_builtin_clusters_migration(&mut txn, &builtins).unwrap();
    let batch = txn.commit();
    assert_eq!(batch.clusters.len(), 1);
    assert_eq!(batch.clusters[0].1.name, "fresh");
    assert_eq!(batch.clusters[0].2, 1);
    // One system-cluster id was minted, once.
    assert_eq!(batch.id_allocator.len(), 2);
}

#[test]
fn replica_migration_is_idempotent() {
    let mut s = seeded_snapshot();
    s.clusters.push((
        ClusterKey {
            id: ClusterId::System(7),
        },
        ClusterValue {
            name: "mz_system".to_string(),
            linked_object_id: None,
            owner_id: RoleId::System(1),
            privileges: vec![],
            config: ClusterConfig {
                variant: ClusterVariant::Unmanaged,
            },
        },
    ));
    let args = BootstrapArgs {
        builtin_cluster_replica_size: "1".to_string(),
    };
    let builtins = vec![BuiltinClusterReplica {
        cluster_name: "mz_system".to_string(),
        name: "r1".to_string(),
    }];
    let mut txn = Transaction::new(s).unwrap();
    add_new_builtin_cluster_replicas_migration(&mut txn, &args, &builtins).unwrap();
    add_new_builtin_cluster_replicas_migration(&mut txn, &args, &builtins).unwrap();
    let batch = txn.commit();
    assert_eq!(batch.cluster_replicas.len(), 1);
    assert_eq!(batch.cluster_replicas[0].1.name, "r1");
    assert_eq!(batch.cluster_replicas[0].1.cluster_id, ClusterId::System(7));
}

#[test]
fn builtin_replica_config_uses_bootstrap_size() {
    let args = BootstrapArgs {
        builtin_cluster_replica_size: "xsmall".to_string(),
    };
    let config = builtin_cluster_replica_config(&args);
    match config.location {
        ReplicaLocation::Managed { size, disk, internal, .. } => {
            assert_eq!(size, "xsmall");
            assert!(!disk);
            assert!(!internal);
        }
        other => panic!("expected managed location, got {other:?}"),
    }
    assert_eq!(config.logging.interval_ms, Some(1000));
}

#[test]
fn failed_operation_leaves_earlier_work_visible() {
    // Commit atomicity, end to end: insert database "d1", then fail to
    // insert duplicate role "r1"; the error is typed, and the earlier
    // insert is still part of the transaction's in-memory state and its
    // commit batch. A transaction that is dropped commits nothing.
    let mut s = seeded_snapshot();
    s.roles.push((
        RoleKey {
            id: RoleId::User(1),
        },
        RoleValue {
            name: "r1".to_string(),
            attributes: RoleAttributes { inherit: true },
            membership: RoleMembership { map: vec![] },
            vars: RoleVars { vars: vec![] },
        },
    ));
    let mut txn = Transaction::new(s).unwrap();
    let d1 = txn
        .insert_user_database("d1", RoleId::User(1), no_privs())
        .unwrap();
    match txn.insert_user_role(
        "r1".to_string(),
        RoleAttributes { inherit: true },
        RoleMembership { map: vec![] },
        RoleVars { vars: vec![] },
    ) {
        Err(Error::RoleAlreadyExists(name)) => assert_eq!(name, "r1"),
        other => panic!("expected RoleAlreadyExists, got {other:?}"),
    }
    let batch = txn.commit();
    assert_eq!(batch.databases.len(), 1);
    assert_eq!(batch.databases[0].0.id, d1);
    assert!(batch.roles.is_empty());
}

#[test]
fn update_item_count_semantics() {
    let mut s = empty_snapshot();
    s.items.push((
        ItemKey {
            gid: GlobalId::User(1),
        },
        ItemValue {
            schema_id: SchemaId::User(1),
            name: "v".to_string(),
            create_sql: "CREATE VIEW v".to_string(),
            owner_id: RoleId::User(1),
            privileges: vec![],
        },
    ));
    let mut txn = Transaction::new(s).unwrap();
    // An id not present: UnknownItem, nothing touched.
    match txn.update_item(GlobalId::User(9), item(GlobalId::User(9), SchemaId::User(1), "w")) {
        Err(Error::UnknownItem(id)) => assert_eq!(id, "u9"),
        other => panic!("expected UnknownItem, got {other:?}"),
    }
    // An id present exactly once: exactly that row updates.
    txn.update_item(GlobalId::User(1), item(GlobalId::User(1), SchemaId::User(1), "w"))
        .unwrap();
    let items = txn.loaded_items();
    assert_eq!(items.len(), 1);
    assert_eq!(items[0].name, "w");
}

#[test]
fn remove_items_names_all_missing_ids() {
    let mut s = empty_snapshot();
    s.items.push((
        ItemKey {
            gid: GlobalId::User(1),
        },
        ItemValue {
            schema_id: SchemaId::User(1),
            name: "v".to_string(),
            create_sql: "CREATE VIEW v".to_string(),
            owner_id: RoleId::User(1),
            privileges: vec![],
        },
    ));
    let mut txn = Transaction::new(s).unwrap();
    match txn.remove_items(vec![
        GlobalId::User(1),
        GlobalId::User(2),
        GlobalId::System(3),
    ]) {
        Err(Error::UnknownItem(msg)) => assert_eq!(msg, "u2, s3"),
        other => panic!("expected UnknownItem, got {other:?}"),
    }
    // The found row stays removed in the transaction.
    let batch = txn.commit();
    assert_eq!(batch.items.len(), 1);
    assert_eq!(batch.items[0].2, -1);
}

#[test]
fn loaded_items_sorts_by_id() {
    let mut txn = Transaction::new(empty_snapshot()).unwrap();
    for (gid, name) in [
        (GlobalId::User(5), "c"),
        (GlobalId::System(9), "a"),
        (GlobalId::User(2), "b"),
    ] {
        txn.insert_item(
            gid,
            SchemaId::User(1),
            name,
            format!("CREATE VIEW {name}"),
            RoleId::User(1),
            vec![],
        )
        .unwrap();
    }
    let items = txn.loaded_items();
    let ids: Vec<GlobalId> = items.iter().map(|i| i.id).collect();
    assert_eq!(
        ids,
        vec![GlobalId::System(9), GlobalId::User(2), GlobalId::User(5)]
    );
}

#[test]
fn rename_cluster_semantics() {
    let mut txn = Transaction::new(cluster_snapshot()).unwrap();
    txn.insert_user_cluster(
        ClusterId::User(2),
        "c2",
        None,
        vec![],
        RoleId::User(1),
        vec![],
        unmanaged_config(),
    )
    .unwrap();
    // Renaming to a taken name is a uniqueness violation.
    assert!(matches!(
        txn.rename_cluster(ClusterId::User(2), "c2", "c1"),
        Err(Error::UniquenessViolation)
    ));
    // Renaming an unknown cluster reports the caller-supplied name.
    match txn.rename_cluster(ClusterId::User(9), "zzz", "w") {
        Err(Error::UnknownCluster(name)) => assert_eq!(name, "zzz"),
        other => panic!("expected UnknownCluster, got {other:?}"),
    }
    txn.rename_cluster(ClusterId::User(2), "c2", "c3").unwrap();
    let batch = txn.commit();
    assert_eq!(batch.clusters.len(), 1);
    assert_eq!(batch.clusters[0].1.name, "c3");
}

#[test]
fn duplicate_replica_error_names_the_cluster() {
    let mut txn = Transaction::new(cluster_snapshot()).unwrap();
    match txn.insert_cluster_replica(
        ClusterId::User(1),
        ReplicaId::User(3),
        "r1",
        replica_config(),
        RoleId::User(1),
    ) {
        Err(Error::DuplicateReplica(replica, cluster)) => {
            assert_eq!(replica, "r1");
            assert_eq!(cluster, "c1");
        }
        other => panic!("expected DuplicateReplica, got {other:?}"),
    }
}

#[test]
fn timeline_and_settings_and_configs() {
    let mut txn = Transaction::new(empty_snapshot()).unwrap();
    txn.insert_timestamp(Timeline::EpochMilliseconds, 42).unwrap();
    match txn.insert_timestamp(Timeline::EpochMilliseconds, 43) {
        Err(Error::TimelineAlreadyExists(name)) => assert_eq!(name, "M"),
        other => panic!("expected TimelineAlreadyExists, got {other:?}"),
    }
    assert!(!txn.check_migration_has_run("m1".to_string()).unwrap());
    txn.mark_migration_has_run("m1".to_string()).unwrap();
    assert!(txn.check_migration_has_run("m1".to_string()).unwrap());
    assert!(matches!(
        txn.mark_migration_has_run("m1".to_string()),
        Err(Error::UniquenessViolation)
    ));
    txn.insert_config("version".to_string(), 3).unwrap();
    match txn.insert_config("version".to_string(), 4) {
        Err(Error::ConfigAlreadyExists(key)) => assert_eq!(key, "version"),
        other => panic!("expected ConfigAlreadyExists, got {other:?}"),
    }
    let batch = txn.commit();
    assert_eq!(batch.timestamps.len(), 1);
    assert_eq!(batch.timestamps[0].1.ts, 42);
    assert_eq!(batch.settings.len(), 1);
    assert_eq!(batch.settings[0].1.value, "true");
    assert_eq!(batch.configs.len(), 1);
}

#[test]
fn audit_log_events_pass_straight_through() {
    let mut txn = Transaction::new(empty_snapshot()).unwrap();
    txn.insert_audit_log_event(catalog_txn::objects::VersionedEvent {
        id: 1,
        details: "create d1".to_string(),
    });
    txn.insert_storage_usage_event(catalog_txn::objects::VersionedStorageUsage {
        id: 2,
        shard_id: None,
        size_bytes: 1024,
        collection_timestamp: 5,
    });
    let batch = txn.commit();
    assert_eq!(batch.audit_log_updates.len(), 1);
    assert_eq!(batch.audit_log_updates[0].1, 1);
    assert_eq!(batch.storage_usage_updates.len(), 1);
    assert_eq!(batch.storage_usage_updates[0].0.size_bytes, 1024);
}

#[test]
fn bad_snapshot_is_rejected() {
    let mut s = empty_snapshot();
    for id in [1u64, 2] {
        s.databases.push((
            catalog_txn::objects::DatabaseKey {
                id: DatabaseId::User(id),
            },
            catalog_txn::objects::DatabaseValue {
                name: "same".to_string(),
                owner_id: RoleId::User(1),
                privileges: vec![],
            },
        ));
    }
    assert!(matches!(
        Transaction::new(s),
        Err(Error::UniquenessViolation)
    ));
}

#[test]
fn schema_and_role_and_item_conflicts() {
    let mut txn = Transaction::new(seeded_snapshot()).unwrap();
    let d1 = txn
        .insert_user_database("d1", RoleId::User(1), no_privs())
        .unwrap();
    txn.insert_user_schema(d1, "s1", RoleId::User(1), no_privs())
        .unwrap();
    match txn.insert_user_schema(d1, "s1", RoleId::User(1), no_privs()) {
        Err(Error::SchemaAlreadyExists(name)) => assert_eq!(name, "s1"),
        other => panic!("expected SchemaAlreadyExists, got {other:?}"),
    }
    txn.insert_item(
        GlobalId::User(1),
        SchemaId::User(1),
        "v",
        "CREATE VIEW v".to_string(),
        RoleId::User(1),
        no_privs(),
    )
    .unwrap();
    match txn.insert_item(
        GlobalId::User(2),
        SchemaId::User(1),
        "v",
        "CREATE VIEW v".to_string(),
        RoleId::User(1),
        no_privs(),
    ) {
        Err(Error::ItemAlreadyExists(id, name)) => {
            assert_eq!(id, GlobalId::User(2));
            assert_eq!(name, "v");
        }
        other => panic!("expected ItemAlreadyExists, got {other:?}"),
    }
    // Same name in a different schema is fine.
    txn.insert_item(
        GlobalId::User(2),
        SchemaId::User(2),
        "v",
        "CREATE VIEW v".to_string(),
        RoleId::User(1),
        no_privs(),
    )
    .unwrap();
}

#[test]
fn remove_role_and_unknown_errors() {
    let mut s = empty_snapshot();
    s.roles.push((
        RoleKey {
            id: RoleId::User(5),
        },
        RoleValue {
            name: "alice".to_string(),
            attributes: RoleAttributes { inherit: true },
            membership: RoleMembership { map: vec![] },
            vars: RoleVars { vars: vec![] },
        },
    ));
    let mut txn = Transaction::new(s).unwrap();
    match txn.remove_role("bob") {
        Err(Error::UnknownRole(name)) => assert_eq!(name, "bob"),
        other => panic!("expected UnknownRole, got {other:?}"),
    }
    txn.remove_role("alice").unwrap();
    match txn.remove_database(&DatabaseId::User(3)) {
        Err(Error::UnknownDatabase(id)) => assert_eq!(id, "u3"),
        other => panic!("expected UnknownDatabase, got {other:?}"),
    }
    match txn.remove_schema(&Some(DatabaseId::User(3)), &SchemaId::User(4)) {
        Err(Error::UnknownSchema(id)) => assert_eq!(id, "u3.u4"),
        other => panic!("expected UnknownSchema, got {other:?}"),
    }
    match txn.remove_cluster_replica(ReplicaId::User(8)) {
        Err(Error::UnknownClusterReplica(id)) => assert_eq!(id, "u8"),
        other => panic!("expected UnknownClusterReplica, got {other:?}"),
    }
    let batch = txn.commit();
    assert_eq!(batch.roles.len(), 1);
    assert_eq!(batch.roles[0].2, -1);
}

#[test]
fn id_allocator_seeding_conflict() {
    let mut txn = Transaction::new(seeded_snapshot()).unwrap();
    match txn.insert_id_allocator("database".to_string(), 5) {
        Err(Error::IdAllocatorAlreadyExists(name)) => assert_eq!(name, "database"),
        other => panic!("expected IdAllocatorAlreadyExists, got {other:?}"),
    }
    txn.insert_id_allocator("new_namespace".to_string(), 5)
        .unwrap();
    let id = txn
        .get_and_increment_id("new_namespace".to_string())
        .unwrap();
    assert_eq!(id, 5);
}

#[test]
fn update_role_reports_unknown_role() {
    let mut txn = Transaction::new(empty_snapshot()).unwrap();
    let role = catalog_txn::objects::Role {
        id: RoleId::User(9),
        name: "ghost".to_string(),
        attributes: RoleAttributes { inherit: true },
        membership: RoleMembership { map: vec![] },
        vars: RoleVars { vars: vec![] },
    };
    match txn.update_role(RoleId::User(9), role) {
        Err(Error::UnknownRole(id)) => assert_eq!(id, "u9"),
        other => panic!("expected UnknownRole, got {other:?}"),
    }
}

#[test]
fn update_items_conflict_is_a_real_collision() {
    // Renaming one item onto another live item's name within the same
    // schema is the only way the bulk update reports a uniqueness
    // violation; the error leaves the updates made before it.
    let mut s = empty_snapshot();
    for (gid, name) in [(1u64, "a"), (2, "b")] {
        s.items.push((
            ItemKey {
                gid: GlobalId::User(gid),
            },
            ItemValue {
                schema_id: SchemaId::User(1),
                name: name.to_string(),
                create_sql: format!("CREATE VIEW {name}"),
                owner_id: RoleId::User(1),
                privileges: vec![],
            },
        ));
    }
    let mut txn = Transaction::new(s).unwrap();
    assert!(matches!(
        txn.update_items(vec![(GlobalId::User(2), item(GlobalId::User(2), SchemaId::User(1), "a"))]),
        Err(Error::UniquenessViolation)
    ));
    // A collision-free bulk update of the same rows succeeds.
    txn.update_items(vec![(GlobalId::User(2), item(GlobalId::User(2), SchemaId::User(1), "c"))])
        .unwrap();
}

#[test]
fn cluster_migration_fails_only_on_real_collisions() {
    // The allocator will mint system id 1, which is already taken by a
    // live cluster of a different name: the migration reports the
    // collision for the missing builtin.
    let mut s = seeded_snapshot();
    s.clusters.push((
        ClusterKey {
            id: ClusterId::System(1),
        },
        ClusterValue {
            name: "occupier".to_string(),
            linked_object_id: None,
            owner_id: RoleId::System(1),
            privileges: vec![],
            config: unmanaged_config(),
        },
    ));
    let builtins = vec![BuiltinCluster {
        name: "fresh".to_string(),
        privileges: vec![],
    }];
    let mut txn = Transaction::new(s).unwrap();
    match add_new_builtin_clusters_migration(&mut txn, &builtins) {
        Err(Error::ClusterAlreadyExists(name)) => assert_eq!(name, "fresh"),
        other => panic!("expected ClusterAlreadyExists, got {other:?}"),
    }
}
