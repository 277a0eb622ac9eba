//! The catalog transaction: one [`TableTransaction`] per object kind,
//! domain operations that keep the cross-table rules, and the assembly of
//! one atomic commit batch.
//!
//! A transaction is opened over a [`Snapshot`] of the durably committed
//! state, mutated through any number of domain operations, and consumed
//! exactly once by [`Transaction::commit`], which produces the single
//! [`TransactionBatch`] of coalesced per-table diffs that the durable
//! store applies atomically. A recoverable error leaves the transaction
//! open; discarding the transaction instead of committing it persists
//! nothing.

use vstd::prelude::*;

use crate::error::Error;
use crate::ids::{
    AclMode, CatalogItemType, ClusterId, CommentObjectId, DatabaseId, GlobalId, MzAclItem, ObjectType,
    ReplicaId, RoleId, SchemaId,
};
use crate::objects::{
    Cluster, ClusterConfig, ClusterConfigV, ClusterIntrospectionSourceIndexKey, ClusterVariant,
    ClusterVariantV, ReplicaConfigV, ReplicaLocation, ReplicaLocationV, ReplicaLogging,
    ClusterIntrospectionSourceIndexValue, ClusterKey, ClusterReplica, ClusterReplicaKey,
    ClusterReplicaValue, ClusterReplicaValueV, ClusterValue, ClusterValueV, CommentKey,
    CommentValue, ConfigKey, ConfigValue, Database, DatabaseKey, DatabaseValue, DatabaseValueV,
    DefaultPrivilegesKey, DefaultPrivilegesValue, GidMappingKey, GidMappingValue, GidMappingValueV,
    IdAllocKey, IdAllocValue, Item, ItemKey, ItemValue, ItemValueV, ReplicaConfig, Role,
    RoleAttributes, RoleKey, RoleMembership, RoleValue, RoleValueV, RoleVars, Schema, SchemaKey,
    SchemaValue, SchemaValueV, ServerConfigurationKey, ServerConfigurationValue, SettingKey,
    SettingValue, SystemObjectMapping, SystemPrivilegesKey, SystemPrivilegesValue, Timeline,
    TimestampKey, TimestampValue, VersionedEvent, VersionedEventV, VersionedStorageUsage,
    VersionedStorageUsageV,
};
use crate::table::{
    assoc_map, diff_seq, distinct_keys, pending_with_deletes, TableKey, TableState,
    TableTransaction, TableValue,
};

verus! {

/// The name of the allocator namespace that mints user database ids.
pub fn database_id_alloc_key() -> (r: &'static str)
    ensures
        r@ == "database"@,
{
    "database"
}

/// The name of the allocator namespace that mints user schema ids.
pub fn schema_id_alloc_key() -> (r: &'static str)
    ensures
        r@ == "schema"@,
{
    "schema"
}

/// The name of the allocator namespace that mints user role ids.
pub fn user_role_id_alloc_key() -> (r: &'static str)
    ensures
        r@ == "user_role"@,
{
    "user_role"
}

/// The name of the allocator namespace that mints system cluster ids.
pub fn system_cluster_id_alloc_key() -> (r: &'static str)
    ensures
        r@ == "system_cluster"@,
{
    "system_cluster"
}

/// The name of the allocator namespace that mints system replica ids.
pub fn system_replica_id_alloc_key() -> (r: &'static str)
    ensures
        r@ == "system_replica"@,
{
    "system_replica"
}

/// The durably committed state at transaction start: one row list per
/// catalog object kind. Every list must carry distinct keys and satisfy
/// its table's uniqueness predicate.
pub struct Snapshot {
    pub databases: Vec<(DatabaseKey, DatabaseValue)>,
    pub schemas: Vec<(SchemaKey, SchemaValue)>,
    pub roles: Vec<(RoleKey, RoleValue)>,
    pub items: Vec<(ItemKey, ItemValue)>,
    pub comments: Vec<(CommentKey, CommentValue)>,
    pub clusters: Vec<(ClusterKey, ClusterValue)>,
    pub cluster_replicas: Vec<(ClusterReplicaKey, ClusterReplicaValue)>,
    pub introspection_sources: Vec<
        (ClusterIntrospectionSourceIndexKey, ClusterIntrospectionSourceIndexValue),
    >,
    pub id_allocator: Vec<(IdAllocKey, IdAllocValue)>,
    pub configs: Vec<(ConfigKey, ConfigValue)>,
    pub settings: Vec<(SettingKey, SettingValue)>,
    pub timestamps: Vec<(TimestampKey, TimestampValue)>,
    pub system_object_mappings: Vec<(GidMappingKey, GidMappingValue)>,
    pub system_configurations: Vec<(ServerConfigurationKey, ServerConfigurationValue)>,
    pub default_privileges: Vec<(DefaultPrivilegesKey, DefaultPrivilegesValue)>,
    pub system_privileges: Vec<(SystemPrivilegesKey, SystemPrivilegesValue)>,
}

/// The mathematical state of a whole transaction: the base and pending
/// state of every table, and the two append-only event logs.
#[verifier::ext_equal]
pub ghost struct TxnState {
    pub databases: TableState<DatabaseKey, DatabaseValueV>,
    pub schemas: TableState<SchemaKey, SchemaValueV>,
    pub items: TableState<ItemKey, ItemValueV>,
    pub comments: TableState<CommentKey, Seq<char>>,
    pub roles: TableState<RoleKey, RoleValueV>,
    pub clusters: TableState<ClusterKey, ClusterValueV>,
    pub cluster_replicas: TableState<ClusterReplicaKey, ClusterReplicaValueV>,
    pub introspection_sources: TableState<
        (ClusterId, Seq<char>),
        ClusterIntrospectionSourceIndexValue,
    >,
    pub id_allocator: TableState<Seq<char>, IdAllocValue>,
    pub configs: TableState<Seq<char>, ConfigValue>,
    pub settings: TableState<Seq<char>, Seq<char>>,
    pub timestamps: TableState<Seq<char>, TimestampValue>,
    pub system_gid_mapping: TableState<(Seq<char>, CatalogItemType, Seq<char>), GidMappingValueV>,
    pub system_configurations: TableState<Seq<char>, Seq<char>>,
    pub default_privileges: TableState<DefaultPrivilegesKey, DefaultPrivilegesValue>,
    pub system_privileges: TableState<SystemPrivilegesKey, SystemPrivilegesValue>,
    pub audit_log_updates: Seq<(VersionedEventV, int)>,
    pub storage_usage_updates: Seq<(VersionedStorageUsageV, int)>,
}

/// A transaction over the whole catalog. It exclusively owns every table
/// overlay for its lifetime and is consumed by [`Transaction::commit`].
pub struct Transaction {
    databases: TableTransaction<DatabaseKey, DatabaseValue>,
    schemas: TableTransaction<SchemaKey, SchemaValue>,
    items: TableTransaction<ItemKey, ItemValue>,
    comments: TableTransaction<CommentKey, CommentValue>,
    roles: TableTransaction<RoleKey, RoleValue>,
    clusters: TableTransaction<ClusterKey, ClusterValue>,
    cluster_replicas: TableTransaction<ClusterReplicaKey, ClusterReplicaValue>,
    introspection_sources: TableTransaction<
        ClusterIntrospectionSourceIndexKey,
        ClusterIntrospectionSourceIndexValue,
    >,
    id_allocator: TableTransaction<IdAllocKey, IdAllocValue>,
    configs: TableTransaction<ConfigKey, ConfigValue>,
    settings: TableTransaction<SettingKey, SettingValue>,
    timestamps: TableTransaction<TimestampKey, TimestampValue>,
    system_gid_mapping: TableTransaction<GidMappingKey, GidMappingValue>,
    system_configurations: TableTransaction<ServerConfigurationKey, ServerConfigurationValue>,
    default_privileges: TableTransaction<DefaultPrivilegesKey, DefaultPrivilegesValue>,
    system_privileges: TableTransaction<SystemPrivilegesKey, SystemPrivilegesValue>,
    audit_log_updates: Vec<(VersionedEvent, i64)>,
    storage_usage_updates: Vec<(VersionedStorageUsage, i64)>,
}

impl Transaction {
    /// The mathematical state of the transaction.
    pub closed spec fn state(self) -> TxnState {
        TxnState {
            databases: self.databases.state(),
            schemas: self.schemas.state(),
            items: self.items.state(),
            comments: self.comments.state(),
            roles: self.roles.state(),
            clusters: self.clusters.state(),
            cluster_replicas: self.cluster_replicas.state(),
            introspection_sources: self.introspection_sources.state(),
            id_allocator: self.id_allocator.state(),
            configs: self.configs.state(),
            settings: self.settings.state(),
            timestamps: self.timestamps.state(),
            system_gid_mapping: self.system_gid_mapping.state(),
            system_configurations: self.system_configurations.state(),
            default_privileges: self.default_privileges.state(),
            system_privileges: self.system_privileges.state(),
            audit_log_updates: self.audit_log_updates@.map_values(
                |e: (VersionedEvent, i64)| (e.0@, e.1 as int),
            ),
            storage_usage_updates: self.storage_usage_updates@.map_values(
                |e: (VersionedStorageUsage, i64)| (e.0@, e.1 as int),
            ),
        }
    }

    /// Internal well-formedness: every table overlay is well-formed, and
    /// the live rows of every table with a uniqueness predicate are
    /// pairwise conflict-free. Established by [`Transaction::new`] and
    /// preserved by every operation.
    pub closed spec fn wf(self) -> bool {
        &&& self.databases.wf()
        &&& self.schemas.wf()
        &&& self.items.wf()
        &&& self.comments.wf()
        &&& self.roles.wf()
        &&& self.clusters.wf()
        &&& self.cluster_replicas.wf()
        &&& self.introspection_sources.wf()
        &&& self.id_allocator.wf()
        &&& self.configs.wf()
        &&& self.settings.wf()
        &&& self.timestamps.wf()
        &&& self.system_gid_mapping.wf()
        &&& self.system_configurations.wf()
        &&& self.default_privileges.wf()
        &&& self.system_privileges.wf()
        &&& TableTransaction::<DatabaseKey, DatabaseValue>::unique_ok(self.databases.live())
        &&& TableTransaction::<SchemaKey, SchemaValue>::unique_ok(self.schemas.live())
        &&& TableTransaction::<ItemKey, ItemValue>::unique_ok(self.items.live())
        &&& TableTransaction::<RoleKey, RoleValue>::unique_ok(self.roles.live())
        &&& TableTransaction::<ClusterKey, ClusterValue>::unique_ok(self.clusters.live())
        &&& TableTransaction::<ClusterReplicaKey, ClusterReplicaValue>::unique_ok(
            self.cluster_replicas.live(),
        )
    }

    /// Opens a transaction over a snapshot. Every table of the snapshot
    /// must carry distinct keys and satisfy its uniqueness predicate; a
    /// snapshot that does not is rejected.
    pub fn new(snapshot: Snapshot) -> (r: Result<Transaction, Error>)
        ensures
            match r {
                Ok(t) => {
                    &&& snapshot_ok(snapshot)
                    &&& t.wf()
                    &&& t.state() == snapshot_state(snapshot)
                },
                Err(e) => e is UniquenessViolation && !snapshot_ok(snapshot),
            },
    {
        let Snapshot {
            databases,
            schemas,
            roles,
            items,
            comments,
            clusters,
            cluster_replicas,
            introspection_sources,
            id_allocator,
            configs,
            settings,
            timestamps,
            system_object_mappings,
            system_configurations,
            default_privileges,
            system_privileges,
        } = snapshot;
        let databases = match TableTransaction::new(databases) {
            Ok(t) => t,
            Err(_) => {
                return Err(Error::UniquenessViolation);
            },
        };
        let schemas = match TableTransaction::new(schemas) {
            Ok(t) => t,
            Err(_) => {
                return Err(Error::UniquenessViolation);
            },
        };
        let items = match TableTransaction::new(items) {
            Ok(t) => t,
            Err(_) => {
                return Err(Error::UniquenessViolation);
            },
        };
        let comments = match TableTransaction::new(comments) {
            Ok(t) => t,
            Err(_) => {
                return Err(Error::UniquenessViolation);
            },
        };
        let roles = match TableTransaction::new(roles) {
            Ok(t) => t,
            Err(_) => {
                return Err(Error::UniquenessViolation);
            },
        };
        let clusters = match TableTransaction::new(clusters) {
            Ok(t) => t,
            Err(_) => {
                return Err(Error::UniquenessViolation);
            },
        };
        let cluster_replicas = match TableTransaction::new(cluster_replicas) {
            Ok(t) => t,
            Err(_) => {
                return Err(Error::UniquenessViolation);
            },
        };
        let introspection_sources = match TableTransaction::new(introspection_sources) {
            Ok(t) => t,
            Err(_) => {
                return Err(Error::UniquenessViolation);
            },
        };
        let id_allocator = match TableTransaction::new(id_allocator) {
            Ok(t) => t,
            Err(_) => {
                return Err(Error::UniquenessViolation);
            },
        };
        let configs = match TableTransaction::new(configs) {
            Ok(t) => t,
            Err(_) => {
                return Err(Error::UniquenessViolation);
            },
        };
        let settings = match TableTransaction::new(settings) {
            Ok(t) => t,
            Err(_) => {
                return Err(Error::UniquenessViolation);
            },
        };
        let timestamps = match TableTransaction::new(timestamps) {
            Ok(t) => t,
            Err(_) => {
                return Err(Error::UniquenessViolation);
            },
        };
        let system_gid_mapping = match TableTransaction::new(system_object_mappings) {
            Ok(t) => t,
            Err(_) => {
                return Err(Error::UniquenessViolation);
            },
        };
        let system_configurations = match TableTransaction::new(system_configurations) {
            Ok(t) => t,
            Err(_) => {
                return Err(Error::UniquenessViolation);
            },
        };
        let default_privileges = match TableTransaction::new(default_privileges) {
            Ok(t) => t,
            Err(_) => {
                return Err(Error::UniquenessViolation);
            },
        };
        let system_privileges = match TableTransaction::new(system_privileges) {
            Ok(t) => t,
            Err(_) => {
                return Err(Error::UniquenessViolation);
            },
        };
        let t = Transaction {
            databases,
            schemas,
            items,
            comments,
            roles,
            clusters,
            cluster_replicas,
            introspection_sources,
            id_allocator,
            configs,
            settings,
            timestamps,
            system_gid_mapping,
            system_configurations,
            default_privileges,
            system_privileges,
            audit_log_updates: Vec::new(),
            storage_usage_updates: Vec::new(),
        };
        proof {
            assert(t.state() =~~= snapshot_state(snapshot));
        }
        Ok(t)
    }
}

impl TxnState {
    /// This state with the databases pending log replaced.
    pub open spec fn with_databases_pending(self, p: Map<DatabaseKey, Option<DatabaseValueV>>) -> TxnState {
        TxnState { databases: TableState { pending: p, ..self.databases }, ..self }
    }

    /// This state with the schemas pending log replaced.
    pub open spec fn with_schemas_pending(self, p: Map<SchemaKey, Option<SchemaValueV>>) -> TxnState {
        TxnState { schemas: TableState { pending: p, ..self.schemas }, ..self }
    }

    /// This state with the items pending log replaced.
    pub open spec fn with_items_pending(self, p: Map<ItemKey, Option<ItemValueV>>) -> TxnState {
        TxnState { items: TableState { pending: p, ..self.items }, ..self }
    }

    /// This state with the comments pending log replaced.
    pub open spec fn with_comments_pending(self, p: Map<CommentKey, Option<Seq<char>>>) -> TxnState {
        TxnState { comments: TableState { pending: p, ..self.comments }, ..self }
    }

    /// This state with the roles pending log replaced.
    pub open spec fn with_roles_pending(self, p: Map<RoleKey, Option<RoleValueV>>) -> TxnState {
        TxnState { roles: TableState { pending: p, ..self.roles }, ..self }
    }

    /// This state with the clusters pending log replaced.
    pub open spec fn with_clusters_pending(self, p: Map<ClusterKey, Option<ClusterValueV>>) -> TxnState {
        TxnState { clusters: TableState { pending: p, ..self.clusters }, ..self }
    }

    /// This state with the cluster replicas pending log replaced.
    pub open spec fn with_cluster_replicas_pending(self, p: Map<ClusterReplicaKey, Option<ClusterReplicaValueV>>) -> TxnState {
        TxnState { cluster_replicas: TableState { pending: p, ..self.cluster_replicas }, ..self }
    }

    /// This state with the introspection sources pending log replaced.
    pub open spec fn with_introspection_sources_pending(self, p: Map<(ClusterId, Seq<char>), Option<ClusterIntrospectionSourceIndexValue>>) -> TxnState {
        TxnState { introspection_sources: TableState { pending: p, ..self.introspection_sources }, ..self }
    }

    /// This state with the id allocator pending log replaced.
    pub open spec fn with_id_allocator_pending(self, p: Map<Seq<char>, Option<IdAllocValue>>) -> TxnState {
        TxnState { id_allocator: TableState { pending: p, ..self.id_allocator }, ..self }
    }

    /// This state with the configs pending log replaced.
    pub open spec fn with_configs_pending(self, p: Map<Seq<char>, Option<ConfigValue>>) -> TxnState {
        TxnState { configs: TableState { pending: p, ..self.configs }, ..self }
    }

    /// This state with the settings pending log replaced.
    pub open spec fn with_settings_pending(self, p: Map<Seq<char>, Option<Seq<char>>>) -> TxnState {
        TxnState { settings: TableState { pending: p, ..self.settings }, ..self }
    }

    /// This state with the timestamps pending log replaced.
    pub open spec fn with_timestamps_pending(self, p: Map<Seq<char>, Option<TimestampValue>>) -> TxnState {
        TxnState { timestamps: TableState { pending: p, ..self.timestamps }, ..self }
    }

    /// This state with the system gid mapping pending log replaced.
    pub open spec fn with_system_gid_mapping_pending(self, p: Map<(Seq<char>, CatalogItemType, Seq<char>), Option<GidMappingValueV>>) -> TxnState {
        TxnState { system_gid_mapping: TableState { pending: p, ..self.system_gid_mapping }, ..self }
    }

    /// This state with the system configurations pending log replaced.
    pub open spec fn with_system_configurations_pending(self, p: Map<Seq<char>, Option<Seq<char>>>) -> TxnState {
        TxnState { system_configurations: TableState { pending: p, ..self.system_configurations }, ..self }
    }

    /// This state with the default privileges pending log replaced.
    pub open spec fn with_default_privileges_pending(self, p: Map<DefaultPrivilegesKey, Option<DefaultPrivilegesValue>>) -> TxnState {
        TxnState { default_privileges: TableState { pending: p, ..self.default_privileges }, ..self }
    }

    /// This state with the system privileges pending log replaced.
    pub open spec fn with_system_privileges_pending(self, p: Map<SystemPrivilegesKey, Option<SystemPrivilegesValue>>) -> TxnState {
        TxnState { system_privileges: TableState { pending: p, ..self.system_privileges }, ..self }
    }

}

/// A snapshot every table of which carries distinct keys and satisfies
/// its uniqueness predicate; exactly these snapshots open successfully.
pub open spec fn snapshot_ok(s: Snapshot) -> bool {
    &&& distinct_keys(s.databases@)
    &&& TableTransaction::<DatabaseKey, DatabaseValue>::unique_ok(assoc_map(s.databases@))
    &&& distinct_keys(s.schemas@)
    &&& TableTransaction::<SchemaKey, SchemaValue>::unique_ok(assoc_map(s.schemas@))
    &&& distinct_keys(s.items@)
    &&& TableTransaction::<ItemKey, ItemValue>::unique_ok(assoc_map(s.items@))
    &&& distinct_keys(s.comments@)
    &&& TableTransaction::<CommentKey, CommentValue>::unique_ok(assoc_map(s.comments@))
    &&& distinct_keys(s.roles@)
    &&& TableTransaction::<RoleKey, RoleValue>::unique_ok(assoc_map(s.roles@))
    &&& distinct_keys(s.clusters@)
    &&& TableTransaction::<ClusterKey, ClusterValue>::unique_ok(assoc_map(s.clusters@))
    &&& distinct_keys(s.cluster_replicas@)
    &&& TableTransaction::<ClusterReplicaKey, ClusterReplicaValue>::unique_ok(assoc_map(s.cluster_replicas@))
    &&& distinct_keys(s.introspection_sources@)
    &&& TableTransaction::<ClusterIntrospectionSourceIndexKey, ClusterIntrospectionSourceIndexValue>::unique_ok(assoc_map(s.introspection_sources@))
    &&& distinct_keys(s.id_allocator@)
    &&& TableTransaction::<IdAllocKey, IdAllocValue>::unique_ok(assoc_map(s.id_allocator@))
    &&& distinct_keys(s.configs@)
    &&& TableTransaction::<ConfigKey, ConfigValue>::unique_ok(assoc_map(s.configs@))
    &&& distinct_keys(s.settings@)
    &&& TableTransaction::<SettingKey, SettingValue>::unique_ok(assoc_map(s.settings@))
    &&& distinct_keys(s.timestamps@)
    &&& TableTransaction::<TimestampKey, TimestampValue>::unique_ok(assoc_map(s.timestamps@))
    &&& distinct_keys(s.system_object_mappings@)
    &&& TableTransaction::<GidMappingKey, GidMappingValue>::unique_ok(assoc_map(s.system_object_mappings@))
    &&& distinct_keys(s.system_configurations@)
    &&& TableTransaction::<ServerConfigurationKey, ServerConfigurationValue>::unique_ok(assoc_map(s.system_configurations@))
    &&& distinct_keys(s.default_privileges@)
    &&& TableTransaction::<DefaultPrivilegesKey, DefaultPrivilegesValue>::unique_ok(assoc_map(s.default_privileges@))
    &&& distinct_keys(s.system_privileges@)
    &&& TableTransaction::<SystemPrivilegesKey, SystemPrivilegesValue>::unique_ok(assoc_map(s.system_privileges@))
}


impl Transaction {
    /// Issues the next identifier of the named allocator and replaces the
    /// stored counter with its successor in the same transaction. Ids are
    /// strictly increasing and never reused; an exhausted namespace yields
    /// `IdExhaustion` without mutating anything. The allocator row must
    /// have been seeded at catalog bootstrap.
    pub fn get_and_increment_id(&mut self, key: String) -> (r: Result<u64, Error>)
        requires
            old(self).wf(),
            old(self).state().id_allocator.live().contains_key(key@),
        ensures
            final(self).wf(),
            ({
                let next = old(self).state().id_allocator.live()[key@].next_id;
                match r {
                    Ok(id) => {
                        &&& id == next
                        &&& next < u64::MAX
                        &&& final(self).state() == old(self).state().with_id_allocator_pending(
                            old(self).state().id_allocator.pending.insert(
                                key@,
                                Some(IdAllocValue { next_id: (next + 1) as u64 }),
                            ),
                        )
                        &&& final(self).state().id_allocator.live() == old(
                            self,
                        ).state().id_allocator.live().insert(
                            key@,
                            IdAllocValue { next_id: (next + 1) as u64 },
                        )
                    },
                    Err(e) => {
                        &&& e is IdExhaustion
                        &&& next == u64::MAX
                        &&& *final(self) == *old(self)
                    },
                }
            }),
    {
        let lookup = IdAllocKey { name: key.clone() };
        let id: u64 = match self.id_allocator.get(&lookup) {
            Some(v) => v.next_id,
            None => {
                proof {
                    assert(false);
                }
                0
            },
        };
        if id == u64::MAX {
            return Err(Error::IdExhaustion);
        }
        let ghost pre = *self;
        let prev = self.id_allocator.set(
            IdAllocKey { name: key },
            Some(IdAllocValue { next_id: id + 1 }),
        );
        proof {
            assert(prev is Some);
            assert(self.state() =~~= pre.state().with_id_allocator_pending(
                pre.state().id_allocator.pending.insert(
                    lookup@,
                    Some(IdAllocValue { next_id: (id + 1) as u64 }),
                ),
            ));
        }
        Ok(id)
    }

    /// Seeds a new id-allocator namespace. Fails with
    /// `IdAllocatorAlreadyExists` when the namespace is already seeded,
    /// mutating nothing.
    pub fn insert_id_allocator(&mut self, name: String, next_id: u64) -> (r: Result<(), Error>)
        requires
            old(self).wf(),
        ensures
            final(self).wf(),
            match r {
                Ok(_) => {
                    &&& !old(self).state().id_allocator.live().contains_key(name@)
                    &&& final(self).state() == old(self).state().with_id_allocator_pending(
                        old(self).state().id_allocator.pending.insert(
                            name@,
                            Some(IdAllocValue { next_id }),
                        ),
                    )
                },
                Err(e) => {
                    &&& e matches Error::IdAllocatorAlreadyExists(n) && n@ == name@
                    &&& old(self).state().id_allocator.live().contains_key(name@)
                    &&& *final(self) == *old(self)
                },
            },
    {
        let ghost pre = *self;
        match self.id_allocator.insert(IdAllocKey { name: name.clone() }, IdAllocValue { next_id }) {
            Ok(_) => {
                proof {
                    assert(self.state() =~~= pre.state().with_id_allocator_pending(
                        pre.state().id_allocator.pending.insert(
                            name@,
                            Some(IdAllocValue { next_id }),
                        ),
                    ));
                }
                Ok(())
            },
            Err(_) => Err(Error::IdAllocatorAlreadyExists(name)),
        }
    }

    /// Records a new database row under the given id. Fails with
    /// `DatabaseAlreadyExists` when the id is taken or a live database
    /// already carries the name, mutating nothing.
    pub fn insert_database(
        &mut self,
        id: DatabaseId,
        database_name: &str,
        owner_id: RoleId,
        privileges: Vec<MzAclItem>,
    ) -> (r: Result<(), Error>)
        requires
            old(self).wf(),
        ensures
            final(self).wf(),
            ({
                let key = DatabaseKey { id };
                let value = DatabaseValueV {
                    name: database_name@,
                    owner_id,
                    privileges: privileges@,
                };
                let live = old(self).state().databases.live();
                match r {
                    Ok(_) => {
                        &&& !live.contains_key(key)
                        &&& forall|k2: DatabaseKey|
                            #[trigger] live.dom().contains(k2) ==> live[k2].name != database_name@
                        &&& final(self).state() == old(self).state().with_databases_pending(
                            old(self).state().databases.pending.insert(key, Some(value)),
                        )
                        &&& final(self).state().databases.live() == live.insert(key, value)
                    },
                    Err(e) => {
                        &&& e matches Error::DatabaseAlreadyExists(n) && n@ == database_name@
                        &&& *final(self) == *old(self)
                        &&& (live.contains_key(key) || exists|k2: DatabaseKey|
                            #[trigger] live.dom().contains(k2) && live[k2].name == database_name@)
                    },
                }
            }),
    {
        let ghost pre = *self;
        match self.databases.insert(
            DatabaseKey { id },
            DatabaseValue { name: database_name.to_owned(), owner_id, privileges },
        ) {
            Ok(_) => {
                proof {
                    let key = DatabaseKey { id };
                    let value = DatabaseValueV {
                        name: database_name@,
                        owner_id,
                        privileges: privileges@,
                    };
                    assert forall|k2: DatabaseKey|
                        #[trigger] pre.state().databases.live().dom().contains(k2) implies pre.state().databases.live()[k2].name
                        != database_name@ by {
                        assert(!DatabaseValue::conflicts_spec(
                            pre.state().databases.live()[k2],
                            value,
                        ));
                    }
                    assert(self.state() =~~= pre.state().with_databases_pending(
                        pre.state().databases.pending.insert(key, Some(value)),
                    ));
                }
                Ok(())
            },
            Err(_) => Err(Error::DatabaseAlreadyExists(database_name.to_owned())),
        }
    }
}


impl Transaction {
    /// Allocates the next user database id and records a new database
    /// under it. When the insert itself fails, the allocated id stays
    /// consumed: the transaction remains open with the allocator advanced.
    /// Success is owed whenever the allocator is not exhausted, no live
    /// database carries the name, and no live database occupies the key
    /// about to be minted; that last freshness fact is the catalog's
    /// bootstrap discipline (allocator counters above every existing id),
    /// which seeding establishes and the never-reused issuance preserves —
    /// it is the caller's hypothesis here, not an invariant of this type.
    pub fn insert_user_database(
        &mut self,
        database_name: &str,
        owner_id: RoleId,
        privileges: Vec<MzAclItem>,
    ) -> (r: Result<DatabaseId, Error>)
        requires
            old(self).wf(),
            old(self).state().id_allocator.live().contains_key("database"@),
        ensures
            final(self).wf(),
            ({
                let next = old(self).state().id_allocator.live()["database"@].next_id;
                let key = DatabaseKey { id: DatabaseId::User(next) };
                let value = DatabaseValueV {
                    name: database_name@,
                    owner_id,
                    privileges: privileges@,
                };
                let bumped = old(self).state().with_id_allocator_pending(
                    old(self).state().id_allocator.pending.insert(
                        "database"@,
                        Some(IdAllocValue { next_id: (next + 1) as u64 }),
                    ),
                );
                let live = old(self).state().databases.live();
                match r {
                    Ok(id) => {
                        &&& id == DatabaseId::User(next)
                        &&& next < u64::MAX
                        &&& !live.contains_key(key)
                        &&& forall|k2: DatabaseKey|
                            #[trigger] live.dom().contains(k2) ==> live[k2].name != database_name@
                        &&& final(self).state() == bumped.with_databases_pending(
                            bumped.databases.pending.insert(key, Some(value)),
                        )
                    },
                    Err(e) => {
                        ||| {
                            &&& e is IdExhaustion
                            &&& next == u64::MAX
                            &&& *final(self) == *old(self)
                        }
                        ||| {
                            &&& e matches Error::DatabaseAlreadyExists(n) && n@ == database_name@
                            &&& next < u64::MAX
                            &&& final(self).state() == bumped
                            &&& (live.contains_key(key) || exists|k2: DatabaseKey|
                                #[trigger] live.dom().contains(k2) && live[k2].name
                                    == database_name@)
                        }
                    },
                }
            }),
    {
        let id = match self.get_and_increment_id(database_id_alloc_key().to_owned()) {
            Ok(id) => id,
            Err(e) => {
                return Err(e);
            },
        };
        let id = DatabaseId::User(id);
        match self.insert_database(id, database_name, owner_id, privileges) {
            Ok(_) => Ok(id),
            Err(e) => Err(e),
        }
    }

    /// Records a new schema row under the given id. Fails with
    /// `SchemaAlreadyExists` when the id is taken or a live schema of the
    /// same database already carries the name, mutating nothing.
    pub fn insert_schema(
        &mut self,
        schema_id: SchemaId,
        database_id: Option<DatabaseId>,
        schema_name: String,
        owner_id: RoleId,
        privileges: Vec<MzAclItem>,
    ) -> (r: Result<(), Error>)
        requires
            old(self).wf(),
        ensures
            final(self).wf(),
            ({
                let key = SchemaKey { id: schema_id };
                let value = SchemaValueV {
                    database_id,
                    name: schema_name@,
                    owner_id,
                    privileges: privileges@,
                };
                let live = old(self).state().schemas.live();
                match r {
                    Ok(_) => {
                        &&& !live.contains_key(key)
                        &&& forall|k2: SchemaKey|
                            #[trigger] live.dom().contains(k2) ==> !(live[k2].database_id
                                == database_id && live[k2].name == schema_name@)
                        &&& final(self).state() == old(self).state().with_schemas_pending(
                            old(self).state().schemas.pending.insert(key, Some(value)),
                        )
                        &&& final(self).state().schemas.live() == live.insert(key, value)
                    },
                    Err(e) => {
                        &&& e matches Error::SchemaAlreadyExists(n) && n@ == schema_name@
                        &&& *final(self) == *old(self)
                        &&& (live.contains_key(key) || exists|k2: SchemaKey|
                            #[trigger] live.dom().contains(k2) && live[k2].database_id
                                == database_id && live[k2].name == schema_name@)
                    },
                }
            }),
    {
        let ghost pre = *self;
        match self.schemas.insert(
            SchemaKey { id: schema_id },
            SchemaValue { database_id, name: schema_name.clone(), owner_id, privileges },
        ) {
            Ok(_) => {
                proof {
                    let key = SchemaKey { id: schema_id };
                    let value = SchemaValueV {
                        database_id,
                        name: schema_name@,
                        owner_id,
                        privileges: privileges@,
                    };
                    assert forall|k2: SchemaKey|
                        #[trigger] pre.state().schemas.live().dom().contains(k2) implies !(
                    pre.state().schemas.live()[k2].database_id == database_id
                        && pre.state().schemas.live()[k2].name == schema_name@) by {
                        assert(!SchemaValue::conflicts_spec(pre.state().schemas.live()[k2], value));
                    }
                    assert(self.state() =~~= pre.state().with_schemas_pending(
                        pre.state().schemas.pending.insert(key, Some(value)),
                    ));
                }
                Ok(())
            },
            Err(_) => Err(Error::SchemaAlreadyExists(schema_name)),
        }
    }

    /// Allocates the next user schema id and records a new schema of the
    /// given database under it. When the insert itself fails, the
    /// allocated id stays consumed.
    pub fn insert_user_schema(
        &mut self,
        database_id: DatabaseId,
        schema_name: &str,
        owner_id: RoleId,
        privileges: Vec<MzAclItem>,
    ) -> (r: Result<SchemaId, Error>)
        requires
            old(self).wf(),
            old(self).state().id_allocator.live().contains_key("schema"@),
        ensures
            final(self).wf(),
            ({
                let next = old(self).state().id_allocator.live()["schema"@].next_id;
                let key = SchemaKey { id: SchemaId::User(next) };
                let value = SchemaValueV {
                    database_id: Some(database_id),
                    name: schema_name@,
                    owner_id,
                    privileges: privileges@,
                };
                let bumped = old(self).state().with_id_allocator_pending(
                    old(self).state().id_allocator.pending.insert(
                        "schema"@,
                        Some(IdAllocValue { next_id: (next + 1) as u64 }),
                    ),
                );
                let live = old(self).state().schemas.live();
                match r {
                    Ok(id) => {
                        &&& id == SchemaId::User(next)
                        &&& next < u64::MAX
                        &&& !live.contains_key(key)
                        &&& forall|k2: SchemaKey|
                            #[trigger] live.dom().contains(k2) ==> !(live[k2].database_id == Some(
                                database_id,
                            ) && live[k2].name == schema_name@)
                        &&& final(self).state() == bumped.with_schemas_pending(
                            bumped.schemas.pending.insert(key, Some(value)),
                        )
                    },
                    Err(e) => {
                        ||| {
                            &&& e is IdExhaustion
                            &&& next == u64::MAX
                            &&& *final(self) == *old(self)
                        }
                        ||| {
                            &&& e matches Error::SchemaAlreadyExists(n) && n@ == schema_name@
                            &&& next < u64::MAX
                            &&& final(self).state() == bumped
                            &&& (live.contains_key(key) || exists|k2: SchemaKey|
                                #[trigger] live.dom().contains(k2) && live[k2].database_id
                                    == Some(database_id) && live[k2].name == schema_name@)
                        }
                    },
                }
            }),
    {
        let id = match self.get_and_increment_id(schema_id_alloc_key().to_owned()) {
            Ok(id) => id,
            Err(e) => {
                return Err(e);
            },
        };
        let id = SchemaId::User(id);
        match self.insert_schema(id, Some(database_id), schema_name.to_owned(), owner_id, privileges)
        {
            Ok(_) => Ok(id),
            Err(e) => Err(e),
        }
    }

    /// Records a new role row under the given id. Fails with
    /// `RoleAlreadyExists` when the id is taken or a live role already
    /// carries the name, mutating nothing.
    pub fn insert_role(
        &mut self,
        id: RoleId,
        name: String,
        attributes: RoleAttributes,
        membership: RoleMembership,
        vars: RoleVars,
    ) -> (r: Result<(), Error>)
        requires
            old(self).wf(),
        ensures
            final(self).wf(),
            ({
                let key = RoleKey { id };
                let value = RoleValueV { name: name@, attributes, membership: membership@, vars: vars@ };
                let live = old(self).state().roles.live();
                match r {
                    Ok(_) => {
                        &&& !live.contains_key(key)
                        &&& forall|k2: RoleKey|
                            #[trigger] live.dom().contains(k2) ==> live[k2].name != name@
                        &&& final(self).state() == old(self).state().with_roles_pending(
                            old(self).state().roles.pending.insert(key, Some(value)),
                        )
                        &&& final(self).state().roles.live() == live.insert(key, value)
                    },
                    Err(e) => {
                        &&& e matches Error::RoleAlreadyExists(n) && n@ == name@
                        &&& *final(self) == *old(self)
                        &&& (live.contains_key(key) || exists|k2: RoleKey|
                            #[trigger] live.dom().contains(k2) && live[k2].name == name@)
                    },
                }
            }),
    {
        let ghost pre = *self;
        match self.roles.insert(
            RoleKey { id },
            RoleValue { name: name.clone(), attributes, membership, vars },
        ) {
            Ok(_) => {
                proof {
                    let key = RoleKey { id };
                    let value = RoleValueV {
                        name: name@,
                        attributes,
                        membership: membership@,
                        vars: vars@,
                    };
                    assert forall|k2: RoleKey|
                        #[trigger] pre.state().roles.live().dom().contains(k2) implies pre.state().roles.live()[k2].name
                        != name@ by {
                        assert(!RoleValue::conflicts_spec(pre.state().roles.live()[k2], value));
                    }
                    assert(self.state() =~~= pre.state().with_roles_pending(
                        pre.state().roles.pending.insert(key, Some(value)),
                    ));
                }
                Ok(())
            },
            Err(_) => Err(Error::RoleAlreadyExists(name)),
        }
    }

    /// Allocates the next user role id and records a new role under it.
    /// When the insert itself fails, the allocated id stays consumed.
    pub fn insert_user_role(
        &mut self,
        name: String,
        attributes: RoleAttributes,
        membership: RoleMembership,
        vars: RoleVars,
    ) -> (r: Result<RoleId, Error>)
        requires
            old(self).wf(),
            old(self).state().id_allocator.live().contains_key("user_role"@),
        ensures
            final(self).wf(),
            ({
                let next = old(self).state().id_allocator.live()["user_role"@].next_id;
                let key = RoleKey { id: RoleId::User(next) };
                let value = RoleValueV { name: name@, attributes, membership: membership@, vars: vars@ };
                let bumped = old(self).state().with_id_allocator_pending(
                    old(self).state().id_allocator.pending.insert(
                        "user_role"@,
                        Some(IdAllocValue { next_id: (next + 1) as u64 }),
                    ),
                );
                let live = old(self).state().roles.live();
                match r {
                    Ok(id) => {
                        &&& id == RoleId::User(next)
                        &&& next < u64::MAX
                        &&& !live.contains_key(key)
                        &&& forall|k2: RoleKey|
                            #[trigger] live.dom().contains(k2) ==> live[k2].name != name@
                        &&& final(self).state() == bumped.with_roles_pending(
                            bumped.roles.pending.insert(key, Some(value)),
                        )
                    },
                    Err(e) => {
                        ||| {
                            &&& e is IdExhaustion
                            &&& next == u64::MAX
                            &&& *final(self) == *old(self)
                        }
                        ||| {
                            &&& e matches Error::RoleAlreadyExists(n) && n@ == name@
                            &&& next < u64::MAX
                            &&& final(self).state() == bumped
                            &&& (live.contains_key(key) || exists|k2: RoleKey|
                                #[trigger] live.dom().contains(k2) && live[k2].name == name@)
                        }
                    },
                }
            }),
    {
        let id = match self.get_and_increment_id(user_role_id_alloc_key().to_owned()) {
            Ok(id) => id,
            Err(e) => {
                return Err(e);
            },
        };
        let id = RoleId::User(id);
        match self.insert_role(id, name, attributes, membership, vars) {
            Ok(_) => Ok(id),
            Err(e) => Err(e),
        }
    }
}


/// The pending log of the introspection-source table after recording one
/// index row per listed builtin log for the given cluster.
pub open spec fn intro_pending_after(
    p: Map<(ClusterId, Seq<char>), Option<ClusterIntrospectionSourceIndexValue>>,
    cluster_id: ClusterId,
    intro: Seq<(String, GlobalId)>,
) -> Map<(ClusterId, Seq<char>), Option<ClusterIntrospectionSourceIndexValue>>
    decreases intro.len(),
{
    if intro.len() == 0 {
        p
    } else {
        intro_pending_after(p, cluster_id, intro.drop_last()).insert(
            (cluster_id, intro.last().0@),
            Some(ClusterIntrospectionSourceIndexValue { index_id: intro.last().1.inner() }),
        )
    }
}

impl Transaction {
    /// The insert of a cluster row with this id and name would succeed:
    /// the id is free and no live cluster carries the name.
    pub open spec fn cluster_insert_ok(self, id: ClusterId, name: Seq<char>) -> bool {
        &&& !self.state().clusters.live().contains_key(ClusterKey { id })
        &&& forall|k2: ClusterKey|
            #[trigger] self.state().clusters.live().dom().contains(k2)
                ==> self.state().clusters.live()[k2].name != name
    }

    /// Records a new cluster row and one introspection-source-index row
    /// per listed builtin log, all in this transaction. Fails with
    /// `ClusterAlreadyExists` before touching anything when the id is
    /// taken or the name is in use. Where the cluster insert succeeds, the
    /// caller must hand system-namespace index ids and fresh, distinct
    /// index names: those are programming invariants, not user errors.
    fn insert_cluster(
        &mut self,
        cluster_id: ClusterId,
        cluster_name: &str,
        linked_object_id: Option<GlobalId>,
        introspection_source_indexes: Vec<(String, GlobalId)>,
        owner_id: RoleId,
        privileges: Vec<MzAclItem>,
        config: ClusterConfig,
    ) -> (r: Result<(), Error>)
        requires
            old(self).wf(),
            old(self).cluster_insert_ok(cluster_id, cluster_name@) ==> {
                &&& forall|i: int|
                    0 <= i < introspection_source_indexes@.len()
                        ==> (#[trigger] introspection_source_indexes@[i]).1 is System
                &&& forall|i: int, j: int|
                    0 <= i < j < introspection_source_indexes@.len()
                        ==> (#[trigger] introspection_source_indexes@[i]).0@ != (
                        #[trigger] introspection_source_indexes@[j]).0@
                &&& forall|i: int|
                    0 <= i < introspection_source_indexes@.len() ==> !old(
                        self,
                    ).state().introspection_sources.live().contains_key(
                        (cluster_id, (#[trigger] introspection_source_indexes@[i]).0@),
                    )
            },
        ensures
            final(self).wf(),
            ({
                let key = ClusterKey { id: cluster_id };
                let value = ClusterValueV {
                    name: cluster_name@,
                    linked_object_id,
                    owner_id,
                    privileges: privileges@,
                    config: config@,
                };
                match r {
                    Ok(_) => {
                        &&& old(self).cluster_insert_ok(cluster_id, cluster_name@)
                        &&& final(self).state() == old(self).state().with_clusters_pending(
                            old(self).state().clusters.pending.insert(key, Some(value)),
                        ).with_introspection_sources_pending(
                            intro_pending_after(
                                old(self).state().introspection_sources.pending,
                                cluster_id,
                                introspection_source_indexes@,
                            ),
                        )
                        &&& final(self).state().clusters.live() == old(
                            self,
                        ).state().clusters.live().insert(key, value)
                    },
                    Err(e) => {
                        &&& e matches Error::ClusterAlreadyExists(n) && n@ == cluster_name@
                        &&& *final(self) == *old(self)
                        &&& !old(self).cluster_insert_ok(cluster_id, cluster_name@)
                    },
                }
            }),
    {
        let ghost pre = *self;
        let key = ClusterKey { id: cluster_id };
        let ghost value = ClusterValueV {
            name: cluster_name@,
            linked_object_id,
            owner_id,
            privileges: privileges@,
            config: config@,
        };
        match self.clusters.insert(
            key,
            ClusterValue {
                name: cluster_name.to_owned(),
                linked_object_id,
                owner_id,
                privileges,
                config,
            },
        ) {
            Ok(_) => {},
            Err(_) => {
                proof {
                    assert forall|k2: ClusterKey|
                        !(#[trigger] pre.state().clusters.live().dom().contains(k2)
                            && pre.state().clusters.live()[k2].name == cluster_name@) implies !(
                    pre.state().clusters.live().dom().contains(k2) && ClusterValue::conflicts_spec(
                        pre.state().clusters.live()[k2],
                        value,
                    )) by {}
                }
                return Err(Error::ClusterAlreadyExists(cluster_name.to_owned()));
            },
        }
        proof {
            assert forall|k2: ClusterKey|
                #[trigger] pre.state().clusters.live().dom().contains(k2) implies pre.state().clusters.live()[k2].name
                != cluster_name@ by {
                assert(!ClusterValue::conflicts_spec(pre.state().clusters.live()[k2], value));
            }
            assert(pre.cluster_insert_ok(cluster_id, cluster_name@));
        }
        let ghost after_cluster = pre.state().with_clusters_pending(
            pre.state().clusters.pending.insert(key, Some(value)),
        );
        proof {
            assert(self.state() =~~= after_cluster);
        }
        let n = introspection_source_indexes.len();
        let mut i: usize = 0;
        while i < n
            invariant
                n == introspection_source_indexes.len(),
                i <= n,
                self.wf(),
                forall|t: int|
                    0 <= t < n ==> (#[trigger] introspection_source_indexes@[t]).1 is System,
                forall|t: int, u: int|
                    0 <= t < u < n ==> (#[trigger] introspection_source_indexes@[t]).0@ != (
                    #[trigger] introspection_source_indexes@[u]).0@,
                forall|t: int|
                    i <= t < n ==> !self.state().introspection_sources.live().contains_key(
                        (cluster_id, (#[trigger] introspection_source_indexes@[t]).0@),
                    ),
                self.state() == after_cluster.with_introspection_sources_pending(
                    intro_pending_after(
                        after_cluster.introspection_sources.pending,
                        cluster_id,
                        introspection_source_indexes@.take(i as int),
                    ),
                ),
            decreases n - i,
        {
            let ghost pre_loop = *self;
            let (name, index_gid) = &introspection_source_indexes[i];
            let index_id: u64 = match index_gid {
                GlobalId::System(id) => *id,
                _ => {
                    proof {
                        assert(false);
                    }
                    0
                },
            };
            let ikey = ClusterIntrospectionSourceIndexKey { cluster_id, name: name.clone() };
            match self.introspection_sources.insert(
                ikey,
                ClusterIntrospectionSourceIndexValue { index_id },
            ) {
                Ok(_) => {},
                Err(_) => {
                    proof {
                        assert(false);
                    }
                },
            }
            proof {
                let entries = introspection_source_indexes@;
                assert(entries.take(i + 1).drop_last() =~= entries.take(i as int));
                assert(entries.take(i + 1).last() == entries[i as int]);
                assert(self.state() =~~= after_cluster.with_introspection_sources_pending(
                    intro_pending_after(
                        after_cluster.introspection_sources.pending,
                        cluster_id,
                        entries.take(i + 1),
                    ),
                ));
                assert forall|t: int|
                    i + 1 <= t < n implies !self.state().introspection_sources.live().contains_key(
                    (cluster_id, (#[trigger] entries[t]).0@),
                ) by {
                    assert(entries[i as int].0@ != entries[t].0@);
                }
            }
            i += 1;
        }
        proof {
            assert(introspection_source_indexes@.take(n as int) =~= introspection_source_indexes@);
        }
        Ok(())
    }

    /// Records a new user cluster with its introspection-source-index
    /// rows; see [`Transaction::insert_cluster`] for the contract, with
    /// the caller-chosen owner.
    pub fn insert_user_cluster(
        &mut self,
        cluster_id: ClusterId,
        cluster_name: &str,
        linked_object_id: Option<GlobalId>,
        introspection_source_indexes: Vec<(String, GlobalId)>,
        owner_id: RoleId,
        privileges: Vec<MzAclItem>,
        config: ClusterConfig,
    ) -> (r: Result<(), Error>)
        requires
            old(self).wf(),
            old(self).cluster_insert_ok(cluster_id, cluster_name@) ==> {
                &&& forall|i: int|
                    0 <= i < introspection_source_indexes@.len()
                        ==> (#[trigger] introspection_source_indexes@[i]).1 is System
                &&& forall|i: int, j: int|
                    0 <= i < j < introspection_source_indexes@.len()
                        ==> (#[trigger] introspection_source_indexes@[i]).0@ != (
                        #[trigger] introspection_source_indexes@[j]).0@
                &&& forall|i: int|
                    0 <= i < introspection_source_indexes@.len() ==> !old(
                        self,
                    ).state().introspection_sources.live().contains_key(
                        (cluster_id, (#[trigger] introspection_source_indexes@[i]).0@),
                    )
            },
        ensures
            final(self).wf(),
            ({
                let key = ClusterKey { id: cluster_id };
                let value = ClusterValueV {
                    name: cluster_name@,
                    linked_object_id,
                    owner_id,
                    privileges: privileges@,
                    config: config@,
                };
                match r {
                    Ok(_) => {
                        &&& old(self).cluster_insert_ok(cluster_id, cluster_name@)
                        &&& final(self).state() == old(self).state().with_clusters_pending(
                            old(self).state().clusters.pending.insert(key, Some(value)),
                        ).with_introspection_sources_pending(
                            intro_pending_after(
                                old(self).state().introspection_sources.pending,
                                cluster_id,
                                introspection_source_indexes@,
                            ),
                        )
                    },
                    Err(e) => {
                        &&& e matches Error::ClusterAlreadyExists(n) && n@ == cluster_name@
                        &&& *final(self) == *old(self)
                        &&& !old(self).cluster_insert_ok(cluster_id, cluster_name@)
                    },
                }
            }),
    {
        self.insert_cluster(
            cluster_id,
            cluster_name,
            linked_object_id,
            introspection_source_indexes,
            owner_id,
            privileges,
            config,
        )
    }

    /// Records a new system cluster, owned by the system role, with its
    /// introspection-source-index rows.
    fn insert_system_cluster(
        &mut self,
        cluster_id: ClusterId,
        cluster_name: &str,
        introspection_source_indexes: Vec<(String, GlobalId)>,
        privileges: Vec<MzAclItem>,
        config: ClusterConfig,
    ) -> (r: Result<(), Error>)
        requires
            old(self).wf(),
            old(self).cluster_insert_ok(cluster_id, cluster_name@) ==> {
                &&& forall|i: int|
                    0 <= i < introspection_source_indexes@.len()
                        ==> (#[trigger] introspection_source_indexes@[i]).1 is System
                &&& forall|i: int, j: int|
                    0 <= i < j < introspection_source_indexes@.len()
                        ==> (#[trigger] introspection_source_indexes@[i]).0@ != (
                        #[trigger] introspection_source_indexes@[j]).0@
                &&& forall|i: int|
                    0 <= i < introspection_source_indexes@.len() ==> !old(
                        self,
                    ).state().introspection_sources.live().contains_key(
                        (cluster_id, (#[trigger] introspection_source_indexes@[i]).0@),
                    )
            },
        ensures
            final(self).wf(),
            ({
                let key = ClusterKey { id: cluster_id };
                let value = ClusterValueV {
                    name: cluster_name@,
                    linked_object_id: None,
                    owner_id: crate::ids::mz_system_role_id(),
                    privileges: privileges@,
                    config: config@,
                };
                match r {
                    Ok(_) => {
                        &&& old(self).cluster_insert_ok(cluster_id, cluster_name@)
                        &&& final(self).state() == old(self).state().with_clusters_pending(
                            old(self).state().clusters.pending.insert(key, Some(value)),
                        ).with_introspection_sources_pending(
                            intro_pending_after(
                                old(self).state().introspection_sources.pending,
                                cluster_id,
                                introspection_source_indexes@,
                            ),
                        )
                        &&& final(self).state().clusters.live() == old(
                            self,
                        ).state().clusters.live().insert(key, value)
                    },
                    Err(e) => {
                        &&& e matches Error::ClusterAlreadyExists(n) && n@ == cluster_name@
                        &&& *final(self) == *old(self)
                        &&& !old(self).cluster_insert_ok(cluster_id, cluster_name@)
                    },
                }
            }),
    {
        self.insert_cluster(
            cluster_id,
            cluster_name,
            None,
            introspection_source_indexes,
            crate::ids::system_role_id(),
            privileges,
            config,
        )
    }

    /// Records a new replica row. Fails with `DuplicateReplica` when the
    /// replica id is taken or the owning cluster already has a live
    /// replica of that name, mutating nothing; the error carries the
    /// owning cluster's name, so on the failing inputs that cluster must
    /// be live.
    pub fn insert_cluster_replica(
        &mut self,
        cluster_id: ClusterId,
        replica_id: ReplicaId,
        replica_name: &str,
        config: ReplicaConfig,
        owner_id: RoleId,
    ) -> (r: Result<(), Error>)
        requires
            old(self).wf(),
            ({
                let live = old(self).state().cluster_replicas.live();
                (live.contains_key(ClusterReplicaKey { id: replica_id }) || exists|k2: ClusterReplicaKey|
                    #[trigger] live.dom().contains(k2) && live[k2].cluster_id == cluster_id
                        && live[k2].name == replica_name@) ==> old(
                    self,
                ).state().clusters.live().contains_key(ClusterKey { id: cluster_id })
            }),
        ensures
            final(self).wf(),
            ({
                let key = ClusterReplicaKey { id: replica_id };
                let value = ClusterReplicaValueV {
                    cluster_id,
                    name: replica_name@,
                    config: config@,
                    owner_id,
                };
                let live = old(self).state().cluster_replicas.live();
                match r {
                    Ok(_) => {
                        &&& !live.contains_key(key)
                        &&& forall|k2: ClusterReplicaKey|
                            #[trigger] live.dom().contains(k2) ==> !(live[k2].cluster_id
                                == cluster_id && live[k2].name == replica_name@)
                        &&& final(self).state() == old(self).state().with_cluster_replicas_pending(
                            old(self).state().cluster_replicas.pending.insert(key, Some(value)),
                        )
                        &&& final(self).state().cluster_replicas.live() == live.insert(key, value)
                    },
                    Err(e) => {
                        &&& e matches Error::DuplicateReplica(rn, cn) && rn@ == replica_name@ && cn@
                            == old(self).state().clusters.live()[ClusterKey { id: cluster_id }].name
                        &&& *final(self) == *old(self)
                        &&& (live.contains_key(key) || exists|k2: ClusterReplicaKey|
                            #[trigger] live.dom().contains(k2) && live[k2].cluster_id == cluster_id
                                && live[k2].name == replica_name@)
                    },
                }
            }),
    {
        let ghost pre = *self;
        let key = ClusterReplicaKey { id: replica_id };
        let ghost value = ClusterReplicaValueV {
            cluster_id,
            name: replica_name@,
            config: config@,
            owner_id,
        };
        match self.cluster_replicas.insert(
            key,
            ClusterReplicaValue { cluster_id, name: replica_name.to_owned(), config, owner_id },
        ) {
            Ok(_) => {
                proof {
                    assert forall|k2: ClusterReplicaKey|
                        #[trigger] pre.state().cluster_replicas.live().dom().contains(
                            k2,
                        ) implies !(pre.state().cluster_replicas.live()[k2].cluster_id == cluster_id
                        && pre.state().cluster_replicas.live()[k2].name == replica_name@) by {
                        assert(!ClusterReplicaValue::conflicts_spec(
                            pre.state().cluster_replicas.live()[k2],
                            value,
                        ));
                    }
                    assert(self.state() =~~= pre.state().with_cluster_replicas_pending(
                        pre.state().cluster_replicas.pending.insert(key, Some(value)),
                    ));
                }
                Ok(())
            },
            Err(_) => {
                let cluster_name: String = match self.clusters.get(&ClusterKey { id: cluster_id }) {
                    Some(cluster) => cluster.name.clone(),
                    None => {
                        proof {
                            assert(false);
                        }
                        String::new()
                    },
                };
                Err(Error::DuplicateReplica(replica_name.to_owned(), cluster_name))
            },
        }
    }
}


impl Transaction {
    /// Records a new item row under the given id. Fails with
    /// `ItemAlreadyExists` when the id is taken or a live item of the same
    /// schema already carries the name, mutating nothing.
    pub fn insert_item(
        &mut self,
        id: GlobalId,
        schema_id: SchemaId,
        item_name: &str,
        create_sql: String,
        owner_id: RoleId,
        privileges: Vec<MzAclItem>,
    ) -> (r: Result<(), Error>)
        requires
            old(self).wf(),
        ensures
            final(self).wf(),
            ({
                let key = ItemKey { gid: id };
                let value = ItemValueV {
                    schema_id,
                    name: item_name@,
                    create_sql: create_sql@,
                    owner_id,
                    privileges: privileges@,
                };
                let live = old(self).state().items.live();
                match r {
                    Ok(_) => {
                        &&& !live.contains_key(key)
                        &&& forall|k2: ItemKey|
                            #[trigger] live.dom().contains(k2) ==> !(live[k2].schema_id == schema_id
                                && live[k2].name == item_name@)
                        &&& final(self).state() == old(self).state().with_items_pending(
                            old(self).state().items.pending.insert(key, Some(value)),
                        )
                        &&& final(self).state().items.live() == live.insert(key, value)
                    },
                    Err(e) => {
                        &&& e matches Error::ItemAlreadyExists(eid, n) && eid == id && n@
                            == item_name@
                        &&& *final(self) == *old(self)
                        &&& (live.contains_key(key) || exists|k2: ItemKey|
                            #[trigger] live.dom().contains(k2) && live[k2].schema_id == schema_id
                                && live[k2].name == item_name@)
                    },
                }
            }),
    {
        let ghost pre = *self;
        match self.items.insert(
            ItemKey { gid: id },
            ItemValue { schema_id, name: item_name.to_owned(), create_sql, owner_id, privileges },
        ) {
            Ok(_) => {
                proof {
                    let key = ItemKey { gid: id };
                    let value = ItemValueV {
                        schema_id,
                        name: item_name@,
                        create_sql: create_sql@,
                        owner_id,
                        privileges: privileges@,
                    };
                    assert forall|k2: ItemKey|
                        #[trigger] pre.state().items.live().dom().contains(k2) implies !(
                    pre.state().items.live()[k2].schema_id == schema_id
                        && pre.state().items.live()[k2].name == item_name@) by {
                        assert(!ItemValue::conflicts_spec(pre.state().items.live()[k2], value));
                    }
                    assert(self.state() =~~= pre.state().with_items_pending(
                        pre.state().items.pending.insert(key, Some(value)),
                    ));
                }
                Ok(())
            },
            Err(_) => Err(Error::ItemAlreadyExists(id, item_name.to_owned())),
        }
    }

    /// Persists the first timestamp of a timeline. Fails with
    /// `TimelineAlreadyExists` when the timeline already has one, mutating
    /// nothing.
    pub fn insert_timestamp(&mut self, timeline: Timeline, ts: u64) -> (r: Result<(), Error>)
        requires
            old(self).wf(),
        ensures
            final(self).wf(),
            ({
                let key = timeline.text_spec();
                let live = old(self).state().timestamps.live();
                match r {
                    Ok(_) => {
                        &&& !live.contains_key(key)
                        &&& final(self).state() == old(self).state().with_timestamps_pending(
                            old(self).state().timestamps.pending.insert(
                                key,
                                Some(TimestampValue { ts }),
                            ),
                        )
                    },
                    Err(e) => {
                        &&& e matches Error::TimelineAlreadyExists(n) && n@ == timeline.text_spec()
                        &&& *final(self) == *old(self)
                        &&& live.contains_key(key)
                    },
                }
            }),
    {
        let ghost pre = *self;
        let rendered = timeline.to_text();
        match self.timestamps.insert(TimestampKey { id: rendered.clone() }, TimestampValue { ts }) {
            Ok(_) => {
                proof {
                    assert(self.state() =~~= pre.state().with_timestamps_pending(
                        pre.state().timestamps.pending.insert(
                            timeline.text_spec(),
                            Some(TimestampValue { ts }),
                        ),
                    ));
                }
                Ok(())
            },
            Err(_) => Err(Error::TimelineAlreadyExists(rendered)),
        }
    }

    /// Records a new config row. Fails with `ConfigAlreadyExists` when the
    /// key is present, mutating nothing.
    pub fn insert_config(&mut self, key: String, value: u64) -> (r: Result<(), Error>)
        requires
            old(self).wf(),
        ensures
            final(self).wf(),
            ({
                let live = old(self).state().configs.live();
                match r {
                    Ok(_) => {
                        &&& !live.contains_key(key@)
                        &&& final(self).state() == old(self).state().with_configs_pending(
                            old(self).state().configs.pending.insert(
                                key@,
                                Some(ConfigValue { value }),
                            ),
                        )
                    },
                    Err(e) => {
                        &&& e matches Error::ConfigAlreadyExists(n) && n@ == key@
                        &&& *final(self) == *old(self)
                        &&& live.contains_key(key@)
                    },
                }
            }),
    {
        let ghost pre = *self;
        match self.configs.insert(ConfigKey { key: key.clone() }, ConfigValue { value }) {
            Ok(_) => {
                proof {
                    assert(self.state() =~~= pre.state().with_configs_pending(
                        pre.state().configs.pending.insert(key@, Some(ConfigValue { value })),
                    ));
                }
                Ok(())
            },
            Err(_) => Err(Error::ConfigAlreadyExists(key)),
        }
    }

    /// True exactly when the named migration has been marked as run: the
    /// settings table holds a row under its name.
    pub fn check_migration_has_run(&mut self, name: String) -> (r: Result<bool, Error>)
        requires
            old(self).wf(),
        ensures
            final(self).wf(),
            *final(self) == *old(self),
            r matches Ok(has_run) && has_run == old(self).state().settings.live().contains_key(
                name@,
            ),
    {
        let key = SettingKey { name };
        let has_run = self.settings.get(&key).is_some();
        Ok(has_run)
    }

    /// Marks the named migration as run by recording a settings row under
    /// its name. Re-marking an already-marked migration fails with
    /// `UniquenessViolation`, mutating nothing.
    pub fn mark_migration_has_run(&mut self, name: String) -> (r: Result<(), Error>)
        requires
            old(self).wf(),
        ensures
            final(self).wf(),
            ({
                let live = old(self).state().settings.live();
                match r {
                    Ok(_) => {
                        &&& !live.contains_key(name@)
                        &&& final(self).state() == old(self).state().with_settings_pending(
                            old(self).state().settings.pending.insert(name@, Some("true"@)),
                        )
                    },
                    Err(e) => {
                        &&& e is UniquenessViolation
                        &&& *final(self) == *old(self)
                        &&& live.contains_key(name@)
                    },
                }
            }),
    {
        let ghost pre = *self;
        let ghost n = name@;
        let key = SettingKey { name };
        let val = SettingValue { value: "true".to_owned() };
        match self.settings.insert(key, val) {
            Ok(_) => {
                proof {
                    assert(self.state() =~~= pre.state().with_settings_pending(
                        pre.state().settings.pending.insert(n, Some("true"@)),
                    ));
                }
                Ok(())
            },
            Err(_) => Err(Error::UniquenessViolation),
        }
    }

    /// Appends one audit-log event; the append-only log bypasses the
    /// table machinery and every event commits as one insertion.
    pub fn insert_audit_log_event(&mut self, event: VersionedEvent)
        ensures
            final(self).wf() == old(self).wf(),
            final(self).state() == (TxnState {
                audit_log_updates: old(self).state().audit_log_updates.push((event@, 1int)),
                ..old(self).state()
            }),
    {
        self.audit_log_updates.push((event, 1));
        proof {
            assert(self.state() =~~= (TxnState {
                audit_log_updates: old(self).state().audit_log_updates.push((event@, 1int)),
                ..old(self).state()
            }));
        }
    }

    /// Appends one storage-usage event; the append-only log bypasses the
    /// table machinery and every event commits as one insertion.
    pub fn insert_storage_usage_event(&mut self, metric: VersionedStorageUsage)
        ensures
            final(self).wf() == old(self).wf(),
            final(self).state() == (TxnState {
                storage_usage_updates: old(self).state().storage_usage_updates.push(
                    (metric@, 1int),
                ),
                ..old(self).state()
            }),
    {
        self.storage_usage_updates.push((metric, 1));
        proof {
            assert(self.state() =~~= (TxnState {
                storage_usage_updates: old(self).state().storage_usage_updates.push(
                    (metric@, 1int),
                ),
                ..old(self).state()
            }));
        }
    }
}


impl Transaction {
    /// Removes the database with the given id. Fails with
    /// `UnknownDatabase` when no live database has it, mutating nothing.
    pub fn remove_database(&mut self, id: &DatabaseId) -> (r: Result<(), Error>)
        requires
            old(self).wf(),
        ensures
            final(self).wf(),
            ({
                let key = DatabaseKey { id: *id };
                let live = old(self).state().databases.live();
                match r {
                    Ok(_) => {
                        &&& live.contains_key(key)
                        &&& final(self).state() == old(self).state().with_databases_pending(
                            old(self).state().databases.pending.insert(key, None),
                        )
                        &&& final(self).state().databases.live() == live.remove(key)
                    },
                    Err(e) => {
                        &&& e matches Error::UnknownDatabase(n) && n@ == id.text_spec()
                        &&& *final(self) == *old(self)
                        &&& !live.contains_key(key)
                    },
                }
            }),
    {
        let key = DatabaseKey { id: *id };
        if self.databases.get(&key).is_none() {
            return Err(Error::UnknownDatabase(id.to_text()));
        }
        let ghost pre = *self;
        let _prev = self.databases.set(key, None);
        proof {
            assert(self.state() =~~= pre.state().with_databases_pending(
                pre.state().databases.pending.insert(key, None),
            ));
        }
        Ok(())
    }

    /// Removes the schema with the given id. Fails with `UnknownSchema`
    /// when no live schema has it, mutating nothing; the error renders the
    /// optional database qualifier in front of the schema id.
    pub fn remove_schema(
        &mut self,
        database_id: &Option<DatabaseId>,
        schema_id: &SchemaId,
    ) -> (r: Result<(), Error>)
        requires
            old(self).wf(),
        ensures
            final(self).wf(),
            ({
                let key = SchemaKey { id: *schema_id };
                let live = old(self).state().schemas.live();
                match r {
                    Ok(_) => {
                        &&& live.contains_key(key)
                        &&& final(self).state() == old(self).state().with_schemas_pending(
                            old(self).state().schemas.pending.insert(key, None),
                        )
                        &&& final(self).state().schemas.live() == live.remove(key)
                    },
                    Err(e) => {
                        &&& e matches Error::UnknownSchema(n) && n@ == (match database_id {
                            Some(d) => d.text_spec() + "."@,
                            None => Seq::<char>::empty(),
                        }) + schema_id.text_spec()
                        &&& *final(self) == *old(self)
                        &&& !live.contains_key(key)
                    },
                }
            }),
    {
        let key = SchemaKey { id: *schema_id };
        if self.schemas.get(&key).is_none() {
            let mut msg: String = match database_id {
                Some(d) => {
                    let mut m = d.to_text();
                    m.append(".");
                    m
                },
                None => String::new(),
            };
            msg.append(schema_id.to_text().as_str());
            return Err(Error::UnknownSchema(msg));
        }
        let ghost pre = *self;
        let _prev = self.schemas.set(key, None);
        proof {
            assert(self.state() =~~= pre.state().with_schemas_pending(
                pre.state().schemas.pending.insert(key, None),
            ));
        }
        Ok(())
    }

    /// Removes the item with the given id. Fails with `UnknownItem` when
    /// no live item has it, mutating nothing.
    pub fn remove_item(&mut self, id: GlobalId) -> (r: Result<(), Error>)
        requires
            old(self).wf(),
        ensures
            final(self).wf(),
            ({
                let key = ItemKey { gid: id };
                let live = old(self).state().items.live();
                match r {
                    Ok(_) => {
                        &&& live.contains_key(key)
                        &&& final(self).state() == old(self).state().with_items_pending(
                            old(self).state().items.pending.insert(key, None),
                        )
                        &&& final(self).state().items.live() == live.remove(key)
                    },
                    Err(e) => {
                        &&& e matches Error::UnknownItem(n) && n@ == id.text_spec()
                        &&& *final(self) == *old(self)
                        &&& !live.contains_key(key)
                    },
                }
            }),
    {
        let key = ItemKey { gid: id };
        if self.items.get(&key).is_none() {
            return Err(Error::UnknownItem(id.to_text()));
        }
        let ghost pre = *self;
        let _prev = self.items.set(key, None);
        proof {
            assert(self.state() =~~= pre.state().with_items_pending(
                pre.state().items.pending.insert(key, None),
            ));
        }
        Ok(())
    }

    /// Removes the replica with the given id. Fails with
    /// `UnknownClusterReplica` when no live replica has it, mutating
    /// nothing.
    pub fn remove_cluster_replica(&mut self, id: ReplicaId) -> (r: Result<(), Error>)
        requires
            old(self).wf(),
        ensures
            final(self).wf(),
            ({
                let key = ClusterReplicaKey { id };
                let live = old(self).state().cluster_replicas.live();
                match r {
                    Ok(_) => {
                        &&& live.contains_key(key)
                        &&& final(self).state() == old(self).state().with_cluster_replicas_pending(
                            old(self).state().cluster_replicas.pending.insert(key, None),
                        )
                        &&& final(self).state().cluster_replicas.live() == live.remove(key)
                    },
                    Err(e) => {
                        &&& e matches Error::UnknownClusterReplica(n) && n@ == id.text_spec()
                        &&& *final(self) == *old(self)
                        &&& !live.contains_key(key)
                    },
                }
            }),
    {
        let key = ClusterReplicaKey { id };
        if self.cluster_replicas.get(&key).is_none() {
            return Err(Error::UnknownClusterReplica(id.to_text()));
        }
        let ghost pre = *self;
        let _prev = self.cluster_replicas.set(key, None);
        proof {
            assert(self.state() =~~= pre.state().with_cluster_replicas_pending(
                pre.state().cluster_replicas.pending.insert(key, None),
            ));
        }
        Ok(())
    }

    /// Removes the persisted timestamp of a timeline. The timeline must
    /// have one: removing an absent timestamp is a programming invariant
    /// violation, not a user error.
    pub fn remove_timestamp(&mut self, timeline: Timeline)
        requires
            old(self).wf(),
            old(self).state().timestamps.live().contains_key(timeline.text_spec()),
        ensures
            final(self).wf(),
            final(self).state() == old(self).state().with_timestamps_pending(
                old(self).state().timestamps.pending.insert(timeline.text_spec(), None),
            ),
    {
        let ghost pre = *self;
        let rendered = timeline.to_text();
        let prev = self.timestamps.set(TimestampKey { id: rendered }, None);
        proof {
            assert(prev is Some);
            assert(self.state() =~~= pre.state().with_timestamps_pending(
                pre.state().timestamps.pending.insert(timeline.text_spec(), None),
            ));
        }
    }

    /// Sets or clears the comment on an object: last write within the
    /// transaction wins, with no uniqueness constraint.
    pub fn update_comment(
        &mut self,
        object_id: CommentObjectId,
        sub_component: Option<usize>,
        comment: Option<String>,
    ) -> (r: Result<(), Error>)
        requires
            old(self).wf(),
        ensures
            final(self).wf(),
            r is Ok,
            final(self).state() == old(self).state().with_comments_pending(
                old(self).state().comments.pending.insert(
                    CommentKey { object_id, sub_component },
                    match comment {
                        Some(c) => Some(c@),
                        None => None,
                    },
                ),
            ),
    {
        let ghost pre = *self;
        let key = CommentKey { object_id, sub_component };
        let value = match comment {
            Some(c) => Some(CommentValue { comment: c }),
            None => None,
        };
        let _prev = self.comments.set(key, value);
        proof {
            assert(self.state() =~~= pre.state().with_comments_pending(
                pre.state().comments.pending.insert(
                    key,
                    crate::table::opt_view(value),
                ),
            ));
        }
        Ok(())
    }

    /// Sets or clears one persisted default privilege: last write wins,
    /// with no uniqueness constraint.
    pub fn set_default_privilege(
        &mut self,
        role_id: RoleId,
        database_id: Option<DatabaseId>,
        schema_id: Option<SchemaId>,
        object_type: ObjectType,
        grantee: RoleId,
        privileges: Option<AclMode>,
    ) -> (r: Result<(), Error>)
        requires
            old(self).wf(),
        ensures
            final(self).wf(),
            r is Ok,
            final(self).state() == old(self).state().with_default_privileges_pending(
                old(self).state().default_privileges.pending.insert(
                    DefaultPrivilegesKey { role_id, database_id, schema_id, object_type, grantee },
                    match privileges {
                        Some(p) => Some(DefaultPrivilegesValue { privileges: p }),
                        None => None,
                    },
                ),
            ),
    {
        let ghost pre = *self;
        let key = DefaultPrivilegesKey { role_id, database_id, schema_id, object_type, grantee };
        let value = match privileges {
            Some(p) => Some(DefaultPrivilegesValue { privileges: p }),
            None => None,
        };
        let _prev = self.default_privileges.set(key, value);
        proof {
            assert(self.state() =~~= pre.state().with_default_privileges_pending(
                pre.state().default_privileges.pending.insert(key, crate::table::opt_view(value)),
            ));
        }
        Ok(())
    }

    /// Sets or clears one persisted system privilege: last write wins,
    /// with no uniqueness constraint.
    pub fn set_system_privilege(
        &mut self,
        grantee: RoleId,
        grantor: RoleId,
        acl_mode: Option<AclMode>,
    ) -> (r: Result<(), Error>)
        requires
            old(self).wf(),
        ensures
            final(self).wf(),
            r is Ok,
            final(self).state() == old(self).state().with_system_privileges_pending(
                old(self).state().system_privileges.pending.insert(
                    SystemPrivilegesKey { grantee, grantor },
                    match acl_mode {
                        Some(m) => Some(SystemPrivilegesValue { acl_mode: m }),
                        None => None,
                    },
                ),
            ),
    {
        let ghost pre = *self;
        let key = SystemPrivilegesKey { grantee, grantor };
        let value = match acl_mode {
            Some(m) => Some(SystemPrivilegesValue { acl_mode: m }),
            None => None,
        };
        let _prev = self.system_privileges.set(key, value);
        proof {
            assert(self.state() =~~= pre.state().with_system_privileges_pending(
                pre.state().system_privileges.pending.insert(key, crate::table::opt_view(value)),
            ));
        }
        Ok(())
    }

    /// Upserts one persisted system configuration: last write wins.
    pub fn upsert_system_config(&mut self, name: &str, value: String) -> (r: Result<(), Error>)
        requires
            old(self).wf(),
        ensures
            final(self).wf(),
            r is Ok,
            final(self).state() == old(self).state().with_system_configurations_pending(
                old(self).state().system_configurations.pending.insert(name@, Some(value@)),
            ),
    {
        let ghost pre = *self;
        let key = ServerConfigurationKey { name: name.to_owned() };
        let _prev = self.system_configurations.set(key, Some(ServerConfigurationValue { value }));
        proof {
            assert(self.state() =~~= pre.state().with_system_configurations_pending(
                pre.state().system_configurations.pending.insert(name@, Some(value@)),
            ));
        }
        Ok(())
    }

    /// Removes one persisted system configuration; removing an absent one
    /// is a no-op on the live rows.
    pub fn remove_system_config(&mut self, name: &str)
        requires
            old(self).wf(),
        ensures
            final(self).wf(),
            final(self).state() == old(self).state().with_system_configurations_pending(
                old(self).state().system_configurations.pending.insert(name@, None),
            ),
    {
        let ghost pre = *self;
        let key = ServerConfigurationKey { name: name.to_owned() };
        let _prev = self.system_configurations.set(key, None);
        proof {
            assert(self.state() =~~= pre.state().with_system_configurations_pending(
                pre.state().system_configurations.pending.insert(name@, None),
            ));
        }
    }
}


impl Transaction {
    /// Removes the cluster with the given id and cascades: every live
    /// replica of the cluster and every introspection-source row scoped to
    /// it is removed in the same transaction, so the cluster and
    /// everything hanging off it vanish atomically or not at all. Fails
    /// with `UnknownCluster` when no live cluster has the id, mutating
    /// nothing.
    pub fn remove_cluster(&mut self, id: ClusterId) -> (r: Result<(), Error>)
        requires
            old(self).wf(),
        ensures
            final(self).wf(),
            ({
                let key = ClusterKey { id };
                let clive = old(self).state().clusters.live();
                let rlive = old(self).state().cluster_replicas.live();
                let ilive = old(self).state().introspection_sources.live();
                let rcasc = Set::new(
                    |k: ClusterReplicaKey| rlive.dom().contains(k) && rlive[k].cluster_id == id,
                );
                let icasc = Set::new(
                    |k: (ClusterId, Seq<char>)| ilive.dom().contains(k) && k.0 == id,
                );
                match r {
                    Ok(_) => {
                        &&& clive.contains_key(key)
                        &&& final(self).state() == old(self).state().with_clusters_pending(
                            old(self).state().clusters.pending.insert(key, None),
                        ).with_cluster_replicas_pending(
                            pending_with_deletes(
                                old(self).state().cluster_replicas.pending,
                                rcasc,
                            ),
                        ).with_introspection_sources_pending(
                            pending_with_deletes(
                                old(self).state().introspection_sources.pending,
                                icasc,
                            ),
                        )
                        &&& final(self).state().clusters.live() == clive.remove(key)
                        &&& final(self).state().cluster_replicas.live() == rlive.remove_keys(rcasc)
                        &&& final(self).state().introspection_sources.live() == ilive.remove_keys(
                            icasc,
                        )
                    },
                    Err(e) => {
                        &&& e matches Error::UnknownCluster(n) && n@ == id.text_spec()
                        &&& *final(self) == *old(self)
                        &&& !clive.contains_key(key)
                    },
                }
            }),
    {
        let key = ClusterKey { id };
        if self.clusters.get(&key).is_none() {
            return Err(Error::UnknownCluster(id.to_text()));
        }
        let ghost pre = *self;
        let ghost rlive = pre.state().cluster_replicas.live();
        let ghost ilive = pre.state().introspection_sources.live();
        let _prev = self.clusters.set(key, None);
        let ghost mid = pre.state().with_clusters_pending(
            pre.state().clusters.pending.insert(key, None),
        );
        proof {
            assert(self.state() =~~= mid);
        }
        // Cascade: replicas of the removed cluster.
        let rows = self.cluster_replicas.items();
        let n = rows.len();
        let mut t: usize = 0;
        while t < n
            invariant
                self.wf(),
                n == rows.len(),
                t <= n,
                distinct_keys(rows@),
                assoc_map(rows@) == rlive,
                self.state() == mid.with_cluster_replicas_pending(
                    pending_with_deletes(
                        mid.cluster_replicas.pending,
                        Set::new(
                            |k: ClusterReplicaKey|
                                exists|j: int|
                                    0 <= j < t && (#[trigger] rows@[j]).0 == k
                                        && rows@[j].1@.cluster_id == id,
                        ),
                    ),
                ),
                self.state().cluster_replicas.live() == rlive.remove_keys(
                    Set::new(
                        |k: ClusterReplicaKey|
                            exists|j: int|
                                0 <= j < t && (#[trigger] rows@[j]).0 == k
                                    && rows@[j].1@.cluster_id == id,
                    ),
                ),
            decreases n - t,
        {
            let ghost s_t = Set::new(
                |k: ClusterReplicaKey|
                    exists|j: int|
                        0 <= j < t && (#[trigger] rows@[j]).0 == k && rows@[j].1@.cluster_id == id,
            );
            let ghost s_t1 = Set::new(
                |k: ClusterReplicaKey|
                    exists|j: int|
                        0 <= j < t + 1 && (#[trigger] rows@[j]).0 == k && rows@[j].1@.cluster_id
                            == id,
            );
            if rows[t].1.cluster_id == id {
                let _prev = self.cluster_replicas.set(rows[t].0, None);
                proof {
                    let k = rows@[t as int].0;
                    assert(s_t1 =~= s_t.insert(k));
                    assert(pending_with_deletes(mid.cluster_replicas.pending, s_t).insert(k, None)
                        =~= pending_with_deletes(mid.cluster_replicas.pending, s_t1));
                    assert(self.state() =~~= mid.with_cluster_replicas_pending(
                        pending_with_deletes(mid.cluster_replicas.pending, s_t1),
                    ));
                    assert(rlive.remove_keys(s_t).remove(k) =~= rlive.remove_keys(s_t1));
                }
            } else {
                proof {
                    assert(s_t1 =~= s_t);
                }
            }
            t += 1;
        }
        proof {
            let rcasc = Set::new(
                |k: ClusterReplicaKey| rlive.dom().contains(k) && rlive[k].cluster_id == id,
            );
            let s_n = Set::new(
                |k: ClusterReplicaKey|
                    exists|j: int|
                        0 <= j < n && (#[trigger] rows@[j]).0 == k && rows@[j].1@.cluster_id == id,
            );
            assert forall|k: ClusterReplicaKey| s_n.contains(k) implies rcasc.contains(k) by {
                let j = choose|j: int|
                    0 <= j < n && (#[trigger] rows@[j]).0 == k && rows@[j].1@.cluster_id == id;
                crate::table::lemma_assoc_index(rows@, j);
            }
            assert forall|k: ClusterReplicaKey| rcasc.contains(k) implies s_n.contains(k) by {
                crate::table::lemma_assoc_contains(rows@, k);
                let j = choose|j: int| 0 <= j < rows@.len() && (#[trigger] rows@[j]).0@ == k;
                crate::table::lemma_assoc_index(rows@, j);
                assert(rows@[j].0 == k && rows@[j].1@.cluster_id == id);
            }
            assert(s_n =~= rcasc);
        }
        // Cascade: introspection-source rows scoped to the removed cluster.
        let ghost mid2 = self.state();
        let irows = self.introspection_sources.items();
        let m = irows.len();
        let mut u: usize = 0;
        while u < m
            invariant
                self.wf(),
                m == irows.len(),
                u <= m,
                distinct_keys(irows@),
                assoc_map(irows@) == ilive,
                self.state() == mid2.with_introspection_sources_pending(
                    pending_with_deletes(
                        mid2.introspection_sources.pending,
                        Set::new(
                            |k: (ClusterId, Seq<char>)|
                                exists|j: int|
                                    0 <= j < u && (#[trigger] irows@[j]).0@ == k && k.0 == id,
                        ),
                    ),
                ),
                self.state().introspection_sources.live() == ilive.remove_keys(
                    Set::new(
                        |k: (ClusterId, Seq<char>)|
                            exists|j: int|
                                0 <= j < u && (#[trigger] irows@[j]).0@ == k && k.0 == id,
                    ),
                ),
            decreases m - u,
        {
            let ghost s_u = Set::new(
                |k: (ClusterId, Seq<char>)|
                    exists|j: int| 0 <= j < u && (#[trigger] irows@[j]).0@ == k && k.0 == id,
            );
            let ghost s_u1 = Set::new(
                |k: (ClusterId, Seq<char>)|
                    exists|j: int| 0 <= j < u + 1 && (#[trigger] irows@[j]).0@ == k && k.0 == id,
            );
            if irows[u].0.cluster_id == id {
                let ikey = irows[u].0.key_clone();
                let _prev = self.introspection_sources.set(ikey, None);
                proof {
                    let k = irows@[u as int].0@;
                    assert(s_u1 =~= s_u.insert(k));
                    assert(pending_with_deletes(mid2.introspection_sources.pending, s_u).insert(
                        k,
                        None,
                    ) =~= pending_with_deletes(mid2.introspection_sources.pending, s_u1));
                    assert(self.state() =~~= mid2.with_introspection_sources_pending(
                        pending_with_deletes(mid2.introspection_sources.pending, s_u1),
                    ));
                    assert(ilive.remove_keys(s_u).remove(k) =~= ilive.remove_keys(s_u1));
                }
            } else {
                proof {
                    assert(s_u1 =~= s_u);
                }
            }
            u += 1;
        }
        proof {
            let icasc = Set::new(
                |k: (ClusterId, Seq<char>)| ilive.dom().contains(k) && k.0 == id,
            );
            let s_m = Set::new(
                |k: (ClusterId, Seq<char>)|
                    exists|j: int| 0 <= j < m && (#[trigger] irows@[j]).0@ == k && k.0 == id,
            );
            assert forall|k: (ClusterId, Seq<char>)| s_m.contains(k) implies icasc.contains(k) by {
                let j = choose|j: int| 0 <= j < m && (#[trigger] irows@[j]).0@ == k && k.0 == id;
                crate::table::lemma_assoc_index(irows@, j);
            }
            assert forall|k: (ClusterId, Seq<char>)| icasc.contains(k) implies s_m.contains(k) by {
                crate::table::lemma_assoc_contains(irows@, k);
                let j = choose|j: int| 0 <= j < irows@.len() && (#[trigger] irows@[j]).0@ == k;
                crate::table::lemma_assoc_index(irows@, j);
            }
            assert(s_m =~= icasc);
            let rcasc = Set::new(
                |k: ClusterReplicaKey| rlive.dom().contains(k) && rlive[k].cluster_id == id,
            );
            assert(self.state() =~~= pre.state().with_clusters_pending(
                pre.state().clusters.pending.insert(ClusterKey { id }, None),
            ).with_cluster_replicas_pending(
                pending_with_deletes(pre.state().cluster_replicas.pending, rcasc),
            ).with_introspection_sources_pending(
                pending_with_deletes(pre.state().introspection_sources.pending, icasc),
            ));
        }
        Ok(())
    }
}


/// The rendered ids among `ids` that have no live item row, in input
/// order.
pub open spec fn missing_item_texts(ids: Seq<GlobalId>, live: Map<ItemKey, ItemValueV>) -> Seq<
    Seq<char>,
>
    decreases ids.len(),
{
    if ids.len() == 0 {
        Seq::empty()
    } else {
        let rest = missing_item_texts(ids.drop_last(), live);
        if live.contains_key(ItemKey { gid: ids.last() }) {
            rest
        } else {
            rest.push(ids.last().text_spec())
        }
    }
}

impl Transaction {
    /// Removes the role with the given name; only user roles may be
    /// removed, which the caller must ensure. Fails with `UnknownRole`
    /// when no live role carries the name, mutating nothing. Because role
    /// names are unique among live roles, at most one row can match.
    pub fn remove_role(&mut self, name: &str) -> (r: Result<(), Error>)
        requires
            old(self).wf(),
            forall|k: RoleKey|
                #[trigger] old(self).state().roles.live().dom().contains(k) && old(
                    self,
                ).state().roles.live()[k].name == name@ ==> k.id is User,
        ensures
            final(self).wf(),
            ({
                let live = old(self).state().roles.live();
                match r {
                    Ok(_) => {
                        &&& exists|k: RoleKey|
                            #[trigger] live.dom().contains(k) && live[k].name == name@
                        &&& ({
                            let k = choose|k: RoleKey|
                                #[trigger] live.dom().contains(k) && live[k].name == name@;
                            &&& final(self).state() == old(self).state().with_roles_pending(
                                old(self).state().roles.pending.insert(k, None),
                            )
                            &&& final(self).state().roles.live() == live.remove(k)
                        })
                    },
                    Err(e) => {
                        &&& e matches Error::UnknownRole(n) && n@ == name@
                        &&& *final(self) == *old(self)
                        &&& forall|k: RoleKey|
                            #[trigger] live.dom().contains(k) ==> live[k].name != name@
                    },
                }
            }),
    {
        let ghost live = old(self).state().roles.live();
        let rows = self.roles.items();
        let n = rows.len();
        let name_owned = name.to_owned();
        let mut t: usize = 0;
        while t < n
            invariant
                self.wf(),
                *self == *old(self),
                n == rows.len(),
                t <= n,
                distinct_keys(rows@),
                assoc_map(rows@) == live,
                live == old(self).state().roles.live(),
                name_owned@ == name@,
                forall|j: int| 0 <= j < t ==> (#[trigger] rows@[j]).1@.name != name@,
            decreases n - t,
        {
            if rows[t].1.name == name_owned {
                let key = rows[t].0;
                proof {
                    crate::table::lemma_assoc_index(rows@, t as int);
                }
                let ghost pre = *self;
                let _prev = self.roles.set(key, None);
                proof {
                    assert(live.dom().contains(key) && live[key].name == name@);
                    let k = choose|k: RoleKey|
                        #[trigger] live.dom().contains(k) && live[k].name == name@;
                    if k != key {
                        assert(TableTransaction::<RoleKey, RoleValue>::unique_ok(live));
                        assert(RoleValue::conflicts_spec(live[k], live[key]));
                        assert(!RoleValue::conflicts_spec(live[k], live[key]));
                    }
                    assert(k == key);
                    assert(self.state() =~~= pre.state().with_roles_pending(
                        pre.state().roles.pending.insert(key, None),
                    ));
                }
                return Ok(());
            }
            t += 1;
        }
        proof {
            assert forall|k: RoleKey| #[trigger] live.dom().contains(k) implies live[k].name
                != name@ by {
                crate::table::lemma_assoc_contains(rows@, k);
                let j = choose|j: int| 0 <= j < rows@.len() && (#[trigger] rows@[j]).0@ == k;
                crate::table::lemma_assoc_index(rows@, j);
            }
        }
        Err(Error::UnknownRole(name.to_owned()))
    }

    /// Removes every item whose id is listed. Succeeds only when every id
    /// had a live row; otherwise fails with `UnknownItem` naming the
    /// missing ids, but the listed rows that were found stay removed in
    /// the transaction: the caller must discard the transaction rather
    /// than commit partial work.
    pub fn remove_items(&mut self, ids: Vec<GlobalId>) -> (r: Result<(), Error>)
        requires
            old(self).wf(),
            forall|i: int, j: int| 0 <= i < j < ids@.len() ==> ids@[i] != ids@[j],
        ensures
            final(self).wf(),
            ({
                let live = old(self).state().items.live();
                let found = Set::new(
                    |k: ItemKey|
                        live.dom().contains(k) && exists|i: int|
                            0 <= i < ids@.len() && ItemKey { gid: ids@[i] } == k,
                );
                &&& final(self).state() == old(self).state().with_items_pending(
                    pending_with_deletes(old(self).state().items.pending, found),
                )
                &&& final(self).state().items.live() == live.remove_keys(found)
                &&& match r {
                    Ok(_) => forall|i: int|
                        0 <= i < ids@.len() ==> live.contains_key(
                            ItemKey { gid: (#[trigger] ids@[i]) },
                        ),
                    Err(e) => {
                        &&& e matches Error::UnknownItem(n) && n@ == crate::text::join_sep(
                            missing_item_texts(ids@, live),
                            ", "@,
                        )
                        &&& exists|i: int|
                            0 <= i < ids@.len() && !live.contains_key(
                                ItemKey { gid: (#[trigger] ids@[i]) },
                            )
                    },
                }
            }),
    {
        let ghost pre = *self;
        let ghost live = pre.state().items.live();
        let n = ids.len();
        let mut missing: Vec<String> = Vec::new();
        let mut t: usize = 0;
        while t < n
            invariant
                self.wf(),
                n == ids@.len(),
                t <= n,
                forall|i: int, j: int| 0 <= i < j < n ==> ids@[i] != ids@[j],
                missing@.map_values(|s: String| s@) == missing_item_texts(
                    ids@.take(t as int),
                    live,
                ),
                (missing@.len() == 0) <==> (forall|i: int|
                    0 <= i < t ==> live.contains_key(ItemKey { gid: (#[trigger] ids@[i]) })),
                self.state() == pre.state().with_items_pending(
                    pending_with_deletes(
                        pre.state().items.pending,
                        Set::new(
                            |k: ItemKey|
                                live.dom().contains(k) && exists|i: int|
                                    0 <= i < t && ItemKey { gid: ids@[i] } == k,
                        ),
                    ),
                ),
                self.state().items.live() == live.remove_keys(
                    Set::new(
                        |k: ItemKey|
                            live.dom().contains(k) && exists|i: int|
                                0 <= i < t && ItemKey { gid: ids@[i] } == k,
                    ),
                ),
            decreases n - t,
        {
            let ghost s_t = Set::new(
                |k: ItemKey|
                    live.dom().contains(k) && exists|i: int|
                        0 <= i < t && ItemKey { gid: ids@[i] } == k,
            );
            let ghost s_t1 = Set::new(
                |k: ItemKey|
                    live.dom().contains(k) && exists|i: int|
                        0 <= i < t + 1 && ItemKey { gid: ids@[i] } == k,
            );
            let key = ItemKey { gid: ids[t] };
            proof {
                assert(ids@.take(t + 1).drop_last() =~= ids@.take(t as int));
                assert(ids@.take(t + 1).last() == ids@[t as int]);
            }
            if self.items.get(&key).is_some() {
                proof {
                    assert forall|i: int| 0 <= i < t implies ItemKey { gid: ids@[i] }
                        != key by {
                        assert(ids@[i] != ids@[t as int]);
                    }
                    assert(live.contains_key(key));
                    assert(s_t1 =~= s_t.insert(key));
                }
                let _prev = self.items.set(key, None);
                proof {
                    assert(pending_with_deletes(pre.state().items.pending, s_t).insert(key, None)
                        =~= pending_with_deletes(pre.state().items.pending, s_t1));
                    assert(self.state() =~~= pre.state().with_items_pending(
                        pending_with_deletes(pre.state().items.pending, s_t1),
                    ));
                    assert(live.remove_keys(s_t).remove(key) =~= live.remove_keys(s_t1));
                    assert(missing@.map_values(|s: String| s@) =~= missing_item_texts(
                        ids@.take(t + 1),
                        live,
                    ));
                }
            } else {
                proof {
                    assert forall|i: int| 0 <= i < t implies ItemKey { gid: ids@[i] }
                        != key by {
                        assert(ids@[i] != ids@[t as int]);
                    }
                    assert(!live.contains_key(key));
                    assert(s_t1 =~= s_t);
                }
                missing.push(ids[t].to_text());
                proof {
                    assert(missing@.map_values(|s: String| s@) =~= missing_item_texts(
                        ids@.take(t + 1),
                        live,
                    ));
                }
            }
            t += 1;
        }
        proof {
            assert(ids@.take(n as int) =~= ids@);
        }
        if missing.len() == 0 {
            Ok(())
        } else {
            proof {
                if forall|i: int|
                    0 <= i < n ==> live.contains_key(ItemKey { gid: (#[trigger] ids@[i]) }) {
                    assert(missing@.len() == 0);
                }
            }
            let text = crate::text::join_with(&missing, ", ");
            Err(Error::UnknownItem(text))
        }
    }

    /// Removes every comment attached to the given object, at any column
    /// position, and returns what was removed.
    pub fn drop_comments(&mut self, object_id: CommentObjectId) -> (r: Result<
        Vec<(CommentObjectId, Option<usize>, String)>,
        Error,
    >)
        requires
            old(self).wf(),
        ensures
            final(self).wf(),
            ({
                let live = old(self).state().comments.live();
                let casc = Set::new(
                    |k: CommentKey| live.dom().contains(k) && k.object_id == object_id,
                );
                match r {
                    Ok(deleted) => {
                        &&& final(self).state() == old(self).state().with_comments_pending(
                            pending_with_deletes(old(self).state().comments.pending, casc),
                        )
                        &&& final(self).state().comments.live() == live.remove_keys(casc)
                        &&& forall|t: int|
                            0 <= t < deleted@.len() ==> ({
                                let k = CommentKey {
                                    object_id: (#[trigger] deleted@[t]).0,
                                    sub_component: deleted@[t].1,
                                };
                                &&& deleted@[t].0 == object_id
                                &&& live.dom().contains(k)
                                &&& deleted@[t].2@ == live[k]
                            })
                        &&& forall|k: CommentKey|
                            casc.contains(k) ==> exists|t: int|
                                0 <= t < deleted@.len() && (#[trigger] deleted@[t]).1
                                    == k.sub_component && deleted@[t].0 == k.object_id
                    },
                    Err(_) => false,
                }
            }),
    {
        let ghost pre = *self;
        let ghost live = pre.state().comments.live();
        let rows = self.comments.items();
        let n = rows.len();
        let mut deleted: Vec<(CommentObjectId, Option<usize>, String)> = Vec::new();
        let mut t: usize = 0;
        while t < n
            invariant
                self.wf(),
                n == rows.len(),
                t <= n,
                distinct_keys(rows@),
                assoc_map(rows@) == live,
                self.state() == pre.state().with_comments_pending(
                    pending_with_deletes(
                        pre.state().comments.pending,
                        Set::new(
                            |k: CommentKey|
                                exists|j: int|
                                    0 <= j < t && (#[trigger] rows@[j]).0 == k && k.object_id
                                        == object_id,
                        ),
                    ),
                ),
                self.state().comments.live() == live.remove_keys(
                    Set::new(
                        |k: CommentKey|
                            exists|j: int|
                                0 <= j < t && (#[trigger] rows@[j]).0 == k && k.object_id
                                    == object_id,
                    ),
                ),
                forall|u: int|
                    0 <= u < deleted@.len() ==> ({
                        let k = CommentKey {
                            object_id: (#[trigger] deleted@[u]).0,
                            sub_component: deleted@[u].1,
                        };
                        &&& deleted@[u].0 == object_id
                        &&& live.dom().contains(k)
                        &&& deleted@[u].2@ == live[k]
                    }),
                forall|j: int|
                    0 <= j < t && (#[trigger] rows@[j]).0.object_id == object_id
                        ==> exists|u: int|
                        0 <= u < deleted@.len() && (#[trigger] deleted@[u]).1
                            == rows@[j].0.sub_component && deleted@[u].0 == rows@[j].0.object_id,
            decreases n - t,
        {
            let ghost s_t = Set::new(
                |k: CommentKey|
                    exists|j: int|
                        0 <= j < t && (#[trigger] rows@[j]).0 == k && k.object_id == object_id,
            );
            let ghost s_t1 = Set::new(
                |k: CommentKey|
                    exists|j: int|
                        0 <= j < t + 1 && (#[trigger] rows@[j]).0 == k && k.object_id == object_id,
            );
            if rows[t].0.object_id == object_id {
                proof {
                    crate::table::lemma_assoc_index(rows@, t as int);
                }
                let key = rows[t].0;
                let ghost dpre = deleted@;
                deleted.push((key.object_id, key.sub_component, rows[t].1.comment.clone()));
                proof {
                    assert forall|j: int|
                        0 <= j < t + 1 && (#[trigger] rows@[j]).0.object_id
                            == object_id implies exists|u: int|
                        0 <= u < deleted@.len() && (#[trigger] deleted@[u]).1
                            == rows@[j].0.sub_component && deleted@[u].0
                            == rows@[j].0.object_id by {
                        if j < t {
                            let u = choose|u: int|
                                0 <= u < dpre.len() && (#[trigger] dpre[u]).1
                                    == rows@[j].0.sub_component && dpre[u].0
                                    == rows@[j].0.object_id;
                            assert(deleted@[u] == dpre[u]);
                        } else {
                            assert(deleted@[deleted@.len() - 1].1 == rows@[j].0.sub_component
                                && deleted@[deleted@.len() - 1].0 == rows@[j].0.object_id);
                        }
                    }
                }
                let _prev = self.comments.set(key, None);
                proof {
                    assert(s_t1 =~= s_t.insert(key));
                    assert(pending_with_deletes(pre.state().comments.pending, s_t).insert(
                        key,
                        None,
                    ) =~= pending_with_deletes(pre.state().comments.pending, s_t1));
                    assert(self.state() =~~= pre.state().with_comments_pending(
                        pending_with_deletes(pre.state().comments.pending, s_t1),
                    ));
                    assert(live.remove_keys(s_t).remove(key) =~= live.remove_keys(s_t1));
                    assert(deleted@[deleted@.len() - 1].1 == rows@[t as int].0.sub_component
                        && deleted@[deleted@.len() - 1].0 == rows@[t as int].0.object_id);
                }
            } else {
                proof {
                    assert(s_t1 =~= s_t);
                }
            }
            t += 1;
        }
        proof {
            let casc = Set::new(
                |k: CommentKey| live.dom().contains(k) && k.object_id == object_id,
            );
            let s_n = Set::new(
                |k: CommentKey|
                    exists|j: int|
                        0 <= j < n && (#[trigger] rows@[j]).0 == k && k.object_id == object_id,
            );
            assert forall|k: CommentKey| s_n.contains(k) implies casc.contains(k) by {
                let j = choose|j: int|
                    0 <= j < n && (#[trigger] rows@[j]).0 == k && k.object_id == object_id;
                crate::table::lemma_assoc_index(rows@, j);
            }
            assert forall|k: CommentKey| casc.contains(k) implies s_n.contains(k) by {
                crate::table::lemma_assoc_contains(rows@, k);
                let j = choose|j: int| 0 <= j < rows@.len() && (#[trigger] rows@[j]).0@ == k;
                crate::table::lemma_assoc_index(rows@, j);
            }
            assert(s_n =~= casc);
            assert forall|k: CommentKey| casc.contains(k) implies exists|u: int|
                0 <= u < deleted@.len() && (#[trigger] deleted@[u]).1 == k.sub_component
                    && deleted@[u].0 == k.object_id by {
                crate::table::lemma_assoc_contains(rows@, k);
                let j = choose|j: int| 0 <= j < rows@.len() && (#[trigger] rows@[j]).0@ == k;
            }
        }
        Ok(deleted)
    }

    /// Removes every persisted system configuration.
    pub fn clear_system_configs(&mut self)
        requires
            old(self).wf(),
        ensures
            final(self).wf(),
            final(self).state() == old(self).state().with_system_configurations_pending(
                pending_with_deletes(
                    old(self).state().system_configurations.pending,
                    old(self).state().system_configurations.live().dom(),
                ),
            ),
            final(self).state().system_configurations.live() == Map::<Seq<char>, Seq<char>>::empty(),
    {
        let ghost pre = *self;
        let ghost live = pre.state().system_configurations.live();
        let rows = self.system_configurations.items();
        let n = rows.len();
        let mut t: usize = 0;
        while t < n
            invariant
                self.wf(),
                n == rows.len(),
                t <= n,
                distinct_keys(rows@),
                assoc_map(rows@) == live,
                self.state() == pre.state().with_system_configurations_pending(
                    pending_with_deletes(
                        pre.state().system_configurations.pending,
                        Set::new(
                            |k: Seq<char>|
                                exists|j: int| 0 <= j < t && (#[trigger] rows@[j]).0@ == k,
                        ),
                    ),
                ),
                self.state().system_configurations.live() == live.remove_keys(
                    Set::new(
                        |k: Seq<char>|
                            exists|j: int| 0 <= j < t && (#[trigger] rows@[j]).0@ == k,
                    ),
                ),
            decreases n - t,
        {
            let ghost s_t = Set::new(
                |k: Seq<char>| exists|j: int| 0 <= j < t && (#[trigger] rows@[j]).0@ == k,
            );
            let ghost s_t1 = Set::new(
                |k: Seq<char>| exists|j: int| 0 <= j < t + 1 && (#[trigger] rows@[j]).0@ == k,
            );
            let key = rows[t].0.key_clone();
            let _prev = self.system_configurations.set(key, None);
            proof {
                let k = rows@[t as int].0@;
                assert(s_t1 =~= s_t.insert(k));
                assert(pending_with_deletes(pre.state().system_configurations.pending, s_t).insert(
                    k,
                    None,
                ) =~= pending_with_deletes(pre.state().system_configurations.pending, s_t1));
                assert(self.state() =~~= pre.state().with_system_configurations_pending(
                    pending_with_deletes(pre.state().system_configurations.pending, s_t1),
                ));
                assert(live.remove_keys(s_t).remove(k) =~= live.remove_keys(s_t1));
            }
            t += 1;
        }
        proof {
            let s_n = Set::new(
                |k: Seq<char>| exists|j: int| 0 <= j < n && (#[trigger] rows@[j]).0@ == k,
            );
            assert forall|k: Seq<char>| s_n.contains(k) implies live.dom().contains(k) by {
                let j = choose|j: int| 0 <= j < n && (#[trigger] rows@[j]).0@ == k;
                crate::table::lemma_assoc_index(rows@, j);
            }
            assert forall|k: Seq<char>| live.dom().contains(k) implies s_n.contains(k) by {
                crate::table::lemma_assoc_contains(rows@, k);
            }
            assert(s_n =~= live.dom());
            assert(self.state().system_configurations.live() =~= Map::<Seq<char>, Seq<char>>::empty());
        }
    }
}


impl Transaction {
    /// Renames the cluster with the given id, leaving every other field
    /// of the row unchanged. Fails with `UnknownCluster` (rendering the
    /// caller-supplied current name) when no live cluster has the id, and
    /// with `UniquenessViolation` when another live cluster already
    /// carries the new name; either failure mutates nothing. Ids are
    /// unique by construction, so exactly one row changes on success.
    pub fn rename_cluster(
        &mut self,
        cluster_id: ClusterId,
        cluster_name: &str,
        cluster_to_name: &str,
    ) -> (r: Result<(), Error>)
        requires
            old(self).wf(),
        ensures
            final(self).wf(),
            ({
                let key = ClusterKey { id: cluster_id };
                let live = old(self).state().clusters.live();
                match r {
                    Ok(_) => {
                        &&& live.contains_key(key)
                        &&& ({
                            let nv = ClusterValueV { name: cluster_to_name@, ..live[key] };
                            &&& forall|k2: ClusterKey|
                                #[trigger] live.dom().contains(k2) && k2 != key ==> live[k2].name
                                    != cluster_to_name@
                            &&& final(self).state() == old(self).state().with_clusters_pending(
                                old(self).state().clusters.pending.insert(key, Some(nv)),
                            )
                            &&& final(self).state().clusters.live() == live.insert(key, nv)
                        })
                    },
                    Err(e) => {
                        &&& *final(self) == *old(self)
                        &&& match e {
                            Error::UnknownCluster(n) => n@ == cluster_name@
                                && !live.contains_key(key),
                            Error::UniquenessViolation => live.contains_key(key)
                                && exists|k2: ClusterKey|
                                #[trigger] live.dom().contains(k2) && k2 != key
                                    && live[k2].name == cluster_to_name@,
                            _ => false,
                        }
                    },
                }
            }),
    {
        let key = ClusterKey { id: cluster_id };
        let cur = match self.clusters.get(&key) {
            Some(v) => v.value_clone(),
            None => {
                return Err(Error::UnknownCluster(cluster_name.to_owned()));
            },
        };
        let ghost live = old(self).state().clusters.live();
        let mut nv = cur;
        nv.name = cluster_to_name.to_owned();
        proof {
            assert(nv@ =~~= (ClusterValueV { name: cluster_to_name@, ..live[key] }));
        }
        let ghost pre = *self;
        match self.clusters.update_by_key(&key, nv) {
            Ok(n) => {
                proof {
                    assert(n == 1);
                    assert(self.state() =~~= pre.state().with_clusters_pending(
                        pre.state().clusters.pending.insert(
                            key,
                            Some(ClusterValueV { name: cluster_to_name@, ..live[key] }),
                        ),
                    ));
                }
                Ok(())
            },
            Err(_) => {
                proof {
                    let k2 = choose|k2: ClusterKey|
                        #[trigger] live.dom().contains(k2) && k2 != key
                            && ClusterValue::conflicts_spec(
                            live[k2],
                            ClusterValueV { name: cluster_to_name@, ..live[key] },
                        );
                    assert(live.dom().contains(k2) && k2 != key && live[k2].name
                        == cluster_to_name@);
                }
                Err(Error::UniquenessViolation)
            },
        }
    }

    /// Renames the replica with the given id, leaving every other field
    /// of the row unchanged. Fails with `UnknownClusterReplica` (rendering
    /// the caller-supplied qualified name) when no live replica has the
    /// id, and with `UniquenessViolation` when the owning cluster already
    /// has a live replica of the new name; either failure mutates
    /// nothing.
    pub fn rename_cluster_replica(
        &mut self,
        replica_id: ReplicaId,
        replica_name: &str,
        replica_to_name: &str,
    ) -> (r: Result<(), Error>)
        requires
            old(self).wf(),
        ensures
            final(self).wf(),
            ({
                let key = ClusterReplicaKey { id: replica_id };
                let live = old(self).state().cluster_replicas.live();
                match r {
                    Ok(_) => {
                        &&& live.contains_key(key)
                        &&& ({
                            let nv = ClusterReplicaValueV {
                                name: replica_to_name@,
                                ..live[key]
                            };
                            &&& forall|k2: ClusterReplicaKey|
                                #[trigger] live.dom().contains(k2) && k2 != key ==> !(live[k2].cluster_id
                                    == live[key].cluster_id && live[k2].name == replica_to_name@)
                            &&& final(self).state() == old(
                                self,
                            ).state().with_cluster_replicas_pending(
                                old(self).state().cluster_replicas.pending.insert(key, Some(nv)),
                            )
                            &&& final(self).state().cluster_replicas.live() == live.insert(key, nv)
                        })
                    },
                    Err(e) => {
                        &&& *final(self) == *old(self)
                        &&& match e {
                            Error::UnknownClusterReplica(n) => n@ == replica_name@
                                && !live.contains_key(key),
                            Error::UniquenessViolation => live.contains_key(key)
                                && exists|k2: ClusterReplicaKey|
                                #[trigger] live.dom().contains(k2) && k2 != key
                                    && live[k2].cluster_id == live[key].cluster_id && live[k2].name
                                    == replica_to_name@,
                            _ => false,
                        }
                    },
                }
            }),
    {
        let key = ClusterReplicaKey { id: replica_id };
        let cur = match self.cluster_replicas.get(&key) {
            Some(v) => v.value_clone(),
            None => {
                return Err(Error::UnknownClusterReplica(replica_name.to_owned()));
            },
        };
        let ghost live = old(self).state().cluster_replicas.live();
        let mut nv = cur;
        nv.name = replica_to_name.to_owned();
        proof {
            assert(nv@ =~~= (ClusterReplicaValueV { name: replica_to_name@, ..live[key] }));
        }
        let ghost pre = *self;
        match self.cluster_replicas.update_by_key(&key, nv) {
            Ok(n) => {
                proof {
                    assert(n == 1);
                    assert(self.state() =~~= pre.state().with_cluster_replicas_pending(
                        pre.state().cluster_replicas.pending.insert(
                            key,
                            Some(ClusterReplicaValueV { name: replica_to_name@, ..live[key] }),
                        ),
                    ));
                }
                Ok(())
            },
            Err(_) => {
                proof {
                    let k2 = choose|k2: ClusterReplicaKey|
                        #[trigger] live.dom().contains(k2) && k2 != key
                            && ClusterReplicaValue::conflicts_spec(
                            live[k2],
                            ClusterReplicaValueV { name: replica_to_name@, ..live[key] },
                        );
                    assert(live.dom().contains(k2) && k2 != key && live[k2].cluster_id
                        == live[key].cluster_id && live[k2].name == replica_to_name@);
                }
                Err(Error::UniquenessViolation)
            },
        }
    }

    /// Replaces the item row with the given id by the given item's row.
    /// The owning schema of a row never changes: callers must pass an
    /// item with the row's current schema id, as violating that is a
    /// programming invariant, not a user error. Fails with `UnknownItem`
    /// when no live item has the id and with `UniquenessViolation` when
    /// the replacement name collides within its schema; either failure
    /// mutates nothing. Ids are unique, so exactly one row changes.
    pub fn update_item(&mut self, id: GlobalId, item: Item) -> (r: Result<(), Error>)
        requires
            old(self).wf(),
            old(self).state().items.live().contains_key(ItemKey { gid: id }) ==> item.schema_id
                == old(self).state().items.live()[ItemKey { gid: id }].schema_id,
        ensures
            final(self).wf(),
            ({
                let key = ItemKey { gid: id };
                let live = old(self).state().items.live();
                let value = item.value_view();
                match r {
                    Ok(_) => {
                        &&& live.contains_key(key)
                        &&& forall|k2: ItemKey|
                            #[trigger] live.dom().contains(k2) && k2 != key
                                ==> !ItemValue::conflicts_spec(live[k2], value)
                        &&& final(self).state() == old(self).state().with_items_pending(
                            old(self).state().items.pending.insert(key, Some(value)),
                        )
                        &&& final(self).state().items.live() == live.insert(key, value)
                    },
                    Err(e) => {
                        &&& *final(self) == *old(self)
                        &&& match e {
                            Error::UnknownItem(n) => n@ == id.text_spec() && !live.contains_key(
                                key,
                            ),
                            Error::UniquenessViolation => live.contains_key(key)
                                && exists|k2: ItemKey|
                                #[trigger] live.dom().contains(k2) && k2 != key
                                    && ItemValue::conflicts_spec(live[k2], value),
                            _ => false,
                        }
                    },
                }
            }),
    {
        let key = ItemKey { gid: id };
        let (_, value) = item.into_key_value();
        let ghost pre = *self;
        match self.items.update_by_key(&key, value) {
            Ok(n) => {
                if n == 1 {
                    proof {
                        assert(self.state() =~~= pre.state().with_items_pending(
                            pre.state().items.pending.insert(key, Some(item.value_view())),
                        ));
                    }
                    Ok(())
                } else {
                    Err(Error::UnknownItem(id.to_text()))
                }
            },
            Err(_) => Err(Error::UniquenessViolation),
        }
    }

    /// Replaces the role row with the given id by the given role's row.
    /// Fails with `UnknownRole` when no live role has the id and with
    /// `UniquenessViolation` when the replacement name collides; either
    /// failure mutates nothing.
    pub fn update_role(&mut self, id: RoleId, role: Role) -> (r: Result<(), Error>)
        requires
            old(self).wf(),
        ensures
            final(self).wf(),
            ({
                let key = RoleKey { id };
                let live = old(self).state().roles.live();
                let value = role.value_view();
                match r {
                    Ok(_) => {
                        &&& live.contains_key(key)
                        &&& forall|k2: RoleKey|
                            #[trigger] live.dom().contains(k2) && k2 != key
                                ==> !RoleValue::conflicts_spec(live[k2], value)
                        &&& final(self).state() == old(self).state().with_roles_pending(
                            old(self).state().roles.pending.insert(key, Some(value)),
                        )
                        &&& final(self).state().roles.live() == live.insert(key, value)
                    },
                    Err(e) => {
                        &&& *final(self) == *old(self)
                        &&& match e {
                            Error::UnknownRole(n) => n@ == id.text_spec() && !live.contains_key(
                                key,
                            ),
                            Error::UniquenessViolation => live.contains_key(key)
                                && exists|k2: RoleKey|
                                #[trigger] live.dom().contains(k2) && k2 != key
                                    && RoleValue::conflicts_spec(live[k2], value),
                            _ => false,
                        }
                    },
                }
            }),
    {
        let key = RoleKey { id };
        let (_, value) = role.role_clone().into_key_value();
        let ghost pre = *self;
        match self.roles.update_by_key(&key, value) {
            Ok(n) => {
                if n == 1 {
                    proof {
                        assert(self.state() =~~= pre.state().with_roles_pending(
                            pre.state().roles.pending.insert(key, Some(role.value_view())),
                        ));
                    }
                    Ok(())
                } else {
                    Err(Error::UnknownRole(id.to_text()))
                }
            },
            Err(_) => Err(Error::UniquenessViolation),
        }
    }

    /// Replaces the cluster row with the given id by the given cluster's
    /// row. Fails with `UnknownCluster` when no live cluster has the id
    /// and with `UniquenessViolation` when the replacement name collides;
    /// either failure mutates nothing.
    pub fn update_cluster(&mut self, id: ClusterId, cluster: Cluster) -> (r: Result<(), Error>)
        requires
            old(self).wf(),
        ensures
            final(self).wf(),
            ({
                let key = ClusterKey { id };
                let live = old(self).state().clusters.live();
                let value = cluster.value_view();
                match r {
                    Ok(_) => {
                        &&& live.contains_key(key)
                        &&& forall|k2: ClusterKey|
                            #[trigger] live.dom().contains(k2) && k2 != key
                                ==> !ClusterValue::conflicts_spec(live[k2], value)
                        &&& final(self).state() == old(self).state().with_clusters_pending(
                            old(self).state().clusters.pending.insert(key, Some(value)),
                        )
                        &&& final(self).state().clusters.live() == live.insert(key, value)
                    },
                    Err(e) => {
                        &&& *final(self) == *old(self)
                        &&& match e {
                            Error::UnknownCluster(n) => n@ == id.text_spec()
                                && !live.contains_key(key),
                            Error::UniquenessViolation => live.contains_key(key)
                                && exists|k2: ClusterKey|
                                #[trigger] live.dom().contains(k2) && k2 != key
                                    && ClusterValue::conflicts_spec(live[k2], value),
                            _ => false,
                        }
                    },
                }
            }),
    {
        let key = ClusterKey { id };
        let (_, value) = cluster.cluster_clone().into_key_value();
        let ghost pre = *self;
        match self.clusters.update_by_key(&key, value) {
            Ok(n) => {
                if n == 1 {
                    proof {
                        assert(self.state() =~~= pre.state().with_clusters_pending(
                            pre.state().clusters.pending.insert(key, Some(cluster.value_view())),
                        ));
                    }
                    Ok(())
                } else {
                    Err(Error::UnknownCluster(id.to_text()))
                }
            },
            Err(_) => Err(Error::UniquenessViolation),
        }
    }

    /// Replaces the replica row with the given id by the given replica's
    /// row. Fails with `UnknownClusterReplica` when no live replica has
    /// the id and with `UniquenessViolation` when the replacement name
    /// collides within its cluster; either failure mutates nothing.
    pub fn update_cluster_replica(
        &mut self,
        replica_id: ReplicaId,
        replica: ClusterReplica,
    ) -> (r: Result<(), Error>)
        requires
            old(self).wf(),
        ensures
            final(self).wf(),
            ({
                let key = ClusterReplicaKey { id: replica_id };
                let live = old(self).state().cluster_replicas.live();
                let value = replica.value_view();
                match r {
                    Ok(_) => {
                        &&& live.contains_key(key)
                        &&& forall|k2: ClusterReplicaKey|
                            #[trigger] live.dom().contains(k2) && k2 != key
                                ==> !ClusterReplicaValue::conflicts_spec(live[k2], value)
                        &&& final(self).state() == old(self).state().with_cluster_replicas_pending(
                            old(self).state().cluster_replicas.pending.insert(key, Some(value)),
                        )
                        &&& final(self).state().cluster_replicas.live() == live.insert(key, value)
                    },
                    Err(e) => {
                        &&& *final(self) == *old(self)
                        &&& match e {
                            Error::UnknownClusterReplica(n) => n@ == replica_id.text_spec()
                                && !live.contains_key(key),
                            Error::UniquenessViolation => live.contains_key(key)
                                && exists|k2: ClusterReplicaKey|
                                #[trigger] live.dom().contains(k2) && k2 != key
                                    && ClusterReplicaValue::conflicts_spec(live[k2], value),
                            _ => false,
                        }
                    },
                }
            }),
    {
        let key = ClusterReplicaKey { id: replica_id };
        let value = ClusterReplicaValue {
            cluster_id: replica.cluster_id,
            name: replica.name.clone(),
            config: replica.config.config_clone(),
            owner_id: replica.owner_id,
        };
        let ghost pre = *self;
        match self.cluster_replicas.update_by_key(&key, value) {
            Ok(n) => {
                if n == 1 {
                    proof {
                        assert(self.state() =~~= pre.state().with_cluster_replicas_pending(
                            pre.state().cluster_replicas.pending.insert(
                                key,
                                Some(replica.value_view()),
                            ),
                        ));
                    }
                    Ok(())
                } else {
                    Err(Error::UnknownClusterReplica(replica_id.to_text()))
                }
            },
            Err(_) => Err(Error::UniquenessViolation),
        }
    }

    /// Replaces the database row with the given id by the given
    /// database's row. Fails with `UnknownDatabase` when no live database
    /// has the id and with `UniquenessViolation` when the replacement
    /// name collides; either failure mutates nothing.
    pub fn update_database(&mut self, id: DatabaseId, database: Database) -> (r: Result<(), Error>)
        requires
            old(self).wf(),
        ensures
            final(self).wf(),
            ({
                let key = DatabaseKey { id };
                let live = old(self).state().databases.live();
                let value = database.value_view();
                match r {
                    Ok(_) => {
                        &&& live.contains_key(key)
                        &&& forall|k2: DatabaseKey|
                            #[trigger] live.dom().contains(k2) && k2 != key
                                ==> !DatabaseValue::conflicts_spec(live[k2], value)
                        &&& final(self).state() == old(self).state().with_databases_pending(
                            old(self).state().databases.pending.insert(key, Some(value)),
                        )
                        &&& final(self).state().databases.live() == live.insert(key, value)
                    },
                    Err(e) => {
                        &&& *final(self) == *old(self)
                        &&& match e {
                            Error::UnknownDatabase(n) => n@ == id.text_spec()
                                && !live.contains_key(key),
                            Error::UniquenessViolation => live.contains_key(key)
                                && exists|k2: DatabaseKey|
                                #[trigger] live.dom().contains(k2) && k2 != key
                                    && DatabaseValue::conflicts_spec(live[k2], value),
                            _ => false,
                        }
                    },
                }
            }),
    {
        let key = DatabaseKey { id };
        let value = DatabaseValue {
            name: database.name.clone(),
            owner_id: database.owner_id,
            privileges: crate::objects::acl_vec_clone(&database.privileges),
        };
        let ghost pre = *self;
        match self.databases.update_by_key(&key, value) {
            Ok(n) => {
                if n == 1 {
                    proof {
                        assert(self.state() =~~= pre.state().with_databases_pending(
                            pre.state().databases.pending.insert(key, Some(database.value_view())),
                        ));
                    }
                    Ok(())
                } else {
                    Err(Error::UnknownDatabase(id.to_text()))
                }
            },
            Err(_) => Err(Error::UniquenessViolation),
        }
    }

    /// Replaces the schema row with the given id by the given schema's
    /// row. Fails with `UnknownSchema` when no live schema has the id and
    /// with `UniquenessViolation` when the replacement name collides
    /// within its database; either failure mutates nothing.
    pub fn update_schema(&mut self, schema_id: SchemaId, schema: Schema) -> (r: Result<(), Error>)
        requires
            old(self).wf(),
        ensures
            final(self).wf(),
            ({
                let key = SchemaKey { id: schema_id };
                let live = old(self).state().schemas.live();
                let value = schema.value_view();
                match r {
                    Ok(_) => {
                        &&& live.contains_key(key)
                        &&& forall|k2: SchemaKey|
                            #[trigger] live.dom().contains(k2) && k2 != key
                                ==> !SchemaValue::conflicts_spec(live[k2], value)
                        &&& final(self).state() == old(self).state().with_schemas_pending(
                            old(self).state().schemas.pending.insert(key, Some(value)),
                        )
                        &&& final(self).state().schemas.live() == live.insert(key, value)
                    },
                    Err(e) => {
                        &&& *final(self) == *old(self)
                        &&& match e {
                            Error::UnknownSchema(n) => n@ == schema_id.text_spec()
                                && !live.contains_key(key),
                            Error::UniquenessViolation => live.contains_key(key)
                                && exists|k2: SchemaKey|
                                #[trigger] live.dom().contains(k2) && k2 != key
                                    && SchemaValue::conflicts_spec(live[k2], value),
                            _ => false,
                        }
                    },
                }
            }),
    {
        let key = SchemaKey { id: schema_id };
        let value = SchemaValue {
            database_id: schema.database_id,
            name: schema.name.clone(),
            owner_id: schema.owner_id,
            privileges: crate::objects::acl_vec_clone(&schema.privileges),
        };
        let ghost pre = *self;
        match self.schemas.update_by_key(&key, value) {
            Ok(n) => {
                if n == 1 {
                    proof {
                        assert(self.state() =~~= pre.state().with_schemas_pending(
                            pre.state().schemas.pending.insert(key, Some(schema.value_view())),
                        ));
                    }
                    Ok(())
                } else {
                    Err(Error::UnknownSchema(schema_id.to_text()))
                }
            },
            Err(_) => Err(Error::UniquenessViolation),
        }
    }
}


/// The items pending log after replacing the row of each listed id that
/// has a live row by the paired item's row, in input order.
pub open spec fn items_update_pending(
    p: Map<ItemKey, Option<ItemValueV>>,
    entries: Seq<(GlobalId, Item)>,
    live: Map<ItemKey, ItemValueV>,
) -> Map<ItemKey, Option<ItemValueV>>
    decreases entries.len(),
{
    if entries.len() == 0 {
        p
    } else {
        let rest = items_update_pending(p, entries.drop_last(), live);
        let key = ItemKey { gid: entries.last().0 };
        if live.contains_key(key) {
            rest.insert(key, Some(entries.last().1.value_view()))
        } else {
            rest
        }
    }
}

/// The rendered ids among the entries that have no live item row, in
/// input order.
pub open spec fn missing_entry_texts(
    entries: Seq<(GlobalId, Item)>,
    live: Map<ItemKey, ItemValueV>,
) -> Seq<Seq<char>>
    decreases entries.len(),
{
    if entries.len() == 0 {
        Seq::empty()
    } else {
        let rest = missing_entry_texts(entries.drop_last(), live);
        if live.contains_key(ItemKey { gid: entries.last().0 }) {
            rest
        } else {
            rest.push(entries.last().0.text_spec())
        }
    }
}

impl Transaction {
    /// Replaces the item row of every listed id by the paired item's row,
    /// in input order. The owning schema of a row never changes: for each
    /// listed id with a live row the paired item must carry the row's
    /// current schema id. Succeeds only when every listed id had a live
    /// row; when some had none, fails with `UnknownItem` naming the
    /// missing ids, but the listed rows that were found stay replaced in
    /// the transaction: the caller must discard the transaction rather
    /// than commit partial work. A replacement whose name collides within
    /// its schema at the point it is applied fails with
    /// `UniquenessViolation`, leaving the replacements made before it.
    pub fn update_items(&mut self, items: Vec<(GlobalId, Item)>) -> (r: Result<(), Error>)
        requires
            old(self).wf(),
            forall|i: int, j: int|
                0 <= i < j < items@.len() ==> (#[trigger] items@[i]).0 != (#[trigger] items@[j]).0,
            forall|i: int|
                0 <= i < items@.len() && old(self).state().items.live().contains_key(
                    ItemKey { gid: (#[trigger] items@[i]).0 },
                ) ==> items@[i].1.schema_id == old(self).state().items.live()[ItemKey {
                    gid: items@[i].0,
                }].schema_id,
        ensures
            final(self).wf(),
            ({
                let live = old(self).state().items.live();
                let p = old(self).state().items.pending;
                match r {
                    Ok(_) => {
                        &&& forall|i: int|
                            0 <= i < items@.len() ==> live.contains_key(
                                ItemKey { gid: (#[trigger] items@[i]).0 },
                            )
                        &&& final(self).state() == old(self).state().with_items_pending(
                            items_update_pending(p, items@, live),
                        )
                    },
                    Err(e) => match e {
                        Error::UnknownItem(n) => {
                            &&& n@ == crate::text::join_sep(
                                missing_entry_texts(items@, live),
                                ", "@,
                            )
                            &&& exists|i: int|
                                0 <= i < items@.len() && !live.contains_key(
                                    ItemKey { gid: (#[trigger] items@[i]).0 },
                                )
                            &&& final(self).state() == old(self).state().with_items_pending(
                                items_update_pending(p, items@, live),
                            )
                        },
                        Error::UniquenessViolation => exists|t: int|
                            {
                                let inter = crate::table::overlay(
                                    old(self).state().items.base,
                                    items_update_pending(p, #[trigger] items@.take(t), live),
                                );
                                let key = ItemKey { gid: items@[t].0 };
                                &&& 0 <= t < items@.len()
                                &&& inter.contains_key(key)
                                &&& exists|k2: ItemKey|
                                    #[trigger] inter.dom().contains(k2) && k2 != key
                                        && ItemValue::conflicts_spec(
                                        inter[k2],
                                        items@[t].1.value_view(),
                                    )
                                &&& final(self).state() == old(self).state().with_items_pending(
                                    items_update_pending(p, items@.take(t), live),
                                )
                            },
                        _ => false,
                    },
                }
            }),
    {
        let ghost live = old(self).state().items.live();
        let ghost p = old(self).state().items.pending;
        let n = items.len();
        let mut missing: Vec<String> = Vec::new();
        let mut t: usize = 0;
        while t < n
            invariant
                self.wf(),
                n == items@.len(),
                t <= n,
                forall|i: int, j: int|
                    0 <= i < j < n ==> (#[trigger] items@[i]).0 != (#[trigger] items@[j]).0,
                forall|i: int|
                    0 <= i < n && live.contains_key(ItemKey { gid: (#[trigger] items@[i]).0 })
                        ==> items@[i].1.schema_id == live[ItemKey { gid: items@[i].0 }].schema_id,
                live == old(self).state().items.live(),
                p == old(self).state().items.pending,
                missing@.map_values(|s: String| s@) == missing_entry_texts(
                    items@.take(t as int),
                    live,
                ),
                (missing@.len() == 0) <==> (forall|i: int|
                    0 <= i < t ==> live.contains_key(ItemKey { gid: (#[trigger] items@[i]).0 })),
                self.state() == old(self).state().with_items_pending(
                    items_update_pending(p, items@.take(t as int), live),
                ),
                self.state().items.live().dom() == live.dom(),
                forall|k: ItemKey|
                    #[trigger] self.state().items.live().dom().contains(k) ==> self.state().items.live()[k].schema_id
                        == live[k].schema_id,
            decreases n - t,
        {
            let ghost pre = *self;
            let key = ItemKey { gid: items[t].0 };
            let item = items[t].1.item_clone();
            proof {
                assert(items@.take(t + 1).drop_last() =~= items@.take(t as int));
                assert(items@.take(t + 1).last() == items@[t as int]);
            }
            match self.items.update_by_key(&key, item.into_key_value().1) {
                Ok(c) => {
                    if c == 1 {
                        proof {
                            assert(live.contains_key(key));
                            assert(self.state() =~~= old(self).state().with_items_pending(
                                items_update_pending(p, items@.take(t + 1), live),
                            ));
                            assert(self.state().items.live().dom() =~= live.dom());
                            assert(missing@.map_values(|s: String| s@) =~= missing_entry_texts(
                                items@.take(t + 1),
                                live,
                            ));
                        }
                    } else {
                        proof {
                            assert(!live.contains_key(key));
                            assert(self.state() =~~= old(self).state().with_items_pending(
                                items_update_pending(p, items@.take(t + 1), live),
                            ));
                        }
                        missing.push(items[t].0.to_text());
                        proof {
                            assert(missing@.map_values(|s: String| s@) =~= missing_entry_texts(
                                items@.take(t + 1),
                                live,
                            ));
                        }
                    }
                },
                Err(_) => {
                    proof {
                        let iup = items_update_pending(p, items@.take(t as int), live);
                        let inter = crate::table::overlay(old(self).state().items.base, iup);
                        assert(pre.state() == old(self).state().with_items_pending(iup));
                        assert(pre.items.live() =~= inter);
                        let kk = ItemKey { gid: items@[t as int].0 };
                        assert(inter.contains_key(kk));
                        let vv = items@[t as int].1.value_view();
                        let k2 = choose|k2: ItemKey|
                            #[trigger] pre.items.live().dom().contains(k2) && k2 != kk
                                && ItemValue::conflicts_spec(pre.items.live()[k2], vv);
                        assert(inter.dom().contains(k2) && k2 != kk && ItemValue::conflicts_spec(
                            inter[k2],
                            vv,
                        ));
                    }
                    return Err(Error::UniquenessViolation);
                },
            }
            t += 1;
        }
        proof {
            assert(items@.take(n as int) =~= items@);
        }
        if missing.len() == 0 {
            Ok(())
        } else {
            proof {
                if forall|i: int|
                    0 <= i < n ==> live.contains_key(ItemKey { gid: (#[trigger] items@[i]).0 }) {
                    assert(missing@.len() == 0);
                }
            }
            let text = crate::text::join_with(&missing, ", ");
            Err(Error::UnknownItem(text))
        }
    }
}


/// A pending log overridden with a replacement for every key of the map.
pub open spec fn pending_with_updates<KV, VV>(p: Map<KV, Option<VV>>, m: Map<KV, VV>) -> Map<
    KV,
    Option<VV>,
> {
    p.union_prefer_right(m.map_values(|v: VV| Some(v)))
}

/// The introspection-source pending log after setting one index row per
/// listed (cluster, log name, index id) triple, in input order.
pub open spec fn intro_gid_pending(
    p: Map<(ClusterId, Seq<char>), Option<ClusterIntrospectionSourceIndexValue>>,
    entries: Seq<(ClusterId, String, GlobalId)>,
) -> Map<(ClusterId, Seq<char>), Option<ClusterIntrospectionSourceIndexValue>>
    decreases entries.len(),
{
    if entries.len() == 0 {
        p
    } else {
        intro_gid_pending(p, entries.drop_last()).insert(
            (entries.last().0, entries.last().1@),
            Some(ClusterIntrospectionSourceIndexValue { index_id: entries.last().2.inner() }),
        )
    }
}

impl Transaction {
    /// The first `t` listed introspection-source updates each found a row
    /// to replace: when the update at a position was applied, its key was
    /// already live.
    pub open spec fn intro_gids_ok_upto(
        st: TableState<(ClusterId, Seq<char>), ClusterIntrospectionSourceIndexValue>,
        entries: Seq<(ClusterId, String, GlobalId)>,
        t: int,
    ) -> bool {
        forall|u: int|
            0 <= u < t ==> crate::table::overlay(
                st.base,
                intro_gid_pending(st.pending, #[trigger] entries.take(u)),
            ).contains_key((entries[u].0, entries[u].1@))
    }

    /// Replaces the persisted index id of each listed introspection
    /// source, in input order. Every listed id must be in the system
    /// namespace: a foreign id is a programming invariant violation, not
    /// a user error. Each update must find an existing row; the first one
    /// that does not stops the work with `FailedBuiltinSchemaMigration`
    /// naming its id, with the updates so far, that one included, left in
    /// the transaction.
    pub fn update_introspection_source_index_gids(
        &mut self,
        mappings: Vec<(ClusterId, String, GlobalId)>,
    ) -> (r: Result<(), Error>)
        requires
            old(self).wf(),
            forall|i: int| 0 <= i < mappings@.len() ==> (#[trigger] mappings@[i]).2 is System,
        ensures
            final(self).wf(),
            ({
                let st = old(self).state().introspection_sources;
                match r {
                    Ok(_) => {
                        &&& Self::intro_gids_ok_upto(st, mappings@, mappings@.len() as int)
                        &&& final(self).state() == old(
                            self,
                        ).state().with_introspection_sources_pending(
                            intro_gid_pending(st.pending, mappings@),
                        )
                    },
                    Err(e) => {
                        &&& exists|t: int|
                            {
                                &&& 0 <= t < mappings@.len()
                                &&& Self::intro_gids_ok_upto(st, mappings@, t)
                                &&& !crate::table::overlay(
                                    st.base,
                                    intro_gid_pending(st.pending, #[trigger] mappings@.take(t)),
                                ).contains_key((mappings@[t].0, mappings@[t].1@))
                                &&& e matches Error::FailedBuiltinSchemaMigration(n) && n@
                                    == mappings@[t].2.text_spec()
                                &&& final(self).state() == old(
                                    self,
                                ).state().with_introspection_sources_pending(
                                    intro_gid_pending(st.pending, mappings@.take(t + 1)),
                                )
                            }
                    },
                }
            }),
    {
        let ghost st = old(self).state().introspection_sources;
        let n = mappings.len();
        let mut t: usize = 0;
        while t < n
            invariant
                self.wf(),
                n == mappings@.len(),
                t <= n,
                forall|i: int| 0 <= i < n ==> (#[trigger] mappings@[i]).2 is System,
                st == old(self).state().introspection_sources,
                Self::intro_gids_ok_upto(st, mappings@, t as int),
                self.state() == old(self).state().with_introspection_sources_pending(
                    intro_gid_pending(st.pending, mappings@.take(t as int)),
                ),
            decreases n - t,
        {
            let ghost pre = *self;
            let (cluster_id, name, gid) = &mappings[t];
            let index_id: u64 = match gid {
                GlobalId::System(id) => *id,
                _ => {
                    proof {
                        assert(false);
                    }
                    0
                },
            };
            let key = ClusterIntrospectionSourceIndexKey {
                cluster_id: *cluster_id,
                name: name.clone(),
            };
            let prev = self.introspection_sources.set(
                key,
                Some(ClusterIntrospectionSourceIndexValue { index_id }),
            );
            proof {
                assert(mappings@.take(t + 1).drop_last() =~= mappings@.take(t as int));
                assert(mappings@.take(t + 1).last() == mappings@[t as int]);
                assert(self.state() =~~= old(self).state().with_introspection_sources_pending(
                    intro_gid_pending(st.pending, mappings@.take(t + 1)),
                ));
            }
            if prev.is_none() {
                proof {
                    assert(pre.state().introspection_sources.live() == crate::table::overlay(
                        st.base,
                        intro_gid_pending(st.pending, mappings@.take(t as int)),
                    ));
                }
                return Err(Error::FailedBuiltinSchemaMigration(gid.to_text()));
            }
            proof {
                assert(pre.state().introspection_sources.live().contains_key(
                    (mappings@[t as int].0, mappings@[t as int].1@),
                ));
                assert(Self::intro_gids_ok_upto(st, mappings@, t + 1));
            }
            t += 1;
        }
        proof {
            assert(mappings@.take(n as int) =~= mappings@);
        }
        Ok(())
    }

    /// Replaces the row of every builtin object whose current system id
    /// is listed, setting the newly minted id and fingerprint; rows are
    /// matched by the id stored in their value, and the listed old ids
    /// must be distinct. Succeeds exactly when the number of rows matched
    /// equals the number of listed mappings; otherwise fails with
    /// `FailedBuiltinSchemaMigration` naming every listed id, with the
    /// matched rows nonetheless replaced in the transaction.
    pub fn update_system_object_mappings(
        &mut self,
        mappings: Vec<(GlobalId, SystemObjectMapping)>,
    ) -> (r: Result<(), Error>)
        requires
            old(self).wf(),
            forall|i: int, j: int|
                0 <= i < j < mappings@.len() ==> (#[trigger] mappings@[i]).0 != (
                #[trigger] mappings@[j]).0,
        ensures
            final(self).wf(),
            ({
                let live = old(self).state().system_gid_mapping.live();
                let p = old(self).state().system_gid_mapping.pending;
                let matched = Set::new(
                    |k: (Seq<char>, CatalogItemType, Seq<char>)|
                        live.dom().contains(k) && exists|i: int|
                            0 <= i < mappings@.len() && (#[trigger] mappings@[i]).0
                                == GlobalId::System(live[k].id),
                );
                let repl = Map::new(
                    |k: (Seq<char>, CatalogItemType, Seq<char>)| matched.contains(k),
                    |k: (Seq<char>, CatalogItemType, Seq<char>)|
                        {
                            let i = choose|i: int|
                                0 <= i < mappings@.len() && (#[trigger] mappings@[i]).0
                                    == GlobalId::System(live[k].id);
                            GidMappingValueV {
                                id: mappings@[i].1.id,
                                fingerprint: mappings@[i].1.fingerprint@,
                            }
                        },
                );
                &&& final(self).state() == old(self).state().with_system_gid_mapping_pending(
                    pending_with_updates(p, repl),
                )
                &&& matched.finite()
                &&& match r {
                    Ok(_) => matched.len() == mappings@.len(),
                    Err(e) => {
                        &&& e matches Error::FailedBuiltinSchemaMigration(n) && n@
                            == crate::text::join_sep(
                            mappings@.map_values(|e: (GlobalId, SystemObjectMapping)| e.0.text_spec()),
                            ","@,
                        )
                        &&& matched.len() != mappings@.len()
                    },
                }
            }),
    {
        let ghost live = old(self).state().system_gid_mapping.live();
        let ghost p = old(self).state().system_gid_mapping.pending;
        let ghost matched = Set::new(
            |k: (Seq<char>, CatalogItemType, Seq<char>)|
                live.dom().contains(k) && exists|i: int|
                    0 <= i < mappings@.len() && (#[trigger] mappings@[i]).0 == GlobalId::System(
                        live[k].id,
                    ),
        );
        let ghost repl = Map::new(
            |k: (Seq<char>, CatalogItemType, Seq<char>)| matched.contains(k),
            |k: (Seq<char>, CatalogItemType, Seq<char>)|
                {
                    let i = choose|i: int|
                        0 <= i < mappings@.len() && (#[trigger] mappings@[i]).0 == GlobalId::System(
                            live[k].id,
                        );
                    GidMappingValueV { id: mappings@[i].1.id, fingerprint: mappings@[i].1.fingerprint@ }
                },
        );
        let rows = self.system_gid_mapping.items();
        let nrows = rows.len();
        let m = mappings.len();
        let mut count: usize = 0;
        let ghost mut seen: Set<(Seq<char>, CatalogItemType, Seq<char>)> = Set::empty();
        let mut t: usize = 0;
        while t < nrows
            invariant
                self.wf(),
                nrows == rows.len(),
                m == mappings@.len(),
                t <= nrows,
                forall|i: int, j: int|
                    0 <= i < j < m ==> (#[trigger] mappings@[i]).0 != (#[trigger] mappings@[j]).0,
                distinct_keys(rows@),
                assoc_map(rows@) == live,
                live == old(self).state().system_gid_mapping.live(),
                p == old(self).state().system_gid_mapping.pending,
                matched == Set::new(
                    |k: (Seq<char>, CatalogItemType, Seq<char>)|
                        live.dom().contains(k) && exists|i: int|
                            0 <= i < mappings@.len() && (#[trigger] mappings@[i]).0
                                == GlobalId::System(live[k].id),
                ),
                repl == Map::new(
                    |k: (Seq<char>, CatalogItemType, Seq<char>)| matched.contains(k),
                    |k: (Seq<char>, CatalogItemType, Seq<char>)|
                        {
                            let i = choose|i: int|
                                0 <= i < mappings@.len() && (#[trigger] mappings@[i]).0
                                    == GlobalId::System(live[k].id);
                            GidMappingValueV {
                                id: mappings@[i].1.id,
                                fingerprint: mappings@[i].1.fingerprint@,
                            }
                        },
                ),
                seen.finite(),
                seen.len() == count,
                count <= t,
                seen =~= Set::new(
                    |k: (Seq<char>, CatalogItemType, Seq<char>)|
                        matched.contains(k) && exists|j: int|
                            0 <= j < t && (#[trigger] rows@[j]).0@ == k,
                ),
                self.state() == old(self).state().with_system_gid_mapping_pending(
                    pending_with_updates(p, repl.restrict(seen)),
                ),
            decreases nrows - t,
        {
            let ghost pre = *self;
            let ghost seen_pre = seen;
            let row_id = rows[t].1.id;
            let mut found: Option<usize> = None;
            let mut j: usize = 0;
            while j < m
                invariant
                    m == mappings@.len(),
                    j <= m,
                    nrows == rows.len(),
                    t < nrows,
                    row_id == rows@[t as int].1.id,
                    match found {
                        Some(f) => f < m && mappings@[f as int].0 == GlobalId::System(row_id),
                        None => forall|u: int|
                            0 <= u < j ==> (#[trigger] mappings@[u]).0 != GlobalId::System(row_id),
                    },
                decreases m - j,
            {
                if found.is_none() {
                    if mappings[j].0 == GlobalId::System(row_id) {
                        found = Some(j);
                    }
                }
                j += 1;
            }
            proof {
                crate::table::lemma_assoc_index(rows@, t as int);
            }
            match found {
                Some(f) => {
                    let mapping = &mappings[f].1;
                    let newv = GidMappingValue {
                        id: mapping.id,
                        fingerprint: mapping.fingerprint.clone(),
                    };
                    let key = rows[t].0.key_clone();
                    let _prev = self.system_gid_mapping.set(key, Some(newv));
                    count += 1;
                    proof {
                        let k = rows@[t as int].0@;
                        assert(matched.contains(k));
                        let ci = choose|i: int|
                            0 <= i < mappings@.len() && (#[trigger] mappings@[i]).0
                                == GlobalId::System(live[k].id);
                        if ci != f {
                            assert(mappings@[ci].0 == mappings@[f as int].0);
                            assert(false);
                        }
                        assert(repl[k] == (GidMappingValueV {
                            id: mappings@[f as int].1.id,
                            fingerprint: mappings@[f as int].1.fingerprint@,
                        }));
                        if seen_pre.contains(k) {
                            let jj = choose|jj: int|
                                matched.contains(k) && 0 <= jj < t && (#[trigger] rows@[jj]).0@
                                    == k;
                            assert(false);
                        }
                        seen = seen_pre.insert(k);
                        assert(seen.len() == seen_pre.len() + 1);
                        assert(seen =~= Set::new(
                            |kk: (Seq<char>, CatalogItemType, Seq<char>)|
                                matched.contains(kk) && exists|jj: int|
                                    0 <= jj < t + 1 && (#[trigger] rows@[jj]).0@ == kk,
                        ));
                        assert(pending_with_updates(p, repl.restrict(seen_pre)).insert(
                            k,
                            Some(repl[k]),
                        ) =~= pending_with_updates(p, repl.restrict(seen)));
                        assert(self.state() =~~= old(
                            self,
                        ).state().with_system_gid_mapping_pending(
                            pending_with_updates(p, repl.restrict(seen)),
                        ));
                    }
                },
                None => {
                    proof {
                        let k = rows@[t as int].0@;
                        if matched.contains(k) {
                            let i = choose|i: int|
                                0 <= i < mappings@.len() && (#[trigger] mappings@[i]).0
                                    == GlobalId::System(live[k].id);
                            assert(false);
                        }
                        assert(seen =~= Set::new(
                            |kk: (Seq<char>, CatalogItemType, Seq<char>)|
                                matched.contains(kk) && exists|jj: int|
                                    0 <= jj < t + 1 && (#[trigger] rows@[jj]).0@ == kk,
                        ));
                    }
                },
            }
            t += 1;
        }
        proof {
            assert forall|k: (Seq<char>, CatalogItemType, Seq<char>)|
                matched.contains(k) implies seen.contains(k) by {
                crate::table::lemma_assoc_contains(rows@, k);
                let j = choose|j: int| 0 <= j < rows@.len() && (#[trigger] rows@[j]).0@ == k;
            }
            assert(seen =~= matched);
            assert(repl.restrict(seen) =~= repl);
            assert(self.state() =~~= old(self).state().with_system_gid_mapping_pending(
                pending_with_updates(p, repl),
            ));
        }
        if count == m {
            Ok(())
        } else {
            let mut texts: Vec<String> = Vec::new();
            let mut i: usize = 0;
            while i < m
                invariant
                    m == mappings@.len(),
                    i <= m,
                    texts@.len() == i,
                    forall|u: int|
                        0 <= u < i ==> (#[trigger] texts@[u])@ == mappings@[u].0.text_spec(),
                decreases m - i,
            {
                texts.push(mappings[i].0.to_text());
                i += 1;
            }
            proof {
                assert forall|u: int|
                    0 <= u < m implies texts@.map_values(|s: String| s@)[u] == mappings@.map_values(
                    |e: (GlobalId, SystemObjectMapping)| e.0.text_spec(),
                )[#[trigger] (u + 0)] by {
                    assert(texts@[u]@ == mappings@[u].0.text_spec());
                }
                assert(texts@.map_values(|s: String| s@) =~= mappings@.map_values(
                    |e: (GlobalId, SystemObjectMapping)| e.0.text_spec(),
                ));
            }
            let text = crate::text::join_with(&texts, ",");
            Err(Error::FailedBuiltinSchemaMigration(text))
        }
    }
}


impl Transaction {
    /// The databases pending log as an ordered entry list; it
    /// denotes `state().databases.pending`, one entry per touched key.
    pub closed spec fn databases_entries(self) -> Seq<(DatabaseKey, Option<DatabaseValueV>)> {
        self.databases.pending_entries()
    }

    /// The schemas pending log as an ordered entry list; it
    /// denotes `state().schemas.pending`, one entry per touched key.
    pub closed spec fn schemas_entries(self) -> Seq<(SchemaKey, Option<SchemaValueV>)> {
        self.schemas.pending_entries()
    }

    /// The items pending log as an ordered entry list; it
    /// denotes `state().items.pending`, one entry per touched key.
    pub closed spec fn items_entries(self) -> Seq<(ItemKey, Option<ItemValueV>)> {
        self.items.pending_entries()
    }

    /// The comments pending log as an ordered entry list; it
    /// denotes `state().comments.pending`, one entry per touched key.
    pub closed spec fn comments_entries(self) -> Seq<(CommentKey, Option<Seq<char>>)> {
        self.comments.pending_entries()
    }

    /// The roles pending log as an ordered entry list; it
    /// denotes `state().roles.pending`, one entry per touched key.
    pub closed spec fn roles_entries(self) -> Seq<(RoleKey, Option<RoleValueV>)> {
        self.roles.pending_entries()
    }

    /// The clusters pending log as an ordered entry list; it
    /// denotes `state().clusters.pending`, one entry per touched key.
    pub closed spec fn clusters_entries(self) -> Seq<(ClusterKey, Option<ClusterValueV>)> {
        self.clusters.pending_entries()
    }

    /// The cluster replicas pending log as an ordered entry list; it
    /// denotes `state().cluster_replicas.pending`, one entry per touched key.
    pub closed spec fn cluster_replicas_entries(self) -> Seq<(ClusterReplicaKey, Option<ClusterReplicaValueV>)> {
        self.cluster_replicas.pending_entries()
    }

    /// The introspection sources pending log as an ordered entry list; it
    /// denotes `state().introspection_sources.pending`, one entry per touched key.
    pub closed spec fn introspection_sources_entries(self) -> Seq<((ClusterId, Seq<char>), Option<ClusterIntrospectionSourceIndexValue>)> {
        self.introspection_sources.pending_entries()
    }

    /// The id allocator pending log as an ordered entry list; it
    /// denotes `state().id_allocator.pending`, one entry per touched key.
    pub closed spec fn id_allocator_entries(self) -> Seq<(Seq<char>, Option<IdAllocValue>)> {
        self.id_allocator.pending_entries()
    }

    /// The configs pending log as an ordered entry list; it
    /// denotes `state().configs.pending`, one entry per touched key.
    pub closed spec fn configs_entries(self) -> Seq<(Seq<char>, Option<ConfigValue>)> {
        self.configs.pending_entries()
    }

    /// The settings pending log as an ordered entry list; it
    /// denotes `state().settings.pending`, one entry per touched key.
    pub closed spec fn settings_entries(self) -> Seq<(Seq<char>, Option<Seq<char>>)> {
        self.settings.pending_entries()
    }

    /// The timestamps pending log as an ordered entry list; it
    /// denotes `state().timestamps.pending`, one entry per touched key.
    pub closed spec fn timestamps_entries(self) -> Seq<(Seq<char>, Option<TimestampValue>)> {
        self.timestamps.pending_entries()
    }

    /// The system gid mapping pending log as an ordered entry list; it
    /// denotes `state().system_gid_mapping.pending`, one entry per touched key.
    pub closed spec fn system_gid_mapping_entries(self) -> Seq<((Seq<char>, CatalogItemType, Seq<char>), Option<GidMappingValueV>)> {
        self.system_gid_mapping.pending_entries()
    }

    /// The system configurations pending log as an ordered entry list; it
    /// denotes `state().system_configurations.pending`, one entry per touched key.
    pub closed spec fn system_configurations_entries(self) -> Seq<(Seq<char>, Option<Seq<char>>)> {
        self.system_configurations.pending_entries()
    }

    /// The default privileges pending log as an ordered entry list; it
    /// denotes `state().default_privileges.pending`, one entry per touched key.
    pub closed spec fn default_privileges_entries(self) -> Seq<(DefaultPrivilegesKey, Option<DefaultPrivilegesValue>)> {
        self.default_privileges.pending_entries()
    }

    /// The system privileges pending log as an ordered entry list; it
    /// denotes `state().system_privileges.pending`, one entry per touched key.
    pub closed spec fn system_privileges_entries(self) -> Seq<(SystemPrivilegesKey, Option<SystemPrivilegesValue>)> {
        self.system_privileges.pending_entries()
    }

    /// Every table's pending entry list denotes exactly its pending map,
    /// one entry per touched key.
    pub proof fn lemma_entries_agree(self)
        requires
            self.wf(),
        ensures
            crate::table::entries_map(self.databases_entries()) == self.state().databases.pending,
            forall|i: int, j: int|
                0 <= i < j < self.databases_entries().len() ==> (#[trigger] self.databases_entries()[i]).0
                    != (#[trigger] self.databases_entries()[j]).0,
            crate::table::entries_map(self.schemas_entries()) == self.state().schemas.pending,
            forall|i: int, j: int|
                0 <= i < j < self.schemas_entries().len() ==> (#[trigger] self.schemas_entries()[i]).0
                    != (#[trigger] self.schemas_entries()[j]).0,
            crate::table::entries_map(self.items_entries()) == self.state().items.pending,
            forall|i: int, j: int|
                0 <= i < j < self.items_entries().len() ==> (#[trigger] self.items_entries()[i]).0
                    != (#[trigger] self.items_entries()[j]).0,
            crate::table::entries_map(self.comments_entries()) == self.state().comments.pending,
            forall|i: int, j: int|
                0 <= i < j < self.comments_entries().len() ==> (#[trigger] self.comments_entries()[i]).0
                    != (#[trigger] self.comments_entries()[j]).0,
            crate::table::entries_map(self.roles_entries()) == self.state().roles.pending,
            forall|i: int, j: int|
                0 <= i < j < self.roles_entries().len() ==> (#[trigger] self.roles_entries()[i]).0
                    != (#[trigger] self.roles_entries()[j]).0,
            crate::table::entries_map(self.clusters_entries()) == self.state().clusters.pending,
            forall|i: int, j: int|
                0 <= i < j < self.clusters_entries().len() ==> (#[trigger] self.clusters_entries()[i]).0
                    != (#[trigger] self.clusters_entries()[j]).0,
            crate::table::entries_map(self.cluster_replicas_entries()) == self.state().cluster_replicas.pending,
            forall|i: int, j: int|
                0 <= i < j < self.cluster_replicas_entries().len() ==> (#[trigger] self.cluster_replicas_entries()[i]).0
                    != (#[trigger] self.cluster_replicas_entries()[j]).0,
            crate::table::entries_map(self.introspection_sources_entries()) == self.state().introspection_sources.pending,
            forall|i: int, j: int|
                0 <= i < j < self.introspection_sources_entries().len() ==> (#[trigger] self.introspection_sources_entries()[i]).0
                    != (#[trigger] self.introspection_sources_entries()[j]).0,
            crate::table::entries_map(self.id_allocator_entries()) == self.state().id_allocator.pending,
            forall|i: int, j: int|
                0 <= i < j < self.id_allocator_entries().len() ==> (#[trigger] self.id_allocator_entries()[i]).0
                    != (#[trigger] self.id_allocator_entries()[j]).0,
            crate::table::entries_map(self.configs_entries()) == self.state().configs.pending,
            forall|i: int, j: int|
                0 <= i < j < self.configs_entries().len() ==> (#[trigger] self.configs_entries()[i]).0
                    != (#[trigger] self.configs_entries()[j]).0,
            crate::table::entries_map(self.settings_entries()) == self.state().settings.pending,
            forall|i: int, j: int|
                0 <= i < j < self.settings_entries().len() ==> (#[trigger] self.settings_entries()[i]).0
                    != (#[trigger] self.settings_entries()[j]).0,
            crate::table::entries_map(self.timestamps_entries()) == self.state().timestamps.pending,
            forall|i: int, j: int|
                0 <= i < j < self.timestamps_entries().len() ==> (#[trigger] self.timestamps_entries()[i]).0
                    != (#[trigger] self.timestamps_entries()[j]).0,
            crate::table::entries_map(self.system_gid_mapping_entries()) == self.state().system_gid_mapping.pending,
            forall|i: int, j: int|
                0 <= i < j < self.system_gid_mapping_entries().len() ==> (#[trigger] self.system_gid_mapping_entries()[i]).0
                    != (#[trigger] self.system_gid_mapping_entries()[j]).0,
            crate::table::entries_map(self.system_configurations_entries()) == self.state().system_configurations.pending,
            forall|i: int, j: int|
                0 <= i < j < self.system_configurations_entries().len() ==> (#[trigger] self.system_configurations_entries()[i]).0
                    != (#[trigger] self.system_configurations_entries()[j]).0,
            crate::table::entries_map(self.default_privileges_entries()) == self.state().default_privileges.pending,
            forall|i: int, j: int|
                0 <= i < j < self.default_privileges_entries().len() ==> (#[trigger] self.default_privileges_entries()[i]).0
                    != (#[trigger] self.default_privileges_entries()[j]).0,
            crate::table::entries_map(self.system_privileges_entries()) == self.state().system_privileges.pending,
            forall|i: int, j: int|
                0 <= i < j < self.system_privileges_entries().len() ==> (#[trigger] self.system_privileges_entries()[i]).0
                    != (#[trigger] self.system_privileges_entries()[j]).0,
    {
        self.databases.lemma_pending_entries_agree();
        self.schemas.lemma_pending_entries_agree();
        self.items.lemma_pending_entries_agree();
        self.comments.lemma_pending_entries_agree();
        self.roles.lemma_pending_entries_agree();
        self.clusters.lemma_pending_entries_agree();
        self.cluster_replicas.lemma_pending_entries_agree();
        self.introspection_sources.lemma_pending_entries_agree();
        self.id_allocator.lemma_pending_entries_agree();
        self.configs.lemma_pending_entries_agree();
        self.settings.lemma_pending_entries_agree();
        self.timestamps.lemma_pending_entries_agree();
        self.system_gid_mapping.lemma_pending_entries_agree();
        self.system_configurations.lemma_pending_entries_agree();
        self.default_privileges.lemma_pending_entries_agree();
        self.system_privileges.lemma_pending_entries_agree();
    }

    /// All live items as domain structs, sorted by id ascending; each
    /// returned item is a live row, every live row appears, and the ids
    /// are distinct.
    pub fn loaded_items(&self) -> (r: Vec<Item>)
        requires
            self.wf(),
        ensures
            forall|t: int|
                0 <= t < r@.len() ==> ({
                    let key = ItemKey { gid: (#[trigger] r@[t]).id };
                    &&& self.state().items.live().contains_key(key)
                    &&& r@[t].value_view() == self.state().items.live()[key]
                }),
            forall|k: ItemKey|
                #[trigger] self.state().items.live().dom().contains(k) ==> exists|t: int|
                    0 <= t < r@.len() && (#[trigger] r@[t]).id == k.gid,
            forall|t1: int, t2: int|
                0 <= t1 < t2 < r@.len() ==> (#[trigger] r@[t1]).id.le_spec((#[trigger] r@[t2]).id)
                    && r@[t1].id != r@[t2].id,
    {
        let rows = self.items.items();
        let n = rows.len();
        let mut out: Vec<Item> = Vec::new();
        let mut t: usize = 0;
        while t < n
            invariant
                n == rows.len(),
                t <= n,
                distinct_keys(rows@),
                forall|u: int|
                    0 <= u < out@.len() ==> exists|j: int|
                        0 <= j < t && (#[trigger] out@[u]).id == (#[trigger] rows@[j]).0.gid
                            && out@[u].value_view() == rows@[j].1@,
                forall|j: int|
                    0 <= j < t ==> exists|u: int|
                        0 <= u < out@.len() && (#[trigger] out@[u]).id == (
                        #[trigger] rows@[j]).0.gid,
                forall|u1: int, u2: int|
                    0 <= u1 < u2 < out@.len() ==> (#[trigger] out@[u1]).id.le_spec(
                        (#[trigger] out@[u2]).id,
                    ) && out@[u1].id != out@[u2].id,
            decreases n - t,
        {
            let key = rows[t].0;
            let item = Item::from_key_value(key, rows[t].1.value_clone());
            proof {
                if exists|u: int| 0 <= u < out@.len() && (#[trigger] out@[u]).id == item.id {
                    let u = choose|u: int|
                        0 <= u < out@.len() && (#[trigger] out@[u]).id == item.id;
                    let j = choose|j: int|
                        0 <= j < t && (#[trigger] out@[u]).id == (#[trigger] rows@[j]).0.gid
                            && out@[u].value_view() == rows@[j].1@;
                    assert(rows@[j].0@ != rows@[t as int].0@);
                    assert(false);
                }
            }
            let ghost opre = out@;
            insert_item_sorted(&mut out, item);
            proof {
                assert forall|u: int| 0 <= u < out@.len() implies exists|j: int|
                    0 <= j < t + 1 && (#[trigger] out@[u]).id == (#[trigger] rows@[j]).0.gid
                        && out@[u].value_view() == rows@[j].1@ by {
                    if out@[u] == item {
                        assert(out@[u].id == rows@[t as int].0.gid && out@[u].value_view()
                            == rows@[t as int].1@);
                    } else {
                        let v = choose|v: int|
                            0 <= v < opre.len() && (#[trigger] opre[v]) == out@[u];
                        let j = choose|j: int|
                            0 <= j < t && (#[trigger] opre[v]).id == (#[trigger] rows@[j]).0.gid
                                && opre[v].value_view() == rows@[j].1@;
                    }
                }
                assert forall|j: int| 0 <= j < t + 1 implies exists|u: int|
                    0 <= u < out@.len() && (#[trigger] out@[u]).id == (
                #[trigger] rows@[j]).0.gid by {
                    if j < t {
                        let v = choose|v: int|
                            0 <= v < opre.len() && (#[trigger] opre[v]).id == (
                            #[trigger] rows@[j]).0.gid;
                        let u = choose|u: int|
                            0 <= u < out@.len() && (#[trigger] out@[u]) == (#[trigger] opre[v]);
                    } else {
                        let u = choose|u: int| 0 <= u < out@.len() && (#[trigger] out@[u]) == item;
                    }
                }
            }
            t += 1;
        }
        proof {
            assert forall|u: int| 0 <= u < out@.len() implies ({
                let key = ItemKey { gid: (#[trigger] out@[u]).id };
                &&& self.state().items.live().contains_key(key)
                &&& out@[u].value_view() == self.state().items.live()[key]
            }) by {
                let j = choose|j: int|
                    0 <= j < n && (#[trigger] out@[u]).id == (#[trigger] rows@[j]).0.gid
                        && out@[u].value_view() == rows@[j].1@;
                crate::table::lemma_assoc_index(rows@, j);
            }
            assert forall|k: ItemKey| #[trigger] self.state().items.live().dom().contains(
                k,
            ) implies exists|t0: int| 0 <= t0 < out@.len() && (#[trigger] out@[t0]).id
                == k.gid by {
                crate::table::lemma_assoc_contains(rows@, k);
                let j = choose|j: int| 0 <= j < rows@.len() && (#[trigger] rows@[j]).0@ == k;
                assert(rows@[j].0.gid == k.gid);
            }
        }
        out
    }

    /// Consumes the transaction and assembles the single atomic commit
    /// batch: per table, the coalesced net diff that
    /// [`crate::table::TableTransaction::pending`] derives, plus the two
    /// append-only event logs. A transaction is committed exactly once;
    /// nothing reaches the durable store from a transaction that is
    /// dropped instead.
    pub fn commit(self) -> (r: TransactionBatch)
        requires
            self.wf(),
        ensures
            r.databases@.map_values(|d: (DatabaseKey, DatabaseValue, i64)| (d.0@, d.1@, d.2 as int)) == diff_seq(
                self.state().databases.base,
                self.databases_entries(),
            ),
            r.schemas@.map_values(|d: (SchemaKey, SchemaValue, i64)| (d.0@, d.1@, d.2 as int)) == diff_seq(
                self.state().schemas.base,
                self.schemas_entries(),
            ),
            r.items@.map_values(|d: (ItemKey, ItemValue, i64)| (d.0@, d.1@, d.2 as int)) == diff_seq(
                self.state().items.base,
                self.items_entries(),
            ),
            r.comments@.map_values(|d: (CommentKey, CommentValue, i64)| (d.0@, d.1@, d.2 as int)) == diff_seq(
                self.state().comments.base,
                self.comments_entries(),
            ),
            r.roles@.map_values(|d: (RoleKey, RoleValue, i64)| (d.0@, d.1@, d.2 as int)) == diff_seq(
                self.state().roles.base,
                self.roles_entries(),
            ),
            r.clusters@.map_values(|d: (ClusterKey, ClusterValue, i64)| (d.0@, d.1@, d.2 as int)) == diff_seq(
                self.state().clusters.base,
                self.clusters_entries(),
            ),
            r.cluster_replicas@.map_values(|d: (ClusterReplicaKey, ClusterReplicaValue, i64)| (d.0@, d.1@, d.2 as int)) == diff_seq(
                self.state().cluster_replicas.base,
                self.cluster_replicas_entries(),
            ),
            r.introspection_sources@.map_values(|d: (ClusterIntrospectionSourceIndexKey, ClusterIntrospectionSourceIndexValue, i64)| (d.0@, d.1@, d.2 as int)) == diff_seq(
                self.state().introspection_sources.base,
                self.introspection_sources_entries(),
            ),
            r.id_allocator@.map_values(|d: (IdAllocKey, IdAllocValue, i64)| (d.0@, d.1@, d.2 as int)) == diff_seq(
                self.state().id_allocator.base,
                self.id_allocator_entries(),
            ),
            r.configs@.map_values(|d: (ConfigKey, ConfigValue, i64)| (d.0@, d.1@, d.2 as int)) == diff_seq(
                self.state().configs.base,
                self.configs_entries(),
            ),
            r.settings@.map_values(|d: (SettingKey, SettingValue, i64)| (d.0@, d.1@, d.2 as int)) == diff_seq(
                self.state().settings.base,
                self.settings_entries(),
            ),
            r.timestamps@.map_values(|d: (TimestampKey, TimestampValue, i64)| (d.0@, d.1@, d.2 as int)) == diff_seq(
                self.state().timestamps.base,
                self.timestamps_entries(),
            ),
            r.system_gid_mapping@.map_values(|d: (GidMappingKey, GidMappingValue, i64)| (d.0@, d.1@, d.2 as int)) == diff_seq(
                self.state().system_gid_mapping.base,
                self.system_gid_mapping_entries(),
            ),
            r.system_configurations@.map_values(|d: (ServerConfigurationKey, ServerConfigurationValue, i64)| (d.0@, d.1@, d.2 as int)) == diff_seq(
                self.state().system_configurations.base,
                self.system_configurations_entries(),
            ),
            r.default_privileges@.map_values(|d: (DefaultPrivilegesKey, DefaultPrivilegesValue, i64)| (d.0@, d.1@, d.2 as int)) == diff_seq(
                self.state().default_privileges.base,
                self.default_privileges_entries(),
            ),
            r.system_privileges@.map_values(|d: (SystemPrivilegesKey, SystemPrivilegesValue, i64)| (d.0@, d.1@, d.2 as int)) == diff_seq(
                self.state().system_privileges.base,
                self.system_privileges_entries(),
            ),
            r.audit_log_updates@.map_values(|e: (VersionedEvent, i64)| (e.0@, e.1 as int))
                == self.state().audit_log_updates,
            r.storage_usage_updates@.map_values(
                |e: (VersionedStorageUsage, i64)| (e.0@, e.1 as int),
            ) == self.state().storage_usage_updates,
    {
        TransactionBatch {
            databases: self.databases.pending(),
            schemas: self.schemas.pending(),
            items: self.items.pending(),
            comments: self.comments.pending(),
            roles: self.roles.pending(),
            clusters: self.clusters.pending(),
            cluster_replicas: self.cluster_replicas.pending(),
            introspection_sources: self.introspection_sources.pending(),
            id_allocator: self.id_allocator.pending(),
            configs: self.configs.pending(),
            settings: self.settings.pending(),
            timestamps: self.timestamps.pending(),
            system_gid_mapping: self.system_gid_mapping.pending(),
            system_configurations: self.system_configurations.pending(),
            default_privileges: self.default_privileges.pending(),
            system_privileges: self.system_privileges.pending(),
            audit_log_updates: self.audit_log_updates,
            storage_usage_updates: self.storage_usage_updates,
        }
    }
}

/// The set of changes one committed transaction applies atomically: per
/// table the coalesced (key, row, diff) net change set, where diff +1
/// inserts the row and -1 retracts it, plus the append-only event logs.
#[derive(Clone, Debug)]
pub struct TransactionBatch {
    pub databases: Vec<(DatabaseKey, DatabaseValue, i64)>,
    pub schemas: Vec<(SchemaKey, SchemaValue, i64)>,
    pub items: Vec<(ItemKey, ItemValue, i64)>,
    pub comments: Vec<(CommentKey, CommentValue, i64)>,
    pub roles: Vec<(RoleKey, RoleValue, i64)>,
    pub clusters: Vec<(ClusterKey, ClusterValue, i64)>,
    pub cluster_replicas: Vec<(ClusterReplicaKey, ClusterReplicaValue, i64)>,
    pub introspection_sources: Vec<(ClusterIntrospectionSourceIndexKey, ClusterIntrospectionSourceIndexValue, i64)>,
    pub id_allocator: Vec<(IdAllocKey, IdAllocValue, i64)>,
    pub configs: Vec<(ConfigKey, ConfigValue, i64)>,
    pub settings: Vec<(SettingKey, SettingValue, i64)>,
    pub timestamps: Vec<(TimestampKey, TimestampValue, i64)>,
    pub system_gid_mapping: Vec<(GidMappingKey, GidMappingValue, i64)>,
    pub system_configurations: Vec<(ServerConfigurationKey, ServerConfigurationValue, i64)>,
    pub default_privileges: Vec<(DefaultPrivilegesKey, DefaultPrivilegesValue, i64)>,
    pub system_privileges: Vec<(SystemPrivilegesKey, SystemPrivilegesValue, i64)>,
    pub audit_log_updates: Vec<(VersionedEvent, i64)>,
    pub storage_usage_updates: Vec<(VersionedStorageUsage, i64)>,
}

/// Issuing an id advances only the issuing namespace's counter, by
/// exactly one: from any allocator state, the issued id is the stored
/// counter and the state left behind stores its successor, so the next
/// issuance from the same namespace returns an id strictly one greater,
/// and no id is ever returned twice.
pub proof fn lemma_id_monotonic(alloc: Map<Seq<char>, IdAllocValue>, name: Seq<char>)
    requires
        alloc.contains_key(name),
        alloc[name].next_id < u64::MAX,
    ensures
        ({
            let issued = alloc[name].next_id;
            let after = alloc.insert(name, IdAllocValue { next_id: (issued + 1) as u64 });
            &&& after.contains_key(name)
            &&& after[name].next_id == issued + 1
            &&& after[name].next_id > issued
            &&& forall|other: Seq<char>|
                other != name && alloc.contains_key(other) ==> after.contains_key(other)
                    && after[other] == alloc[other]
        }),
{
}


/// Inserts an item into a list sorted by id, keeping it sorted; the new
/// id must not be present yet.
fn insert_item_sorted(out: &mut Vec<Item>, item: Item)
    requires
        forall|u1: int, u2: int|
            0 <= u1 < u2 < old(out)@.len() ==> (#[trigger] old(out)@[u1]).id.le_spec(
                (#[trigger] old(out)@[u2]).id,
            ) && old(out)@[u1].id != old(out)@[u2].id,
        forall|u: int| 0 <= u < old(out)@.len() ==> (#[trigger] old(out)@[u]).id != item.id,
    ensures
        forall|u1: int, u2: int|
            0 <= u1 < u2 < final(out)@.len() ==> (#[trigger] final(out)@[u1]).id.le_spec(
                (#[trigger] final(out)@[u2]).id,
            ) && final(out)@[u1].id != final(out)@[u2].id,
        final(out)@.len() == old(out)@.len() + 1,
        forall|u: int|
            0 <= u < final(out)@.len() ==> (#[trigger] final(out)@[u]) == item || exists|v: int|
                0 <= v < old(out)@.len() && (#[trigger] old(out)@[v]) == final(out)@[u],
        forall|v: int|
            0 <= v < old(out)@.len() ==> exists|u: int|
                0 <= u < final(out)@.len() && (#[trigger] final(out)@[u]) == (
                #[trigger] old(out)@[v]),
        exists|u: int| 0 <= u < final(out)@.len() && (#[trigger] final(out)@[u]) == item,
{
    let m = out.len();
    let mut p: usize = 0;
    while p < m && out[p].id.le(&item.id)
        invariant
            m == out.len(),
            *out == *old(out),
            p <= m,
            forall|u: int| 0 <= u < old(out)@.len() ==> (#[trigger] old(out)@[u]).id != item.id,
            forall|q: int|
                0 <= q < p ==> (#[trigger] out@[q]).id.le_spec(item.id) && out@[q].id != item.id,
        decreases m - p,
    {
        p += 1;
    }
    let ghost opre = out@;
    let ghost pp = p as int;
    out.insert(p, item);
    proof {
        assert(out@ =~= opre.insert(pp, item));
        assert(out@[pp] == item);
        assert forall|u1: int, u2: int| 0 <= u1 < u2 < out@.len() implies (
        #[trigger] out@[u1]).id.le_spec((#[trigger] out@[u2]).id) && out@[u1].id
            != out@[u2].id by {
            if u1 == pp && u2 > pp {
                assert(out@[u2] == opre[u2 - 1]);
                assert(!opre[pp].id.le_spec(item.id));
                assert(item.id.le_spec(opre[u2 - 1].id));
            } else if u2 == pp && u1 < pp {
                assert(out@[u1] == opre[u1]);
            } else if u1 < pp && u2 > pp {
                assert(out@[u1] == opre[u1] && out@[u2] == opre[u2 - 1]);
            } else if u1 > pp {
                assert(out@[u1] == opre[u1 - 1] && out@[u2] == opre[u2 - 1]);
            } else if u2 < pp {
                assert(out@[u1] == opre[u1] && out@[u2] == opre[u2]);
            }
        }
        assert forall|v: int| 0 <= v < opre.len() implies exists|u: int|
            0 <= u < out@.len() && (#[trigger] out@[u]) == (#[trigger] opre[v]) by {
            if v < pp {
                assert(out@[v] == opre[v]);
            } else {
                assert(out@[v + 1] == opre[v]);
            }
        }
        assert forall|u: int| 0 <= u < out@.len() implies (#[trigger] out@[u]) == item || exists|
            v: int,
        | 0 <= v < opre.len() && (#[trigger] opre[v]) == out@[u] by {
            if u < pp {
                assert(opre[u] == out@[u]);
            } else if u > pp {
                assert(opre[u - 1] == out@[u]);
            }
        }
    }
}


/// Arguments fixed at bootstrap that parameterize builtin objects.
#[derive(Clone, Debug)]
pub struct BootstrapArgs {
    pub builtin_cluster_replica_size: String,
}

/// A cluster that every catalog must contain.
#[derive(Clone, Debug)]
pub struct BuiltinCluster {
    pub name: String,
    pub privileges: Vec<MzAclItem>,
}

/// A replica that every builtin cluster must contain.
#[derive(Clone, Debug)]
pub struct BuiltinClusterReplica {
    pub cluster_name: String,
    pub name: String,
}

/// The logging configuration every builtin replica starts with: no log
/// logging, introspection collected once a second.
fn default_logging_config() -> (r: ReplicaLogging)
    ensures
        r == (ReplicaLogging { log_logging: false, interval_ms: Some(1000u64) }),
{
    ReplicaLogging { log_logging: false, interval_ms: Some(1000) }
}

/// The configuration every builtin cluster replica is created with:
/// managed at the bootstrap size, not billed separately, without a pinned
/// availability zone or disk, with default logging.
pub open spec fn builtin_replica_config_spec(size: Seq<char>) -> ReplicaConfigV {
    ReplicaConfigV {
        location: ReplicaLocationV::Managed {
            size,
            availability_zone: None,
            disk: false,
            billed_as: None,
            internal: false,
        },
        logging: ReplicaLogging { log_logging: false, interval_ms: Some(1000u64) },
        idle_arrangement_merge_effort: None,
    }
}

/// The replica configuration every builtin cluster replica is created
/// with; see [`builtin_replica_config_spec`].
pub fn builtin_cluster_replica_config(bootstrap_args: &BootstrapArgs) -> (r: ReplicaConfig)
    ensures
        r@ == builtin_replica_config_spec(bootstrap_args.builtin_cluster_replica_size@),
{
    ReplicaConfig {
        location: ReplicaLocation::Managed {
            availability_zone: None,
            billed_as: None,
            disk: false,
            internal: false,
            size: bootstrap_args.builtin_cluster_replica_size.clone(),
        },
        logging: default_logging_config(),
        idle_arrangement_merge_effort: None,
    }
}

impl Transaction {
    /// A cluster insert for the most recently minted system-cluster id
    /// and the given name cannot succeed in this state: the minted id is
    /// taken by a live cluster or the name is in use. This is exactly the
    /// condition under which the builtin-clusters migration, having found
    /// the name missing and minted an id for it, fails.
    pub open spec fn cluster_migration_blocked(self, name: Seq<char>) -> bool {
        let next = self.state().id_allocator.live()["system_cluster"@].next_id;
        &&& self.state().id_allocator.live().contains_key("system_cluster"@)
        &&& next >= 1
        &&& !self.cluster_insert_ok(ClusterId::System((next - 1) as u64), name)
    }
}

/// Some live cluster carries the name.
pub open spec fn has_cluster_named(st: TableState<ClusterKey, ClusterValueV>, name: Seq<char>) -> bool {
    exists|k: ClusterKey| #[trigger] st.live().dom().contains(k) && st.live()[k].name == name
}

/// Ensures every listed builtin cluster exists: a cluster whose name is
/// missing from the live set is created with a freshly minted system id,
/// owned by the system role; names already present are left untouched.
/// Idempotent: when every listed name is already live, nothing changes at
/// all, so re-running the migration against a catalog that already holds
/// its outcome is a no-op.
pub fn add_new_builtin_clusters_migration(
    txn: &mut Transaction,
    builtin_clusters: &Vec<BuiltinCluster>,
) -> (r: Result<(), Error>)
    requires
        old(txn).wf(),
        old(txn).state().id_allocator.live().contains_key("system_cluster"@),
    ensures
        final(txn).wf(),
        // Only the clusters table and the id allocator are touched, and
        // only their pending logs.
        final(txn).state() == (TxnState {
            clusters: final(txn).state().clusters,
            id_allocator: final(txn).state().id_allocator,
            ..old(txn).state()
        }),
        final(txn).state().clusters.base == old(txn).state().clusters.base,
        final(txn).state().id_allocator.base == old(txn).state().id_allocator.base,
        // Every cluster that was live stays live, unchanged.
        forall|k: ClusterKey|
            #[trigger] old(txn).state().clusters.live().dom().contains(k) ==> final(txn).state().clusters.live().contains_key(k) && final(txn).state().clusters.live()[k]
                == old(txn).state().clusters.live()[k],
        // Every cluster that appears is a listed builtin: named after it,
        // system-owned, in the system id namespace, with no linked object.
        forall|k: ClusterKey|
            #[trigger] final(txn).state().clusters.live().dom().contains(k) && !old(
                txn,
            ).state().clusters.live().dom().contains(k) ==> exists|b: int|
                0 <= b < builtin_clusters@.len() && final(txn).state().clusters.live()[k].name == (
                #[trigger] builtin_clusters@[b]).name@ && final(txn).state().clusters.live()[k].owner_id
                == crate::ids::mz_system_role_id() && final(txn).state().clusters.live()[k].linked_object_id is None && k.id is System
                && final(txn).state().clusters.live()[k].config == (ClusterConfigV {
                variant: ClusterVariantV::Unmanaged,
            }),
        // Only the system-cluster namespace of the allocator moves.
        forall|key: Seq<char>|
            key != "system_cluster"@ ==> ((#[trigger] final(txn).state().id_allocator.live().dom().contains(key)) <==> old(
                txn,
            ).state().id_allocator.live().dom().contains(key)) && (old(
                txn,
            ).state().id_allocator.live().dom().contains(key) ==> final(txn).state().id_allocator.live()[key] == old(txn).state().id_allocator.live()[key]),
        match r {
            Ok(_) => forall|b: int|
                0 <= b < builtin_clusters@.len() ==> has_cluster_named(
                    final(txn).state().clusters,
                    (#[trigger] builtin_clusters@[b]).name@,
                ),
            Err(e) => match e {
                // The system-cluster namespace genuinely ran out while
                // minting an id for a listed name that was missing.
                Error::IdExhaustion => {
                    &&& final(txn).state().id_allocator.live().contains_key("system_cluster"@)
                    &&& final(txn).state().id_allocator.live()["system_cluster"@].next_id
                        == u64::MAX
                    &&& exists|b: int|
                        0 <= b < builtin_clusters@.len() && !has_cluster_named(
                            old(txn).state().clusters,
                            (#[trigger] builtin_clusters@[b]).name@,
                        )
                },
                // The insert for a listed name that was missing genuinely
                // hit a collision: the minted system id is already live.
                Error::ClusterAlreadyExists(n) => exists|b: int|
                    {
                        &&& 0 <= b < builtin_clusters@.len()
                        &&& n@ == (#[trigger] builtin_clusters@[b]).name@
                        &&& !has_cluster_named(
                            old(txn).state().clusters,
                            builtin_clusters@[b].name@,
                        )
                        &&& final(txn).cluster_migration_blocked(builtin_clusters@[b].name@)
                    },
                _ => false,
            },
        },
        // Idempotence: against a catalog that already holds every listed
        // name, the migration changes nothing and succeeds.
        (forall|b: int|
            0 <= b < builtin_clusters@.len() ==> has_cluster_named(
                old(txn).state().clusters,
                (#[trigger] builtin_clusters@[b]).name@,
            )) ==> *final(txn) == *old(txn) && r is Ok,
{
    let rows = txn.clusters.items();
    let nrows = rows.len();
    let n = builtin_clusters.len();
    let mut i: usize = 0;
    while i < n
        invariant
            txn.wf(),
            n == builtin_clusters@.len(),
            nrows == rows.len(),
            i <= n,
            distinct_keys(rows@),
            assoc_map(rows@) == old(txn).state().clusters.live(),
            txn.state().id_allocator.live().contains_key("system_cluster"@),
            txn.state() == (TxnState {
                clusters: txn.state().clusters,
                id_allocator: txn.state().id_allocator,
                ..old(txn).state()
            }),
            txn.state().clusters.base == old(txn).state().clusters.base,
            txn.state().id_allocator.base == old(txn).state().id_allocator.base,
            forall|k: ClusterKey|
                #[trigger] old(txn).state().clusters.live().dom().contains(k) ==> txn.state().clusters.live().contains_key(
                    k,
                ) && txn.state().clusters.live()[k] == old(txn).state().clusters.live()[k],
            forall|k: ClusterKey|
                #[trigger] txn.state().clusters.live().dom().contains(k) && !old(
                    txn,
                ).state().clusters.live().dom().contains(k) ==> exists|b: int|
                    0 <= b < n && txn.state().clusters.live()[k].name == (
                    #[trigger] builtin_clusters@[b]).name@ && txn.state().clusters.live()[k].owner_id
                    == crate::ids::mz_system_role_id()
                    && txn.state().clusters.live()[k].linked_object_id is None && k.id is System
                    && txn.state().clusters.live()[k].config == (ClusterConfigV {
                    variant: ClusterVariantV::Unmanaged,
                }),
            forall|key: Seq<char>|
                key != "system_cluster"@ ==> ((#[trigger] txn.state().id_allocator.live().dom().contains(
                    key,
                )) <==> old(txn).state().id_allocator.live().dom().contains(key)) && (old(
                    txn,
                ).state().id_allocator.live().dom().contains(key) ==> txn.state().id_allocator.live()[key]
                    == old(txn).state().id_allocator.live()[key]),
            forall|b: int|
                0 <= b < i ==> has_cluster_named(
                    txn.state().clusters,
                    (#[trigger] builtin_clusters@[b]).name@,
                ),
            (forall|b: int|
                0 <= b < i ==> has_cluster_named(
                    old(txn).state().clusters,
                    (#[trigger] builtin_clusters@[b]).name@,
                )) ==> *txn == *old(txn),
        decreases n - i,
    {
        let mut found = false;
        let mut j: usize = 0;
        while j < nrows
            invariant
                nrows == rows.len(),
                n == builtin_clusters@.len(),
                i < n,
                j <= nrows,
                found ==> exists|q: int|
                    0 <= q < nrows && (#[trigger] rows@[q]).1@.name == builtin_clusters@[i as int].name@,
                !found ==> forall|q: int|
                    0 <= q < j ==> (#[trigger] rows@[q]).1@.name != builtin_clusters@[i as int].name@,
            decreases nrows - j,
        {
            if !found {
                if rows[j].1.name == builtin_clusters[i].name {
                    found = true;
                }
            }
            j += 1;
        }
        if !found {
            proof {
                assert forall|k: ClusterKey|
                    #[trigger] old(txn).state().clusters.live().dom().contains(k) implies old(
                    txn,
                ).state().clusters.live()[k].name != builtin_clusters@[i as int].name@ by {
                    crate::table::lemma_assoc_contains(rows@, k);
                    let q = choose|q: int| 0 <= q < rows@.len() && (#[trigger] rows@[q]).0@ == k;
                    crate::table::lemma_assoc_index(rows@, q);
                }
                assert(!has_cluster_named(
                    old(txn).state().clusters,
                    builtin_clusters@[i as int].name@,
                ));
            }
            let id = match txn.get_and_increment_id(system_cluster_id_alloc_key().to_owned()) {
                Ok(id) => id,
                Err(e) => {
                    proof {
                        assert(txn.state().id_allocator.live()["system_cluster"@].next_id
                            == u64::MAX);
                        assert(exists|b: int|
                            0 <= b < builtin_clusters@.len() && !has_cluster_named(
                                old(txn).state().clusters,
                                (#[trigger] builtin_clusters@[b]).name@,
                            ));
                    }
                    return Err(e);
                },
            };
            let cluster_id = ClusterId::System(id);
            let ghost clpre_st = txn.state().clusters;
            match txn.insert_system_cluster(
                cluster_id,
                builtin_clusters[i].name.as_str(),
                Vec::new(),
                crate::objects::acl_vec_clone(&builtin_clusters[i].privileges),
                ClusterConfig { variant: ClusterVariant::Unmanaged },
            ) {
                Ok(_) => {
                    proof {
                        let key = ClusterKey { id: cluster_id };
                        assert(txn.state().clusters.live()[key].name
                            == builtin_clusters@[i as int].name@);
                        assert(txn.state() =~~= (TxnState {
                            clusters: txn.state().clusters,
                            id_allocator: txn.state().id_allocator,
                            ..old(txn).state()
                        }));
                        assert forall|b: int| 0 <= b < i + 1 implies has_cluster_named(
                            txn.state().clusters,
                            (#[trigger] builtin_clusters@[b]).name@,
                        ) by {
                            if b < i {
                                let k = choose|k: ClusterKey|
                                    #[trigger] clpre_st.live().dom().contains(k)
                                        && clpre_st.live()[k].name == builtin_clusters@[b].name@;
                                assert(txn.state().clusters.live().dom().contains(k)
                                    && txn.state().clusters.live()[k].name
                                    == builtin_clusters@[b].name@);
                            } else {
                                assert(txn.state().clusters.live().dom().contains(key)
                                    && txn.state().clusters.live()[key].name
                                    == builtin_clusters@[b].name@);
                            }
                        }
                    }
                },
                Err(e) => {
                    proof {
                        assert(txn.state().id_allocator.live()["system_cluster"@].next_id == id
                            + 1);
                        assert(txn.cluster_migration_blocked(builtin_clusters@[i as int].name@));
                        assert(exists|b: int|
                            {
                                &&& 0 <= b < builtin_clusters@.len()
                                &&& builtin_clusters@[i as int].name@ == (
                                #[trigger] builtin_clusters@[b]).name@
                                &&& !has_cluster_named(
                                    old(txn).state().clusters,
                                    builtin_clusters@[b].name@,
                                )
                                &&& txn.cluster_migration_blocked(builtin_clusters@[b].name@)
                            });
                    }
                    return Err(e);
                },
            }
        } else {
            proof {
                let q = choose|q: int|
                    0 <= q < nrows && (#[trigger] rows@[q]).1@.name
                        == builtin_clusters@[i as int].name@;
                crate::table::lemma_assoc_index(rows@, q);
                assert(old(txn).state().clusters.live().dom().contains(rows@[q].0@));
                assert(has_cluster_named(
                    old(txn).state().clusters,
                    builtin_clusters@[i as int].name@,
                ));
                assert(txn.state().clusters.live().dom().contains(rows@[q].0@)
                    && txn.state().clusters.live()[rows@[q].0@].name
                    == builtin_clusters@[i as int].name@);
                assert(has_cluster_named(
                    txn.state().clusters,
                    builtin_clusters@[i as int].name@,
                ));
            }
        }
        i += 1;
    }
    Ok(())
}


impl Transaction {
    /// A replica insert for the most recently minted system-replica id on
    /// the cluster carrying the given name cannot succeed in this state:
    /// the minted id is taken by a live replica or the cluster already
    /// has a live replica of the name. This is exactly the condition
    /// under which the builtin-replicas migration, having found the
    /// replica missing and minted an id for it, fails.
    pub open spec fn replica_migration_blocked(
        self,
        cluster_name: Seq<char>,
        name: Seq<char>,
    ) -> bool {
        let next = self.state().id_allocator.live()["system_replica"@].next_id;
        &&& self.state().id_allocator.live().contains_key("system_replica"@)
        &&& next >= 1
        &&& exists|ck: ClusterKey|
            #[trigger] self.state().clusters.live().dom().contains(ck)
                && self.state().clusters.live()[ck].name == cluster_name && (
            self.state().cluster_replicas.live().contains_key(
                ClusterReplicaKey { id: ReplicaId::System((next - 1) as u64) },
            ) || exists|k2: ClusterReplicaKey|
                #[trigger] self.state().cluster_replicas.live().dom().contains(k2)
                    && self.state().cluster_replicas.live()[k2].cluster_id == ck.id
                    && self.state().cluster_replicas.live()[k2].name == name)
    }
}

/// Some live replica of the cluster with the given id carries the name.
pub open spec fn has_replica_named(
    st: TableState<ClusterReplicaKey, ClusterReplicaValueV>,
    cluster_id: ClusterId,
    name: Seq<char>,
) -> bool {
    exists|k: ClusterReplicaKey|
        #[trigger] st.live().dom().contains(k) && st.live()[k].cluster_id == cluster_id
            && st.live()[k].name == name
}

/// Some live cluster named `cluster_name` has a live replica named
/// `name`.
pub open spec fn has_builtin_replica(
    cst: TableState<ClusterKey, ClusterValueV>,
    rst: TableState<ClusterReplicaKey, ClusterReplicaValueV>,
    cluster_name: Seq<char>,
    name: Seq<char>,
) -> bool {
    exists|ck: ClusterKey|
        #[trigger] cst.live().dom().contains(ck) && cst.live()[ck].name == cluster_name
            && has_replica_named(rst, ck.id, name)
}

/// Ensures every listed builtin replica exists on its cluster: where the
/// owning cluster (which must be live, as a bootstrap invariant) has no
/// live replica of the name, one is created with a freshly minted system
/// id and the bootstrap replica configuration; replicas already present
/// are left untouched. Idempotent: when every listed replica is already
/// live, nothing changes at all.
pub fn add_new_builtin_cluster_replicas_migration(
    txn: &mut Transaction,
    bootstrap_args: &BootstrapArgs,
    builtin_replicas: &Vec<BuiltinClusterReplica>,
) -> (r: Result<(), Error>)
    requires
        old(txn).wf(),
        old(txn).state().id_allocator.live().contains_key("system_replica"@),
        forall|b: int|
            0 <= b < builtin_replicas@.len() ==> has_cluster_named(
                old(txn).state().clusters,
                (#[trigger] builtin_replicas@[b]).cluster_name@,
            ),
    ensures
        final(txn).wf(),
        // Only the replicas table and the id allocator are touched, and
        // only their pending logs.
        final(txn).state() == (TxnState {
            cluster_replicas: final(txn).state().cluster_replicas,
            id_allocator: final(txn).state().id_allocator,
            ..old(txn).state()
        }),
        final(txn).state().cluster_replicas.base == old(txn).state().cluster_replicas.base,
        final(txn).state().id_allocator.base == old(txn).state().id_allocator.base,
        // Every replica that was live stays live, unchanged.
        forall|k: ClusterReplicaKey|
            #[trigger] old(txn).state().cluster_replicas.live().dom().contains(k) ==> final(txn).state().cluster_replicas.live().contains_key(k) && final(txn).state().cluster_replicas.live()[k] == old(txn).state().cluster_replicas.live()[k],
        // Every replica that appears is a listed builtin on its named
        // cluster, system-owned, in the system id namespace.
        forall|k: ClusterReplicaKey|
            #[trigger] final(txn).state().cluster_replicas.live().dom().contains(k) && !old(
                txn,
            ).state().cluster_replicas.live().dom().contains(k) ==> exists|b: int|
                0 <= b < builtin_replicas@.len() && final(txn).state().cluster_replicas.live()[k].name == (
                #[trigger] builtin_replicas@[b]).name@ && final(txn).state().cluster_replicas.live()[k].owner_id == crate::ids::mz_system_role_id()
                    && k.id is System && final(txn).state().cluster_replicas.live()[k].config
                    == builtin_replica_config_spec(bootstrap_args.builtin_cluster_replica_size@)
                    && (exists|ck: ClusterKey|
                    #[trigger] old(txn).state().clusters.live().dom().contains(ck) && old(
                        txn,
                    ).state().clusters.live()[ck].name == builtin_replicas@[b].cluster_name@
                        && ck.id == final(txn).state().cluster_replicas.live()[k].cluster_id),
        // Only the system-replica namespace of the allocator moves.
        forall|key: Seq<char>|
            key != "system_replica"@ ==> ((#[trigger] final(txn).state().id_allocator.live().dom().contains(key)) <==> old(
                txn,
            ).state().id_allocator.live().dom().contains(key)) && (old(
                txn,
            ).state().id_allocator.live().dom().contains(key) ==> final(txn).state().id_allocator.live()[key] == old(txn).state().id_allocator.live()[key]),
        match r {
            Ok(_) => forall|b: int|
                0 <= b < builtin_replicas@.len() ==> has_builtin_replica(
                    old(txn).state().clusters,
                    final(txn).state().cluster_replicas,
                    (#[trigger] builtin_replicas@[b]).cluster_name@,
                    builtin_replicas@[b].name@,
                ),
            Err(e) => match e {
                // The system-replica namespace genuinely ran out while
                // minting an id for a listed replica that was missing.
                Error::IdExhaustion => {
                    &&& final(txn).state().id_allocator.live().contains_key("system_replica"@)
                    &&& final(txn).state().id_allocator.live()["system_replica"@].next_id
                        == u64::MAX
                    &&& exists|b: int|
                        0 <= b < builtin_replicas@.len() && !has_builtin_replica(
                            old(txn).state().clusters,
                            old(txn).state().cluster_replicas,
                            (#[trigger] builtin_replicas@[b]).cluster_name@,
                            builtin_replicas@[b].name@,
                        )
                },
                // The insert for a listed replica that was missing
                // genuinely hit a collision: the minted system id is
                // already live, or the cluster gained a replica of the
                // name within this transaction.
                Error::DuplicateReplica(rn, cn) => exists|b: int|
                    {
                        &&& 0 <= b < builtin_replicas@.len()
                        &&& rn@ == (#[trigger] builtin_replicas@[b]).name@
                        &&& cn@ == builtin_replicas@[b].cluster_name@
                        &&& !has_builtin_replica(
                            old(txn).state().clusters,
                            old(txn).state().cluster_replicas,
                            builtin_replicas@[b].cluster_name@,
                            builtin_replicas@[b].name@,
                        )
                        &&& final(txn).replica_migration_blocked(
                            builtin_replicas@[b].cluster_name@,
                            builtin_replicas@[b].name@,
                        )
                    },
                _ => false,
            },
        },
        // Idempotence: against a catalog that already holds every listed
        // replica, the migration changes nothing and succeeds.
        (forall|b: int|
            0 <= b < builtin_replicas@.len() ==> has_builtin_replica(
                old(txn).state().clusters,
                old(txn).state().cluster_replicas,
                (#[trigger] builtin_replicas@[b]).cluster_name@,
                builtin_replicas@[b].name@,
            )) ==> *final(txn) == *old(txn) && r is Ok,
{
    let crows = txn.clusters.items();
    let ncl = crows.len();
    let rrows = txn.cluster_replicas.items();
    let nre = rrows.len();
    let n = builtin_replicas.len();
    let mut i: usize = 0;
    while i < n
        invariant
            txn.wf(),
            n == builtin_replicas@.len(),
            ncl == crows.len(),
            nre == rrows.len(),
            i <= n,
            distinct_keys(crows@),
            assoc_map(crows@) == old(txn).state().clusters.live(),
            distinct_keys(rrows@),
            assoc_map(rrows@) == old(txn).state().cluster_replicas.live(),
            old(txn).wf(),
            txn.state().id_allocator.live().contains_key("system_replica"@),
            forall|b: int|
                0 <= b < n ==> has_cluster_named(
                    old(txn).state().clusters,
                    (#[trigger] builtin_replicas@[b]).cluster_name@,
                ),
            txn.state() == (TxnState {
                cluster_replicas: txn.state().cluster_replicas,
                id_allocator: txn.state().id_allocator,
                ..old(txn).state()
            }),
            txn.state().cluster_replicas.base == old(txn).state().cluster_replicas.base,
            txn.state().id_allocator.base == old(txn).state().id_allocator.base,
            forall|k: ClusterReplicaKey|
                #[trigger] old(txn).state().cluster_replicas.live().dom().contains(k)
                    ==> txn.state().cluster_replicas.live().contains_key(k)
                    && txn.state().cluster_replicas.live()[k] == old(
                    txn,
                ).state().cluster_replicas.live()[k],
            forall|k: ClusterReplicaKey|
                #[trigger] txn.state().cluster_replicas.live().dom().contains(k) && !old(
                    txn,
                ).state().cluster_replicas.live().dom().contains(k) ==> exists|b: int|
                    0 <= b < n && txn.state().cluster_replicas.live()[k].name == (
                    #[trigger] builtin_replicas@[b]).name@
                        && txn.state().cluster_replicas.live()[k].owner_id
                        == crate::ids::mz_system_role_id() && k.id is System
                        && txn.state().cluster_replicas.live()[k].config
                        == builtin_replica_config_spec(
                        bootstrap_args.builtin_cluster_replica_size@,
                    ) && (exists|ck: ClusterKey|
                        #[trigger] old(txn).state().clusters.live().dom().contains(ck) && old(
                            txn,
                        ).state().clusters.live()[ck].name == builtin_replicas@[b].cluster_name@
                            && ck.id == txn.state().cluster_replicas.live()[k].cluster_id),
            forall|key: Seq<char>|
                key != "system_replica"@ ==> ((#[trigger] txn.state().id_allocator.live().dom().contains(
                    key,
                )) <==> old(txn).state().id_allocator.live().dom().contains(key)) && (old(
                    txn,
                ).state().id_allocator.live().dom().contains(key)
                    ==> txn.state().id_allocator.live()[key] == old(
                    txn,
                ).state().id_allocator.live()[key]),
            forall|b: int|
                0 <= b < i ==> has_builtin_replica(
                    old(txn).state().clusters,
                    txn.state().cluster_replicas,
                    (#[trigger] builtin_replicas@[b]).cluster_name@,
                    builtin_replicas@[b].name@,
                ),
            (forall|b: int|
                0 <= b < i ==> has_builtin_replica(
                    old(txn).state().clusters,
                    old(txn).state().cluster_replicas,
                    (#[trigger] builtin_replicas@[b]).cluster_name@,
                    builtin_replicas@[b].name@,
                )) ==> *txn == *old(txn),
        decreases n - i,
    {
        // Resolve the owning cluster by name; it exists by the bootstrap
        // invariant, and cluster names are unique among live clusters.
        let mut ci: usize = 0;
        let mut cfound = false;
        let mut j: usize = 0;
        while j < ncl
            invariant
                ncl == crows.len(),
                n == builtin_replicas@.len(),
                i < n,
                j <= ncl,
                cfound ==> ci < ncl && crows@[ci as int].1@.name == builtin_replicas@[i as int].cluster_name@,
                !cfound ==> forall|q: int|
                    0 <= q < j ==> (#[trigger] crows@[q]).1@.name != builtin_replicas@[i as int].cluster_name@,
            decreases ncl - j,
        {
            if !cfound {
                if crows[j].1.name == builtin_replicas[i].cluster_name {
                    cfound = true;
                    ci = j;
                }
            }
            j += 1;
        }
        if !cfound {
            proof {
                let ck = choose|ck: ClusterKey|
                    #[trigger] old(txn).state().clusters.live().dom().contains(ck) && old(
                        txn,
                    ).state().clusters.live()[ck].name
                        == builtin_replicas@[i as int].cluster_name@;
                crate::table::lemma_assoc_contains(crows@, ck);
                let q = choose|q: int| 0 <= q < crows@.len() && (#[trigger] crows@[q]).0@ == ck;
                crate::table::lemma_assoc_index(crows@, q);
                assert(false);
            }
        }
        let cluster_id = crows[ci].0.id;
        proof {
            crate::table::lemma_assoc_index(crows@, ci as int);
        }
        // Does the owning cluster already have a live replica of the
        // name?
        let mut rfound = false;
        let mut q: usize = 0;
        while q < nre
            invariant
                nre == rrows.len(),
                ncl == crows.len(),
                n == builtin_replicas@.len(),
                i < n,
                ci < ncl,
                q <= nre,
                cluster_id == crows@[ci as int].0.id,
                rfound ==> exists|u: int|
                    0 <= u < nre && (#[trigger] rrows@[u]).1@.cluster_id == cluster_id
                        && rrows@[u].1@.name == builtin_replicas@[i as int].name@,
                !rfound ==> forall|u: int|
                    0 <= u < q ==> !((#[trigger] rrows@[u]).1@.cluster_id == cluster_id
                        && rrows@[u].1@.name == builtin_replicas@[i as int].name@),
            decreases nre - q,
        {
            if !rfound {
                if rrows[q].1.cluster_id == cluster_id && rrows[q].1.name
                    == builtin_replicas[i].name {
                    rfound = true;
                }
            }
            q += 1;
        }
        if !rfound {
            proof {
                // The listed replica is not live on its cluster: any
                // cluster carrying the listed cluster name is this one,
                // by name uniqueness, and this one has no such replica.
                if has_builtin_replica(
                    old(txn).state().clusters,
                    old(txn).state().cluster_replicas,
                    builtin_replicas@[i as int].cluster_name@,
                    builtin_replicas@[i as int].name@,
                ) {
                    let ck = choose|ck: ClusterKey|
                        #[trigger] old(txn).state().clusters.live().dom().contains(ck) && old(
                            txn,
                        ).state().clusters.live()[ck].name
                            == builtin_replicas@[i as int].cluster_name@ && has_replica_named(
                            old(txn).state().cluster_replicas,
                            ck.id,
                            builtin_replicas@[i as int].name@,
                        );
                    if ck != crows@[ci as int].0 {
                        assert(TableTransaction::<ClusterKey, ClusterValue>::unique_ok(
                            old(txn).state().clusters.live(),
                        ));
                        assert(ClusterValue::conflicts_spec(
                            old(txn).state().clusters.live()[ck],
                            old(txn).state().clusters.live()[crows@[ci as int].0],
                        ));
                        assert(false);
                    }
                    let rk = choose|rk: ClusterReplicaKey|
                        #[trigger] old(txn).state().cluster_replicas.live().dom().contains(rk)
                            && old(txn).state().cluster_replicas.live()[rk].cluster_id == ck.id
                            && old(txn).state().cluster_replicas.live()[rk].name
                            == builtin_replicas@[i as int].name@;
                    crate::table::lemma_assoc_contains(rrows@, rk);
                    let u = choose|u: int|
                        0 <= u < rrows@.len() && (#[trigger] rrows@[u]).0@ == rk;
                    crate::table::lemma_assoc_index(rrows@, u);
                    assert(false);
                }
                assert(!has_builtin_replica(
                    old(txn).state().clusters,
                    old(txn).state().cluster_replicas,
                    builtin_replicas@[i as int].cluster_name@,
                    builtin_replicas@[i as int].name@,
                ));
            }
            let id = match txn.get_and_increment_id(system_replica_id_alloc_key().to_owned()) {
                Ok(id) => id,
                Err(e) => {
                    proof {
                        assert(txn.state().id_allocator.live()["system_replica"@].next_id
                            == u64::MAX);
                        assert(exists|b: int|
                            0 <= b < builtin_replicas@.len() && !has_builtin_replica(
                                old(txn).state().clusters,
                                old(txn).state().cluster_replicas,
                                (#[trigger] builtin_replicas@[b]).cluster_name@,
                                builtin_replicas@[b].name@,
                            ));
                    }
                    return Err(e);
                },
            };
            let replica_id = ReplicaId::System(id);
            let config = builtin_cluster_replica_config(bootstrap_args);
            let ghost rlpre_st = txn.state().cluster_replicas;
            proof {
                assert(txn.state().clusters.live().contains_key(crows@[ci as int].0));
            }
            match txn.insert_cluster_replica(
                cluster_id,
                replica_id,
                builtin_replicas[i].name.as_str(),
                config,
                crate::ids::system_role_id(),
            ) {
                Ok(_) => {
                    proof {
                        let rk = ClusterReplicaKey { id: replica_id };
                        assert(txn.state() =~~= (TxnState {
                            cluster_replicas: txn.state().cluster_replicas,
                            id_allocator: txn.state().id_allocator,
                            ..old(txn).state()
                        }));
                        assert forall|b: int| 0 <= b < i + 1 implies has_builtin_replica(
                            old(txn).state().clusters,
                            txn.state().cluster_replicas,
                            (#[trigger] builtin_replicas@[b]).cluster_name@,
                            builtin_replicas@[b].name@,
                        ) by {
                            if b < i {
                                let ck = choose|ck: ClusterKey|
                                    #[trigger] old(txn).state().clusters.live().dom().contains(ck)
                                        && old(txn).state().clusters.live()[ck].name
                                        == builtin_replicas@[b].cluster_name@ && has_replica_named(
                                        rlpre_st,
                                        ck.id,
                                        builtin_replicas@[b].name@,
                                    );
                                let rk2 = choose|rk2: ClusterReplicaKey|
                                    #[trigger] rlpre_st.live().dom().contains(rk2)
                                        && rlpre_st.live()[rk2].cluster_id == ck.id
                                        && rlpre_st.live()[rk2].name == builtin_replicas@[b].name@;
                                assert(txn.state().cluster_replicas.live().dom().contains(rk2)
                                    && txn.state().cluster_replicas.live()[rk2].cluster_id == ck.id
                                    && txn.state().cluster_replicas.live()[rk2].name
                                    == builtin_replicas@[b].name@);
                                assert(has_replica_named(
                                    txn.state().cluster_replicas,
                                    ck.id,
                                    builtin_replicas@[b].name@,
                                ));
                            } else {
                                let ck = crows@[ci as int].0;
                                assert(old(txn).state().clusters.live().dom().contains(ck)
                                    && old(txn).state().clusters.live()[ck].name
                                    == builtin_replicas@[b].cluster_name@);
                                assert(txn.state().cluster_replicas.live().dom().contains(rk)
                                    && txn.state().cluster_replicas.live()[rk].cluster_id == ck.id
                                    && txn.state().cluster_replicas.live()[rk].name
                                    == builtin_replicas@[b].name@);
                                assert(has_replica_named(
                                    txn.state().cluster_replicas,
                                    ck.id,
                                    builtin_replicas@[b].name@,
                                ));
                            }
                        }
                    }
                },
                Err(e) => {
                    proof {
                        assert(txn.state().id_allocator.live()["system_replica"@].next_id == id
                            + 1);
                        let ck = crows@[ci as int].0;
                        assert(txn.state().clusters.live().dom().contains(ck)
                            && txn.state().clusters.live()[ck].name
                            == builtin_replicas@[i as int].cluster_name@);
                        assert(ClusterReplicaKey { id: replica_id } == (ClusterReplicaKey {
                            id: ReplicaId::System(
                                (txn.state().id_allocator.live()["system_replica"@].next_id
                                    - 1) as u64,
                            ),
                        }));
                        assert(txn.replica_migration_blocked(
                            builtin_replicas@[i as int].cluster_name@,
                            builtin_replicas@[i as int].name@,
                        ));
                        assert(exists|b: int|
                            {
                                &&& 0 <= b < builtin_replicas@.len()
                                &&& builtin_replicas@[i as int].name@ == (
                                #[trigger] builtin_replicas@[b]).name@
                                &&& builtin_replicas@[i as int].cluster_name@
                                    == builtin_replicas@[b].cluster_name@
                                &&& !has_builtin_replica(
                                    old(txn).state().clusters,
                                    old(txn).state().cluster_replicas,
                                    builtin_replicas@[b].cluster_name@,
                                    builtin_replicas@[b].name@,
                                )
                                &&& txn.replica_migration_blocked(
                                    builtin_replicas@[b].cluster_name@,
                                    builtin_replicas@[b].name@,
                                )
                            });
                    }
                    return Err(e);
                },
            }
        } else {
            proof {
                let u = choose|u: int|
                    0 <= u < nre && (#[trigger] rrows@[u]).1@.cluster_id == cluster_id
                        && rrows@[u].1@.name == builtin_replicas@[i as int].name@;
                crate::table::lemma_assoc_index(rrows@, u);
                let ck = crows@[ci as int].0;
                let rk = rrows@[u].0@;
                assert(old(txn).state().cluster_replicas.live().dom().contains(rk));
                assert(has_replica_named(
                    old(txn).state().cluster_replicas,
                    ck.id,
                    builtin_replicas@[i as int].name@,
                ));
                assert(has_builtin_replica(
                    old(txn).state().clusters,
                    old(txn).state().cluster_replicas,
                    builtin_replicas@[i as int].cluster_name@,
                    builtin_replicas@[i as int].name@,
                ));
                assert(txn.state().cluster_replicas.live().dom().contains(rk)
                    && txn.state().cluster_replicas.live()[rk].cluster_id == ck.id
                    && txn.state().cluster_replicas.live()[rk].name
                    == builtin_replicas@[i as int].name@);
                assert(has_replica_named(
                    txn.state().cluster_replicas,
                    ck.id,
                    builtin_replicas@[i as int].name@,
                ));
                assert(has_builtin_replica(
                    old(txn).state().clusters,
                    txn.state().cluster_replicas,
                    builtin_replicas@[i as int].cluster_name@,
                    builtin_replicas@[i as int].name@,
                ));
            }
        }
        i += 1;
    }
    Ok(())
}

/// The transaction state that a snapshot opens into: every base mapping is
/// the snapshot's rows, every pending log is empty, and the event logs are
/// empty.
pub open spec fn snapshot_state(s: Snapshot) -> TxnState {
    TxnState {
        databases: TableState { base: assoc_map(s.databases@), pending: Map::empty() },
        schemas: TableState { base: assoc_map(s.schemas@), pending: Map::empty() },
        items: TableState { base: assoc_map(s.items@), pending: Map::empty() },
        comments: TableState { base: assoc_map(s.comments@), pending: Map::empty() },
        roles: TableState { base: assoc_map(s.roles@), pending: Map::empty() },
        clusters: TableState { base: assoc_map(s.clusters@), pending: Map::empty() },
        cluster_replicas: TableState {
            base: assoc_map(s.cluster_replicas@),
            pending: Map::empty(),
        },
        introspection_sources: TableState {
            base: assoc_map(s.introspection_sources@),
            pending: Map::empty(),
        },
        id_allocator: TableState { base: assoc_map(s.id_allocator@), pending: Map::empty() },
        configs: TableState { base: assoc_map(s.configs@), pending: Map::empty() },
        settings: TableState { base: assoc_map(s.settings@), pending: Map::empty() },
        timestamps: TableState { base: assoc_map(s.timestamps@), pending: Map::empty() },
        system_gid_mapping: TableState {
            base: assoc_map(s.system_object_mappings@),
            pending: Map::empty(),
        },
        system_configurations: TableState {
            base: assoc_map(s.system_configurations@),
            pending: Map::empty(),
        },
        default_privileges: TableState {
            base: assoc_map(s.default_privileges@),
            pending: Map::empty(),
        },
        system_privileges: TableState {
            base: assoc_map(s.system_privileges@),
            pending: Map::empty(),
        },
        audit_log_updates: Seq::empty(),
        storage_usage_updates: Seq::empty(),
    }
}

} // verus!
