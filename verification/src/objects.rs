//! The key and value shapes of every catalog table, their mathematical
//! views, and the uniqueness predicate of each table.
//!
//! Each key type implements [`TableKey`] and each value type implements
//! [`TableValue`], so one generic [`crate::table::TableTransaction`] serves
//! every object kind. The view of a type replaces each `String` by its
//! character sequence and each `Vec` by its element sequence; all other
//! fields are plain copies.

use vstd::prelude::*;

use crate::ids::{
    AclMode, CatalogItemType, ClusterId, CommentObjectId, DatabaseId, GlobalId, MzAclItem,
    ObjectType, ReplicaId, RoleId, SchemaId,
};
use crate::table::{TableKey, TableValue};

verus! {

/// Clones a vector of grants, preserving its view.
pub fn acl_vec_clone(a: &Vec<MzAclItem>) -> (r: Vec<MzAclItem>)
    ensures
        r@ == a@,
{
    let mut out: Vec<MzAclItem> = Vec::new();
    let n = a.len();
    let mut i: usize = 0;
    while i < n
        invariant
            n == a.len(),
            i <= n,
            out@ == a@.take(i as int),
        decreases n - i,
    {
        out.push(a[i]);
        proof {
            assert(out@ =~= a@.take(i + 1));
        }
        i += 1;
    }
    proof {
        assert(a@.take(n as int) =~= a@);
    }
    out
}

/// Decides equality of two grant vectors.
pub fn acl_vec_eq(a: &Vec<MzAclItem>, b: &Vec<MzAclItem>) -> (r: bool)
    ensures
        r <==> a@ == b@,
{
    if a.len() != b.len() {
        proof {
            assert(a@ != b@);
        }
        return false;
    }
    let n = a.len();
    let mut i: usize = 0;
    while i < n
        invariant
            n == a.len(),
            n == b.len(),
            i <= n,
            forall|t: int| 0 <= t < i ==> a@[t] == b@[t],
        decreases n - i,
    {
        if !(a[i] == b[i]) {
            return false;
        }
        i += 1;
    }
    proof {
        assert(a@ =~= b@);
    }
    true
}

/// Decides equality of two optional strings at the view level.
pub fn opt_string_eq(a: &Option<String>, b: &Option<String>) -> (r: bool)
    ensures
        r <==> crate::table::opt_view(*a) == crate::table::opt_view(*b),
{
    match (a, b) {
        (Some(x), Some(y)) => *x == *y,
        (None, None) => true,
        _ => false,
    }
}

/// Clones an optional string, preserving its view.
pub fn opt_string_clone(a: &Option<String>) -> (r: Option<String>)
    ensures
        crate::table::opt_view(r) == crate::table::opt_view(*a),
{
    match a {
        Some(x) => Some(x.clone()),
        None => None,
    }
}

/// How often a replica logs its own introspection data.
#[derive(Clone, Copy, Debug, PartialEq, Eq, Structural)]
pub struct ReplicaLogging {
    pub log_logging: bool,
    pub interval_ms: Option<u64>,
}

/// How a cluster is provisioned.
#[derive(Clone, Debug)]
pub enum ClusterVariant {
    Managed {
        size: String,
        replication_factor: u32,
        disk: bool,
        logging: ReplicaLogging,
    },
    Unmanaged,
}

/// View of [`ClusterVariant`].
pub ghost enum ClusterVariantV {
    Managed { size: Seq<char>, replication_factor: u32, disk: bool, logging: ReplicaLogging },
    Unmanaged,
}

impl View for ClusterVariant {
    type V = ClusterVariantV;

    open spec fn view(&self) -> ClusterVariantV {
        match self {
            ClusterVariant::Managed { size, replication_factor, disk, logging } => {
                ClusterVariantV::Managed {
                    size: size@,
                    replication_factor: *replication_factor,
                    disk: *disk,
                    logging: *logging,
                }
            },
            ClusterVariant::Unmanaged => ClusterVariantV::Unmanaged,
        }
    }
}

impl ClusterVariant {
    /// Decides view equality.
    pub fn variant_eq(&self, other: &Self) -> (r: bool)
        ensures
            r <==> self@ == other@,
    {
        match (self, other) {
            (
                ClusterVariant::Managed { size, replication_factor, disk, logging },
                ClusterVariant::Managed {
                    size: size2,
                    replication_factor: rf2,
                    disk: disk2,
                    logging: logging2,
                },
            ) => *size == *size2 && *replication_factor == *rf2 && *disk == *disk2
                && *logging == *logging2,
            (ClusterVariant::Unmanaged, ClusterVariant::Unmanaged) => true,
            _ => false,
        }
    }

    /// Clones, preserving the view.
    pub fn variant_clone(&self) -> (r: Self)
        ensures
            r@ == self@,
    {
        match self {
            ClusterVariant::Managed { size, replication_factor, disk, logging } => {
                ClusterVariant::Managed {
                    size: size.clone(),
                    replication_factor: *replication_factor,
                    disk: *disk,
                    logging: *logging,
                }
            },
            ClusterVariant::Unmanaged => ClusterVariant::Unmanaged,
        }
    }
}

/// Cluster-wide provisioning configuration.
#[derive(Clone, Debug)]
pub struct ClusterConfig {
    pub variant: ClusterVariant,
}

/// View of [`ClusterConfig`].
pub ghost struct ClusterConfigV {
    pub variant: ClusterVariantV,
}

impl View for ClusterConfig {
    type V = ClusterConfigV;

    open spec fn view(&self) -> ClusterConfigV {
        ClusterConfigV { variant: self.variant@ }
    }
}

impl ClusterConfig {
    /// Decides view equality.
    pub fn config_eq(&self, other: &Self) -> (r: bool)
        ensures
            r <==> self@ == other@,
    {
        self.variant.variant_eq(&other.variant)
    }

    /// Clones, preserving the view.
    pub fn config_clone(&self) -> (r: Self)
        ensures
            r@ == self@,
    {
        ClusterConfig { variant: self.variant.variant_clone() }
    }
}

/// Where a replica's compute processes run.
#[derive(Clone, Debug)]
pub enum ReplicaLocation {
    Unmanaged {
        workers: u64,
    },
    Managed {
        size: String,
        availability_zone: Option<String>,
        disk: bool,
        billed_as: Option<String>,
        internal: bool,
    },
}

/// View of [`ReplicaLocation`].
pub ghost enum ReplicaLocationV {
    Unmanaged {
        workers: u64,
    },
    Managed {
        size: Seq<char>,
        availability_zone: Option<Seq<char>>,
        disk: bool,
        billed_as: Option<Seq<char>>,
        internal: bool,
    },
}

impl View for ReplicaLocation {
    type V = ReplicaLocationV;

    open spec fn view(&self) -> ReplicaLocationV {
        match self {
            ReplicaLocation::Unmanaged { workers } => ReplicaLocationV::Unmanaged {
                workers: *workers,
            },
            ReplicaLocation::Managed { size, availability_zone, disk, billed_as, internal } => {
                ReplicaLocationV::Managed {
                    size: size@,
                    availability_zone: crate::table::opt_view(*availability_zone),
                    disk: *disk,
                    billed_as: crate::table::opt_view(*billed_as),
                    internal: *internal,
                }
            },
        }
    }
}

impl ReplicaLocation {
    /// Decides view equality.
    pub fn location_eq(&self, other: &Self) -> (r: bool)
        ensures
            r <==> self@ == other@,
    {
        match (self, other) {
            (
                ReplicaLocation::Unmanaged { workers },
                ReplicaLocation::Unmanaged { workers: w2 },
            ) => *workers == *w2,
            (
                ReplicaLocation::Managed { size, availability_zone, disk, billed_as, internal },
                ReplicaLocation::Managed {
                    size: size2,
                    availability_zone: az2,
                    disk: disk2,
                    billed_as: ba2,
                    internal: internal2,
                },
            ) => *size == *size2 && opt_string_eq(availability_zone, az2) && *disk == *disk2
                && opt_string_eq(billed_as, ba2) && *internal == *internal2,
            _ => false,
        }
    }

    /// Clones, preserving the view.
    pub fn location_clone(&self) -> (r: Self)
        ensures
            r@ == self@,
    {
        match self {
            ReplicaLocation::Unmanaged { workers } => ReplicaLocation::Unmanaged {
                workers: *workers,
            },
            ReplicaLocation::Managed { size, availability_zone, disk, billed_as, internal } => {
                ReplicaLocation::Managed {
                    size: size.clone(),
                    availability_zone: opt_string_clone(availability_zone),
                    disk: *disk,
                    billed_as: opt_string_clone(billed_as),
                    internal: *internal,
                }
            },
        }
    }
}

/// Full provisioning configuration of one replica.
#[derive(Clone, Debug)]
pub struct ReplicaConfig {
    pub location: ReplicaLocation,
    pub logging: ReplicaLogging,
    pub idle_arrangement_merge_effort: Option<u32>,
}

/// View of [`ReplicaConfig`].
pub ghost struct ReplicaConfigV {
    pub location: ReplicaLocationV,
    pub logging: ReplicaLogging,
    pub idle_arrangement_merge_effort: Option<u32>,
}

impl View for ReplicaConfig {
    type V = ReplicaConfigV;

    open spec fn view(&self) -> ReplicaConfigV {
        ReplicaConfigV {
            location: self.location@,
            logging: self.logging,
            idle_arrangement_merge_effort: self.idle_arrangement_merge_effort,
        }
    }
}

impl ReplicaConfig {
    /// Decides view equality.
    pub fn config_eq(&self, other: &Self) -> (r: bool)
        ensures
            r <==> self@ == other@,
    {
        self.location.location_eq(&other.location) && self.logging == other.logging
            && self.idle_arrangement_merge_effort == other.idle_arrangement_merge_effort
    }

    /// Clones, preserving the view.
    pub fn config_clone(&self) -> (r: Self)
        ensures
            r@ == self@,
    {
        ReplicaConfig {
            location: self.location.location_clone(),
            logging: self.logging,
            idle_arrangement_merge_effort: self.idle_arrangement_merge_effort,
        }
    }
}

/// Role attributes: whether the role inherits the privileges of the roles
/// it is a member of.
#[derive(Clone, Copy, Debug, PartialEq, Eq, Structural)]
pub struct RoleAttributes {
    pub inherit: bool,
}

/// Direct role memberships: (member-of role, grantor) pairs.
#[derive(Clone, Debug)]
pub struct RoleMembership {
    pub map: Vec<(RoleId, RoleId)>,
}

impl View for RoleMembership {
    type V = Seq<(RoleId, RoleId)>;

    open spec fn view(&self) -> Seq<(RoleId, RoleId)> {
        self.map@
    }
}

impl RoleMembership {
    /// Decides view equality.
    pub fn membership_eq(&self, other: &Self) -> (r: bool)
        ensures
            r <==> self@ == other@,
    {
        if self.map.len() != other.map.len() {
            proof {
                assert(self@ != other@);
            }
            return false;
        }
        let n = self.map.len();
        let mut i: usize = 0;
        while i < n
            invariant
                n == self.map.len(),
                n == other.map.len(),
                i <= n,
                forall|t: int| 0 <= t < i ==> self.map@[t] == other.map@[t],
            decreases n - i,
        {
            if !(self.map[i].0 == other.map[i].0 && self.map[i].1 == other.map[i].1) {
                return false;
            }
            i += 1;
        }
        proof {
            assert(self@ =~= other@);
        }
        true
    }

    /// Clones, preserving the view.
    pub fn membership_clone(&self) -> (r: Self)
        ensures
            r@ == self@,
    {
        let mut out: Vec<(RoleId, RoleId)> = Vec::new();
        let n = self.map.len();
        let mut i: usize = 0;
        while i < n
            invariant
                n == self.map.len(),
                i <= n,
                out@ == self.map@.take(i as int),
            decreases n - i,
        {
            out.push(self.map[i]);
            proof {
                assert(out@ =~= self.map@.take(i + 1));
            }
            i += 1;
        }
        proof {
            assert(self.map@.take(n as int) =~= self.map@);
        }
        RoleMembership { map: out }
    }
}

/// Session variables pinned for a role: (name, value) pairs.
#[derive(Clone, Debug)]
pub struct RoleVars {
    pub vars: Vec<(String, String)>,
}

impl View for RoleVars {
    type V = Seq<(Seq<char>, Seq<char>)>;

    open spec fn view(&self) -> Seq<(Seq<char>, Seq<char>)> {
        self.vars@.map_values(|p: (String, String)| (p.0@, p.1@))
    }
}

impl RoleVars {
    /// Decides view equality.
    pub fn vars_eq(&self, other: &Self) -> (r: bool)
        ensures
            r <==> self@ == other@,
    {
        if self.vars.len() != other.vars.len() {
            proof {
                assert(self@.len() == self.vars@.len());
                assert(other@.len() == other.vars@.len());
            }
            return false;
        }
        let n = self.vars.len();
        let mut i: usize = 0;
        while i < n
            invariant
                n == self.vars.len(),
                n == other.vars.len(),
                i <= n,
                forall|t: int|
                    0 <= t < i ==> (#[trigger] self.vars@[t]).0@ == other.vars@[t].0@
                        && self.vars@[t].1@ == other.vars@[t].1@,
            decreases n - i,
        {
            if !(self.vars[i].0 == other.vars[i].0 && self.vars[i].1 == other.vars[i].1) {
                proof {
                    assert(self@[i as int] != other@[i as int]);
                }
                return false;
            }
            i += 1;
        }
        proof {
            assert(self@ =~= other@);
        }
        true
    }

    /// Clones, preserving the view.
    pub fn vars_clone(&self) -> (r: Self)
        ensures
            r@ == self@,
    {
        let mut out: Vec<(String, String)> = Vec::new();
        let n = self.vars.len();
        let mut i: usize = 0;
        while i < n
            invariant
                n == self.vars.len(),
                i <= n,
                out@ == self.vars@.take(i as int),
            decreases n - i,
        {
            out.push((self.vars[i].0.clone(), self.vars[i].1.clone()));
            proof {
                assert(out@ =~= self.vars@.take(i + 1));
            }
            i += 1;
        }
        proof {
            assert(self.vars@.take(n as int) =~= self.vars@);
        }
        RoleVars { vars: out }
    }
}

/// Key of the databases table.
#[derive(Clone, Copy, Debug, PartialEq, Eq, Structural)]
pub struct DatabaseKey {
    pub id: DatabaseId,
}

impl View for DatabaseKey {
    type V = DatabaseKey;

    open spec fn view(&self) -> DatabaseKey {
        *self
    }
}

impl TableKey for DatabaseKey {
    fn key_eq(&self, other: &Self) -> (r: bool) {
        self.id == other.id
    }

    fn key_clone(&self) -> (r: Self) {
        *self
    }
}

/// Key of the schemas table.
#[derive(Clone, Copy, Debug, PartialEq, Eq, Structural)]
pub struct SchemaKey {
    pub id: SchemaId,
}

impl View for SchemaKey {
    type V = SchemaKey;

    open spec fn view(&self) -> SchemaKey {
        *self
    }
}

impl TableKey for SchemaKey {
    fn key_eq(&self, other: &Self) -> (r: bool) {
        self.id == other.id
    }

    fn key_clone(&self) -> (r: Self) {
        *self
    }
}

/// Key of the items table.
#[derive(Clone, Copy, Debug, PartialEq, Eq, Structural)]
pub struct ItemKey {
    pub gid: GlobalId,
}

impl View for ItemKey {
    type V = ItemKey;

    open spec fn view(&self) -> ItemKey {
        *self
    }
}

impl TableKey for ItemKey {
    fn key_eq(&self, other: &Self) -> (r: bool) {
        self.gid == other.gid
    }

    fn key_clone(&self) -> (r: Self) {
        *self
    }
}

/// Key of the roles table.
#[derive(Clone, Copy, Debug, PartialEq, Eq, Structural)]
pub struct RoleKey {
    pub id: RoleId,
}

impl View for RoleKey {
    type V = RoleKey;

    open spec fn view(&self) -> RoleKey {
        *self
    }
}

impl TableKey for RoleKey {
    fn key_eq(&self, other: &Self) -> (r: bool) {
        self.id == other.id
    }

    fn key_clone(&self) -> (r: Self) {
        *self
    }
}

/// Key of the clusters table.
#[derive(Clone, Copy, Debug, PartialEq, Eq, Structural)]
pub struct ClusterKey {
    pub id: ClusterId,
}

impl View for ClusterKey {
    type V = ClusterKey;

    open spec fn view(&self) -> ClusterKey {
        *self
    }
}

impl TableKey for ClusterKey {
    fn key_eq(&self, other: &Self) -> (r: bool) {
        self.id == other.id
    }

    fn key_clone(&self) -> (r: Self) {
        *self
    }
}

/// Key of the cluster-replicas table.
#[derive(Clone, Copy, Debug, PartialEq, Eq, Structural)]
pub struct ClusterReplicaKey {
    pub id: ReplicaId,
}

impl View for ClusterReplicaKey {
    type V = ClusterReplicaKey;

    open spec fn view(&self) -> ClusterReplicaKey {
        *self
    }
}

impl TableKey for ClusterReplicaKey {
    fn key_eq(&self, other: &Self) -> (r: bool) {
        self.id == other.id
    }

    fn key_clone(&self) -> (r: Self) {
        *self
    }
}

/// Key of the comments table: the commented object and, for column
/// comments, the column position.
#[derive(Clone, Copy, Debug, PartialEq, Eq, Structural)]
pub struct CommentKey {
    pub object_id: CommentObjectId,
    pub sub_component: Option<usize>,
}

impl View for CommentKey {
    type V = CommentKey;

    open spec fn view(&self) -> CommentKey {
        *self
    }
}

impl TableKey for CommentKey {
    fn key_eq(&self, other: &Self) -> (r: bool) {
        self.object_id == other.object_id && match (self.sub_component, other.sub_component) {
            (Some(a), Some(b)) => a == b,
            (None, None) => true,
            _ => false,
        }
    }

    fn key_clone(&self) -> (r: Self) {
        *self
    }
}

/// Key of the default-privileges table.
#[derive(Clone, Copy, Debug, PartialEq, Eq, Structural)]
pub struct DefaultPrivilegesKey {
    pub role_id: RoleId,
    pub database_id: Option<DatabaseId>,
    pub schema_id: Option<SchemaId>,
    pub object_type: ObjectType,
    pub grantee: RoleId,
}

impl View for DefaultPrivilegesKey {
    type V = DefaultPrivilegesKey;

    open spec fn view(&self) -> DefaultPrivilegesKey {
        *self
    }
}

impl TableKey for DefaultPrivilegesKey {
    fn key_eq(&self, other: &Self) -> (r: bool) {
        self.role_id == other.role_id && self.object_type == other.object_type && self.grantee
            == other.grantee && match (self.database_id, other.database_id) {
            (Some(a), Some(b)) => a == b,
            (None, None) => true,
            _ => false,
        } && match (self.schema_id, other.schema_id) {
            (Some(a), Some(b)) => a == b,
            (None, None) => true,
            _ => false,
        }
    }

    fn key_clone(&self) -> (r: Self) {
        *self
    }
}

/// Key of the system-privileges table.
#[derive(Clone, Copy, Debug, PartialEq, Eq, Structural)]
pub struct SystemPrivilegesKey {
    pub grantee: RoleId,
    pub grantor: RoleId,
}

impl View for SystemPrivilegesKey {
    type V = SystemPrivilegesKey;

    open spec fn view(&self) -> SystemPrivilegesKey {
        *self
    }
}

impl TableKey for SystemPrivilegesKey {
    fn key_eq(&self, other: &Self) -> (r: bool) {
        self.grantee == other.grantee && self.grantor == other.grantor
    }

    fn key_clone(&self) -> (r: Self) {
        *self
    }
}

/// Key of the introspection-source-index table: one row per builtin log
/// per cluster.
#[derive(Clone, Debug)]
pub struct ClusterIntrospectionSourceIndexKey {
    pub cluster_id: ClusterId,
    pub name: String,
}

impl View for ClusterIntrospectionSourceIndexKey {
    type V = (ClusterId, Seq<char>);

    open spec fn view(&self) -> (ClusterId, Seq<char>) {
        (self.cluster_id, self.name@)
    }
}

impl TableKey for ClusterIntrospectionSourceIndexKey {
    fn key_eq(&self, other: &Self) -> (r: bool) {
        self.cluster_id == other.cluster_id && self.name == other.name
    }

    fn key_clone(&self) -> (r: Self) {
        ClusterIntrospectionSourceIndexKey {
            cluster_id: self.cluster_id,
            name: self.name.clone(),
        }
    }
}

/// Key of the id-allocator table: the allocator's namespace name.
#[derive(Clone, Debug)]
pub struct IdAllocKey {
    pub name: String,
}

impl View for IdAllocKey {
    type V = Seq<char>;

    open spec fn view(&self) -> Seq<char> {
        self.name@
    }
}

impl TableKey for IdAllocKey {
    fn key_eq(&self, other: &Self) -> (r: bool) {
        self.name == other.name
    }

    fn key_clone(&self) -> (r: Self) {
        IdAllocKey { name: self.name.clone() }
    }
}

/// Key of the configs table.
#[derive(Clone, Debug)]
pub struct ConfigKey {
    pub key: String,
}

impl View for ConfigKey {
    type V = Seq<char>;

    open spec fn view(&self) -> Seq<char> {
        self.key@
    }
}

impl TableKey for ConfigKey {
    fn key_eq(&self, other: &Self) -> (r: bool) {
        self.key == other.key
    }

    fn key_clone(&self) -> (r: Self) {
        ConfigKey { key: self.key.clone() }
    }
}

/// Key of the settings table.
#[derive(Clone, Debug)]
pub struct SettingKey {
    pub name: String,
}

impl View for SettingKey {
    type V = Seq<char>;

    open spec fn view(&self) -> Seq<char> {
        self.name@
    }
}

impl TableKey for SettingKey {
    fn key_eq(&self, other: &Self) -> (r: bool) {
        self.name == other.name
    }

    fn key_clone(&self) -> (r: Self) {
        SettingKey { name: self.name.clone() }
    }
}

/// Key of the timestamps table: the timeline's name.
#[derive(Clone, Debug)]
pub struct TimestampKey {
    pub id: String,
}

impl View for TimestampKey {
    type V = Seq<char>;

    open spec fn view(&self) -> Seq<char> {
        self.id@
    }
}

impl TableKey for TimestampKey {
    fn key_eq(&self, other: &Self) -> (r: bool) {
        self.id == other.id
    }

    fn key_clone(&self) -> (r: Self) {
        TimestampKey { id: self.id.clone() }
    }
}

/// Key of the system-object-mapping table: the qualified name of a builtin
/// object.
#[derive(Clone, Debug)]
pub struct GidMappingKey {
    pub schema_name: String,
    pub object_type: CatalogItemType,
    pub object_name: String,
}

impl View for GidMappingKey {
    type V = (Seq<char>, CatalogItemType, Seq<char>);

    open spec fn view(&self) -> (Seq<char>, CatalogItemType, Seq<char>) {
        (self.schema_name@, self.object_type, self.object_name@)
    }
}

impl TableKey for GidMappingKey {
    fn key_eq(&self, other: &Self) -> (r: bool) {
        self.schema_name == other.schema_name && self.object_type == other.object_type
            && self.object_name == other.object_name
    }

    fn key_clone(&self) -> (r: Self) {
        GidMappingKey {
            schema_name: self.schema_name.clone(),
            object_type: self.object_type,
            object_name: self.object_name.clone(),
        }
    }
}

/// Key of the server-configurations table.
#[derive(Clone, Debug)]
pub struct ServerConfigurationKey {
    pub name: String,
}

impl View for ServerConfigurationKey {
    type V = Seq<char>;

    open spec fn view(&self) -> Seq<char> {
        self.name@
    }
}

impl TableKey for ServerConfigurationKey {
    fn key_eq(&self, other: &Self) -> (r: bool) {
        self.name == other.name
    }

    fn key_clone(&self) -> (r: Self) {
        ServerConfigurationKey { name: self.name.clone() }
    }
}

/// Value of the introspection-source-index table: the index's item id within the system namespace.
#[derive(Clone, Copy, Debug, PartialEq, Eq, Structural)]
pub struct ClusterIntrospectionSourceIndexValue {
    pub index_id: u64,
}

impl View for ClusterIntrospectionSourceIndexValue {
    type V = ClusterIntrospectionSourceIndexValue;

    open spec fn view(&self) -> ClusterIntrospectionSourceIndexValue {
        *self
    }
}

impl TableValue for ClusterIntrospectionSourceIndexValue {
    open spec fn conflicts_spec(a: Self, b: Self) -> bool {
        false
    }

    proof fn lemma_conflicts_symmetric(a: Self, b: Self) {
    }

    fn conflicts(&self, candidate: &Self) -> (r: bool) {
        false
    }

    fn value_eq(&self, other: &Self) -> (r: bool) {
        self.index_id == other.index_id
    }

    fn value_clone(&self) -> (r: Self) {
        *self
    }
}

/// Value of the id-allocator table: the next identifier to hand out.
#[derive(Clone, Copy, Debug, PartialEq, Eq, Structural)]
pub struct IdAllocValue {
    pub next_id: u64,
}

impl View for IdAllocValue {
    type V = IdAllocValue;

    open spec fn view(&self) -> IdAllocValue {
        *self
    }
}

impl TableValue for IdAllocValue {
    open spec fn conflicts_spec(a: Self, b: Self) -> bool {
        false
    }

    proof fn lemma_conflicts_symmetric(a: Self, b: Self) {
    }

    fn conflicts(&self, candidate: &Self) -> (r: bool) {
        false
    }

    fn value_eq(&self, other: &Self) -> (r: bool) {
        self.next_id == other.next_id
    }

    fn value_clone(&self) -> (r: Self) {
        *self
    }
}

/// Value of the configs table.
#[derive(Clone, Copy, Debug, PartialEq, Eq, Structural)]
pub struct ConfigValue {
    pub value: u64,
}

impl View for ConfigValue {
    type V = ConfigValue;

    open spec fn view(&self) -> ConfigValue {
        *self
    }
}

impl TableValue for ConfigValue {
    open spec fn conflicts_spec(a: Self, b: Self) -> bool {
        false
    }

    proof fn lemma_conflicts_symmetric(a: Self, b: Self) {
    }

    fn conflicts(&self, candidate: &Self) -> (r: bool) {
        false
    }

    fn value_eq(&self, other: &Self) -> (r: bool) {
        self.value == other.value
    }

    fn value_clone(&self) -> (r: Self) {
        *self
    }
}

/// Value of the timestamps table.
#[derive(Clone, Copy, Debug, PartialEq, Eq, Structural)]
pub struct TimestampValue {
    pub ts: u64,
}

impl View for TimestampValue {
    type V = TimestampValue;

    open spec fn view(&self) -> TimestampValue {
        *self
    }
}

impl TableValue for TimestampValue {
    open spec fn conflicts_spec(a: Self, b: Self) -> bool {
        false
    }

    proof fn lemma_conflicts_symmetric(a: Self, b: Self) {
    }

    fn conflicts(&self, candidate: &Self) -> (r: bool) {
        false
    }

    fn value_eq(&self, other: &Self) -> (r: bool) {
        self.ts == other.ts
    }

    fn value_clone(&self) -> (r: Self) {
        *self
    }
}

/// Value of the default-privileges table.
#[derive(Clone, Copy, Debug, PartialEq, Eq, Structural)]
pub struct DefaultPrivilegesValue {
    pub privileges: AclMode,
}

impl View for DefaultPrivilegesValue {
    type V = DefaultPrivilegesValue;

    open spec fn view(&self) -> DefaultPrivilegesValue {
        *self
    }
}

impl TableValue for DefaultPrivilegesValue {
    open spec fn conflicts_spec(a: Self, b: Self) -> bool {
        false
    }

    proof fn lemma_conflicts_symmetric(a: Self, b: Self) {
    }

    fn conflicts(&self, candidate: &Self) -> (r: bool) {
        false
    }

    fn value_eq(&self, other: &Self) -> (r: bool) {
        self.privileges == other.privileges
    }

    fn value_clone(&self) -> (r: Self) {
        *self
    }
}

/// Value of the system-privileges table.
#[derive(Clone, Copy, Debug, PartialEq, Eq, Structural)]
pub struct SystemPrivilegesValue {
    pub acl_mode: AclMode,
}

impl View for SystemPrivilegesValue {
    type V = SystemPrivilegesValue;

    open spec fn view(&self) -> SystemPrivilegesValue {
        *self
    }
}

impl TableValue for SystemPrivilegesValue {
    open spec fn conflicts_spec(a: Self, b: Self) -> bool {
        false
    }

    proof fn lemma_conflicts_symmetric(a: Self, b: Self) {
    }

    fn conflicts(&self, candidate: &Self) -> (r: bool) {
        false
    }

    fn value_eq(&self, other: &Self) -> (r: bool) {
        self.acl_mode == other.acl_mode
    }

    fn value_clone(&self) -> (r: Self) {
        *self
    }
}

/// Value of the settings table.
#[derive(Clone, Debug)]
pub struct SettingValue {
    pub value: String,
}

impl View for SettingValue {
    type V = Seq<char>;

    open spec fn view(&self) -> Seq<char> {
        self.value@
    }
}

impl TableValue for SettingValue {
    open spec fn conflicts_spec(a: Seq<char>, b: Seq<char>) -> bool {
        false
    }

    proof fn lemma_conflicts_symmetric(a: Seq<char>, b: Seq<char>) {
    }

    fn conflicts(&self, candidate: &Self) -> (r: bool) {
        false
    }

    fn value_eq(&self, other: &Self) -> (r: bool) {
        self.value == other.value
    }

    fn value_clone(&self) -> (r: Self) {
        SettingValue { value: self.value.clone() }
    }
}

/// Value of the server-configurations table.
#[derive(Clone, Debug)]
pub struct ServerConfigurationValue {
    pub value: String,
}

impl View for ServerConfigurationValue {
    type V = Seq<char>;

    open spec fn view(&self) -> Seq<char> {
        self.value@
    }
}

impl TableValue for ServerConfigurationValue {
    open spec fn conflicts_spec(a: Seq<char>, b: Seq<char>) -> bool {
        false
    }

    proof fn lemma_conflicts_symmetric(a: Seq<char>, b: Seq<char>) {
    }

    fn conflicts(&self, candidate: &Self) -> (r: bool) {
        false
    }

    fn value_eq(&self, other: &Self) -> (r: bool) {
        self.value == other.value
    }

    fn value_clone(&self) -> (r: Self) {
        ServerConfigurationValue { value: self.value.clone() }
    }
}

/// Value of the comments table: the comment text.
#[derive(Clone, Debug)]
pub struct CommentValue {
    pub comment: String,
}

impl View for CommentValue {
    type V = Seq<char>;

    open spec fn view(&self) -> Seq<char> {
        self.comment@
    }
}

impl TableValue for CommentValue {
    open spec fn conflicts_spec(a: Seq<char>, b: Seq<char>) -> bool {
        false
    }

    proof fn lemma_conflicts_symmetric(a: Seq<char>, b: Seq<char>) {
    }

    fn conflicts(&self, candidate: &Self) -> (r: bool) {
        false
    }

    fn value_eq(&self, other: &Self) -> (r: bool) {
        self.comment == other.comment
    }

    fn value_clone(&self) -> (r: Self) {
        CommentValue { comment: self.comment.clone() }
    }
}

/// Value of the system-object-mapping table: the mapped item id (in the
/// system namespace) and the fingerprint of its definition.
#[derive(Clone, Debug)]
pub struct GidMappingValue {
    pub id: u64,
    pub fingerprint: String,
}

/// View of [`GidMappingValue`].
pub ghost struct GidMappingValueV {
    pub id: u64,
    pub fingerprint: Seq<char>,
}

impl View for GidMappingValue {
    type V = GidMappingValueV;

    open spec fn view(&self) -> GidMappingValueV {
        GidMappingValueV { id: self.id, fingerprint: self.fingerprint@ }
    }
}

impl TableValue for GidMappingValue {
    open spec fn conflicts_spec(a: GidMappingValueV, b: GidMappingValueV) -> bool {
        false
    }

    proof fn lemma_conflicts_symmetric(a: GidMappingValueV, b: GidMappingValueV) {
    }

    fn conflicts(&self, candidate: &Self) -> (r: bool) {
        false
    }

    fn value_eq(&self, other: &Self) -> (r: bool) {
        self.id == other.id && self.fingerprint == other.fingerprint
    }

    fn value_clone(&self) -> (r: Self) {
        GidMappingValue { id: self.id, fingerprint: self.fingerprint.clone() }
    }
}

/// Value of the databases table. Database names are unique among live
/// databases.
#[derive(Clone, Debug)]
pub struct DatabaseValue {
    pub name: String,
    pub owner_id: RoleId,
    pub privileges: Vec<MzAclItem>,
}

/// View of [`DatabaseValue`].
pub ghost struct DatabaseValueV {
    pub name: Seq<char>,
    pub owner_id: RoleId,
    pub privileges: Seq<MzAclItem>,
}

impl View for DatabaseValue {
    type V = DatabaseValueV;

    open spec fn view(&self) -> DatabaseValueV {
        DatabaseValueV { name: self.name@, owner_id: self.owner_id, privileges: self.privileges@ }
    }
}

impl TableValue for DatabaseValue {
    open spec fn conflicts_spec(a: DatabaseValueV, b: DatabaseValueV) -> bool {
        a.name == b.name
    }

    proof fn lemma_conflicts_symmetric(a: DatabaseValueV, b: DatabaseValueV) {
    }

    fn conflicts(&self, candidate: &Self) -> (r: bool) {
        self.name == candidate.name
    }

    fn value_eq(&self, other: &Self) -> (r: bool) {
        self.name == other.name && self.owner_id == other.owner_id && acl_vec_eq(
            &self.privileges,
            &other.privileges,
        )
    }

    fn value_clone(&self) -> (r: Self) {
        DatabaseValue {
            name: self.name.clone(),
            owner_id: self.owner_id,
            privileges: acl_vec_clone(&self.privileges),
        }
    }
}

/// Value of the schemas table. Schema names are unique within their owning
/// database; two schemas of different databases may share a name.
#[derive(Clone, Debug)]
pub struct SchemaValue {
    pub database_id: Option<DatabaseId>,
    pub name: String,
    pub owner_id: RoleId,
    pub privileges: Vec<MzAclItem>,
}

/// View of [`SchemaValue`].
pub ghost struct SchemaValueV {
    pub database_id: Option<DatabaseId>,
    pub name: Seq<char>,
    pub owner_id: RoleId,
    pub privileges: Seq<MzAclItem>,
}

impl View for SchemaValue {
    type V = SchemaValueV;

    open spec fn view(&self) -> SchemaValueV {
        SchemaValueV {
            database_id: self.database_id,
            name: self.name@,
            owner_id: self.owner_id,
            privileges: self.privileges@,
        }
    }
}

impl TableValue for SchemaValue {
    open spec fn conflicts_spec(a: SchemaValueV, b: SchemaValueV) -> bool {
        a.database_id == b.database_id && a.name == b.name
    }

    proof fn lemma_conflicts_symmetric(a: SchemaValueV, b: SchemaValueV) {
    }

    fn conflicts(&self, candidate: &Self) -> (r: bool) {
        (match (self.database_id, candidate.database_id) {
            (Some(a), Some(b)) => a == b,
            (None, None) => true,
            _ => false,
        }) && self.name == candidate.name
    }

    fn value_eq(&self, other: &Self) -> (r: bool) {
        (match (self.database_id, other.database_id) {
            (Some(a), Some(b)) => a == b,
            (None, None) => true,
            _ => false,
        }) && self.name == other.name && self.owner_id == other.owner_id && acl_vec_eq(
            &self.privileges,
            &other.privileges,
        )
    }

    fn value_clone(&self) -> (r: Self) {
        SchemaValue {
            database_id: self.database_id,
            name: self.name.clone(),
            owner_id: self.owner_id,
            privileges: acl_vec_clone(&self.privileges),
        }
    }
}

/// Value of the items table. Item names are unique within their owning
/// schema, and the owning schema of a row never changes.
#[derive(Clone, Debug)]
pub struct ItemValue {
    pub schema_id: SchemaId,
    pub name: String,
    pub create_sql: String,
    pub owner_id: RoleId,
    pub privileges: Vec<MzAclItem>,
}

/// View of [`ItemValue`].
pub ghost struct ItemValueV {
    pub schema_id: SchemaId,
    pub name: Seq<char>,
    pub create_sql: Seq<char>,
    pub owner_id: RoleId,
    pub privileges: Seq<MzAclItem>,
}

impl View for ItemValue {
    type V = ItemValueV;

    open spec fn view(&self) -> ItemValueV {
        ItemValueV {
            schema_id: self.schema_id,
            name: self.name@,
            create_sql: self.create_sql@,
            owner_id: self.owner_id,
            privileges: self.privileges@,
        }
    }
}

impl TableValue for ItemValue {
    open spec fn conflicts_spec(a: ItemValueV, b: ItemValueV) -> bool {
        a.schema_id == b.schema_id && a.name == b.name
    }

    proof fn lemma_conflicts_symmetric(a: ItemValueV, b: ItemValueV) {
    }

    fn conflicts(&self, candidate: &Self) -> (r: bool) {
        self.schema_id == candidate.schema_id && self.name == candidate.name
    }

    fn value_eq(&self, other: &Self) -> (r: bool) {
        self.schema_id == other.schema_id && self.name == other.name && self.create_sql
            == other.create_sql && self.owner_id == other.owner_id && acl_vec_eq(
            &self.privileges,
            &other.privileges,
        )
    }

    fn value_clone(&self) -> (r: Self) {
        ItemValue {
            schema_id: self.schema_id,
            name: self.name.clone(),
            create_sql: self.create_sql.clone(),
            owner_id: self.owner_id,
            privileges: acl_vec_clone(&self.privileges),
        }
    }
}

/// Value of the roles table. Role names are globally unique.
#[derive(Clone, Debug)]
pub struct RoleValue {
    pub name: String,
    pub attributes: RoleAttributes,
    pub membership: RoleMembership,
    pub vars: RoleVars,
}

/// View of [`RoleValue`].
pub ghost struct RoleValueV {
    pub name: Seq<char>,
    pub attributes: RoleAttributes,
    pub membership: Seq<(RoleId, RoleId)>,
    pub vars: Seq<(Seq<char>, Seq<char>)>,
}

impl View for RoleValue {
    type V = RoleValueV;

    open spec fn view(&self) -> RoleValueV {
        RoleValueV {
            name: self.name@,
            attributes: self.attributes,
            membership: self.membership@,
            vars: self.vars@,
        }
    }
}

impl TableValue for RoleValue {
    open spec fn conflicts_spec(a: RoleValueV, b: RoleValueV) -> bool {
        a.name == b.name
    }

    proof fn lemma_conflicts_symmetric(a: RoleValueV, b: RoleValueV) {
    }

    fn conflicts(&self, candidate: &Self) -> (r: bool) {
        self.name == candidate.name
    }

    fn value_eq(&self, other: &Self) -> (r: bool) {
        self.name == other.name && self.attributes == other.attributes
            && self.membership.membership_eq(&other.membership) && self.vars.vars_eq(&other.vars)
    }

    fn value_clone(&self) -> (r: Self) {
        RoleValue {
            name: self.name.clone(),
            attributes: self.attributes,
            membership: self.membership.membership_clone(),
            vars: self.vars.vars_clone(),
        }
    }
}

/// Value of the clusters table. Cluster names are globally unique.
#[derive(Clone, Debug)]
pub struct ClusterValue {
    pub name: String,
    pub linked_object_id: Option<GlobalId>,
    pub owner_id: RoleId,
    pub privileges: Vec<MzAclItem>,
    pub config: ClusterConfig,
}

/// View of [`ClusterValue`].
pub ghost struct ClusterValueV {
    pub name: Seq<char>,
    pub linked_object_id: Option<GlobalId>,
    pub owner_id: RoleId,
    pub privileges: Seq<MzAclItem>,
    pub config: ClusterConfigV,
}

impl View for ClusterValue {
    type V = ClusterValueV;

    open spec fn view(&self) -> ClusterValueV {
        ClusterValueV {
            name: self.name@,
            linked_object_id: self.linked_object_id,
            owner_id: self.owner_id,
            privileges: self.privileges@,
            config: self.config@,
        }
    }
}

impl TableValue for ClusterValue {
    open spec fn conflicts_spec(a: ClusterValueV, b: ClusterValueV) -> bool {
        a.name == b.name
    }

    proof fn lemma_conflicts_symmetric(a: ClusterValueV, b: ClusterValueV) {
    }

    fn conflicts(&self, candidate: &Self) -> (r: bool) {
        self.name == candidate.name
    }

    fn value_eq(&self, other: &Self) -> (r: bool) {
        self.name == other.name && (match (self.linked_object_id, other.linked_object_id) {
            (Some(a), Some(b)) => a == b,
            (None, None) => true,
            _ => false,
        }) && self.owner_id == other.owner_id && acl_vec_eq(&self.privileges, &other.privileges)
            && self.config.config_eq(&other.config)
    }

    fn value_clone(&self) -> (r: Self) {
        ClusterValue {
            name: self.name.clone(),
            linked_object_id: self.linked_object_id,
            owner_id: self.owner_id,
            privileges: acl_vec_clone(&self.privileges),
            config: self.config.config_clone(),
        }
    }
}

/// Value of the cluster-replicas table. Replica names are unique within
/// their owning cluster.
#[derive(Clone, Debug)]
pub struct ClusterReplicaValue {
    pub cluster_id: ClusterId,
    pub name: String,
    pub config: ReplicaConfig,
    pub owner_id: RoleId,
}

/// View of [`ClusterReplicaValue`].
pub ghost struct ClusterReplicaValueV {
    pub cluster_id: ClusterId,
    pub name: Seq<char>,
    pub config: ReplicaConfigV,
    pub owner_id: RoleId,
}

impl View for ClusterReplicaValue {
    type V = ClusterReplicaValueV;

    open spec fn view(&self) -> ClusterReplicaValueV {
        ClusterReplicaValueV {
            cluster_id: self.cluster_id,
            name: self.name@,
            config: self.config@,
            owner_id: self.owner_id,
        }
    }
}

impl TableValue for ClusterReplicaValue {
    open spec fn conflicts_spec(a: ClusterReplicaValueV, b: ClusterReplicaValueV) -> bool {
        a.cluster_id == b.cluster_id && a.name == b.name
    }

    proof fn lemma_conflicts_symmetric(a: ClusterReplicaValueV, b: ClusterReplicaValueV) {
    }

    fn conflicts(&self, candidate: &Self) -> (r: bool) {
        self.cluster_id == candidate.cluster_id && self.name == candidate.name
    }

    fn value_eq(&self, other: &Self) -> (r: bool) {
        self.cluster_id == other.cluster_id && self.name == other.name && self.config.config_eq(
            &other.config,
        ) && self.owner_id == other.owner_id
    }

    fn value_clone(&self) -> (r: Self) {
        ClusterReplicaValue {
            cluster_id: self.cluster_id,
            name: self.name.clone(),
            config: self.config.config_clone(),
            owner_id: self.owner_id,
        }
    }
}


/// A database together with its id, as handed to and from callers.
#[derive(Clone, Debug)]
pub struct Database {
    pub id: DatabaseId,
    pub name: String,
    pub owner_id: RoleId,
    pub privileges: Vec<MzAclItem>,
}

impl Database {
    /// The table row this database denotes.
    pub open spec fn value_view(self) -> DatabaseValueV {
        DatabaseValueV { name: self.name@, owner_id: self.owner_id, privileges: self.privileges@ }
    }

    /// Splits into the databases table's key and value.
    pub fn into_key_value(self) -> (r: (DatabaseKey, DatabaseValue))
        ensures
            r.0 == (DatabaseKey { id: self.id }),
            r.1@ == self.value_view(),
    {
        (
            DatabaseKey { id: self.id },
            DatabaseValue { name: self.name, owner_id: self.owner_id, privileges: self.privileges },
        )
    }
}

/// A schema together with its id.
#[derive(Clone, Debug)]
pub struct Schema {
    pub id: SchemaId,
    pub database_id: Option<DatabaseId>,
    pub name: String,
    pub owner_id: RoleId,
    pub privileges: Vec<MzAclItem>,
}

impl Schema {
    /// The table row this schema denotes.
    pub open spec fn value_view(self) -> SchemaValueV {
        SchemaValueV {
            database_id: self.database_id,
            name: self.name@,
            owner_id: self.owner_id,
            privileges: self.privileges@,
        }
    }

    /// Splits into the schemas table's key and value.
    pub fn into_key_value(self) -> (r: (SchemaKey, SchemaValue))
        ensures
            r.0 == (SchemaKey { id: self.id }),
            r.1@ == self.value_view(),
    {
        (
            SchemaKey { id: self.id },
            SchemaValue {
                database_id: self.database_id,
                name: self.name,
                owner_id: self.owner_id,
                privileges: self.privileges,
            },
        )
    }
}

/// A role together with its id.
#[derive(Clone, Debug)]
pub struct Role {
    pub id: RoleId,
    pub name: String,
    pub attributes: RoleAttributes,
    pub membership: RoleMembership,
    pub vars: RoleVars,
}

impl Role {
    /// The table row this role denotes.
    pub open spec fn value_view(self) -> RoleValueV {
        RoleValueV {
            name: self.name@,
            attributes: self.attributes,
            membership: self.membership@,
            vars: self.vars@,
        }
    }

    /// Splits into the roles table's key and value.
    pub fn into_key_value(self) -> (r: (RoleKey, RoleValue))
        ensures
            r.0 == (RoleKey { id: self.id }),
            r.1@ == self.value_view(),
    {
        (
            RoleKey { id: self.id },
            RoleValue {
                name: self.name,
                attributes: self.attributes,
                membership: self.membership,
                vars: self.vars,
            },
        )
    }

    /// Clones, preserving id and row view.
    pub fn role_clone(&self) -> (r: Self)
        ensures
            r.id == self.id,
            r.value_view() == self.value_view(),
    {
        Role {
            id: self.id,
            name: self.name.clone(),
            attributes: self.attributes,
            membership: self.membership.membership_clone(),
            vars: self.vars.vars_clone(),
        }
    }
}

/// A cluster together with its id.
#[derive(Clone, Debug)]
pub struct Cluster {
    pub id: ClusterId,
    pub name: String,
    pub linked_object_id: Option<GlobalId>,
    pub owner_id: RoleId,
    pub privileges: Vec<MzAclItem>,
    pub config: ClusterConfig,
}

impl Cluster {
    /// The table row this cluster denotes.
    pub open spec fn value_view(self) -> ClusterValueV {
        ClusterValueV {
            name: self.name@,
            linked_object_id: self.linked_object_id,
            owner_id: self.owner_id,
            privileges: self.privileges@,
            config: self.config@,
        }
    }

    /// Splits into the clusters table's key and value.
    pub fn into_key_value(self) -> (r: (ClusterKey, ClusterValue))
        ensures
            r.0 == (ClusterKey { id: self.id }),
            r.1@ == self.value_view(),
    {
        (
            ClusterKey { id: self.id },
            ClusterValue {
                name: self.name,
                linked_object_id: self.linked_object_id,
                owner_id: self.owner_id,
                privileges: self.privileges,
                config: self.config,
            },
        )
    }

    /// Clones, preserving id and row view.
    pub fn cluster_clone(&self) -> (r: Self)
        ensures
            r.id == self.id,
            r.value_view() == self.value_view(),
    {
        Cluster {
            id: self.id,
            name: self.name.clone(),
            linked_object_id: self.linked_object_id,
            owner_id: self.owner_id,
            privileges: acl_vec_clone(&self.privileges),
            config: self.config.config_clone(),
        }
    }
}

/// A cluster replica together with its id and owning cluster.
#[derive(Clone, Debug)]
pub struct ClusterReplica {
    pub cluster_id: ClusterId,
    pub replica_id: ReplicaId,
    pub name: String,
    pub config: ReplicaConfig,
    pub owner_id: RoleId,
}

impl ClusterReplica {
    /// The table row this replica denotes.
    pub open spec fn value_view(self) -> ClusterReplicaValueV {
        ClusterReplicaValueV {
            cluster_id: self.cluster_id,
            name: self.name@,
            config: self.config@,
            owner_id: self.owner_id,
        }
    }

    /// Splits into the cluster-replicas table's key and value.
    pub fn into_key_value(self) -> (r: (ClusterReplicaKey, ClusterReplicaValue))
        ensures
            r.0 == (ClusterReplicaKey { id: self.replica_id }),
            r.1@ == self.value_view(),
    {
        (
            ClusterReplicaKey { id: self.replica_id },
            ClusterReplicaValue {
                cluster_id: self.cluster_id,
                name: self.name,
                config: self.config,
                owner_id: self.owner_id,
            },
        )
    }
}

/// A catalog item together with its id.
#[derive(Clone, Debug)]
pub struct Item {
    pub id: GlobalId,
    pub schema_id: SchemaId,
    pub name: String,
    pub create_sql: String,
    pub owner_id: RoleId,
    pub privileges: Vec<MzAclItem>,
}

impl Item {
    /// The table row this item denotes.
    pub open spec fn value_view(self) -> ItemValueV {
        ItemValueV {
            schema_id: self.schema_id,
            name: self.name@,
            create_sql: self.create_sql@,
            owner_id: self.owner_id,
            privileges: self.privileges@,
        }
    }

    /// Joins the items table's key and value into a domain item.
    pub fn from_key_value(key: ItemKey, value: ItemValue) -> (r: Item)
        ensures
            r.id == key.gid,
            r.value_view() == value@,
    {
        Item {
            id: key.gid,
            schema_id: value.schema_id,
            name: value.name,
            create_sql: value.create_sql,
            owner_id: value.owner_id,
            privileges: value.privileges,
        }
    }

    /// Splits into the items table's key and value.
    pub fn into_key_value(self) -> (r: (ItemKey, ItemValue))
        ensures
            r.0 == (ItemKey { gid: self.id }),
            r.1@ == self.value_view(),
    {
        (
            ItemKey { gid: self.id },
            ItemValue {
                schema_id: self.schema_id,
                name: self.name,
                create_sql: self.create_sql,
                owner_id: self.owner_id,
                privileges: self.privileges,
            },
        )
    }

    /// Clones, preserving id and row view.
    pub fn item_clone(&self) -> (r: Self)
        ensures
            r.id == self.id,
            r.value_view() == self.value_view(),
    {
        Item {
            id: self.id,
            schema_id: self.schema_id,
            name: self.name.clone(),
            create_sql: self.create_sql.clone(),
            owner_id: self.owner_id,
            privileges: acl_vec_clone(&self.privileges),
        }
    }
}

/// The mapping of one builtin object to its minted system id and the
/// fingerprint of its definition.
#[derive(Clone, Debug)]
pub struct SystemObjectMapping {
    pub schema_name: String,
    pub object_type: CatalogItemType,
    pub object_name: String,
    pub id: u64,
    pub fingerprint: String,
}

impl SystemObjectMapping {
    /// Splits into the system-object-mapping table's key and value.
    pub fn into_key_value(self) -> (r: (GidMappingKey, GidMappingValue))
        ensures
            r.0@ == (self.schema_name@, self.object_type, self.object_name@),
            r.1@ == (GidMappingValueV { id: self.id, fingerprint: self.fingerprint@ }),
    {
        (
            GidMappingKey {
                schema_name: self.schema_name,
                object_type: self.object_type,
                object_name: self.object_name,
            },
            GidMappingValue { id: self.id, fingerprint: self.fingerprint },
        )
    }
}

/// One audit-log event. The log is append-only: events are inserted
/// unconditionally and never updated or retracted.
#[derive(Clone, Debug)]
pub struct VersionedEvent {
    pub id: u64,
    pub details: String,
}

/// View of [`VersionedEvent`].
pub ghost struct VersionedEventV {
    pub id: u64,
    pub details: Seq<char>,
}

impl View for VersionedEvent {
    type V = VersionedEventV;

    open spec fn view(&self) -> VersionedEventV {
        VersionedEventV { id: self.id, details: self.details@ }
    }
}

/// One storage-usage metric event; append-only like the audit log.
#[derive(Clone, Debug)]
pub struct VersionedStorageUsage {
    pub id: u64,
    pub shard_id: Option<String>,
    pub size_bytes: u64,
    pub collection_timestamp: u64,
}

/// View of [`VersionedStorageUsage`].
pub ghost struct VersionedStorageUsageV {
    pub id: u64,
    pub shard_id: Option<Seq<char>>,
    pub size_bytes: u64,
    pub collection_timestamp: u64,
}

impl View for VersionedStorageUsage {
    type V = VersionedStorageUsageV;

    open spec fn view(&self) -> VersionedStorageUsageV {
        VersionedStorageUsageV {
            id: self.id,
            shard_id: crate::table::opt_view(self.shard_id),
            size_bytes: self.size_bytes,
            collection_timestamp: self.collection_timestamp,
        }
    }
}

/// A timeline whose read timestamp the catalog persists.
#[derive(Clone, Debug)]
pub enum Timeline {
    EpochMilliseconds,
    External(String),
    User(String),
}

/// View of [`Timeline`].
pub ghost enum TimelineV {
    EpochMilliseconds,
    External(Seq<char>),
    User(Seq<char>),
}

impl View for Timeline {
    type V = TimelineV;

    open spec fn view(&self) -> TimelineV {
        match self {
            Timeline::EpochMilliseconds => TimelineV::EpochMilliseconds,
            Timeline::External(s) => TimelineV::External(s@),
            Timeline::User(s) => TimelineV::User(s@),
        }
    }
}

} // verus!
