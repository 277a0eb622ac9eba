//! System-assigned identifiers for the catalog's object kinds, and the
//! access-control items attached to owned objects.
//!
//! Every identifier is a plain tagged integer. The `User`/`System` split
//! records which namespace minted the id; the two namespaces never collide.

use vstd::prelude::*;

verus! {

/// Identifier for a database.
#[derive(Clone, Copy, Debug, PartialEq, Eq, Structural)]
pub enum DatabaseId {
    User(u64),
    System(u64),
}

/// Identifier for a schema.
#[derive(Clone, Copy, Debug, PartialEq, Eq, Structural)]
pub enum SchemaId {
    User(u64),
    System(u64),
}

/// Identifier for a role.
#[derive(Clone, Copy, Debug, PartialEq, Eq, Structural)]
pub enum RoleId {
    User(u64),
    System(u64),
    Public,
}

impl RoleId {
    /// True exactly for user-namespace role ids.
    pub fn is_user(&self) -> (r: bool)
        ensures
            r <==> self is User,
    {
        matches!(self, RoleId::User(_))
    }
}

/// The role id that owns every system-created object.
pub open spec fn mz_system_role_id() -> RoleId {
    RoleId::System(1)
}

/// Executable form of [`mz_system_role_id`].
pub fn system_role_id() -> (r: RoleId)
    ensures
        r == mz_system_role_id(),
{
    RoleId::System(1)
}

/// Identifier for a compute cluster.
#[derive(Clone, Copy, Debug, PartialEq, Eq, Structural)]
pub enum ClusterId {
    User(u64),
    System(u64),
}

/// Identifier for a cluster replica.
#[derive(Clone, Copy, Debug, PartialEq, Eq, Structural)]
pub enum ReplicaId {
    User(u64),
    System(u64),
}

/// Identifier for a catalog item (table, view, index, ...).
#[derive(Clone, Copy, Debug, PartialEq, Eq, Structural)]
pub enum GlobalId {
    System(u64),
    User(u64),
    Transient(u64),
    Explain,
}

impl GlobalId {
    /// Rank of the variant in the id ordering: system ids sort first,
    /// then user ids, then transients, then the explain sentinel.
    pub open spec fn variant_rank(self) -> int {
        match self {
            GlobalId::System(_) => 0,
            GlobalId::User(_) => 1,
            GlobalId::Transient(_) => 2,
            GlobalId::Explain => 3,
        }
    }

    /// Inner counter of the id, or zero for the sentinel variant.
    pub open spec fn inner(self) -> u64 {
        match self {
            GlobalId::System(n) => n,
            GlobalId::User(n) => n,
            GlobalId::Transient(n) => n,
            GlobalId::Explain => 0,
        }
    }

    /// Total order on item ids: by namespace, then by counter.
    pub open spec fn le_spec(self, other: Self) -> bool {
        if self.variant_rank() != other.variant_rank() {
            self.variant_rank() < other.variant_rank()
        } else {
            self.inner() <= other.inner()
        }
    }

    /// Three-valued comparison agreeing with [`GlobalId::le_spec`].
    pub fn le(&self, other: &Self) -> (r: bool)
        ensures
            r <==> self.le_spec(*other),
    {
        let a = self.rank();
        let b = other.rank();
        if a != b {
            a < b
        } else {
            self.inner_exec() <= other.inner_exec()
        }
    }

    fn rank(&self) -> (r: u8)
        ensures
            r as int == self.variant_rank(),
    {
        match self {
            GlobalId::System(_) => 0,
            GlobalId::User(_) => 1,
            GlobalId::Transient(_) => 2,
            GlobalId::Explain => 3,
        }
    }

    fn inner_exec(&self) -> (r: u64)
        ensures
            r == self.inner(),
    {
        match self {
            GlobalId::System(n) => *n,
            GlobalId::User(n) => *n,
            GlobalId::Transient(n) => *n,
            GlobalId::Explain => 0,
        }
    }
}

/// A bit set of privileges granted on an object.
#[derive(Clone, Copy, Debug, PartialEq, Eq, Structural)]
pub struct AclMode {
    pub bits: u64,
}

/// One grant: who granted which privileges to whom.
#[derive(Clone, Copy, Debug, PartialEq, Eq, Structural)]
pub struct MzAclItem {
    pub grantee: RoleId,
    pub grantor: RoleId,
    pub acl_mode: AclMode,
}

/// The kind of SQL object a default-privilege row applies to.
#[derive(Clone, Copy, Debug, PartialEq, Eq, Structural)]
pub enum ObjectType {
    Table,
    View,
    MaterializedView,
    Source,
    Sink,
    Index,
    Type,
    Role,
    Cluster,
    ClusterReplica,
    Secret,
    Connection,
    Database,
    Schema,
    Func,
}

/// The kind of item a system-object mapping row describes.
#[derive(Clone, Copy, Debug, PartialEq, Eq, Structural)]
pub enum CatalogItemType {
    Table,
    Source,
    Sink,
    View,
    MaterializedView,
    Index,
    Type,
    Func,
    Secret,
    Connection,
}

/// The object a comment is attached to.
#[derive(Clone, Copy, Debug, PartialEq, Eq, Structural)]
pub enum CommentObjectId {
    Item(GlobalId),
    Role(RoleId),
    Database(DatabaseId),
    Schema(SchemaId),
    Cluster(ClusterId),
    ClusterReplica(ClusterId, ReplicaId),
}

} // verus!
