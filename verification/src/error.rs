//! The typed errors that catalog operations return.
//!
//! Conflict and not-found errors are recoverable: the transaction stays
//! open and usable after one is returned, and the failed operation made no
//! mutation (except where an id was already allocated before the failing
//! insert, which the operation's contract states). Programming-invariant
//! violations are not represented here at all: the operations exclude
//! those inputs by precondition, so a verified caller can never hit one.

use vstd::prelude::*;

use crate::ids::GlobalId;

verus! {

/// A typed catalog error.
#[derive(Clone, Debug)]
pub enum Error {
    /// A live database already carries the name.
    DatabaseAlreadyExists(String),
    /// A live schema of the same database already carries the name.
    SchemaAlreadyExists(String),
    /// A live role already carries the name.
    RoleAlreadyExists(String),
    /// A live cluster already carries the name.
    ClusterAlreadyExists(String),
    /// A live replica of the named cluster already carries the name:
    /// (replica name, cluster name).
    DuplicateReplica(String, String),
    /// A live item of the same schema already carries the name, or the id
    /// is taken: (item id, item name).
    ItemAlreadyExists(GlobalId, String),
    /// The timeline already has a persisted timestamp.
    TimelineAlreadyExists(String),
    /// The config key is already present.
    ConfigAlreadyExists(String),
    /// The id-allocator namespace is already seeded.
    IdAllocatorAlreadyExists(String),
    /// No live database has the id.
    UnknownDatabase(String),
    /// No live schema has the id.
    UnknownSchema(String),
    /// No live role has the name.
    UnknownRole(String),
    /// No live cluster has the id.
    UnknownCluster(String),
    /// No live replica has the id.
    UnknownClusterReplica(String),
    /// No live item has the id; for bulk removals and updates, the
    /// rendered ids that were not found.
    UnknownItem(String),
    /// The id-allocator namespace has no identifiers left.
    IdExhaustion,
    /// A builtin migration matched a different set of rows than requested.
    FailedBuiltinSchemaMigration(String),
    /// A table-level key or value uniqueness conflict with no dedicated
    /// error: a base snapshot with duplicate or conflicting rows, a rename
    /// to a taken name, or re-marking a migration as run.
    UniquenessViolation,
}

} // verus!
