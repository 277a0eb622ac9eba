//! A durable-catalog transaction engine for a SQL-on-dataflow database.
//!
//! The catalog's metadata — databases, schemas, roles, clusters, replicas,
//! items, privileges, comments, id allocators, configuration — lives in
//! many independent logical tables that must be mutated together and
//! committed atomically. The engine is built from:
//!
//! - [`table::TableTransaction`], a verified transactional overlay over one
//!   key/value table: a base snapshot plus a net pending effect per touched
//!   key, with a per-table uniqueness predicate enforced on insert and
//!   update, and a commit diff derived purely from (base state, net state)
//!   so that arbitrarily many operations on one row coalesce to the
//!   minimal change;
//! - [`transaction::Transaction`], which owns one overlay per object kind,
//!   exposes the domain operations (create a database, rename a cluster,
//!   remove items, mint ids, run builtin migrations) with their
//!   cross-table rules, and is consumed exactly once by
//!   [`transaction::Transaction::commit`], producing the single
//!   [`transaction::TransactionBatch`] that the durable store applies
//!   atomically;
//! - [`notice`], the closed set of optimizer notices kept alongside the
//!   catalog state, with their plain and redacted renderings.
//!
//! Every operation's contract states exactly which rows change and when
//! each typed [`error::Error`] is returned; inputs on which the engine
//! would have to abort the process (a missing bootstrap allocator, a
//! foreign id where a system id is required, a mutated immutable field)
//! are excluded by precondition instead.

pub mod error;
pub mod ids;
pub mod notice;
pub mod objects;
pub mod table;
pub mod text;
pub mod transaction;
