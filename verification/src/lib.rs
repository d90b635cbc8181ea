//! Commit coordination for geo-partitioned transactions.
//!
//! Each region has a database and a server, a node. A transaction is executed by the database of
//! one region, whose node coordinates it. The coordinator sends what the transaction read and
//! wrote to the nodes of all regions that take part. Each of them executes it on its own database,
//! without committing it, and sends its vote to all others. A node commits a transaction when
//! every participant voted for it, and rolls it back as soon as one voted against it.
//!
//! * [`decoder`] reads what a transaction read and wrote.
//! * [`xact`] counts the votes on a transaction and decides it.
//! * [`pg`] is what the database is asked to do, and what it is told.
//! * [`manager`] is what each message leads to.
//!
//! Nothing here waits for anything or sends anything: each function says what is to be done next,
//! and is told how that went by the next call.
use vstd::prelude::*;

pub mod buf;
pub mod cli;
pub mod decoder;
pub mod id;
pub mod laws;
pub mod local_log;
pub mod manager;
pub mod message;
pub mod metrics;
pub mod node;
pub mod node_set;
pub mod pg;
pub mod pg_dispatcher;
pub mod printing;
pub mod proto;
pub mod remote_logs;
pub mod text;
pub mod tuple;
pub mod vote;
pub mod xact;

pub use id::{NodeId, XactId};
pub use manager::Manager;
pub use message::XsMessage;
pub use vote::{RollbackInfo, RollbackReason, Vote};
pub use xact::XactStatus;

verus! {

/// Port on which a node listens for its peers unless told otherwise.
pub const DEFAULT_NODE_PORT: u16 = 23000;

} // verus!
