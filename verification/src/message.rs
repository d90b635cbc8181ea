//! Messages to the manager of the transactions of a node.
use crate::proto::{PrepareMessage, VoteMessage};
use bytes::Bytes;
use vstd::prelude::*;

verus! {

/// A message on some transaction. `C` is how the database that waits for a transaction is told
/// what became of it.
#[derive(Debug)]
pub enum XsMessage<C> {
    /// The local database wants to commit a transaction.
    LocalXact { data: Bytes, commit_tx: C },
    /// Another node asks this one to prepare a transaction.
    Prepare(PrepareMessage),
    /// Another node votes on a transaction.
    Vote(VoteMessage),
}

} // verus!
