//! Messages that nodes exchange.
pub mod vote_message;

use crate::vote::ReasonView;
use vstd::prelude::*;

verus! {

/// An error that a database reported.
#[derive(Debug, PartialEq)]
pub struct DbError {
    /// The five characters of the SQLSTATE code.
    pub code: Vec<u8>,
    pub severity: String,
    pub message: String,
    pub detail: String,
    pub hint: String,
}

/// What a [`DbError`] holds.
#[verifier::ext_equal]
pub struct DbErrorView {
    pub code: Seq<u8>,
    pub severity: Seq<char>,
    pub message: Seq<char>,
    pub detail: Seq<char>,
    pub hint: Seq<char>,
}

impl View for DbError {
    type V = DbErrorView;

    open spec fn view(&self) -> DbErrorView {
        DbErrorView {
            code: self.code@,
            severity: self.severity@,
            message: self.message@,
            detail: self.detail@,
            hint: self.hint@,
        }
    }
}

impl Clone for DbError {
    fn clone(&self) -> (copy: Self)
        ensures
            copy@ == self@,
    {
        DbError {
            code: self.code.clone(),
            severity: self.severity.clone(),
            message: self.message.clone(),
            detail: self.detail.clone(),
            hint: self.hint.clone(),
        }
    }
}

/// Asks a participant to prepare a transaction.
#[derive(Debug, PartialEq)]
pub struct PrepareMessage {
    /// The node that coordinates the transaction.
    pub from: u32,
    pub xact_id: u64,
    /// The encoded read/write set of the transaction.
    pub data: Vec<u8>,
}

/// What a [`PrepareMessage`] holds.
#[verifier::ext_equal]
pub struct PrepareView {
    pub from: u32,
    pub xact_id: u64,
    pub data: Seq<u8>,
}

impl View for PrepareMessage {
    type V = PrepareView;

    open spec fn view(&self) -> PrepareView {
        PrepareView { from: self.from, xact_id: self.xact_id, data: self.data@ }
    }
}

/// Tells a participant how another one votes.
#[derive(Debug, PartialEq)]
pub struct VoteMessage {
    /// The node that votes.
    pub from: u32,
    pub xact_id: u64,
    /// Why the node votes against the transaction. A vote for it gives no reason.
    pub rollback_reason: Option<vote_message::RollbackReason>,
}

/// What a [`VoteMessage`] holds.
#[verifier::ext_equal]
pub struct VoteMessageView {
    pub from: u32,
    pub xact_id: u64,
    pub rollback_reason: Option<ReasonView>,
}

impl View for VoteMessage {
    type V = VoteMessageView;

    open spec fn view(&self) -> VoteMessageView {
        VoteMessageView {
            from: self.from,
            xact_id: self.xact_id,
            rollback_reason: match self.rollback_reason {
                Some(reason) => Some(reason@),
                None => None,
            },
        }
    }
}

/// One entry of a transaction log.
#[derive(Debug, PartialEq)]
pub struct LogEntry {
    pub data: Vec<u8>,
}

} // verus!
