//! Votes of the participants of a transaction, and reasons to roll one back.
use crate::id::NodeId;
use crate::proto::{vote_message, DbError, DbErrorView, VoteMessage};
use vstd::prelude::*;

verus! {

/// Why a transaction is rolled back.
#[derive(Debug, PartialEq)]
pub enum RollbackReason {
    /// A database reported an error.
    Db(DbError),
    /// Something else went wrong.
    Other(String),
}

/// What a [`RollbackReason`] holds.
#[verifier::ext_equal]
pub enum ReasonView {
    Db(DbErrorView),
    Other(Seq<char>),
}

impl View for RollbackReason {
    type V = ReasonView;

    open spec fn view(&self) -> ReasonView {
        match self {
            RollbackReason::Db(err) => ReasonView::Db(err@),
            RollbackReason::Other(text) => ReasonView::Other(text@),
        }
    }
}

impl Clone for RollbackReason {
    fn clone(&self) -> (copy: Self)
        ensures
            copy@ == self@,
    {
        match self {
            RollbackReason::Db(err) => RollbackReason::Db(err.clone()),
            RollbackReason::Other(text) => RollbackReason::Other(text.clone()),
        }
    }
}

impl From<vote_message::RollbackReason> for RollbackReason {
    fn from(reason: vote_message::RollbackReason) -> (r: Self) {
        match reason {
            vote_message::RollbackReason::Db(err) => RollbackReason::Db(err),
            vote_message::RollbackReason::Other(text) => RollbackReason::Other(text),
        }
    }
}

impl vstd::std_specs::convert::FromSpecImpl<vote_message::RollbackReason> for RollbackReason {
    open spec fn obeys_from_spec() -> bool {
        true
    }

    open spec fn from_spec(reason: vote_message::RollbackReason) -> Self {
        match reason {
            vote_message::RollbackReason::Db(err) => RollbackReason::Db(err),
            vote_message::RollbackReason::Other(text) => RollbackReason::Other(text),
        }
    }
}

impl From<&RollbackReason> for vote_message::RollbackReason {
    fn from(reason: &RollbackReason) -> (r: Self)
        ensures
            r@ == reason@,
    {
        match reason {
            RollbackReason::Db(err) => vote_message::RollbackReason::Db(err.clone()),
            RollbackReason::Other(text) => vote_message::RollbackReason::Other(text.clone()),
        }
    }
}

impl vstd::std_specs::convert::FromSpecImpl<&RollbackReason> for vote_message::RollbackReason {
    open spec fn obeys_from_spec() -> bool {
        false
    }

    open spec fn from_spec(reason: &RollbackReason) -> Self {
        arbitrary()
    }
}

/// The node on whose account a transaction is rolled back, and why.
#[derive(Debug, PartialEq)]
pub struct RollbackInfo(pub NodeId, pub RollbackReason);

/// What a [`RollbackInfo`] holds.
#[verifier::ext_equal]
pub struct InfoView {
    pub by: NodeId,
    pub reason: ReasonView,
}

impl View for RollbackInfo {
    type V = InfoView;

    open spec fn view(&self) -> InfoView {
        InfoView { by: self.0, reason: self.1@ }
    }
}

impl Clone for RollbackInfo {
    fn clone(&self) -> (copy: Self)
        ensures
            copy@ == self@,
    {
        RollbackInfo(self.0, self.1.clone())
    }
}

/// The vote of one node on a transaction.
#[derive(Debug, PartialEq)]
pub struct Vote {
    /// The node that votes.
    pub from: NodeId,
    /// Why it votes against the transaction. A vote for it gives no reason.
    pub rollback_reason: Option<RollbackReason>,
}

/// What a [`Vote`] holds.
#[verifier::ext_equal]
pub struct VoteView {
    pub from: NodeId,
    pub rollback_reason: Option<ReasonView>,
}

/// What an optional reason holds.
pub open spec fn reason_view(reason: Option<RollbackReason>) -> Option<ReasonView> {
    match reason {
        Some(reason) => Some(reason@),
        None => None,
    }
}

impl View for Vote {
    type V = VoteView;

    open spec fn view(&self) -> VoteView {
        VoteView { from: self.from, rollback_reason: reason_view(self.rollback_reason) }
    }
}

impl Clone for Vote {
    fn clone(&self) -> (copy: Self)
        ensures
            copy@ == self@,
    {
        Vote {
            from: self.from,
            rollback_reason: match &self.rollback_reason {
                Some(reason) => Some(reason.clone()),
                None => None,
            },
        }
    }
}

impl Vote {
    /// A vote for the transaction.
    pub fn yes(node_id: NodeId) -> (vote: Self)
        ensures
            vote.from == node_id,
            vote.rollback_reason is None,
    {
        Self { from: node_id, rollback_reason: None }
    }

    /// A vote against the transaction.
    pub fn no(node_id: NodeId, reason: RollbackReason) -> (vote: Self)
        ensures
            vote.from == node_id,
            vote.rollback_reason == Some(reason),
    {
        Self { from: node_id, rollback_reason: Some(reason) }
    }
}

impl From<VoteMessage> for Vote {
    fn from(msg: VoteMessage) -> (vote: Self) {
        Self {
            from: NodeId::from(msg.from),
            rollback_reason: match msg.rollback_reason {
                Some(reason) => Some(RollbackReason::from(reason)),
                None => None,
            },
        }
    }
}

impl vstd::std_specs::convert::FromSpecImpl<VoteMessage> for Vote {
    open spec fn obeys_from_spec() -> bool {
        true
    }

    open spec fn from_spec(msg: VoteMessage) -> Self {
        Vote {
            from: NodeId(msg.from),
            rollback_reason: match msg.rollback_reason {
                Some(vote_message::RollbackReason::Db(err)) => Some(RollbackReason::Db(err)),
                Some(vote_message::RollbackReason::Other(text)) => Some(
                    RollbackReason::Other(text),
                ),
                None => None,
            },
        }
    }
}

} // verus!
