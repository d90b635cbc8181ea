//! The parts of a vote message.
use super::DbError;
use crate::vote::ReasonView;
use vstd::prelude::*;

verus! {

/// Why a node votes against a transaction, as it is sent.
#[derive(Debug, PartialEq)]
pub enum RollbackReason {
    Db(DbError),
    Other(String),
}

impl View for RollbackReason {
    type V = ReasonView;

    open spec fn view(&self) -> ReasonView {
        match self {
            RollbackReason::Db(err) => ReasonView::Db(err@),
            RollbackReason::Other(text) => ReasonView::Other(text@),
        }
    }
}

impl Clone for RollbackReason {
    fn clone(&self) -> (copy: Self)
        ensures
            copy@ == self@,
    {
        match self {
            RollbackReason::Db(err) => RollbackReason::Db(err.clone()),
            RollbackReason::Other(text) => RollbackReason::Other(text.clone()),
        }
    }
}

} // verus!
