//! What is seen of a value is all of it: two values that look the same are the same, part by part.
use crate::cli::{ArgError, NodeAddress};
use crate::decoder::Relation;
use crate::metrics::Labels;
use crate::pg::xact_controller::{PgFailure, PgRequest, PgStep};
use crate::proto::{vote_message, DbError, PrepareMessage, VoteMessage};
use crate::vote::{RollbackInfo, RollbackReason, Vote};
use crate::xact::XactStatus;
use vstd::prelude::*;

verus! {

/// Errors of a database that look the same agree in all they say.
pub proof fn law_db_errors(a: DbError, b: DbError)
    ensures
        a@ == b@ <==> {
            &&& a.code@ == b.code@
            &&& a.severity@ == b.severity@
            &&& a.message@ == b.message@
            &&& a.detail@ == b.detail@
            &&& a.hint@ == b.hint@
        },
{
}

/// Reasons that look the same are errors of a database that agree in all they say, or the same
/// words.
pub proof fn law_reasons(a: RollbackReason, b: RollbackReason)
    ensures
        a@ == b@ <==> match (a, b) {
            (RollbackReason::Db(x), RollbackReason::Db(y)) => {
                &&& x.code@ == y.code@
                &&& x.severity@ == y.severity@
                &&& x.message@ == y.message@
                &&& x.detail@ == y.detail@
                &&& x.hint@ == y.hint@
            },
            (RollbackReason::Other(x), RollbackReason::Other(y)) => x@ == y@,
            _ => false,
        },
{
}

/// A reason in a message looks like the reason itself.
pub proof fn law_message_reasons(a: vote_message::RollbackReason, b: RollbackReason)
    ensures
        a@ == b@ <==> match (a, b) {
            (vote_message::RollbackReason::Db(x), RollbackReason::Db(y)) => {
                &&& x.code@ == y.code@
                &&& x.severity@ == y.severity@
                &&& x.message@ == y.message@
                &&& x.detail@ == y.detail@
                &&& x.hint@ == y.hint@
            },
            (vote_message::RollbackReason::Other(x), RollbackReason::Other(y)) => x@ == y@,
            _ => false,
        },
{
}

/// Votes that look the same are of the same node and for the same reason.
pub proof fn law_votes(a: Vote, b: Vote)
    ensures
        a@ == b@ <==> a.from == b.from && match (a.rollback_reason, b.rollback_reason) {
            (Some(x), Some(y)) => x@ == y@,
            (None, None) => true,
            _ => false,
        },
{
}

/// What two that look the same say of a rollback is the same.
pub proof fn law_infos(a: RollbackInfo, b: RollbackInfo)
    ensures
        a@ == b@ <==> a.0 == b.0 && a.1@ == b.1@,
{
}

/// Transactions that look the same have come equally far, for the same reason.
pub proof fn law_statuses(a: XactStatus, b: XactStatus)
    ensures
        a@ == b@ <==> match (a, b) {
            (XactStatus::Uninitialized, XactStatus::Uninitialized) => true,
            (XactStatus::Waiting, XactStatus::Waiting) => true,
            (XactStatus::Committing, XactStatus::Committing) => true,
            (XactStatus::Committed, XactStatus::Committed) => true,
            (XactStatus::Rollbacking(x), XactStatus::Rollbacking(y)) => x.0 == y.0 && x.1@ == y.1@,
            (XactStatus::Rollbacked(x), XactStatus::Rollbacked(y)) => x.0 == y.0 && x.1@ == y.1@,
            _ => false,
        },
{
}

/// Messages that look the same agree in sender, transaction and content.
pub proof fn law_messages(a: PrepareMessage, b: PrepareMessage, c: VoteMessage, d: VoteMessage)
    ensures
        a@ == b@ <==> a.from == b.from && a.xact_id == b.xact_id && a.data@ == b.data@,
        c@ == d@ <==> c.from == d.from && c.xact_id == d.xact_id && match (
            c.rollback_reason,
            d.rollback_reason,
        ) {
            (Some(x), Some(y)) => x@ == y@,
            (None, None) => true,
            _ => false,
        },
{
}

/// Requests that look the same ask for the same, with the same statement and data.
pub proof fn law_requests(a: PgRequest, b: PgRequest)
    ensures
        a@ == b@ <==> match (a, b) {
            (PgRequest::Connect, PgRequest::Connect) => true,
            (PgRequest::BatchExecute(x), PgRequest::BatchExecute(y)) => x@ == y@,
            (
                PgRequest::Execute { statement: x, data: u },
                PgRequest::Execute { statement: y, data: v },
            ) => x@ == y@ && crate::buf::unread(u) == crate::buf::unread(v),
            (PgRequest::QueryOpt(x), PgRequest::QueryOpt(y)) => x@ == y@,
            _ => false,
        },
{
}

/// Failures that look the same are of the same stage and for the same reason.
pub proof fn law_failures(a: PgFailure, b: PgFailure)
    ensures
        a@ == b@ <==> a.stage == b.stage && a.reason@ == b.reason@,
{
}

/// Labels that look the same are the same texts.
pub proof fn law_labels(a: Labels, b: Labels)
    ensures
        a@ == b@ <==> a.region@ == b.region@ && a.coordinator@ == b.coordinator@ && a.is_local@
            == b.is_local@,
{
}

/// Relations that look the same agree in all their numbers and items.
pub proof fn law_relations(a: Relation, b: Relation)
    ensures
        a@ == b@ <==> match (a, b) {
            (
                Relation::Table {
                    oid: o1,
                    region: r1,
                    csn: c1,
                    is_table_scan: s1,
                    n_tuples: n1,
                    tuples: t1,
                },
                Relation::Table {
                    oid: o2,
                    region: r2,
                    csn: c2,
                    is_table_scan: s2,
                    n_tuples: n2,
                    tuples: t2,
                },
            ) => o1 == o2 && r1 == r2 && c1 == c2 && s1 == s2 && n1 == n2 && t1@ == t2@,
            (
                Relation::Index { oid: o1, region: r1, csn: c1, n_pages: n1, pages: p1 },
                Relation::Index { oid: o2, region: r2, csn: c2, n_pages: n2, pages: p2 },
            ) => o1 == o2 && r1 == r2 && c1 == c2 && n1 == n2 && p1@ == p2@,
            _ => false,
        },
{
}

/// Addresses and errors of arguments that look the same are the same.
pub proof fn law_addresses(a: NodeAddress, b: NodeAddress, c: ArgError, d: ArgError)
    ensures
        a@ == b@ <==> match (a, b) {
            (NodeAddress::Dummy, NodeAddress::Dummy) => true,
            (NodeAddress::Url(x), NodeAddress::Url(y)) => x@ == y@,
            _ => false,
        },
        c@ == d@ <==> match (c, d) {
            (ArgError::PgUrl { error: x }, ArgError::PgUrl { error: y }) => x@ == y@,
            (ArgError::PgScheme { scheme: x }, ArgError::PgScheme { scheme: y }) => x@ == y@,
            (
                ArgError::NodeUrl { addr: x, error: u },
                ArgError::NodeUrl { addr: y, error: v },
            ) => x@ == y@ && u@ == v@,
            (ArgError::NodeScheme { scheme: x }, ArgError::NodeScheme { scheme: y }) => x@ == y@,
            _ => false,
        },
{
}

/// Steps that look the same ask for the same, or end the same way.
pub proof fn law_steps(a: PgStep, b: PgStep)
    ensures
        a@ == b@ <==> match (a, b) {
            (PgStep::Request(x), PgStep::Request(y)) => x@ == y@,
            (PgStep::Finished(Ok(_)), PgStep::Finished(Ok(_))) => true,
            (PgStep::Finished(Err(x)), PgStep::Finished(Err(y))) => x@ == y@,
            _ => false,
        },
{
}

} // verus!
