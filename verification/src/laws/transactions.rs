//! What a node does with one transaction, whoever it comes from.
use crate::buf;
use crate::id::{NodeId, XactId};
use crate::node_set;
use crate::pg::xact_controller::{LocalXactController, PgStep, SurrogateXactController};
use crate::proto::{vote_message, DbError, VoteMessage};
use crate::vote::{RollbackInfo, RollbackReason, Vote};
use crate::xact::state::{self, StateView, XactState};
use crate::xact::{self, StatusView, XactError, XactStatus, XactStep, XactType};
use bit_set::BitSet;
use bytes::Bytes;
use vstd::prelude::*;

verus! {

/// Nothing more happens to a transaction that was committed or rolled back, and to no other.
pub proof fn law_terminal(status: XactStatus, b: bool)
    requires
        call_ensures(XactStatus::is_terminal, (&status,), b),
    ensures
        b <==> status is Committed || status is Rollbacked,
{
}

/// The status of a transaction is known once it is initialized, and is its own.
pub proof fn law_status<C>(x: XactType<C>, status: Option<&XactStatus>)
    requires
        call_ensures(XactType::<C>::status, (&x,), status),
    ensures
        x is Unknown <==> status is None,
        x matches XactType::Local(s) ==> (status matches Some(known) && known@ == s.status@),
        x matches XactType::Surrogate(s) ==> (status matches Some(known) && known@ == s.status@),
{
}

/// Votes are for or against a transaction, and cast by one node.
pub proof fn law_vote(node_id: NodeId, reason: RollbackReason, yes: Vote, no: Vote)
    requires
        call_ensures(Vote::yes, (node_id,), yes),
        call_ensures(Vote::no, (node_id, reason), no),
    ensures
        yes.from == node_id && yes.rollback_reason is None,
        no.from == node_id && no.rollback_reason == Some(reason),
{
}

/// A vote on a transaction that is initialized is counted as such votes are. Before, it is kept.
pub proof fn law_add_vote<C>(
    before: XactType<C>,
    vote: Vote,
    after: XactType<C>,
    r: Result<(), XactError>,
    local: XactState<LocalXactController<C>>,
    surrogate: XactState<SurrogateXactController>,
    p: Result<&XactStatus, XactError>,
    q: Result<&XactStatus, XactError>,
)
    requires
        exists|x: &mut XactType<C>| #[trigger]
            call_ensures(XactType::<C>::add_vote, (x, vote), r) && *x == before && *final(x)
                == after,
        before matches XactType::Local(s) ==> exists|x: &mut XactState<LocalXactController<C>>|
         #[trigger]
            call_ensures(XactState::<LocalXactController<C>>::add_vote, (x, vote), p) && *x == s
                && *final(x) == local,
        before matches XactType::Surrogate(s) ==> exists|x: &mut XactState<SurrogateXactController>|
         #[trigger]
            call_ensures(XactState::<SurrogateXactController>::add_vote, (x, vote), q) && *x == s
                && *final(x) == surrogate,
    ensures
        before matches XactType::Unknown(votes) ==> r is Ok && (
        after matches XactType::Unknown(kept) && kept@.len() == votes@.len() + 1
            && kept@.last()@ == vote@),
        before matches XactType::Local(s) ==> (after matches XactType::Local(t) && t@ == local@
            && t.controller.commit_tx == s.controller.commit_tx && (r is Ok <==> p is Ok)),
        before matches XactType::Surrogate(s) ==> (after matches XactType::Surrogate(t) && t@
            == surrogate@ && t.controller@ == s.controller@ && (r is Ok <==> q is Ok)),
        r is Err ==> r == Err::<(), XactError>(XactError::AlreadyCommitting),
{
    if let XactType::Unknown(votes) = before {
        if let XactType::Unknown(kept) = after {
            assert(state::votes_view(kept@).len() == votes@.len() + 1);
            assert(kept@.last()@ == state::votes_view(kept@).last());
        }
    }
}

/// What was decided of a local transaction is told to the one who waits, once. Nothing is told
/// before.
pub proof fn law_try_finish_local<C>(
    before: XactType<C>,
    after: XactType<C>,
    r: Result<XactStep<C>, XactError>,
    s: XactState<LocalXactController<C>>,
)
    requires
        exists|x: &mut XactType<C>| #[trigger]
            call_ensures(XactType::<C>::try_finish, (x,), r) && *x == before && *final(x) == after,
        before == XactType::<C>::Local(s),
    ensures
        after matches XactType::Local(t) && t@ == s@,
        ({
            let decided = s.status is Committing || s.status is Rollbacking;
            &&& !decided ==> (r matches Ok(XactStep::Nothing))
            &&& decided && s.controller.commit_tx is None ==> r == Err::<XactStep<C>, XactError>(
                XactError::AlreadyFinished,
            )
            &&& after matches XactType::Local(t) ==> t.controller.commit_tx == if decided {
                None
            } else {
                s.controller.commit_tx
            }
            &&& s.controller.commit_tx matches Some(to) ==> {
                &&& s.status is Committing ==> (r matches Ok(XactStep::Notify(notice)) && notice.to
                    == to && notice.info is None)
                &&& s.status matches XactStatus::Rollbacking(info) ==> (
                r matches Ok(XactStep::Notify(notice)) && notice.to == to && (
                notice.info matches Some(told) && told.0 == info.0 && told.1@ == info.1@))
            }
        }),
{
}

/// What was decided of a transaction of another node is done in the local database. Nothing is done
/// before, and an unknown transaction cannot be finished.
pub proof fn law_try_finish<C>(
    before: XactType<C>,
    after: XactType<C>,
    r: Result<XactStep<C>, XactError>,
)
    requires
        exists|x: &mut XactType<C>| #[trigger]
            call_ensures(XactType::<C>::try_finish, (x,), r) && *x == before && *final(x) == after,
    ensures
        before is Unknown ==> after@ == before@ && r == Err::<XactStep<C>, XactError>(
            XactError::Uninitialized,
        ),
        before matches XactType::Surrogate(s) ==> (after matches XactType::Surrogate(t) && t@ == s@
            && t.controller.xact_id == s.controller.xact_id && buf::unread(t.controller.data)
            == buf::unread(s.controller.data) && {
            &&& s.status is Committing ==> t.controller.progress is ConnectingToCommit
            &&& s.status is Rollbacking ==> t.controller.progress is ConnectingToRollback
            &&& s.status is Committing || s.status is Rollbacking ==> (r matches Ok(
                XactStep::Pg(request),
            ) && request is Connect)
            &&& !(s.status is Committing || s.status is Rollbacking) ==> t.controller.progress@
                == s.controller.progress@ && (r matches Ok(XactStep::Nothing))
        }),
{
}

/// What was decided of a local transaction is final once the one who waits was told.
pub proof fn law_notified<C>(
    before: XactType<C>,
    ok: bool,
    after: XactType<C>,
    r: Result<(), XactError>,
    s: XactState<LocalXactController<C>>,
    done: XactState<LocalXactController<C>>,
    p: Result<&XactStatus, XactError>,
)
    requires
        exists|x: &mut XactType<C>| #[trigger]
            call_ensures(XactType::<C>::notified, (x, ok), r) && *x == before && *final(x) == after,
        before == XactType::<C>::Local(s),
        exists|x: &mut XactState<LocalXactController<C>>| #[trigger]
            call_ensures(XactState::<LocalXactController<C>>::finished, (x, ok), p) && *x == s
                && *final(x) == done,
    ensures
        after matches XactType::Local(t) && t@ == done@ && t.controller.commit_tx
            == s.controller.commit_tx,
        r is Ok <==> p is Ok,
        p matches Err(e) ==> r == Err::<(), XactError>(e),
{
}

/// Answers of the local database take an operation on the transaction further, and the transaction
/// with it when the operation is over: its execution is voted on, and a decision that was carried
/// out is final.
pub proof fn law_pg_replied<C>(
    before: XactType<C>,
    reply: Result<bool, RollbackReason>,
    after: XactType<C>,
    r: Result<XactStep<C>, XactError>,
    s: XactState<SurrogateXactController>,
    controller: SurrogateXactController,
    step: PgStep,
)
    requires
        exists|x: &mut XactType<C>| #[trigger]
            call_ensures(XactType::<C>::pg_replied, (x, reply), r) && *x == before && *final(x)
                == after,
        before == XactType::<C>::Surrogate(s),
        exists|c: &mut SurrogateXactController| #[trigger]
            call_ensures(SurrogateXactController::replied, (c, reply), step) && *c == s.controller
                && *final(c) == controller,
    ensures
        after matches XactType::Surrogate(t) && t.controller@ == controller@ && t.xact_id
            == s.xact_id && t.node_id == s.node_id && t.coordinator == s.coordinator
            && node_set::members(t.participants) == node_set::members(s.participants),
        step matches PgStep::Request(asked) ==> (r matches Ok(XactStep::Pg(request)) && request@
            == asked@) && (after matches XactType::Surrogate(t) && t@ == s@),
        step matches PgStep::Finished(result) ==> (s.controller.progress is ConnectingToCommit
            || s.controller.progress is Committing || s.controller.progress is ConnectingToRollback
            || s.controller.progress is CheckingPrepared || s.controller.progress is RollingBack)
            ==> (after matches XactType::Surrogate(t) && {
            &&& s.status is Committing && result is Ok ==> t.status is Committed && r is Ok
            &&& s.status is Committing && result is Err ==> t.status is Committing && r == Err::<
                XactStep<C>,
                XactError,
            >(XactError::CommitFailed)
            &&& s.status matches XactStatus::Rollbacking(info) ==> {
                &&& result is Ok ==> r is Ok && (t.status matches XactStatus::Rollbacked(done)
                    && done.0 == info.0 && done.1@ == info.1@)
                &&& result is Err ==> t.status@ == s.status@ && r == Err::<XactStep<C>, XactError>(
                    XactError::RollbackFailed,
                )
            }
        }),
{
    let reason = match xact_reason(step) {
        Some(reason) => Some(reason@),
        None => None,
    };
    let cleared = StateView { pending: Seq::empty(), ..s@ };
    xact::lemma_votes_frame(cleared, state::own_and(s@, reason, s@.pending));
}

spec fn xact_reason(step: PgStep) -> Option<RollbackReason> {
    match step {
        PgStep::Finished(Err(failure)) => Some(failure.reason),
        _ => None,
    }
}

/// A transaction of another node is executed before anything else, as it was sent.
pub proof fn law_init_as_surrogate<C>(
    before: XactType<C>,
    xact_id: XactId,
    node_id: NodeId,
    coordinator: NodeId,
    participants: BitSet,
    data: Bytes,
    after: XactType<C>,
    r: Result<XactStep<C>, XactError>,
)
    requires
        exists|x: &mut XactType<C>| #[trigger]
            call_ensures(
                XactType::<C>::init_as_surrogate,
                (x, xact_id, node_id, coordinator, participants, data),
                r,
            ) && *x == before && *final(x) == after,
        node_id != coordinator,
        node_set::members(participants).contains(node_id.0 as usize),
    ensures
        r matches Ok(XactStep::Pg(request)) && request is Connect,
        after matches XactType::Surrogate(t) && {
            &&& t.xact_id == xact_id
            &&& t.node_id == node_id
            &&& t.coordinator == coordinator
            &&& node_set::members(t.participants) == node_set::members(participants)
            &&& forall|n: usize| #[trigger]
                node_set::members(t.voted).contains(n) <==> n == coordinator.0
            &&& t.status is Waiting
            &&& t.controller.xact_id == xact_id
            &&& buf::unread(t.controller.data) == buf::unread(data)
            &&& t.controller.progress is ConnectingToExecute
        },
{
    let one = Set::<usize>::empty().insert(coordinator.0 as usize);
    assert(!one.contains(node_id.0 as usize));
    assert(one != node_set::members(participants));
    if let XactType::Surrogate(t) = after {
        assert(t@.voted == one);
    }
}

/// A local transaction keeps the one who waits for it, and counts at once the vote of this node,
/// which needs no execution. Where no vote came before, and this node coordinates it, it awaits
/// votes unless this node takes part alone.
pub proof fn law_init_as_local<C>(
    before: XactType<C>,
    node_id: NodeId,
    participants: BitSet,
    commit_tx: C,
    after: XactType<C>,
    r: Result<&XactStatus, XactError>,
    early: Vec<Vote>,
)
    requires
        exists|x: &mut XactType<C>| #[trigger]
            call_ensures(
                XactType::<C>::init_as_local,
                (x, node_id, node_id, participants, commit_tx),
                r,
            ) && *x == before && *final(x) == after,
        before == XactType::<C>::Unknown(early),
        early@.len() == 0,
    ensures
        after matches XactType::Local(t) && {
            &&& r matches Ok(status) && status@ == t.status@
            &&& t.node_id == node_id
            &&& t.coordinator == node_id
            &&& t.controller.commit_tx == Some(commit_tx)
            &&& node_set::members(t.participants) == node_set::members(participants)
            &&& forall|n: usize| #[trigger]
                node_set::members(t.voted).contains(n) <==> n == node_id.0
            &&& t.status is Waiting || t.status is Committing
            &&& t.status is Committing <==> forall|n: usize| #[trigger]
                node_set::members(participants).contains(n) <==> n == node_id.0
        },
{
    let all = node_set::members(participants);
    let new = state::new_state(XactId(0), node_id, node_id, all);
    let waiting = StateView { status: StatusView::Waiting, ..new };
    assert(before@.early_votes().len() == 0);
    let votes = state::own_and(new, None, before@.early_votes());
    assert(votes.drop_first().len() == 0);
    assert(votes[0].from == node_id && votes[0].rollback_reason is None);
    let next = state::after_vote(waiting, votes[0]);
    assert(state::after_votes(next, votes.drop_first()) == next);
    assert(state::all_taken(next, votes.drop_first()));
    let one = Set::<usize>::empty().insert(node_id.0 as usize);
    assert(next.voted == one);
    if let XactType::Local(t) = after {
        assert(t@.voted == one);
        if forall|n: usize| #[trigger] all.contains(n) <==> n == node_id.0 {
            assert(one =~= all);
        } else if one == all {
            assert forall|n: usize| #[trigger] all.contains(n) <==> n == node_id.0 by {
                assert(one.contains(n) <==> n == node_id.0);
            }
        }
    }
}

/// A vote that was received is that of its sender, and against the transaction for the reason that
/// was sent, if any was.
pub proof fn law_received_vote(msg: VoteMessage, vote: Vote)
    requires
        call_ensures(<Vote as From<VoteMessage>>::from, (msg,), vote),
    ensures
        vote.from.0 == msg.from,
        msg.rollback_reason is None <==> vote.rollback_reason is None,
        msg.rollback_reason matches Some(vote_message::RollbackReason::Db(e))
            ==> vote.rollback_reason == Some(RollbackReason::Db(e)),
        msg.rollback_reason matches Some(vote_message::RollbackReason::Other(t))
            ==> vote.rollback_reason == Some(RollbackReason::Other(t)),
{
}

/// A reason is sent as it is.
pub proof fn law_sent_reason(reason: RollbackReason, sent: vote_message::RollbackReason)
    requires
        call_ensures(
            <vote_message::RollbackReason as From<&RollbackReason>>::from,
            (&reason,),
            sent,
        ),
    ensures
        reason matches RollbackReason::Other(text) ==> (
        sent matches vote_message::RollbackReason::Other(t) && t@ == text@),
        reason matches RollbackReason::Db(err) ==> (sent matches vote_message::RollbackReason::Db(
            e,
        ) && e.code@ == err.code@ && e.severity@ == err.severity@ && e.message@ == err.message@
            && e.detail@ == err.detail@ && e.hint@ == err.hint@),
{
    if let RollbackReason::Db(err) = reason {
        if let vote_message::RollbackReason::Db(e) = sent {
            assert(e@ == err@);
        }
    }
}

/// Copies hold what was copied.
pub proof fn law_copies(
    reason: RollbackReason,
    reason_copy: RollbackReason,
    info: RollbackInfo,
    info_copy: RollbackInfo,
    error: DbError,
    error_copy: DbError,
)
    requires
        call_ensures(<RollbackReason as Clone>::clone, (&reason,), reason_copy),
        call_ensures(<RollbackInfo as Clone>::clone, (&info,), info_copy),
        call_ensures(<DbError as Clone>::clone, (&error,), error_copy),
    ensures
        reason matches RollbackReason::Other(text) ==> (reason_copy matches RollbackReason::Other(t)
            && t@ == text@),
        reason matches RollbackReason::Db(err) ==> (reason_copy matches RollbackReason::Db(e) && e@
            == err@),
        info_copy.0 == info.0,
        info_copy.1@ == info.1@,
        error_copy.code@ == error.code@,
        error_copy.severity@ == error.severity@,
        error_copy.message@ == error.message@,
        error_copy.detail@ == error.detail@,
        error_copy.hint@ == error.hint@,
{
    assert(error_copy@ == error@);
    assert(info_copy@ == info@);
}

/// Copies of a status or a vote hold what was copied.
pub proof fn law_more_copies(status: XactStatus, copy: XactStatus, vote: Vote, again: Vote)
    requires
        call_ensures(<XactStatus as Clone>::clone, (&status,), copy),
        call_ensures(<Vote as Clone>::clone, (&vote,), again),
    ensures
        status is Uninitialized <==> copy is Uninitialized,
        status is Waiting <==> copy is Waiting,
        status is Committing <==> copy is Committing,
        status is Committed <==> copy is Committed,
        status matches XactStatus::Rollbacking(info) ==> (copy matches XactStatus::Rollbacking(i)
            && i@ == info@),
        status matches XactStatus::Rollbacked(info) ==> (copy matches XactStatus::Rollbacked(i)
            && i@ == info@),
        again.from == vote.from,
        vote.rollback_reason is None <==> again.rollback_reason is None,
        vote.rollback_reason matches Some(reason) ==> (again.rollback_reason matches Some(r) && r@
            == reason@),
{
    assert(again@ == vote@);
}

/// Nothing is known of a transaction at first.
pub proof fn law_default<C>(x: XactType<C>)
    requires
        call_ensures(<XactType<C> as Default>::default, (), x),
    ensures
        x matches XactType::Unknown(votes) && votes@.len() == 0,
{
    if let XactType::Unknown(votes) = x {
        assert(state::votes_view(votes@).len() == 0);
    }
}

} // verus!
