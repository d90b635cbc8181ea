//! How one transaction is decided on a node, and comes to its end there.
use super::decoding::{eight, four, lemma_decoded};
use crate::buf;
use crate::id::{NodeId, XactId};
use crate::manager::xact_state_manager::{Action, ManagerError, Phase, XactStateManager};
use crate::message::XsMessage;
use crate::metrics::{self, Labels};
use crate::node_set;
use crate::pg::xact_controller::{self, PgRequest, PgStep, SurrogateXactController};
use crate::proto::{PrepareMessage, VoteMessage};
use crate::text;
use crate::vote::{RollbackReason, Vote};
use crate::xact::state::{self, StateView, XactState};
use crate::xact::{self, StatusView, XactError, XactStatus, XactType};
use bytes::Bytes;
use vstd::arithmetic::power2::pow2;
use vstd::prelude::*;

verus! {

/// Nothing is known of a new transaction, and nothing of it is recorded.
pub proof fn law_new<C>(xact_id: XactId, node_id: NodeId, m: XactStateManager<C>)
    requires
        call_ensures(XactStateManager::<C>::new, (xact_id, node_id), m),
    ensures
        m.xact_id == xact_id,
        m.node_id == node_id,
        m.coordinator_id is None,
        m.xact matches XactType::Unknown(votes) && votes@.len() == 0,
        !m.measuring,
        m.phase == Phase::Idle,
{
    if let XactType::Unknown(votes) = m.xact {
        assert(state::votes_view(votes@).len() == 0);
    }
}

/// A vote on a transaction of which nothing else is known is kept, and gives an error.
pub proof fn law_early_vote<C>(
    before: XactStateManager<C>,
    msg: VoteMessage,
    after: XactStateManager<C>,
    action: Action<C>,
    votes: Vec<Vote>,
)
    requires
        exists|m: &mut XactStateManager<C>| #[trigger]
            call_ensures(XactStateManager::<C>::handle_vote_msg, (m, msg), action) && *m == before
                && *final(m) == after,
        before.xact == XactType::<C>::Unknown(votes),
    ensures
        action == Action::<C>::Stop(Some(ManagerError::Xact(XactError::Uninitialized))),
        after.phase == Phase::Stopped,
        after.xact matches XactType::Unknown(kept) && kept@.len() == votes@.len() + 1
            && kept@.last().from.0 == msg.from && (kept@.last().rollback_reason is Some
            <==> msg.rollback_reason is Some) && forall|i: int|
            0 <= i < votes@.len() ==> (#[trigger] kept@[i])@ == votes@[i]@,
{
    if let XactType::Unknown(kept) = after.xact {
        assert(state::votes_view(kept@).len() == votes@.len() + 1);
        assert(kept@.last()@ == state::votes_view(kept@).last());
        assert(kept@.last()@.rollback_reason is Some <==> msg@.rollback_reason is Some);
        assert forall|i: int| 0 <= i < votes@.len() implies (#[trigger] kept@[i])@
            == votes@[i]@ by {
            assert(state::votes_view(kept@)[i] == kept@[i]@);
            assert(state::votes_view(votes@)[i] == votes@[i]@);
        }
    }
}

/// A vote against a local transaction that awaits votes ends the wait: the one who waits is told
/// who voted against it, and why. A vote for it ends the wait if it is the last one missing, and
/// otherwise votes are awaited on.
pub proof fn law_vote_on_local<C>(
    before: XactStateManager<C>,
    msg: VoteMessage,
    after: XactStateManager<C>,
    action: Action<C>,
    x: XactState<crate::pg::xact_controller::LocalXactController<C>>,
    to: C,
)
    requires
        exists|m: &mut XactStateManager<C>| #[trigger]
            call_ensures(XactStateManager::<C>::handle_vote_msg, (m, msg), action) && *m == before
                && *final(m) == after,
        before.xact == XactType::<C>::Local(x),
        x.status is Waiting,
        x.controller.commit_tx == Some(to),
    ensures
        msg.rollback_reason matches Some(reason) ==> after.phase == Phase::Finishing && (
        action matches Action::Notify(notice) && notice.to == to && (
        notice.info matches Some(info) && info.0.0 == msg.from && info.1@ == reason@)) && (
        after.xact matches XactType::Local(y) && (y.status matches XactStatus::Rollbacking(info)
            && info.0.0 == msg.from && info.1@ == reason@)),
        msg.rollback_reason is None ==> {
            let last = !node_set::members(x.voted).contains(msg.from as usize) && forall|n: usize|
                node_set::members(x.participants).contains(n) <==> node_set::members(
                    x.voted,
                ).contains(n) || n == msg.from;
            &&& after.xact matches XactType::Local(y)
            &&& forall|n: usize|
                node_set::members(y.voted).contains(n) <==> node_set::members(x.voted).contains(n)
                    || n == msg.from
            &&& last ==> y.status is Committing && after.phase == Phase::Finishing && (
            action matches Action::Notify(notice) && notice.to == to && notice.info is None)
            &&& !last ==> y.status is Waiting && y.controller.commit_tx == Some(to) && after.phase
                == Phase::Idle && action is Wait
        },
{
    lemma_last(
        node_set::members(x.voted),
        node_set::members(x.participants),
        msg.from as usize,
    );
}

/// A vote against a transaction of another node that awaits votes has it rolled back in the local
/// database. A vote for it has it committed there if it is the last one missing, and otherwise
/// votes are awaited on.
pub proof fn law_vote_on_surrogate<C>(
    before: XactStateManager<C>,
    msg: VoteMessage,
    after: XactStateManager<C>,
    action: Action<C>,
    x: XactState<SurrogateXactController>,
)
    requires
        exists|m: &mut XactStateManager<C>| #[trigger]
            call_ensures(XactStateManager::<C>::handle_vote_msg, (m, msg), action) && *m == before
                && *final(m) == after,
        before.xact == XactType::<C>::Surrogate(x),
        x.status is Waiting,
    ensures
        msg.rollback_reason matches Some(reason) ==> after.phase == Phase::Finishing && action
            == Action::<C>::Pg(PgRequest::Connect) && (after.xact matches XactType::Surrogate(y)
            && y.controller.progress is ConnectingToRollback && (
        y.status matches XactStatus::Rollbacking(info) && info.0.0 == msg.from && info.1@
            == reason@)),
        msg.rollback_reason is None ==> {
            let last = !node_set::members(x.voted).contains(msg.from as usize) && forall|n: usize|
                node_set::members(x.participants).contains(n) <==> node_set::members(
                    x.voted,
                ).contains(n) || n == msg.from;
            &&& after.xact matches XactType::Surrogate(y)
            &&& forall|n: usize|
                node_set::members(y.voted).contains(n) <==> node_set::members(x.voted).contains(n)
                    || n == msg.from
            &&& last ==> y.status is Committing && after.phase == Phase::Finishing && action
                == Action::<C>::Pg(PgRequest::Connect) && y.controller.progress
                is ConnectingToCommit
            &&& !last ==> y.status is Waiting && after.phase == Phase::Idle && action is Wait
        },
{
    lemma_last(
        node_set::members(x.voted),
        node_set::members(x.participants),
        msg.from as usize,
    );
}

proof fn lemma_last(voted: Set<usize>, all: Set<usize>, voter: usize)
    ensures
        voted.insert(voter) == all <==> forall|n: usize|
            all.contains(n) <==> voted.contains(n) || n == voter,
{
    let with = voted.insert(voter);
    if forall|n: usize| all.contains(n) <==> voted.contains(n) || n == voter {
        assert(with =~= all);
    } else if with == all {
        assert forall|n: usize| all.contains(n) <==> voted.contains(n) || n == voter by {
            assert(with.contains(n) <==> voted.contains(n) || n == voter);
        }
    }
}

/// What a vote never changes.
pub proof fn law_vote_keeps<C>(
    before: XactStateManager<C>,
    msg: VoteMessage,
    after: XactStateManager<C>,
    action: Action<C>,
)
    requires
        exists|m: &mut XactStateManager<C>| #[trigger]
            call_ensures(XactStateManager::<C>::handle_vote_msg, (m, msg), action) && *m == before
                && *final(m) == after,
    ensures
        after.xact_id == before.xact_id,
        after.node_id == before.node_id,
        after.coordinator_id == before.coordinator_id,
        after.measuring == before.measuring,
        action !is Prepare && action !is Vote && action !is Finish || before.xact@.status()
            !is Waiting,
{
}

/// While the database is at work the manager asks it whatever the operation on the transaction
/// needs next, and waits for nothing else.
pub proof fn law_database_goes_on<C>(
    before: XactStateManager<C>,
    reply: Result<bool, RollbackReason>,
    after: XactStateManager<C>,
    action: Action<C>,
    x: XactState<SurrogateXactController>,
    controller: SurrogateXactController,
    request: PgRequest,
)
    requires
        exists|m: &mut XactStateManager<C>| #[trigger]
            call_ensures(XactStateManager::<C>::pg_replied, (m, reply), action) && *m == before
                && *final(m) == after,
        before.xact == XactType::<C>::Surrogate(x),
        exists|c: &mut SurrogateXactController| #[trigger]
            call_ensures(SurrogateXactController::replied, (c, reply), PgStep::Request(request))
                && *c == x.controller && *final(c) == controller,
    ensures
        action matches Action::Pg(asked) && asked@ == request@,
        after.phase == before.phase,
        after.xact matches XactType::Surrogate(y) && y.controller@ == controller@ && y.status@
            == x.status@ && node_set::members(y.voted) == node_set::members(x.voted)
            && node_set::members(y.participants) == node_set::members(x.participants),
{
}

/// What was decided is final once the local database has done it, and the transaction ends. What it
/// could not do stays decided, and the transaction is given up.
pub proof fn law_database_finishes<C>(
    before: XactStateManager<C>,
    reply: Result<bool, RollbackReason>,
    after: XactStateManager<C>,
    action: Action<C>,
    x: XactState<SurrogateXactController>,
)
    requires
        exists|m: &mut XactStateManager<C>| #[trigger]
            call_ensures(XactStateManager::<C>::pg_replied, (m, reply), action) && *m == before
                && *final(m) == after,
        before.phase == Phase::Finishing,
        before.xact == XactType::<C>::Surrogate(x),
    ensures
        after.xact is Surrogate,
        after.xact matches XactType::Surrogate(y) ==> {
            let committing = x.controller.progress is ConnectingToCommit || x.controller.progress
                is Committing;
            let rolling_back = x.controller.progress is ConnectingToRollback
                || x.controller.progress is CheckingPrepared || x.controller.progress
                is RollingBack;
            &&& x.status is Committing && x.controller.progress is Committing && reply is Ok
                ==> y.status is Committed && action is Finish && after.phase == Phase::Finished
            &&& x.status is Committing && committing && reply is Err ==> y.status is Committing
                && after.phase == Phase::Stopped && action == Action::<C>::Stop(
                Some(ManagerError::Xact(XactError::CommitFailed)),
            )
            &&& x.status matches XactStatus::Rollbacking(info) ==> {
                &&& (x.controller.progress is RollingBack && reply is Ok) || (x.controller.progress
                    is CheckingPrepared && reply == Ok::<bool, RollbackReason>(false)) ==> (
                y.status matches XactStatus::Rollbacked(done) && done.0 == info.0 && done.1@
                    == info.1@) && action is Finish && after.phase == Phase::Finished
                &&& rolling_back && reply is Err ==> y.status@ == x.status@ && after.phase
                    == Phase::Stopped && action == Action::<C>::Stop(
                    Some(ManagerError::Xact(XactError::RollbackFailed)),
                )
            }
        },
{
}

/// A node whose local database executed the transaction, or failed to, votes. How it stands after
/// that is what it comes to by counting its own vote and those that came before.
pub proof fn law_database_executed<C>(
    before: XactStateManager<C>,
    reply: Result<bool, RollbackReason>,
    after: XactStateManager<C>,
    action: Action<C>,
    x: XactState<SurrogateXactController>,
    reason: Option<RollbackReason>,
    counted: XactState<SurrogateXactController>,
    r: Result<&XactStatus, XactError>,
)
    requires
        exists|m: &mut XactStateManager<C>| #[trigger]
            call_ensures(XactStateManager::<C>::pg_replied, (m, reply), action) && *m == before
                && *final(m) == after,
        before.phase == Phase::Executing,
        before.xact == XactType::<C>::Surrogate(x),
        exists|s: &mut XactState<SurrogateXactController>| #[trigger]
            call_ensures(XactState::<SurrogateXactController>::executed, (s, reason), r) && *s == x
                && *final(s) == counted,
        match (x.controller.progress, reply, reason) {
            (xact_controller::Progress::ConnectingToExecute, Err(e), Some(why)) => e@ == why@,
            (xact_controller::Progress::Beginning, Err(e), Some(why)) => e@ == why@,
            (xact_controller::Progress::Preparing(_), Err(e), Some(why)) => e@ == why@,
            (xact_controller::Progress::Preparing(Some(e)), Ok(_), Some(why)) => e@ == why@,
            (xact_controller::Progress::Preparing(None), Ok(_), None) => true,
            _ => false,
        },
    ensures
        r is Ok ==> action is Vote && after.phase == Phase::SendingVotes,
        r matches Err(e) ==> action == Action::<C>::Stop(Some(ManagerError::Xact(e)))
            && after.phase == Phase::Stopped,
        after.xact matches XactType::Surrogate(y) && y.controller.progress is Idle && y.status@
            == counted.status@ && node_set::members(y.voted) == node_set::members(counted.voted)
            && node_set::members(y.participants) == node_set::members(x.participants),
{
    let why = match reason {
        Some(reason) => Some(reason@),
        None => None,
    };
    let cleared = StateView { pending: Seq::empty(), ..x@ };
    xact::lemma_votes_frame(cleared, state::own_and(x@, why, x@.pending));
}

/// What was decided of a local transaction is final once the one who waits was told, and the
/// transaction ends. If it could not be told the transaction is given up.
pub proof fn law_notified<C>(
    before: XactStateManager<C>,
    ok: bool,
    after: XactStateManager<C>,
    action: Action<C>,
    x: XactState<crate::pg::xact_controller::LocalXactController<C>>,
)
    requires
        exists|m: &mut XactStateManager<C>| #[trigger]
            call_ensures(XactStateManager::<C>::notified, (m, ok), action) && *m == before
                && *final(m) == after,
        before.xact == XactType::<C>::Local(x),
    ensures
        after.xact is Local,
        after.xact matches XactType::Local(y) ==> {
            &&& x.status is Committing && ok ==> y.status is Committed && action is Finish
                && after.phase == Phase::Finished
            &&& x.status is Committing && !ok ==> y.status is Committing && after.phase
                == Phase::Stopped && action == Action::<C>::Stop(
                Some(ManagerError::Xact(XactError::CommitFailed)),
            )
            &&& x.status matches XactStatus::Rollbacking(info) ==> {
                &&& ok ==> (y.status matches XactStatus::Rollbacked(done) && done.0 == info.0
                    && done.1@ == info.1@) && action is Finish && after.phase == Phase::Finished
                &&& !ok ==> y.status@ == x.status@ && after.phase == Phase::Stopped && action
                    == Action::<C>::Stop(Some(ManagerError::Xact(XactError::RollbackFailed)))
            }
        },
        after.xact_id == before.xact_id,
        after.node_id == before.node_id,
        after.coordinator_id == before.coordinator_id,
        after.measuring == before.measuring,
{
}

/// What answers of the local database never change.
pub proof fn law_database_keeps<C>(
    before: XactStateManager<C>,
    reply: Result<bool, RollbackReason>,
    after: XactStateManager<C>,
    action: Action<C>,
)
    requires
        exists|m: &mut XactStateManager<C>| #[trigger]
            call_ensures(XactStateManager::<C>::pg_replied, (m, reply), action) && *m == before
                && *final(m) == after,
    ensures
        after.xact_id == before.xact_id,
        after.node_id == before.node_id,
        after.coordinator_id == before.coordinator_id,
        after.measuring == before.measuring,
        action is Vote ==> before.phase == Phase::Executing,
        action !is Prepare && action !is Notify,
{
}

/// The handling of a message ends when the transaction waits, and goes on after it; it ends for
/// good when the transaction is finished or stops.
pub proof fn law_handler_end<C>(action: Action<C>, r: Option<Result<bool, ManagerError>>)
    requires
        call_ensures(Action::<C>::handler_end, (&action,), r),
    ensures
        r is Some <==> action is Wait || action is Finish || action is Stop,
        action is Wait ==> r == Some(Ok::<bool, ManagerError>(false)),
        action is Finish ==> r == Some(Ok::<bool, ManagerError>(true)),
        action matches Action::Stop(error) ==> match error {
            None => r == Some(Ok::<bool, ManagerError>(true)),
            Some(e) => r == Some(Err::<bool, ManagerError>(e)),
        },
{
}

/// A message is handled as its kind demands: by what handles messages of that kind.
pub proof fn law_handle_local<C>(
    before: XactStateManager<C>,
    data: Bytes,
    commit_tx: C,
    after: XactStateManager<C>,
    r: (Option<Labels>, Action<C>),
    alone: XactStateManager<C>,
    q: (Labels, Action<C>),
)
    requires
        exists|m: &mut XactStateManager<C>| #[trigger]
            call_ensures(
                XactStateManager::<C>::handle_msg,
                (m, XsMessage::LocalXact { data, commit_tx }),
                r,
            ) && *m == before && *final(m) == after,
        exists|m: &mut XactStateManager<C>| #[trigger]
            call_ensures(XactStateManager::<C>::handle_local_xact_msg, (m, data, commit_tx), q)
                && *m == before && *final(m) == alone,
    ensures
        after@ == alone@,
        r.1@ == q.1@,
        r.0 matches Some(labels) && labels@ == q.0@,
{
}

/// A request to prepare a transaction is handled by what handles such requests.
pub proof fn law_handle_prepare<C>(
    before: XactStateManager<C>,
    msg: PrepareMessage,
    after: XactStateManager<C>,
    r: (Option<Labels>, Action<C>),
    alone: XactStateManager<C>,
    q: (Labels, Action<C>),
)
    requires
        exists|m: &mut XactStateManager<C>| #[trigger]
            call_ensures(XactStateManager::<C>::handle_msg, (m, XsMessage::Prepare(msg)), r) && *m
                == before && *final(m) == after,
        exists|m: &mut XactStateManager<C>| #[trigger]
            call_ensures(XactStateManager::<C>::handle_prepare_msg, (m, msg), q) && *m == before
                && *final(m) == alone,
    ensures
        after@ == alone@,
        r.1@ == q.1@,
        r.0 matches Some(labels) && labels@ == q.0@,
{
}

/// A vote is handled by what handles votes. It begins nothing that would be recorded.
pub proof fn law_handle_vote<C>(
    before: XactStateManager<C>,
    msg: VoteMessage,
    after: XactStateManager<C>,
    r: (Option<Labels>, Action<C>),
    alone: XactStateManager<C>,
    action: Action<C>,
)
    requires
        exists|m: &mut XactStateManager<C>| #[trigger]
            call_ensures(XactStateManager::<C>::handle_msg, (m, XsMessage::Vote(msg)), r) && *m
                == before && *final(m) == after,
        exists|m: &mut XactStateManager<C>| #[trigger]
            call_ensures(XactStateManager::<C>::handle_vote_msg, (m, msg), action) && *m == before
                && *final(m) == alone,
    ensures
        after@ == alone@,
        r.1@ == action@,
        r.0 is None,
{
}

/// A transaction is taken in only once, and nothing is taken in while something is under way. On a
/// machine with 64-bit sizes that is all for messages of other nodes.
pub proof fn law_accepts<C>(m: XactStateManager<C>, msg: XsMessage<C>, b: bool)
    requires
        call_ensures(XactStateManager::<C>::accepts, (&m, &msg), b),
        usize::MAX > u32::MAX,
    ensures
        msg is Vote ==> (b <==> m.phase == Phase::Idle),
        msg is Prepare ==> (b <==> m.phase == Phase::Idle && m.xact is Unknown),
        msg is LocalXact ==> (b ==> m.phase == Phase::Idle && m.xact is Unknown),
{
}

/// A transaction of the local database on which no vote came before waits for the votes of others
/// unless this node takes part in it alone. One that cannot be decoded is never decided at once.
pub proof fn law_would_wait<C>(
    m: XactStateManager<C>,
    data: Bytes,
    b: bool,
    taken: bool,
    commit_tx: C,
)
    requires
        call_ensures(XactStateManager::<C>::would_wait, (&m, &data), b),
        call_ensures(
            XactStateManager::<C>::accepts,
            (&m, &XsMessage::LocalXact { data, commit_tx }),
            taken,
        ),
        m.xact matches XactType::Unknown(votes) && votes@.len() == 0,
    ensures
        ({
            let s = buf::unread(data);
            let whole = s.len() >= 20 && s.len() - 16 >= four(s, 12);
            let takes_part = |i: usize| i < 64 && (eight(s, 4) / pow2(i as nat) as int) % 2 == 1;
            &&& !b <==> whole && forall|i: usize| #[trigger] takes_part(i) <==> i == m.node_id.0
            &&& taken <==> b && m.phase == Phase::Idle
        }),
{
    let s = buf::unread(data);
    let whole = s.len() >= 20 && s.len() - 16 >= four(s, 12);
    let takes_part = |i: usize| i < 64 && (eight(s, 4) / pow2(i as nat) as int) % 2 == 1;
    lemma_decoded(s);
    if whole {
        let all = crate::decoder::decoded(s)->Ok_0.header.participants;
        let new = state::new_state(XactId(0), m.node_id, m.node_id, all);
        let waiting = StateView { status: StatusView::Waiting, ..new };
        assert(m@.xact.early_votes().len() == 0);
        let votes = state::own_and(new, None, m@.xact.early_votes());
        assert(votes.drop_first().len() == 0);
        assert(votes[0].from == m.node_id && votes[0].rollback_reason is None);
        let next = state::after_vote(waiting, votes[0]);
        assert(state::after_votes(next, votes.drop_first()) == next);
        assert(state::all_taken(next, votes.drop_first()));
        let one = Set::<usize>::empty().insert(m.node_id.0 as usize);
        assert(next.voted == one);
        assert forall|i: usize| all.contains(i) <==> #[trigger] takes_part(i) by {}
        if forall|i: usize| #[trigger] takes_part(i) <==> i == m.node_id.0 {
            assert forall|i: usize| one.contains(i) <==> all.contains(i) by {
                assert(takes_part(i) <==> i == m.node_id.0);
            }
            assert(one =~= all);
        } else if one == all {
            assert forall|i: usize| #[trigger] takes_part(i) <==> i == m.node_id.0 by {
                assert(one.contains(i) <==> all.contains(i));
            }
        }
    }
}

/// A transaction is recorded under the numbers of the node and of its coordinator, in decimal
/// digits, and under whether they are the same.
pub proof fn law_labels(node: NodeId, coordinator: NodeId, labels: Labels)
    requires
        call_ensures(Labels::new, (node, coordinator), labels),
    ensures
        labels.region@ == text::decimal(node.0 as nat),
        labels.coordinator@ == text::decimal(coordinator.0 as nat),
        node == coordinator ==> labels.is_local@ == "true"@,
        node != coordinator ==> labels.is_local@ == "false"@,
{
}

/// The labels under which the beginning of a transaction is recorded are those of this node and of
/// the node that coordinates it.
pub proof fn law_begin_labels<C>(
    before: XactStateManager<C>,
    data: Bytes,
    commit_tx: C,
    after: XactStateManager<C>,
    r: (Labels, Action<C>),
    msg: PrepareMessage,
    asked: XactStateManager<C>,
    q: (Labels, Action<C>),
    local: Labels,
    surrogate: Labels,
)
    requires
        exists|m: &mut XactStateManager<C>| #[trigger]
            call_ensures(XactStateManager::<C>::handle_local_xact_msg, (m, data, commit_tx), r)
                && *m == before && *final(m) == after,
        exists|m: &mut XactStateManager<C>| #[trigger]
            call_ensures(XactStateManager::<C>::handle_prepare_msg, (m, msg), q) && *m == before
                && *final(m) == asked,
        call_ensures(Labels::new, (before.node_id, before.node_id), local),
        call_ensures(Labels::new, (before.node_id, NodeId(msg.from)), surrogate),
    ensures
        r.0@ == local@,
        q.0@ == surrogate@,
{
}

/// The end of a transaction is recorded under the labels of its beginning, and under why it was
/// rolled back, if it was. Nothing more is recorded after that.
pub proof fn law_end<C>(
    before: XactStateManager<C>,
    after: XactStateManager<C>,
    r: (Labels, &'static str),
    coordinator: NodeId,
    labels: Labels,
)
    requires
        exists|m: &mut XactStateManager<C>| #[trigger]
            call_ensures(XactStateManager::<C>::end_xact_measurement, (m,), r) && *m == before
                && *final(m) == after,
        before.coordinator_id == Some(coordinator),
        call_ensures(Labels::new, (before.node_id, coordinator), labels),
    ensures
        !after.measuring,
        after.phase == Phase::Stopped,
        after.xact@ == before.xact@,
        after.xact_id == before.xact_id,
        after.node_id == before.node_id,
        after.coordinator_id == before.coordinator_id,
        r.0@ == labels@,
        before.xact matches XactType::Local(x) ==> {
            &&& x.status is Committed ==> r.1@ == "none"@
            &&& x.status matches XactStatus::Rollbacked(info) ==> is_label_of(info.1, r.1@)
        },
        before.xact matches XactType::Surrogate(x) ==> {
            &&& x.status is Committed ==> r.1@ == "none"@
            &&& x.status matches XactStatus::Rollbacked(info) ==> is_label_of(info.1, r.1@)
        },
{
}

/// Whether a text is the label of a reason to roll back: that of its SQLSTATE code where the
/// database gave it, one of those that have a label or any other.
pub open spec fn is_label_of(reason: RollbackReason, label: Seq<char>) -> bool {
    match reason {
        RollbackReason::Other(_) => label == "other"@,
        RollbackReason::Db(err) => {
            let deadlock = err.code@ == seq![0x34u8, 0x30, 0x50, 0x30, 0x31];
            let serialization = err.code@ == seq![0x34u8, 0x30, 0x30, 0x30, 0x31];
            let unknown = err.code@ == seq![0x34u8, 0x30, 0x30, 0x30, 0x33];
            &&& deadlock ==> label == "deadlock"@
            &&& serialization ==> label == "serialization_failure"@
            &&& unknown ==> label == "statement_completion_unknown"@
            &&& !deadlock && !serialization && !unknown ==> label == "other_sql"@
        },
    }
}

/// A finished transaction has a label, and no other has: `none` if it was committed, and otherwise
/// that of the reason for which it was rolled back.
pub proof fn law_status_label(status: XactStatus, label: Option<&'static str>)
    requires
        call_ensures(metrics::get_rollback_reason_label, (&status,), label),
    ensures
        label is Some <==> status is Committed || status is Rollbacked,
        status is Committed ==> (label matches Some(text) && text@ == "none"@),
        status matches XactStatus::Rollbacked(info) ==> (label matches Some(text) && is_label_of(
            info.1,
            text@,
        )),
{
}

/// Every finished transaction has a label but one that was rolled back for a database error whose
/// code is not text.
pub proof fn law_has_label<C>(m: XactStateManager<C>, b: bool)
    requires
        call_ensures(XactStateManager::<C>::has_label, (&m,), b),
    ensures
        !b <==> exists|info: crate::vote::RollbackInfo| #[trigger]
            m.xact@.status() == StatusView::Rollbacked(info@) && (
            info.1 matches RollbackReason::Db(err) && !vstd::utf8::valid_utf8(err.code@)),
{
}

} // verus!
