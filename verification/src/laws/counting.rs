//! Votes that are counted together are counted one after the other.
use crate::buf;
use crate::decoder::RWSet;
use crate::id::{NodeId, XactId};
use crate::manager::xact_state_manager::{Action, ManagerError, Phase, XactStateManager};
use crate::metrics::Labels;
use crate::node_set;
use crate::pg::xact_controller::{LocalXactController, SurrogateXactController};
use crate::proto::PrepareMessage;
use crate::vote::{RollbackReason, Vote, VoteView};
use crate::xact::state::{self, InitStep, StateView, XactState};
use crate::xact::{self, StatusView, XactError, XactStatus, XactStep, XactType};
use bit_set::BitSet;
use bytes::Bytes;
use vstd::prelude::*;

verus! {

/// Whether each state but the first is what a vote makes of the one before, and all are taken.
spec fn linked(states: Seq<StateView>, votes: Seq<VoteView>) -> bool {
    &&& states.len() == votes.len() + 1
    &&& forall|i: int|
        0 <= i < votes.len() ==> states[i + 1] == state::after_vote(states[i], #[trigger] votes[i])
            && state::takes_votes(states[i].status)
}

proof fn lemma_linked(states: Seq<StateView>, votes: Seq<VoteView>, more: Seq<VoteView>)
    requires
        linked(states, votes),
    ensures
        state::after_votes(states[0], votes + more) == state::after_votes(states.last(), more),
        state::all_taken(states[0], votes + more) == state::all_taken(states.last(), more),
    decreases votes.len(),
{
    let all = votes + more;
    if votes.len() == 0 {
        assert(all == more);
    } else {
        let rest = votes.drop_first();
        let from = states.drop_first();
        assert forall|i: int| 0 <= i < rest.len() implies from[i + 1] == state::after_vote(
            from[i],
            #[trigger] rest[i],
        ) && state::takes_votes(from[i].status) by {
            assert(rest[i] == votes[i + 1]);
        }
        lemma_linked(from, rest, more);
        assert(all[0] == votes[0]);
        assert(all.drop_first() == rest + more);
        assert(from[0] == state::after_vote(states[0], votes[0]));
    }
}

/// What the states of a transaction hold.
spec fn views<C>(states: Seq<XactState<C>>) -> Seq<StateView> {
    states.map_values(|s: XactState<C>| s@)
}

/// The coordinator of a transaction counts its own vote, and then those that came before in their
/// order, one after the other.
pub proof fn law_initialize_counts<C>(
    before: XactState<C>,
    existing: Vec<Vote>,
    after: XactState<C>,
    r: Result<InitStep, XactError>,
    own: Vote,
    states: Seq<XactState<C>>,
    votes: Seq<Vote>,
)
    requires
        exists|x: &mut XactState<C>| #[trigger]
            call_ensures(XactState::<C>::initialize, (x, existing), r) && *x == before && *final(x)
                == after,
        before.status is Uninitialized,
        before.node_id == before.coordinator,
        states[0] == (XactState { status: XactStatus::Waiting, ..before }),
        own == (Vote { from: before.node_id, rollback_reason: None }),
        votes == seq![own] + existing@,
        states.len() == votes.len() + 1,
        forall|i: int|
            #![trigger votes[i]]
            0 <= i < votes.len() ==> exists|x: &mut XactState<C>, r: Result<&XactStatus, XactError>|
             #[trigger]
                call_ensures(XactState::<C>::add_vote, (x, votes[i]), r) && *x == states[i]
                    && *final(x) == states[i + 1] && r is Ok,
    ensures
        r == Ok::<InitStep, XactError>(InitStep::Initialized),
        after.status@ == states.last().status@,
        node_set::members(after.voted) == node_set::members(states.last().voted),
        node_set::members(after.participants) == node_set::members(before.participants),
{
    let (vs, ws) = (views(states), state::votes_view(votes));
    assert forall|i: int| 0 <= i < ws.len() implies vs[i + 1] == state::after_vote(
        vs[i],
        #[trigger] ws[i],
    ) && state::takes_votes(vs[i].status) by {
        assert(ws[i] == votes[i]@);
    }
    lemma_linked(vs, ws, Seq::empty());
    assert(state::votes_view(votes) + Seq::<VoteView>::empty() == state::own_and(
        before@,
        None,
        state::votes_view(existing@),
    ));
    let waiting = StateView { status: StatusView::Waiting, ..before@ };
    assert(states[0]@ == waiting);
    xact::lemma_votes_frame(waiting, state::own_and(before@, None, state::votes_view(existing@)));
}

/// Of the votes that came before, those after the first that is refused are not counted, and the
/// error is that of the refused one.
pub proof fn law_initialize_refused<C>(
    before: XactState<C>,
    existing: Vec<Vote>,
    after: XactState<C>,
    r: Result<InitStep, XactError>,
    own: Vote,
    states: Seq<XactState<C>>,
    votes: Seq<Vote>,
    k: int,
    unchanged: XactState<C>,
)
    requires
        exists|x: &mut XactState<C>| #[trigger]
            call_ensures(XactState::<C>::initialize, (x, existing), r) && *x == before && *final(x)
                == after,
        before.status is Uninitialized,
        before.node_id == before.coordinator,
        states[0] == (XactState { status: XactStatus::Waiting, ..before }),
        own == (Vote { from: before.node_id, rollback_reason: None }),
        0 <= k < existing@.len(),
        votes == seq![own] + existing@.take(k),
        states.len() == votes.len() + 1,
        forall|i: int|
            #![trigger votes[i]]
            0 <= i < votes.len() ==> exists|x: &mut XactState<C>, r: Result<&XactStatus, XactError>|
             #[trigger]
                call_ensures(XactState::<C>::add_vote, (x, votes[i]), r) && *x == states[i]
                    && *final(x) == states[i + 1] && r is Ok,
        exists|x: &mut XactState<C>, r: Result<&XactStatus, XactError>| #[trigger]
            call_ensures(XactState::<C>::add_vote, (x, existing@[k]), r) && *x == states.last()
                && *final(x) == unchanged && r is Err,
    ensures
        r == Err::<InitStep, XactError>(XactError::AlreadyCommitting),
        after.status@ == states.last().status@,
        node_set::members(after.voted) == node_set::members(states.last().voted),
{
    let more = state::votes_view(existing@.skip(k + 1));
    let (vs, ws) = (views(states), state::votes_view(votes));
    assert forall|i: int| 0 <= i < ws.len() implies vs[i + 1] == state::after_vote(
        vs[i],
        #[trigger] ws[i],
    ) && state::takes_votes(vs[i].status) by {
        assert(ws[i] == votes[i]@);
    }
    lemma_linked(vs, ws, seq![existing@[k]@] + more);
    assert(!state::takes_votes(states.last()@.status));
    assert(state::votes_view(votes) + (seq![existing@[k]@] + more) == state::own_and(
        before@,
        None,
        state::votes_view(existing@),
    ));
    assert(states[0]@ == (StateView { status: StatusView::Waiting, ..before@ }));
}

/// A node that executed a transaction, or failed to, counts its own vote, and then those that came
/// before in their order, one after the other. None of them waits after that.
pub proof fn law_executed_counts<C>(
    before: XactState<C>,
    reason: Option<RollbackReason>,
    after: XactState<C>,
    r: Result<&XactStatus, XactError>,
    own: Vote,
    states: Seq<XactState<C>>,
    votes: Seq<Vote>,
)
    requires
        exists|x: &mut XactState<C>| #[trigger]
            call_ensures(XactState::<C>::executed, (x, reason), r) && *x == before && *final(x)
                == after,
        states[0].status@ == before.status@,
        states[0].xact_id == before.xact_id,
        states[0].node_id == before.node_id,
        states[0].coordinator == before.coordinator,
        node_set::members(states[0].participants) == node_set::members(before.participants),
        node_set::members(states[0].voted) == node_set::members(before.voted),
        states[0].pending@.len() == 0,
        own == (Vote { from: before.node_id, rollback_reason: reason }),
        votes == seq![own] + before.pending@,
        states.len() == votes.len() + 1,
        forall|i: int|
            #![trigger votes[i]]
            0 <= i < votes.len() ==> exists|x: &mut XactState<C>, r: Result<&XactStatus, XactError>|
             #[trigger]
                call_ensures(XactState::<C>::add_vote, (x, votes[i]), r) && *x == states[i]
                    && *final(x) == states[i + 1] && r is Ok,
    ensures
        r matches Ok(status) && status@ == after.status@,
        after.status@ == states.last().status@,
        node_set::members(after.voted) == node_set::members(states.last().voted),
        after.pending@.len() == 0,
{
    let why = crate::vote::reason_view(reason);
    let (vs, ws) = (views(states), state::votes_view(votes));
    assert forall|i: int| 0 <= i < ws.len() implies vs[i + 1] == state::after_vote(
        vs[i],
        #[trigger] ws[i],
    ) && state::takes_votes(vs[i].status) by {
        assert(ws[i] == votes[i]@);
    }
    lemma_linked(vs, ws, Seq::empty());
    assert(state::votes_view(votes) + Seq::<VoteView>::empty() == state::own_and(
        before@,
        why,
        before@.pending,
    ));
    let cleared = StateView { pending: Seq::empty(), ..before@ };
    assert(states[0]@.pending =~= Seq::<VoteView>::empty());
    assert(states[0]@ == cleared);
    xact::lemma_votes_frame(cleared, state::own_and(before@, why, before@.pending));
    assert(after@.pending.len() == after.pending@.len());
}

/// Of the votes that waited for an execution, those after the first that is refused are not
/// counted, and the error is that of the refused one.
pub proof fn law_executed_refused<C>(
    before: XactState<C>,
    reason: Option<RollbackReason>,
    after: XactState<C>,
    r: Result<&XactStatus, XactError>,
    own: Vote,
    states: Seq<XactState<C>>,
    votes: Seq<Vote>,
    k: int,
    unchanged: XactState<C>,
)
    requires
        exists|x: &mut XactState<C>| #[trigger]
            call_ensures(XactState::<C>::executed, (x, reason), r) && *x == before && *final(x)
                == after,
        states[0].status@ == before.status@,
        states[0].xact_id == before.xact_id,
        states[0].node_id == before.node_id,
        states[0].coordinator == before.coordinator,
        node_set::members(states[0].participants) == node_set::members(before.participants),
        node_set::members(states[0].voted) == node_set::members(before.voted),
        states[0].pending@.len() == 0,
        own == (Vote { from: before.node_id, rollback_reason: reason }),
        0 <= k < before.pending@.len(),
        votes == seq![own] + before.pending@.take(k),
        states.len() == votes.len() + 1,
        forall|i: int|
            #![trigger votes[i]]
            0 <= i < votes.len() ==> exists|x: &mut XactState<C>, r: Result<&XactStatus, XactError>|
             #[trigger]
                call_ensures(XactState::<C>::add_vote, (x, votes[i]), r) && *x == states[i]
                    && *final(x) == states[i + 1] && r is Ok,
        exists|x: &mut XactState<C>, r: Result<&XactStatus, XactError>| #[trigger]
            call_ensures(XactState::<C>::add_vote, (x, before.pending@[k]), r) && *x
                == states.last() && *final(x) == unchanged && r is Err,
    ensures
        r == Err::<&XactStatus, XactError>(XactError::AlreadyCommitting),
        after.status@ == states.last().status@,
        node_set::members(after.voted) == node_set::members(states.last().voted),
{
    let why = crate::vote::reason_view(reason);
    let more = state::votes_view(before.pending@.skip(k + 1));
    let (vs, ws) = (views(states), state::votes_view(votes));
    assert forall|i: int| 0 <= i < ws.len() implies vs[i + 1] == state::after_vote(
        vs[i],
        #[trigger] ws[i],
    ) && state::takes_votes(vs[i].status) by {
        assert(ws[i] == votes[i]@);
    }
    lemma_linked(vs, ws, seq![before.pending@[k]@] + more);
    assert(!state::takes_votes(states.last()@.status));
    assert(state::votes_view(votes) + (seq![before.pending@[k]@] + more) == state::own_and(
        before@,
        why,
        before@.pending,
    ));
    let cleared = StateView { pending: Seq::empty(), ..before@ };
    assert(states[0]@.pending =~= Seq::<VoteView>::empty());
    assert(states[0]@ == cleared);
}

/// A local transaction is initialized as any transaction is that this node coordinates.
pub proof fn law_local_initialized<C>(
    before: XactType<C>,
    node_id: NodeId,
    participants: BitSet,
    commit_tx: C,
    after: XactType<C>,
    r: Result<&XactStatus, XactError>,
    early: Vec<Vote>,
    controller: LocalXactController<C>,
    xact_id: XactId,
    new: XactState<LocalXactController<C>>,
    begun: XactState<LocalXactController<C>>,
    q: Result<InitStep, XactError>,
)
    requires
        exists|x: &mut XactType<C>| #[trigger]
            call_ensures(
                XactType::<C>::init_as_local,
                (x, node_id, node_id, participants, commit_tx),
                r,
            ) && *x == before && *final(x) == after,
        before == XactType::<C>::Unknown(early),
        call_ensures(XactId::invalid, (), xact_id),
        call_ensures(
            XactState::<LocalXactController<C>>::new,
            (xact_id, node_id, node_id, participants, controller),
            new,
        ),
        exists|x: &mut XactState<LocalXactController<C>>| #[trigger]
            call_ensures(XactState::<LocalXactController<C>>::initialize, (x, early), q) && *x
                == new && *final(x) == begun,
    ensures
        after matches XactType::Local(t) && t@ == begun@ && t.controller.commit_tx == Some(
            commit_tx,
        ),
        r is Ok <==> q is Ok,
        q matches Err(e) ==> r == Err::<&XactStatus, XactError>(e),
{
}

/// A local transaction of another coordinator needs no execution either: this node votes for it at
/// once.
pub proof fn law_local_of_other<C>(
    before: XactType<C>,
    node_id: NodeId,
    coordinator: NodeId,
    participants: BitSet,
    commit_tx: C,
    after: XactType<C>,
    r: Result<&XactStatus, XactError>,
    early: Vec<Vote>,
    controller: LocalXactController<C>,
    xact_id: XactId,
    new: XactState<LocalXactController<C>>,
    begun: XactState<LocalXactController<C>>,
    executed: XactState<LocalXactController<C>>,
    q: Result<&XactStatus, XactError>,
)
    requires
        exists|x: &mut XactType<C>| #[trigger]
            call_ensures(
                XactType::<C>::init_as_local,
                (x, node_id, coordinator, participants, commit_tx),
                r,
            ) && *x == before && *final(x) == after,
        before == XactType::<C>::Unknown(early),
        node_id != coordinator,
        call_ensures(XactId::invalid, (), xact_id),
        call_ensures(
            XactState::<LocalXactController<C>>::new,
            (xact_id, node_id, coordinator, participants, controller),
            new,
        ),
        exists|x: &mut XactState<LocalXactController<C>>| #[trigger]
            call_ensures(
                XactState::<LocalXactController<C>>::initialize,
                (x, early),
                Ok(InitStep::Execute),
            ) && *x == new && *final(x) == begun,
        exists|x: &mut XactState<LocalXactController<C>>| #[trigger]
            call_ensures(XactState::<LocalXactController<C>>::executed, (x, None), q) && *x == begun
                && *final(x) == executed,
    ensures
        after matches XactType::Local(t) && t@ == executed@ && t.controller.commit_tx == Some(
            commit_tx,
        ),
        r is Ok <==> q is Ok,
        q matches Err(e) ==> r == Err::<&XactStatus, XactError>(e),
{
}

/// A transaction of another node is initialized as any transaction is. It is executed if that is
/// still to be done.
pub proof fn law_surrogate_initialized<C>(
    before: XactType<C>,
    xact_id: XactId,
    node_id: NodeId,
    coordinator: NodeId,
    participants: BitSet,
    data: Bytes,
    after: XactType<C>,
    r: Result<XactStep<C>, XactError>,
    early: Vec<Vote>,
    controller: SurrogateXactController,
    new: XactState<SurrogateXactController>,
    begun: XactState<SurrogateXactController>,
    q: Result<InitStep, XactError>,
)
    requires
        exists|x: &mut XactType<C>| #[trigger]
            call_ensures(
                XactType::<C>::init_as_surrogate,
                (x, xact_id, node_id, coordinator, participants, data),
                r,
            ) && *x == before && *final(x) == after,
        before == XactType::<C>::Unknown(early),
        call_ensures(
            XactState::<SurrogateXactController>::new,
            (xact_id, node_id, coordinator, participants, controller),
            new,
        ),
        exists|x: &mut XactState<SurrogateXactController>| #[trigger]
            call_ensures(XactState::<SurrogateXactController>::initialize, (x, early), q) && *x
                == new && *final(x) == begun,
    ensures
        after matches XactType::Surrogate(t) && t@ == begun@ && t.controller.xact_id == xact_id
            && buf::unread(t.controller.data) == buf::unread(data) && (
        t.controller.progress is ConnectingToExecute <==> q == Ok::<InitStep, XactError>(
            InitStep::Execute,
        )),
        q == Ok::<InitStep, XactError>(InitStep::Execute) ==> (r matches Ok(XactStep::Pg(request))
            && request is Connect),
        q == Ok::<InitStep, XactError>(InitStep::Initialized) ==> r matches Ok(XactStep::Nothing),
        q matches Err(e) ==> r == Err::<XactStep<C>, XactError>(e),
{
}

/// A transaction of the local database that could be initialized is announced, and any other is
/// given up.
pub proof fn law_local_announced<C>(
    before: XactStateManager<C>,
    data: Bytes,
    commit_tx: C,
    after: XactStateManager<C>,
    r: (Labels, Action<C>),
    rwset: RWSet,
    x: XactType<C>,
    q: Result<&XactStatus, XactError>,
)
    requires
        exists|m: &mut XactStateManager<C>| #[trigger]
            call_ensures(XactStateManager::<C>::handle_local_xact_msg, (m, data, commit_tx), r)
                && *m == before && *final(m) == after,
        before.xact is Unknown,
        call_ensures(RWSet::decode, (data,), Ok(rwset)),
        exists|t: &mut XactType<C>| #[trigger]
            call_ensures(
                XactType::<C>::init_as_local,
                (t, before.node_id, before.node_id, rwset.header.participants, commit_tx),
                q,
            ) && *t == before.xact && *final(t) == x,
    ensures
        after.xact@ == x@,
        q is Ok ==> r.1 is Prepare && after.phase == Phase::SendingPrepares,
        q matches Err(e) ==> r.1 == Action::<C>::Stop(Some(ManagerError::Xact(e))) && after.phase
            == Phase::Stopped,
{
    assert(rwset@.header.participants == node_set::members(rwset.header.participants));
}

/// A transaction of another node that this one takes part in is executed, voted on or given up as
/// it was initialized.
pub proof fn law_surrogate_announced<C>(
    before: XactStateManager<C>,
    msg: PrepareMessage,
    after: XactStateManager<C>,
    r: (Labels, Action<C>),
    data: Bytes,
    rwset: RWSet,
    x: XactType<C>,
    q: Result<XactStep<C>, XactError>,
)
    requires
        exists|m: &mut XactStateManager<C>| #[trigger]
            call_ensures(XactStateManager::<C>::handle_prepare_msg, (m, msg), r) && *m == before
                && *final(m) == after,
        before.xact is Unknown,
        buf::unread(data) == msg.data@,
        call_ensures(RWSet::decode, (data,), Ok(rwset)),
        node_set::members(rwset.header.participants).contains(before.node_id.0 as usize),
        exists|t: &mut XactType<C>| #[trigger]
            call_ensures(
                XactType::<C>::init_as_surrogate,
                (
                    t,
                    before.xact_id,
                    before.node_id,
                    NodeId(msg.from),
                    rwset.header.participants,
                    data,
                ),
                q,
            ) && *t == before.xact && *final(t) == x,
    ensures
        after.xact@ == x@,
        q matches Ok(XactStep::Pg(request)) ==> after.phase == Phase::Executing && (
        r.1 matches Action::Pg(asked) && asked@ == request@),
        q matches Ok(XactStep::Nothing) ==> r.1 is Vote && after.phase == Phase::SendingVotes,
        q matches Err(e) ==> r.1 == Action::<C>::Stop(Some(ManagerError::Xact(e))) && after.phase
            == Phase::Stopped,
{
    assert(rwset@.header.participants == node_set::members(rwset.header.participants));
}

/// Whether a transaction of the local database would wait is what comes of initializing it: it
/// would not if it is decided at once.
pub proof fn law_trial<C>(
    m: XactStateManager<C>,
    data: Bytes,
    b: bool,
    rwset: RWSet,
    commit_tx: C,
    x: XactType<C>,
    q: Result<&XactStatus, XactError>,
)
    requires
        call_ensures(XactStateManager::<C>::would_wait, (&m, &data), b),
        m.xact is Unknown,
        call_ensures(RWSet::decode, (data,), Ok(rwset)),
        exists|t: &mut XactType<C>| #[trigger]
            call_ensures(
                XactType::<C>::init_as_local,
                (t, m.node_id, m.node_id, rwset.header.participants, commit_tx),
                q,
            ) && *t == m.xact && *final(t) == x,
    ensures
        !b <==> (q matches Ok(status) && status@ !is Waiting),
{
    assert(rwset@.header.participants == node_set::members(rwset.header.participants));
}

} // verus!
