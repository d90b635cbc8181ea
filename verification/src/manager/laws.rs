//! What holds of the transactions of a node, whatever messages come and whatever becomes of what
//! is sent.
use super::xact_state_manager::{self, ActionView, ManagerError, ManagerView, Phase};
use super::NodeView;
use crate::decoder;
use crate::id::NodeId;
use crate::manager;
use crate::message::XsMessage;
use crate::pg;
use crate::pg::xact_controller::{self, PgStepView, RequestView};
use crate::proto::VoteMessageView;
use crate::vote::{InfoView, ReasonView, VoteView};
use crate::xact::state::{self, StateView};
use crate::xact::{self, StatusView, XactView};
use vstd::prelude::*;

verus! {

/// What happens to a transaction on a node.
pub enum Event<C> {
    LocalXact(Seq<u8>, C),
    Prepare(u32, Seq<u8>),
    Vote(VoteView),
    Sent(bool),
    PgReplied(Result<bool, ReasonView>),
    Notified(bool),
}

/// Whether an event can happen.
pub open spec fn possible<C>(s: ManagerView<C>, event: Event<C>) -> bool {
    match event {
        Event::LocalXact(data, _) => {
            &&& s.phase == Phase::Idle
            &&& s.xact is Unknown
            &&& xact_state_manager::local_waits(s, data)
        },
        Event::Prepare(from, _) => {
            &&& s.phase == Phase::Idle
            &&& s.xact is Unknown
            &&& state::indexable(NodeId(from))
        },
        Event::Vote(vote) => s.phase == Phase::Idle && state::indexable(vote.from),
        Event::Sent(_) => s.phase == Phase::SendingPrepares || s.phase == Phase::SendingVotes,
        Event::PgReplied(_) => s.xact is Surrogate && (s.phase == Phase::Executing || s.phase
            == Phase::Finishing),
        Event::Notified(_) => s.xact is Local && s.phase == Phase::Finishing,
    }
}

/// What an event leads to.
pub open spec fn step<C>(s: ManagerView<C>, event: Event<C>) -> (ManagerView<C>, ActionView<C>) {
    match event {
        Event::LocalXact(data, commit_tx) => xact_state_manager::local_xact(s, data, commit_tx),
        Event::Prepare(from, data) => xact_state_manager::prepare(s, from, data),
        Event::Vote(vote) => xact_state_manager::vote(s, vote),
        Event::Sent(ok) => xact_state_manager::sent(s, ok),
        Event::PgReplied(reply) => xact_state_manager::pg_replied(s, reply),
        Event::Notified(ok) => xact_state_manager::notified(s, ok),
    }
}

/// What is known of a transaction always fits what it waits for.
pub proof fn law_wf<C>(s: ManagerView<C>, event: Event<C>)
    requires
        s.wf(),
        possible(s, event),
    ensures
        step(s, event).0.wf(),
{
    match event {
        Event::LocalXact(data, _) => {
            if let Ok(rwset) = decoder::decoded(data) {
                let new = state::new_state(
                    crate::id::XactId(0),
                    s.node_id,
                    s.node_id,
                    rwset.header.participants,
                );
                let waiting = StateView { status: StatusView::Waiting, ..new };
                xact::lemma_votes_frame(
                    waiting,
                    state::own_and(new, None, s.xact.early_votes()),
                );
            }
        },
        Event::Prepare(from, data) => {
            if let Ok(rwset) = decoder::decoded(data) {
                let new = state::new_state(
                    s.xact_id,
                    s.node_id,
                    NodeId(from),
                    rwset.header.participants,
                );
                let waiting = StateView { status: StatusView::Waiting, ..new };
                let all = state::own_and(new, None, s.xact.early_votes());
                xact::lemma_votes_frame(waiting, all);
                xact_state_manager::lemma_votes_open(waiting, all);
            }
        },
        Event::PgReplied(reply) => {
            if let XactView::Surrogate { state, controller } = s.xact {
                let reason = match xact_controller::next(controller, reply).1 {
                    PgStepView::Finished(Some(failure)) => Some(failure.reason),
                    _ => None,
                };
                let cleared = StateView { pending: Seq::empty(), ..state };
                let all = state::own_and(state, reason, state.pending);
                xact::lemma_votes_frame(cleared, all);
                xact_state_manager::lemma_votes_open(cleared, all);
            }
        },
        _ => {},
    }
}

/// Who takes part in the transaction, if that is known, and who voted for it.
pub open spec fn counted<C>(s: ManagerView<C>) -> Option<StateView> {
    match s.xact {
        XactView::Unknown(_) => None,
        XactView::Local { state, .. } => Some(state),
        XactView::Surrogate { state, .. } => Some(state),
    }
}

/// Whether the decision to commit, where it was made, rests on the vote of each participant and
/// of nobody else.
pub open spec fn consistent<C>(s: ManagerView<C>) -> bool {
    counted(s) matches Some(state) ==> xact::laws::consistent(state)
}

/// No event makes the decision on a transaction inconsistent, or changes which transaction it is.
pub proof fn law_consistent<C>(s: ManagerView<C>, event: Event<C>)
    requires
        s.wf(),
        consistent(s),
        possible(s, event),
    ensures
        consistent(step(s, event).0),
        step(s, event).0.xact_id == s.xact_id,
        step(s, event).0.node_id == s.node_id,
        s.xact !is Unknown ==> step(s, event).0.coordinator_id == s.coordinator_id,
        counted(s) matches Some(before) ==> (counted(step(s, event).0) matches Some(after)
            && xact::laws::same_xact(before, after) && before.voted.subset_of(after.voted)),
{
    match event {
        Event::LocalXact(data, _) => {
            if let Ok(rwset) = decoder::decoded(data) {
                let new = state::new_state(
                    crate::id::XactId(0),
                    s.node_id,
                    s.node_id,
                    rwset.header.participants,
                );
                let waiting = StateView { status: StatusView::Waiting, ..new };
                xact::laws::law_votes_keep(
                    waiting,
                    state::own_and(new, None, s.xact.early_votes()),
                );
            }
        },
        Event::Prepare(from, data) => {
            if let Ok(rwset) = decoder::decoded(data) {
                let new = state::new_state(
                    s.xact_id,
                    s.node_id,
                    NodeId(from),
                    rwset.header.participants,
                );
                let waiting = StateView { status: StatusView::Waiting, ..new };
                xact::laws::law_votes_keep(
                    waiting,
                    state::own_and(new, None, s.xact.early_votes()),
                );
            }
        },
        Event::PgReplied(reply) => {
            if let XactView::Surrogate { state, controller } = s.xact {
                let reason = match xact_controller::next(controller, reply).1 {
                    PgStepView::Finished(Some(failure)) => Some(failure.reason),
                    _ => None,
                };
                xact::laws::law_votes_keep(
                    StateView { pending: Seq::empty(), ..state },
                    state::own_and(state, reason, state.pending),
                );
            }
        },
        _ => {},
    }
}

/// The local database is asked to commit a prepared transaction only when each participant voted
/// for it, and to roll one back only when some node voted against it.
pub proof fn law_pg_decision<C>(s: ManagerView<C>, event: Event<C>)
    requires
        s.wf(),
        consistent(s),
        possible(s, event),
    ensures
        step(s, event).1 == ActionView::<C>::Pg(
            RequestView::BatchExecute(xact_controller::commit_statement(s.xact_id)),
        ) ==> (counted(s) matches Some(state) && state.status is Committing && state.voted
            == state.participants),
        step(s, event).1 == ActionView::<C>::Pg(
            RequestView::BatchExecute(xact_controller::rollback_statement(s.xact_id)),
        ) ==> (counted(s) matches Some(state) && state.status is Rollbacking),
{
    pg::laws::lemma_statements(s.xact_id, s.xact_id);
}

/// The one who waits for a transaction is told that it is committed only when each participant
/// voted for it, and that it is rolled back only with the node that voted against it and why.
pub proof fn law_notice<C>(s: ManagerView<C>, event: Event<C>)
    requires
        s.wf(),
        consistent(s),
        possible(s, event),
    ensures
        step(s, event).1 matches ActionView::Notify(to, info) ==> {
            &&& counted(step(s, event).0) matches Some(state)
            &&& match info {
                None => state.status is Committing && state.voted == state.participants,
                Some(info) => state.status == StatusView::Rollbacking(info),
            }
        },
{
    law_consistent(s, event);
}

/// The one who waits for a transaction and has not been told yet.
pub open spec fn waiting_one<C>(s: ManagerView<C>) -> Option<C> {
    match s.xact {
        XactView::Local { commit_tx, .. } => commit_tx,
        _ => None,
    }
}

/// The one who waits for a transaction is told only once.
pub proof fn law_one_notice<C>(s: ManagerView<C>, event: Event<C>)
    requires
        s.wf(),
        possible(s, event),
    ensures
        step(s, event).1 matches ActionView::Notify(to, _) ==> waiting_one(s) == Some(to)
            && waiting_one(step(s, event).0) is None,
        s.xact !is Unknown && waiting_one(s) is None ==> step(s, event).1 !is Notify
            && waiting_one(step(s, event).0) is None,
{
}

/// The end of a transaction is recorded when it is finished and no sooner.
pub proof fn law_finish<C>(s: ManagerView<C>, event: Event<C>)
    requires
        s.wf(),
        possible(s, event),
    ensures
        step(s, event).1 is Finish <==> step(s, event).0.xact.status().is_terminal(),
        step(s, event).1 is Finish <==> step(s, event).0.phase == Phase::Finished,
{
    match event {
        Event::LocalXact(data, _) => {
            if let Ok(rwset) = decoder::decoded(data) {
                let new = state::new_state(
                    crate::id::XactId(0),
                    s.node_id,
                    s.node_id,
                    rwset.header.participants,
                );
                xact_state_manager::lemma_votes_open(
                    StateView { status: StatusView::Waiting, ..new },
                    state::own_and(new, None, s.xact.early_votes()),
                );
            }
        },
        Event::Prepare(from, data) => {
            if let Ok(rwset) = decoder::decoded(data) {
                let new = state::new_state(
                    s.xact_id,
                    s.node_id,
                    NodeId(from),
                    rwset.header.participants,
                );
                xact_state_manager::lemma_votes_open(
                    StateView { status: StatusView::Waiting, ..new },
                    state::own_and(new, None, s.xact.early_votes()),
                );
            }
        },
        Event::PgReplied(reply) => {
            if let XactView::Surrogate { state, controller } = s.xact {
                let reason = match xact_controller::next(controller, reply).1 {
                    PgStepView::Finished(Some(failure)) => Some(failure.reason),
                    _ => None,
                };
                xact_state_manager::lemma_votes_open(
                    StateView { pending: Seq::empty(), ..state },
                    state::own_and(state, reason, state.pending),
                );
            }
        },
        _ => {},
    }
}

/// A node that tells the others that it votes for a transaction has executed it, or coordinates
/// it, and counts its own vote; a node that votes against it is bound to roll it back.
pub proof fn law_own_vote<C>(s: ManagerView<C>, event: Event<C>)
    requires
        s.wf(),
        possible(s, event),
    ensures
        step(s, event).1 matches ActionView::Vote { to, message } ==> {
            &&& message.from == s.node_id.0
            &&& message.xact_id == s.xact_id.0
            &&& counted(step(s, event).0) matches Some(state)
            &&& match message.rollback_reason {
                None => state.voted.contains(state::index_of(s.node_id)),
                Some(reason) => state.status matches StatusView::Rollbacking(info) && info.reason
                    == reason,
            }
            &&& (event is PgReplied && s.phase == Phase::Executing) || (event matches Event::Prepare(
                from,
                _,
            ) && NodeId(from) == s.node_id)
        },
{
    match event {
        Event::Prepare(from, data) => {
            if let Ok(rwset) = decoder::decoded(data) {
                let new = state::new_state(
                    s.xact_id,
                    s.node_id,
                    NodeId(from),
                    rwset.header.participants,
                );
                let waiting = StateView { status: StatusView::Waiting, ..new };
                let rest = s.xact.early_votes();
                let all = state::own_and(new, None, rest);
                assert(all.drop_first() == rest);
                let first = state::after_vote(waiting, all[0]);
                xact::laws::law_votes_keep(first, rest);
                xact_state_manager::lemma_votes_open(waiting, all);
            }
        },
        Event::PgReplied(reply) => {
            if let XactView::Surrogate { state, controller } = s.xact {
                let reason = match xact_controller::next(controller, reply).1 {
                    PgStepView::Finished(Some(failure)) => Some(failure.reason),
                    _ => None,
                };
                let cleared = StateView { pending: Seq::empty(), ..state };
                let all = state::own_and(state, reason, state.pending);
                assert(all.drop_first() == state.pending);
                let first = state::after_vote(cleared, all[0]);
                xact_state_manager::lemma_votes_open(cleared, all);
                lemma_votes_grow(first, state.pending);
            }
        },
        _ => {},
    }
}

/// Votes are never taken back.
proof fn lemma_votes_grow(s: StateView, votes: Seq<VoteView>)
    ensures
        s.voted.subset_of(state::after_votes(s, votes).voted),
        s.status is Rollbacking ==> state::after_votes(s, votes) == s,
    decreases votes.len(),
{
    if votes.len() > 0 && state::takes_votes(s.status) {
        lemma_votes_grow(state::after_vote(s, votes[0]), votes.drop_first());
    }
}

/// What a node asks of the other participants of a transaction of its database, each of them can
/// do: it finds itself among the participants, takes the sender for the coordinator, and begins to
/// execute the transaction.
pub proof fn law_prepare_is_understood<C>(
    s: ManagerView<C>,
    data: Seq<u8>,
    commit_tx: C,
    other: ManagerView<C>,
)
    requires
        other.xact is Unknown,
        other.xact_id == s.xact_id,
        xact_state_manager::local_xact(s, data, commit_tx).1 matches ActionView::Prepare { to, .. }
            && to.contains(other.node_id),
    ensures
        xact_state_manager::local_xact(s, data, commit_tx).1 matches ActionView::Prepare {
            message,
            ..
        } && message.xact_id == other.xact_id.0 && ({
            let (next, action) = xact_state_manager::prepare(other, message.from, message.data);
            &&& action == ActionView::<C>::Pg(RequestView::Connect)
            &&& next.phase == Phase::Executing
            &&& next.coordinator_id == Some(s.node_id)
            &&& next.xact matches XactView::Surrogate { state, controller }
            &&& controller.data == data
            &&& counted(xact_state_manager::local_xact(s, data, commit_tx).0) matches Some(mine)
            &&& state.participants == mine.participants
        }),
{
    if let Ok(rwset) = decoder::decoded(data) {
        let new = state::new_state(
            crate::id::XactId(0),
            s.node_id,
            s.node_id,
            rwset.header.participants,
        );
        xact::laws::law_votes_keep(
            StateView { status: StatusView::Waiting, ..new },
            state::own_and(new, None, s.xact.early_votes()),
        );
    }
}

/// A vote against a transaction reaches whoever still waits: the node that gets it is bound to roll
/// the transaction back on account of the sender, for the reason that was sent.
pub proof fn law_vote_against_is_followed<C>(
    s: ManagerView<C>,
    message: VoteMessageView,
    reason: ReasonView,
)
    requires
        s.wf(),
        s.phase == Phase::Idle,
        s.xact !is Unknown,
        message.rollback_reason == Some(reason),
    ensures
        ({
            let vote = VoteView {
                from: NodeId(message.from),
                rollback_reason: message.rollback_reason,
            };
            let (next, action) = xact_state_manager::vote(s, vote);
            &&& next.xact.status() == StatusView::Rollbacking(
                InfoView { by: NodeId(message.from), reason },
            )
            &&& s.xact matches XactView::Local { commit_tx: Some(to), .. } ==> action
                == ActionView::Notify(to, Some(InfoView { by: NodeId(message.from), reason }))
            &&& s.xact is Surrogate ==> action == ActionView::<C>::Pg(RequestView::Connect) && (
            next.xact matches XactView::Surrogate { controller, .. } && controller.progress
                is ConnectingToRollback)
        }),
{
}

/// A transaction whose execution fails on a node is voted against by that node, for the reason of
/// the failure.
pub proof fn law_failed_execution<C>(s: ManagerView<C>, reply: Result<bool, ReasonView>)
    requires
        s.wf(),
        s.phase == Phase::Executing,
        s.xact.status() is Waiting,
        s.xact matches XactView::Surrogate { controller, .. } && (xact_controller::next(
            controller,
            reply,
        ).1 matches PgStepView::Finished(Some(_))),
    ensures
        s.xact matches XactView::Surrogate { controller, .. } && (xact_controller::next(
            controller,
            reply,
        ).1 matches PgStepView::Finished(Some(failure)) && (xact_state_manager::pg_replied(
            s,
            reply,
        ).1 matches ActionView::Vote { message, .. } && message.rollback_reason == Some(
            failure.reason,
        ))),
{
    if let XactView::Surrogate { state, controller } = s.xact {
        if let PgStepView::Finished(Some(failure)) = xact_controller::next(controller, reply).1 {
            let cleared = StateView { pending: Seq::empty(), ..state };
            let all = state::own_and(state, Some(failure.reason), state.pending);
            assert(all.drop_first() == state.pending);
            xact::laws::law_votes_after_rollback(
                state::after_vote(cleared, all[0]),
                state.pending,
            );
        }
    }
}

/// The transactions of a node's own database get ever larger numbers, none of which is that of the
/// transaction that no node hands out.
pub proof fn law_local_ids<S, C>(
    earlier: NodeView<S>,
    later: NodeView<S>,
    a: XsMessage<C>,
    b: XsMessage<C>,
)
    requires
        a is LocalXact && b is LocalXact,
        earlier.node_id == later.node_id,
        later.xact_id_counter >= manager::after_message(earlier, a).xact_id_counter,
        earlier.xact_id_counter < u32::MAX,
    ensures
        0 < manager::xact_of(earlier, a) < manager::xact_of(later, b),
{
}

/// No two nodes give the transactions of their databases the same number.
pub proof fn law_ids_of_nodes<S, C>(
    one: NodeView<S>,
    other: NodeView<S>,
    a: XsMessage<C>,
    b: XsMessage<C>,
)
    requires
        a is LocalXact && b is LocalXact,
        one.node_id != other.node_id,
    ensures
        manager::xact_of(one, a) != manager::xact_of(other, b),
{
}

/// A node does nothing about a transaction that it takes no part in.
pub proof fn law_bystander<C>(s: ManagerView<C>, from: u32, data: Seq<u8>)
    requires
        decoder::decoded(data) matches Ok(rwset) && !rwset.header.participants.contains(
            state::index_of(s.node_id),
        ),
    ensures
        xact_state_manager::prepare(s, from, data).1 == ActionView::<C>::Stop(None),
        xact_state_manager::prepare(s, from, data).0.xact == s.xact,
{
}

/// Where the messages on a known transaction go never changes, whatever messages come and whatever
/// other transactions start.
pub proof fn law_route_is_kept<S, C>(
    s: NodeView<S>,
    xact_id: u64,
    msg: XsMessage<C>,
    started: u64,
    tx: S,
)
    requires
        s.xact_state_managers.contains_key(xact_id),
    ensures
        manager::after_message(s, msg).xact_state_managers.contains_key(xact_id),
        manager::after_message(s, msg).xact_state_managers[xact_id] == s.xact_state_managers[xact_id],
        manager::after_start(s, started, tx).xact_state_managers.contains_key(xact_id),
        manager::after_start(s, started, tx).xact_state_managers[xact_id]
            == s.xact_state_managers[xact_id],
{
}

/// Whether a transaction is over with an action.
pub open spec fn ends<C>(action: ActionView<C>) -> bool {
    action is Stop || action is Finish
}

/// Whether an event is a message.
pub open spec fn is_message<C>(event: Event<C>) -> bool {
    event is LocalXact || event is Prepare || event is Vote
}

/// A transaction waits for a message exactly when it says so, and after it stopped or finished
/// nothing happens to it any more.
pub proof fn law_end<C>(s: ManagerView<C>, event: Event<C>)
    requires
        possible(s, event),
    ensures
        step(s, event).1 is Wait <==> step(s, event).0.phase == Phase::Idle,
        ends(step(s, event).1) <==> step(s, event).0.phase == Phase::Finished || step(
            s,
            event,
        ).0.phase == Phase::Stopped,
        ends(step(s, event).1) ==> forall|e: Event<C>| !#[trigger] possible(step(s, event).0, e),
{
}

/// The transaction after a series of events.
pub open spec fn after_all<C>(s: ManagerView<C>, events: Seq<Event<C>>) -> ManagerView<C>
    decreases events.len(),
{
    if events.len() == 0 {
        s
    } else {
        step(after_all(s, events.drop_last()), events.last()).0
    }
}

/// What the last of a series of events leads to.
pub open spec fn last_action<C>(s: ManagerView<C>, events: Seq<Event<C>>) -> ActionView<C> {
    step(after_all(s, events.drop_last()), events.last()).1
}

/// Whether a series of events can happen, one after the other.
pub open spec fn all_possible<C>(s: ManagerView<C>, events: Seq<Event<C>>) -> bool
    decreases events.len(),
{
    events.len() > 0 ==> {
        &&& all_possible(s, events.drop_last())
        &&& possible(after_all(s, events.drop_last()), events.last())
    }
}

/// Messages are handled one at a time, each only after the handling of the one before ended and
/// left the transaction going on. What else happens, happens while a message is being handled.
pub proof fn law_run<C>(s: ManagerView<C>, events: Seq<Event<C>>, i: int)
    requires
        all_possible(s, events),
        0 < i < events.len(),
    ensures
        is_message(events[i]) ==> xact_state_manager::handler_end(last_action(s, events.take(i)))
            == Some(Ok::<bool, ManagerError>(false)),
        !is_message(events[i]) ==> xact_state_manager::handler_end(
            last_action(s, events.take(i)),
        ) is None,
    decreases events.len(),
{
    let rest = events.drop_last();
    if i == events.len() - 1 {
        assert(events.take(i) == rest);
        assert(all_possible(s, rest));
        law_end(after_all(s, rest.drop_last()), rest.last());
    } else {
        assert(rest.take(i) == events.take(i));
        law_run(s, rest, i);
    }
}

/// Once the handling of a message ended with an error, or with the transaction over, no further
/// message is handled, and nothing else happens.
pub proof fn law_run_ends<C>(s: ManagerView<C>, events: Seq<Event<C>>, next: Event<C>)
    requires
        events.len() > 0,
        all_possible(s, events),
        xact_state_manager::handler_end(last_action(s, events)) matches Some(r) && r != Ok::<
            bool,
            ManagerError,
        >(false),
    ensures
        !all_possible(s, events.push(next)),
{
    law_end(after_all(s, events.drop_last()), events.last());
    assert(events.push(next).drop_last() == events);
}

/// Where the handling of a message left the transaction going on, the next vote is handled,
/// whatever it is.
pub proof fn law_run_goes_on<C>(s: ManagerView<C>, events: Seq<Event<C>>, vote: VoteView)
    requires
        events.len() > 0,
        all_possible(s, events),
        xact_state_manager::handler_end(last_action(s, events)) == Some(
            Ok::<bool, ManagerError>(false),
        ),
        state::indexable(vote.from),
    ensures
        all_possible(s, events.push(Event::Vote(vote))),
{
    law_end(after_all(s, events.drop_last()), events.last());
    assert(events.push(Event::Vote(vote)).drop_last() == events);
}

} // verus!
