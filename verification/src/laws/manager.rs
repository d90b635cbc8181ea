//! How one transaction goes on with each event, and who is told of it.
use super::decoding::{eight, four, lemma_decoded};
use crate::buf;
use crate::id::NodeId;
use crate::manager::xact_state_manager::{
    Action, ActionView, ManagerError, Phase, XactStateManager,
};
use crate::metrics::Labels;
use crate::node_set;
use crate::pg::xact_controller::PgRequest;
use crate::proto::PrepareMessage;
use crate::vote::{RollbackReason, Vote};
use crate::xact::state::{self, StateView};
use crate::xact::{self, StatusView, XactError, XactStatus, XactType};
use bytes::Bytes;
use vstd::arithmetic::power2::pow2;
use vstd::prelude::*;

verus! {

/// Once all have got their messages, a decision is carried out: what was decided by all or against
/// by one goes to the local database at once. Only where not all have got theirs is the
/// transaction given up.
pub proof fn law_sent<C>(
    before: XactStateManager<C>,
    ok: bool,
    after: XactStateManager<C>,
    action: Action<C>,
)
    requires
        exists|m: &mut XactStateManager<C>| #[trigger]
            call_ensures(XactStateManager::<C>::sent, (m, ok), action) && *m == before && *final(m)
                == after,
    ensures
        after.xact_id == before.xact_id,
        after.node_id == before.node_id,
        after.coordinator_id == before.coordinator_id,
        after.measuring == before.measuring,
        !ok ==> after.phase == Phase::Stopped && action == Action::<C>::Stop(
            Some(ManagerError::SendFailed),
        ),
        ok && before.phase == Phase::SendingPrepares ==> after.phase == Phase::Idle
            && action is Wait,
        ok && before.phase == Phase::SendingVotes ==> (before.xact matches XactType::Surrogate(x)
            ==> (after.xact matches XactType::Surrogate(y) && y.status@ == x.status@ && (
        x.status is Committing ==> action == Action::<C>::Pg(PgRequest::Connect) && after.phase
            == Phase::Finishing && y.controller.progress is ConnectingToCommit) && (
        x.status is Rollbacking ==> action == Action::<C>::Pg(PgRequest::Connect) && after.phase
            == Phase::Finishing && y.controller.progress is ConnectingToRollback) && (
        x.status is Waiting ==> action is Wait && after.phase == Phase::Idle))),
        ok && before.xact is Surrogate ==> action !is Stop,
{
}

/// A transaction of the local database is announced to every other node that takes part in it,
/// each once, and to nobody else. Who takes part is what the bits of its read/write set say.
pub proof fn law_prepares<C>(
    before: XactStateManager<C>,
    data: Bytes,
    commit_tx: C,
    after: XactStateManager<C>,
    r: (Labels, Action<C>),
)
    requires
        exists|m: &mut XactStateManager<C>| #[trigger]
            call_ensures(XactStateManager::<C>::handle_local_xact_msg, (m, data, commit_tx), r)
                && *m == before && *final(m) == after,
    ensures
        ({
            let s = buf::unread(data);
            let whole = s.len() >= 20 && s.len() - 16 >= four(s, 12);
            &&& after.xact_id == before.xact_id && after.node_id == before.node_id
            &&& after.coordinator_id == Some(before.node_id) && after.measuring
            &&& !whole <==> (r.1 matches Action::Stop(Some(ManagerError::Decode(_))))
            &&& !whole ==> after.phase == Phase::Stopped
            &&& whole ==> r.1 is Prepare || r.1 == Action::<C>::Stop(
                Some(ManagerError::Xact(XactError::AlreadyCommitting)),
            )
            &&& r.1 matches Action::Prepare { to, message } ==> {
                &&& after.phase == Phase::SendingPrepares
                &&& forall|p: NodeId| #[trigger]
                    to@.contains(p) <==> p != before.node_id && p.0 < 64 && (eight(s, 4) / pow2(
                        p.0 as nat,
                    ) as int) % 2 == 1
                &&& forall|i: int, j: int| 0 <= i < j < to@.len() ==> to@[i].0 < to@[j].0
                &&& message.from == before.node_id.0
                &&& message.xact_id == before.xact_id.0
                &&& message.data@ == s
            }
        }),
{
    let s = buf::unread(data);
    lemma_decoded(s);
    if let Action::Prepare { to, message } = r.1 {
        let all = crate::decoder::decoded(s)->Ok_0.header.participants;
        assert(r.1.sends_once());
        assert forall|p: NodeId| #[trigger]
            to@.contains(p) <==> p != before.node_id && p.0 < 64 && (eight(s, 4) / pow2(
                p.0 as nat,
            ) as int) % 2 == 1 by {
            assert(to@.to_set().contains(p) <==> to@.contains(p));
            assert(all.contains(p.0 as usize) <==> p.0 < 64 && (eight(s, 4) / pow2(
                p.0 as nat,
            ) as int) % 2 == 1);
        }
    }
}

/// A transaction of the local database on which no vote came before is announced, and the one who
/// waits for it is kept. This node votes for it.
pub proof fn law_local_begins<C>(
    before: XactStateManager<C>,
    data: Bytes,
    commit_tx: C,
    after: XactStateManager<C>,
    r: (Labels, Action<C>),
)
    requires
        exists|m: &mut XactStateManager<C>| #[trigger]
            call_ensures(XactStateManager::<C>::handle_local_xact_msg, (m, data, commit_tx), r)
                && *m == before && *final(m) == after,
        before.xact matches XactType::Unknown(votes) && votes@.len() == 0,
        buf::unread(data).len() >= 20,
        buf::unread(data).len() - 16 >= four(buf::unread(data), 12),
    ensures
        r.1 is Prepare,
        after.xact matches XactType::Local(x) && {
            let s = buf::unread(data);
            &&& x.controller.commit_tx == Some(commit_tx)
            &&& x.node_id == before.node_id && x.coordinator == before.node_id
            &&& forall|i: usize| #[trigger]
                node_set::members(x.participants).contains(i) <==> i < 64 && (eight(s, 4) / pow2(
                    i as nat,
                ) as int) % 2 == 1
            &&& forall|i: usize| #[trigger]
                node_set::members(x.voted).contains(i) <==> i == before.node_id.0
            &&& x.status is Waiting || x.status is Committing
            &&& x.status is Committing <==> forall|i: usize| #[trigger]
                node_set::members(x.participants).contains(i) <==> i == before.node_id.0
        },
{
    let s = buf::unread(data);
    lemma_decoded(s);
    let all = crate::decoder::decoded(s)->Ok_0.header.participants;
    let new = state::new_state(crate::id::XactId(0), before.node_id, before.node_id, all);
    let waiting = StateView { status: StatusView::Waiting, ..new };
    assert(before@.xact.early_votes().len() == 0);
    let votes = state::own_and(new, None, before@.xact.early_votes());
    assert(votes.drop_first().len() == 0);
    assert(votes[0].from == before.node_id && votes[0].rollback_reason is None);
    let next = state::after_vote(waiting, votes[0]);
    assert(state::after_votes(next, votes.drop_first()) == next);
    assert(state::all_taken(next, votes.drop_first()));
    let one = Set::<usize>::empty().insert(before.node_id.0 as usize);
    assert(next.voted == one);
    if let XactType::Local(x) = after.xact {
        assert(x@.participants == all);
        assert(x@.voted == one);
        if forall|i: usize| #[trigger]
            node_set::members(x.participants).contains(i) <==> i == before.node_id.0 {
            assert(one =~= all);
        } else if one == all {
            assert forall|i: usize| #[trigger]
                node_set::members(x.participants).contains(i) <==> i == before.node_id.0 by {
                assert(one.contains(i) <==> i == before.node_id.0);
            }
        }
    }
}

/// Votes that came before a transaction of the local database are counted with that of this node.
/// Where they are all for it, and another participant is still missing, it is announced, and votes
/// are awaited.
pub proof fn law_local_begins_with_votes<C>(
    before: XactStateManager<C>,
    data: Bytes,
    commit_tx: C,
    after: XactStateManager<C>,
    r: (Labels, Action<C>),
    early: Vec<Vote>,
    missing: usize,
)
    requires
        exists|m: &mut XactStateManager<C>| #[trigger]
            call_ensures(XactStateManager::<C>::handle_local_xact_msg, (m, data, commit_tx), r)
                && *m == before && *final(m) == after,
        before.xact == XactType::<C>::Unknown(early),
        buf::unread(data).len() >= 20,
        buf::unread(data).len() - 16 >= four(buf::unread(data), 12),
        missing < 64,
        (eight(buf::unread(data), 4) / pow2(missing as nat) as int) % 2 == 1,
        before.node_id.0 != missing,
        forall|i: int|
            0 <= i < early@.len() ==> (#[trigger] early@[i]).rollback_reason is None
                && early@[i].from.0 != missing,
    ensures
        r.1 is Prepare,
        after.xact matches XactType::Local(x) && {
            &&& x.status is Waiting
            &&& x.controller.commit_tx == Some(commit_tx)
            &&& forall|n: usize|
                node_set::members(x.voted).contains(n) <==> n == before.node_id.0 || exists|i: int|
                    0 <= i < early@.len() && (#[trigger] early@[i]).from.0 == n
        },
{
    let s = buf::unread(data);
    lemma_decoded(s);
    let all = crate::decoder::decoded(s)->Ok_0.header.participants;
    assert(all.contains(missing));
    let new = state::new_state(crate::id::XactId(0), before.node_id, before.node_id, all);
    let waiting = StateView { status: StatusView::Waiting, ..new };
    let votes = state::own_and(new, None, before@.xact.early_votes());
    assert forall|i: int| 0 <= i < votes.len() implies (#[trigger] votes[i]).rollback_reason is None
        && votes[i].from.0 != missing by {
        if i > 0 {
            assert(votes[i] == early@[i - 1]@);
        }
    }
    super::votes::lemma_incomplete(waiting, votes, missing);
    xact::lemma_votes_frame(waiting, votes);
    if let XactType::Local(x) = after.xact {
        assert(x@ == state::after_votes(waiting, votes));
        assert forall|n: usize|
            node_set::members(x.voted).contains(n) <==> n == before.node_id.0 || exists|i: int|
                0 <= i < early@.len() && (#[trigger] early@[i]).from.0 == n by {
            super::votes::lemma_counted(waiting, votes, n);
            if exists|i: int| 0 <= i < votes.len() && (#[trigger] votes[i]).from.0 == n {
                let i = choose|i: int| 0 <= i < votes.len() && (#[trigger] votes[i]).from.0 == n;
                if i > 0 {
                    assert(votes[i] == early@[i - 1]@);
                }
            }
            if n == before.node_id.0 {
                assert(votes[0].from.0 == n);
            }
            if exists|i: int| 0 <= i < early@.len() && (#[trigger] early@[i]).from.0 == n {
                let i = choose|i: int| 0 <= i < early@.len() && (#[trigger] early@[i]).from.0 == n;
                assert(votes[i + 1] == early@[i]@);
                assert(votes[i + 1].from.0 == n);
            }
        }
    }
}

/// A node that is asked to prepare a transaction and takes part in it, as the bits of the
/// read/write set say, executes it: as it was sent, under its own id, with the sender as the
/// coordinator and the only one who voted. Votes that came before are kept. One that does not take
/// part stops without an error.
pub proof fn law_asked_to_prepare<C>(
    before: XactStateManager<C>,
    msg: PrepareMessage,
    after: XactStateManager<C>,
    r: (Labels, Action<C>),
)
    requires
        exists|m: &mut XactStateManager<C>| #[trigger]
            call_ensures(XactStateManager::<C>::handle_prepare_msg, (m, msg), r) && *m == before
                && *final(m) == after,
        msg.from != before.node_id.0,
    ensures
        ({
            let s = msg.data@;
            let whole = s.len() >= 20 && s.len() - 16 >= four(s, 12);
            let mine = before.node_id.0 < 64 && (eight(s, 4) / pow2(before.node_id.0 as nat) as int)
                % 2 == 1;
            &&& after.xact_id == before.xact_id && after.node_id == before.node_id
            &&& after.coordinator_id == Some(NodeId(msg.from)) && after.measuring
            &&& !whole <==> (r.1 matches Action::Stop(Some(ManagerError::Decode(_))))
            &&& !whole || !mine ==> after.phase == Phase::Stopped
            &&& whole && !mine <==> r.1 == Action::<C>::Stop(None)
            &&& whole && mine ==> {
                &&& r.1 == Action::<C>::Pg(PgRequest::Connect)
                &&& after.phase == Phase::Executing
                &&& after.xact matches XactType::Surrogate(x)
                &&& x.controller.progress is ConnectingToExecute
                &&& x.controller.xact_id == before.xact_id
                &&& buf::unread(x.controller.data) == s
                &&& x.xact_id == before.xact_id
                &&& x.node_id == before.node_id
                &&& x.coordinator == NodeId(msg.from)
                &&& x.status is Waiting
                &&& forall|i: usize| #[trigger]
                    node_set::members(x.participants).contains(i) <==> i < 64 && (eight(s, 4)
                        / pow2(i as nat) as int) % 2 == 1
                &&& forall|i: usize| #[trigger]
                    node_set::members(x.voted).contains(i) <==> i == msg.from
                &&& before.xact matches XactType::Unknown(early) ==> x.pending@.len()
                    == early@.len() && forall|i: int|
                    0 <= i < early@.len() ==> (#[trigger] x.pending@[i])@ == early@[i]@
            }
        }),
{
    let s = msg.data@;
    lemma_decoded(s);
    let whole = s.len() >= 20 && s.len() - 16 >= four(s, 12);
    let mine = before.node_id.0 < 64 && (eight(s, 4) / pow2(before.node_id.0 as nat) as int) % 2
        == 1;
    if whole {
        let all = crate::decoder::decoded(s)->Ok_0.header.participants;
        assert(all.contains(before.node_id.0 as usize) <==> mine);
        let one = Set::<usize>::empty().insert(msg.from as usize);
        assert(mine ==> !one.contains(before.node_id.0 as usize));
        if mine {
            assert(one != all);
            assert(r.1@ == ActionView::<C>::Pg(
                crate::pg::xact_controller::RequestView::Connect,
            ));
            if let XactType::Surrogate(x) = after.xact {
                assert(x@.participants == all);
                assert(x@.voted == one);
                if let XactType::Unknown(early) = before.xact {
                    assert(x@.pending == state::votes_view(early@));
                    assert(x@.pending.len() == x.pending@.len());
                    assert forall|i: int| 0 <= i < early@.len() implies (#[trigger] x.pending@[i])@
                        == early@[i]@ by {
                        assert(x@.pending[i] == x.pending@[i]@);
                    }
                }
            }
        }
    }
}

/// Whoever is told of a vote, each once: every other participant, and nobody else. The vote is that
/// of this node on this transaction, and gives the reason for which it is bound to roll back if it
/// is, and none otherwise.
pub proof fn law_votes_sent<C>(
    before: XactStateManager<C>,
    msg: PrepareMessage,
    reply: Result<bool, RollbackReason>,
    after: XactStateManager<C>,
    labels: Labels,
    action: Action<C>,
)
    requires
        (exists|m: &mut XactStateManager<C>| #[trigger]
            call_ensures(XactStateManager::<C>::handle_prepare_msg, (m, msg), (labels, action))
                && *m == before && *final(m) == after) || (exists|m: &mut XactStateManager<C>|
         #[trigger]
            call_ensures(XactStateManager::<C>::pg_replied, (m, reply), action) && *m == before
                && *final(m) == after),
    ensures
        action matches Action::Vote { to, message } ==> {
            &&& after.phase == Phase::SendingVotes
            &&& after.node_id == before.node_id && after.xact_id == before.xact_id
            &&& message.from == before.node_id.0
            &&& message.xact_id == before.xact_id.0
            &&& forall|i: int, j: int| 0 <= i < j < to@.len() ==> to@[i].0 < to@[j].0
            &&& after.xact matches XactType::Surrogate(x) ==> {
                &&& forall|p: NodeId| #[trigger]
                    to@.contains(p) <==> p != before.node_id && node_set::members(
                        x.participants,
                    ).contains(p.0 as usize)
                &&& message.rollback_reason is Some <==> x.status is Rollbacking || x.status
                    is Rollbacked
                &&& x.status matches XactStatus::Rollbacking(info) ==> (
                message.rollback_reason matches Some(reason) && reason@ == info.1@)
            }
        },
{
    if let Action::Vote { to, message } = action {
        assert(action.sends_once());
        if let XactType::Surrogate(x) = after.xact {
            assert forall|p: NodeId| #[trigger]
                to@.contains(p) <==> p != before.node_id && node_set::members(
                    x.participants,
                ).contains(p.0 as usize) by {
                assert(to@.to_set().contains(p) <==> to@.contains(p));
                lemma_receivers(before, msg, reply, after, labels, action, p);
            }
            assert(message@.rollback_reason is Some <==> message.rollback_reason is Some);
        }
    }
}

proof fn lemma_receivers<C>(
    before: XactStateManager<C>,
    msg: PrepareMessage,
    reply: Result<bool, RollbackReason>,
    after: XactStateManager<C>,
    labels: Labels,
    action: Action<C>,
    p: NodeId,
)
    requires
        (exists|m: &mut XactStateManager<C>| #[trigger]
            call_ensures(XactStateManager::<C>::handle_prepare_msg, (m, msg), (labels, action))
                && *m == before && *final(m) == after) || (exists|m: &mut XactStateManager<C>|
         #[trigger]
            call_ensures(XactStateManager::<C>::pg_replied, (m, reply), action) && *m == before
                && *final(m) == after),
    ensures
        action matches Action::Vote { to, message } ==> (after.xact matches XactType::Surrogate(x)
            ==> (to@.to_set().contains(p) <==> p != before.node_id && node_set::members(
            x.participants,
        ).contains(p.0 as usize))),
{
}

} // verus!
