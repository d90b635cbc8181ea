//! How votes are counted and a transaction is decided.
use crate::id::NodeId;
use crate::node_set;
use crate::vote::{InfoView, RollbackReason, Vote, VoteView};
use crate::xact::state::{self, FinishStep, InitStep, StateView, XactState};
use crate::xact::{StatusView, XactError, XactStatus};
use vstd::prelude::*;

verus! {

/// A vote is refused if and only if the transaction is bound to commit or has. A vote never changes
/// which transaction it is, who takes part, who coordinates it, or what waits to be counted.
pub proof fn law_add_vote_refused<C>(
    before: XactState<C>,
    vote: Vote,
    after: XactState<C>,
    r: Result<&XactStatus, XactError>,
)
    requires
        exists|x: &mut XactState<C>| #[trigger]
            call_ensures(XactState::<C>::add_vote, (x, vote), r) && *x == before && *final(x)
                == after,
    ensures
        r is Err <==> before.status is Committing || before.status is Committed,
        r is Err ==> r == Err::<&XactStatus, XactError>(XactError::AlreadyCommitting),
        r matches Ok(status) ==> status@ == after.status@,
        after.xact_id == before.xact_id,
        after.node_id == before.node_id,
        after.coordinator == before.coordinator,
        after.controller == before.controller,
        node_set::members(after.participants) == node_set::members(before.participants),
        after.pending@.len() == before.pending@.len(),
{
    assert(after@.pending.len() == before@.pending.len());
}

/// Only while votes are awaited does a vote change anything.
pub proof fn law_add_vote_ignored<C>(
    before: XactState<C>,
    vote: Vote,
    after: XactState<C>,
    r: Result<&XactStatus, XactError>,
)
    requires
        exists|x: &mut XactState<C>| #[trigger]
            call_ensures(XactState::<C>::add_vote, (x, vote), r) && *x == before && *final(x)
                == after,
        before.status !is Waiting,
    ensures
        after.status@ == before.status@,
        node_set::members(after.voted) == node_set::members(before.voted),
{
}

/// A vote against a transaction that awaits votes binds it to roll back, on account of the voter
/// and for its reason.
pub proof fn law_add_vote_against<C>(
    before: XactState<C>,
    vote: Vote,
    after: XactState<C>,
    r: Result<&XactStatus, XactError>,
    reason: RollbackReason,
)
    requires
        exists|x: &mut XactState<C>| #[trigger]
            call_ensures(XactState::<C>::add_vote, (x, vote), r) && *x == before && *final(x)
                == after,
        before.status is Waiting,
        vote.rollback_reason == Some(reason),
    ensures
        after.status matches XactStatus::Rollbacking(info) && info.0 == vote.from && info.1@
            == reason@,
        node_set::members(after.voted) == node_set::members(before.voted),
{
}

/// A vote for a transaction that awaits votes is counted, whoever casts it, and takes nobody
/// else's away. It binds the transaction to commit if and only if it is new and the voters are then
/// the participants, one and all; otherwise votes are awaited on.
pub proof fn law_add_vote_for<C>(
    before: XactState<C>,
    vote: Vote,
    after: XactState<C>,
    r: Result<&XactStatus, XactError>,
)
    requires
        exists|x: &mut XactState<C>| #[trigger]
            call_ensures(XactState::<C>::add_vote, (x, vote), r) && *x == before && *final(x)
                == after,
        before.status is Waiting,
        vote.rollback_reason is None,
    ensures
        forall|n: usize|
            node_set::members(after.voted).contains(n) <==> node_set::members(
                before.voted,
            ).contains(n) || n == vote.from.0,
        after.status is Committing || after.status is Waiting,
        after.status is Committing <==> !node_set::members(before.voted).contains(
            vote.from.0 as usize,
        ) && (forall|n: usize|
            node_set::members(after.voted).contains(n) <==> node_set::members(
                before.participants,
            ).contains(n)),
{
    let voted = node_set::members(before.voted).insert(vote.from.0 as usize);
    let all = node_set::members(before.participants);
    if forall|n: usize|
        node_set::members(after.voted).contains(n) <==> all.contains(n) {
        if !node_set::members(before.voted).contains(vote.from.0 as usize) {
            assert(node_set::members(after.voted) == voted);
            assert(voted =~= all);
        }
    }
}

/// A new transaction awaits initialization: nobody voted, and nothing waits to be counted.
pub proof fn law_new<C>(
    xact_id: crate::id::XactId,
    node_id: NodeId,
    coordinator: NodeId,
    participants: bit_set::BitSet,
    controller: C,
    x: XactState<C>,
)
    requires
        call_ensures(
            XactState::<C>::new,
            (xact_id, node_id, coordinator, participants, controller),
            x,
        ),
    ensures
        x.status is Uninitialized,
        x.xact_id == xact_id,
        x.node_id == node_id,
        x.coordinator == coordinator,
        x.controller == controller,
        node_set::members(x.participants) == node_set::members(participants),
        forall|n: usize| !node_set::members(x.voted).contains(n),
        x.pending@.len() == 0,
{
    assert(x@.pending.len() == 0);
}

/// What must be done to finish a transaction is to carry out what was decided, and nothing where
/// nothing was decided or that was done.
pub proof fn law_try_finish<C>(x: XactState<C>, step: FinishStep)
    requires
        call_ensures(XactState::<C>::try_finish, (&x,), step),
    ensures
        step is Commit <==> x.status is Committing,
        step is Rollback <==> x.status is Rollbacking,
        x.status matches XactStatus::Rollbacking(info) ==> (step matches FinishStep::Rollback(told)
            && told.0 == info.0 && told.1@ == info.1@),
{
}

/// A decision that was carried out is final, and one that could not be stays as it was and gives
/// an error of its kind.
pub proof fn law_finished<C>(
    before: XactState<C>,
    ok: bool,
    after: XactState<C>,
    r: Result<&XactStatus, XactError>,
)
    requires
        exists|x: &mut XactState<C>| #[trigger]
            call_ensures(XactState::<C>::finished, (x, ok), r) && *x == before && *final(x)
                == after,
    ensures
        r is Err <==> !ok && (before.status is Committing || before.status is Rollbacking),
        before.status is Committing && ok ==> after.status is Committed,
        before.status matches XactStatus::Rollbacking(info) ==> ok ==> (
        after.status matches XactStatus::Rollbacked(done) && done.0 == info.0 && done.1@
            == info.1@),
        !ok || !(before.status is Committing || before.status is Rollbacking) ==> after.status@
            == before.status@,
        before.status is Committing && !ok ==> r == Err::<&XactStatus, XactError>(
            XactError::CommitFailed,
        ),
        before.status is Rollbacking && !ok ==> r == Err::<&XactStatus, XactError>(
            XactError::RollbackFailed,
        ),
        node_set::members(after.voted) == node_set::members(before.voted),
        node_set::members(after.participants) == node_set::members(before.participants),
{
}

/// A transaction is initialized only once.
pub proof fn law_initialize_once<C>(
    before: XactState<C>,
    existing: Vec<Vote>,
    after: XactState<C>,
    r: Result<InitStep, XactError>,
)
    requires
        exists|x: &mut XactState<C>| #[trigger]
            call_ensures(XactState::<C>::initialize, (x, existing), r) && *x == before && *final(x)
                == after,
    ensures
        r == Err::<InitStep, XactError>(XactError::AlreadyInitialized) <==> before.status
            !is Uninitialized,
        before.status !is Uninitialized ==> after.status@ == before.status@,
{
}

/// A node that does not coordinate a transaction counts the vote of the coordinator at once, and
/// nobody else's: it must execute the transaction first, and keeps the votes that came before.
pub proof fn law_initialize_surrogate<C>(
    before: XactState<C>,
    existing: Vec<Vote>,
    after: XactState<C>,
    r: Result<InitStep, XactError>,
)
    requires
        exists|x: &mut XactState<C>| #[trigger]
            call_ensures(XactState::<C>::initialize, (x, existing), r) && *x == before && *final(x)
                == after,
        before.status is Uninitialized,
        before.node_id != before.coordinator,
        forall|n: usize| !node_set::members(before.voted).contains(n),
    ensures
        r == Ok::<InitStep, XactError>(InitStep::Execute),
        forall|n: usize|
            node_set::members(after.voted).contains(n) <==> n == before.coordinator.0,
        after.status is Waiting <==> !(forall|n: usize|
            node_set::members(before.participants).contains(n) <==> n == before.coordinator.0),
        after.pending@.len() == existing@.len(),
        forall|i: int|
            0 <= i < existing@.len() ==> (#[trigger] after.pending@[i])@ == existing@[i]@,
{
    let one = node_set::members(before.voted).insert(before.coordinator.0 as usize);
    if forall|n: usize|
        node_set::members(before.participants).contains(n) <==> n == before.coordinator.0 {
        assert(one =~= node_set::members(before.participants));
    } else {
        if one == node_set::members(before.participants) {
            assert forall|n: usize|
                node_set::members(before.participants).contains(n) <==> n
                    == before.coordinator.0 by {
                assert(one.contains(n) <==> n == before.coordinator.0);
            }
        }
    }
    assert(after@.pending.len() == existing@.len());
    assert forall|i: int| 0 <= i < existing@.len() implies (#[trigger] after.pending@[i])@
        == existing@[i]@ by {
        assert(after@.pending[i] == after.pending@[i]@);
        assert(state::votes_view(existing@)[i] == existing@[i]@);
    }
}

/// The coordinator counts its own vote first, then those that came before. With none before, it
/// awaits votes unless it takes part alone.
pub proof fn law_initialize_coordinator<C>(
    before: XactState<C>,
    existing: Vec<Vote>,
    after: XactState<C>,
    r: Result<InitStep, XactError>,
)
    requires
        exists|x: &mut XactState<C>| #[trigger]
            call_ensures(XactState::<C>::initialize, (x, existing), r) && *x == before && *final(x)
                == after,
        before.status is Uninitialized,
        before.node_id == before.coordinator,
        existing@.len() == 0,
        forall|n: usize| !node_set::members(before.voted).contains(n),
    ensures
        r == Ok::<InitStep, XactError>(InitStep::Initialized),
        forall|n: usize| node_set::members(after.voted).contains(n) <==> n == before.node_id.0,
        after.status is Waiting || after.status is Committing,
        after.status is Committing <==> (forall|n: usize|
            node_set::members(before.participants).contains(n) <==> n == before.node_id.0),
{
    let early = state::votes_view(existing@);
    let waiting = state::StateView {
        status: crate::xact::StatusView::Waiting,
        ..before@
    };
    let votes = state::own_and(before@, None, early);
    assert(votes.drop_first().len() == 0);
    assert(votes[0].from == before.node_id && votes[0].rollback_reason is None);
    let next = state::after_vote(waiting, votes[0]);
    assert(state::after_votes(next, votes.drop_first()) == next);
    assert(state::all_taken(next, votes.drop_first()));
    let one = node_set::members(before.voted).insert(before.node_id.0 as usize);
    assert(next.voted == one);
    if forall|n: usize|
        node_set::members(before.participants).contains(n) <==> n == before.node_id.0 {
        assert(one =~= node_set::members(before.participants));
    } else {
        if one == node_set::members(before.participants) {
            assert forall|n: usize|
                node_set::members(before.participants).contains(n) <==> n == before.node_id.0 by {
                assert(one.contains(n) <==> n == before.node_id.0);
            }
        }
    }
}

/// While some participant is missing among the voters, votes for a transaction are all taken and
/// awaited on.
pub(crate) proof fn lemma_incomplete(s: StateView, votes: Seq<VoteView>, missing: usize)
    requires
        s.status is Waiting,
        s.participants.contains(missing),
        !s.voted.contains(missing),
        forall|i: int|
            0 <= i < votes.len() ==> (#[trigger] votes[i]).rollback_reason is None
                && votes[i].from.0 != missing,
    ensures
        state::all_taken(s, votes),
        state::after_votes(s, votes).status is Waiting,
        !state::after_votes(s, votes).voted.contains(missing),
    decreases votes.len(),
{
    if votes.len() > 0 {
        let next = state::after_vote(s, votes[0]);
        let rest = votes.drop_first();
        assert(votes[0].rollback_reason is None && votes[0].from.0 != missing);
        assert(!next.voted.contains(missing));
        if !s.voted.contains(votes[0].from.0 as usize) {
            assert(next.voted != s.participants);
        }
        assert(next.status is Waiting);
        assert forall|i: int| 0 <= i < rest.len() implies (#[trigger] rest[i]).rollback_reason
            is None && rest[i].from.0 != missing by {
            assert(rest[i] == votes[i + 1]);
        }
        lemma_incomplete(next, rest, missing);
    }
}

/// Every vote for a transaction is counted that is taken, and nobody else's.
pub(crate) proof fn lemma_counted(s: StateView, votes: Seq<VoteView>, n: usize)
    requires
        s.status is Waiting,
        forall|i: int| 0 <= i < votes.len() ==> (#[trigger] votes[i]).rollback_reason is None,
        state::all_taken(s, votes),
    ensures
        state::after_votes(s, votes).voted.contains(n) <==> s.voted.contains(n) || exists|i: int|
            0 <= i < votes.len() && (#[trigger] votes[i]).from.0 == n,
    decreases votes.len(),
{
    if votes.len() > 0 {
        let next = state::after_vote(s, votes[0]);
        let rest = votes.drop_first();
        assert(votes[0].rollback_reason is None);
        assert(state::all_taken(next, rest));
        assert forall|i: int| 0 <= i < rest.len() implies (#[trigger] rest[i]).rollback_reason
            is None by {
            assert(rest[i] == votes[i + 1]);
        }
        if next.status is Waiting {
            lemma_counted(next, rest, n);
        } else {
            assert(rest.len() == 0);
        }
        if exists|i: int| 0 <= i < votes.len() && (#[trigger] votes[i]).from.0 == n {
            let i = choose|i: int| 0 <= i < votes.len() && (#[trigger] votes[i]).from.0 == n;
            if i > 0 {
                assert(rest[i - 1].from.0 == n);
            }
        }
        if exists|i: int| 0 <= i < rest.len() && (#[trigger] rest[i]).from.0 == n {
            let i = choose|i: int| 0 <= i < rest.len() && (#[trigger] rest[i]).from.0 == n;
            assert(votes[i + 1].from.0 == n);
        }
        assert(next.voted.contains(n) <==> s.voted.contains(n) || votes[0].from.0 == n);
    }
}

/// A node whose execution of a transaction failed votes against it: the transaction is bound to
/// roll back on its account and for the reason of the failure, whatever votes came before.
pub proof fn law_executed_failed<C>(
    before: XactState<C>,
    reason: RollbackReason,
    after: XactState<C>,
    r: Result<&XactStatus, XactError>,
)
    requires
        exists|x: &mut XactState<C>| #[trigger]
            call_ensures(XactState::<C>::executed, (x, Some(reason)), r) && *x == before
                && *final(x) == after,
        before.status is Waiting,
    ensures
        r is Ok,
        after.status matches XactStatus::Rollbacking(info) && info.0 == before.node_id && info.1@
            == reason@,
{
    let cleared = StateView { pending: Seq::empty(), ..before@ };
    let all = state::own_and(before@, Some(reason@), before@.pending);
    assert(all.drop_first() == before@.pending);
    crate::xact::laws::law_votes_after_rollback(
        state::after_vote(cleared, all[0]),
        before@.pending,
    );
}

/// A node that executed a transaction votes for it, and counts the votes that came before. Where
/// these are all for it, and some participant is still missing, all of them and nobody else are
/// counted, and votes are awaited on.
pub proof fn law_executed_waits<C>(
    before: XactState<C>,
    after: XactState<C>,
    r: Result<&XactStatus, XactError>,
    missing: usize,
)
    requires
        exists|x: &mut XactState<C>| #[trigger]
            call_ensures(XactState::<C>::executed, (x, None), r) && *x == before && *final(x)
                == after,
        before.status is Waiting,
        forall|i: int|
            0 <= i < before.pending@.len() ==> (#[trigger] before.pending@[i]).rollback_reason
                is None && before.pending@[i].from.0 != missing,
        node_set::members(before.participants).contains(missing),
        !node_set::members(before.voted).contains(missing),
        before.node_id.0 != missing,
    ensures
        r is Ok,
        after.status is Waiting,
        after.pending@.len() == 0,
        forall|n: usize|
            node_set::members(after.voted).contains(n) <==> node_set::members(
                before.voted,
            ).contains(n) || n == before.node_id.0 || exists|i: int|
                0 <= i < before.pending@.len() && (#[trigger] before.pending@[i]).from.0 == n,
{
    let cleared = StateView { pending: Seq::empty(), ..before@ };
    let all = state::own_and(before@, None, before@.pending);
    assert forall|i: int| 0 <= i < all.len() implies (#[trigger] all[i]).rollback_reason is None
        && all[i].from.0 != missing by {
        if i > 0 {
            assert(all[i] == before@.pending[i - 1]);
            assert(before@.pending[i - 1] == before.pending@[i - 1]@);
        }
    }
    lemma_incomplete(cleared, all, missing);
    crate::xact::lemma_votes_frame(cleared, all);
    assert(after@.pending.len() == 0);
    assert forall|n: usize|
        node_set::members(after.voted).contains(n) <==> node_set::members(before.voted).contains(n)
            || n == before.node_id.0 || exists|i: int|
            0 <= i < before.pending@.len() && (#[trigger] before.pending@[i]).from.0 == n by {
        lemma_own_and_pending(before, n);
        lemma_counted(cleared, all, n);
    }
}

/// Who votes after a transaction was executed: the node itself, and who voted before.
proof fn lemma_own_and_pending<C>(x: XactState<C>, n: usize)
    ensures
        ({
            let all = state::own_and(x@, None, x@.pending);
            (exists|i: int| 0 <= i < all.len() && (#[trigger] all[i]).from.0 == n) <==> n
                == x.node_id.0 || exists|i: int|
                0 <= i < x.pending@.len() && (#[trigger] x.pending@[i]).from.0 == n
        }),
{
    let all = state::own_and(x@, None, x@.pending);
    if exists|i: int| 0 <= i < all.len() && (#[trigger] all[i]).from.0 == n {
        let i = choose|i: int| 0 <= i < all.len() && (#[trigger] all[i]).from.0 == n;
        if i > 0 {
            assert(all[i] == x@.pending[i - 1]);
            assert(x.pending@[i - 1].from.0 == n);
        }
    }
    if n == x.node_id.0 {
        assert(all[0].from.0 == n);
    }
    if exists|i: int| 0 <= i < x.pending@.len() && (#[trigger] x.pending@[i]).from.0 == n {
        let i = choose|i: int| 0 <= i < x.pending@.len() && (#[trigger] x.pending@[i]).from.0 == n;
        assert(all[i + 1] == x@.pending[i]);
        assert(all[i + 1].from.0 == n);
    }
}

/// A node that executed a transaction binds it to commit if its vote was the only one missing, and
/// no vote came before. Otherwise it awaits votes.
pub proof fn law_executed_commits<C>(
    before: XactState<C>,
    after: XactState<C>,
    r: Result<&XactStatus, XactError>,
)
    requires
        exists|x: &mut XactState<C>| #[trigger]
            call_ensures(XactState::<C>::executed, (x, None), r) && *x == before && *final(x)
                == after,
        before.status is Waiting,
        before.pending@.len() == 0,
        !node_set::members(before.voted).contains(before.node_id.0 as usize),
    ensures
        r is Ok,
        after.status is Committing || after.status is Waiting,
        after.status is Committing <==> (forall|n: usize|
            node_set::members(before.participants).contains(n) <==> node_set::members(
                before.voted,
            ).contains(n) || n == before.node_id.0),
{
    let cleared = StateView { pending: Seq::empty(), ..before@ };
    let all = state::own_and(before@, None, before@.pending);
    assert(all.drop_first().len() == 0);
    let next = state::after_vote(cleared, all[0]);
    assert(all[0].from == before.node_id && all[0].rollback_reason is None);
    assert(state::after_votes(next, all.drop_first()) == next);
    assert(state::all_taken(next, all.drop_first()));
    let voted = node_set::members(before.voted).insert(before.node_id.0 as usize);
    assert(next.voted == voted);
    if forall|n: usize|
        node_set::members(before.participants).contains(n) <==> node_set::members(
            before.voted,
        ).contains(n) || n == before.node_id.0 {
        assert(voted =~= node_set::members(before.participants));
    } else if voted == node_set::members(before.participants) {
        assert forall|n: usize|
            node_set::members(before.participants).contains(n) <==> node_set::members(
                before.voted,
            ).contains(n) || n == before.node_id.0 by {
            assert(voted.contains(n) <==> node_set::members(before.voted).contains(n) || n
                == before.node_id.0);
        }
    }
}

/// A vote against a transaction that came before it did binds it to roll back once the node
/// executed it, where the votes before that one were for it and did not complete the set of
/// participants: on account of that voter and for its reason.
pub proof fn law_executed_with_early_no<C>(
    before: XactState<C>,
    after: XactState<C>,
    r: Result<&XactStatus, XactError>,
    k: int,
    reason: RollbackReason,
    missing: usize,
)
    requires
        exists|x: &mut XactState<C>| #[trigger]
            call_ensures(XactState::<C>::executed, (x, None), r) && *x == before && *final(x)
                == after,
        before.status is Waiting,
        0 <= k < before.pending@.len(),
        before.pending@[k].rollback_reason == Some(reason),
        forall|i: int|
            0 <= i < k ==> (#[trigger] before.pending@[i]).rollback_reason is None
                && before.pending@[i].from.0 != missing,
        node_set::members(before.participants).contains(missing),
        !node_set::members(before.voted).contains(missing),
        before.node_id.0 != missing,
    ensures
        r is Ok,
        after.status matches XactStatus::Rollbacking(info) && info.0 == before.pending@[k].from
            && info.1@ == reason@,
{
    let cleared = StateView { pending: Seq::empty(), ..before@ };
    let all = state::own_and(before@, None, before@.pending);
    assert(all[k + 1] == before@.pending[k]);
    assert(before@.pending[k] == before.pending@[k]@);
    assert forall|i: int| 0 <= i < k + 1 implies (#[trigger] all[i]).rollback_reason is None
        && all[i].from.0 != missing by {
        if i > 0 {
            assert(all[i] == before@.pending[i - 1]);
            assert(before@.pending[i - 1] == before.pending@[i - 1]@);
        }
    }
    lemma_first_no(cleared, all, k + 1, missing);
}

proof fn lemma_first_no(s: StateView, votes: Seq<VoteView>, k: int, missing: usize)
    requires
        s.status is Waiting,
        0 <= k < votes.len(),
        votes[k].rollback_reason is Some,
        s.participants.contains(missing),
        !s.voted.contains(missing),
        forall|i: int|
            0 <= i < k ==> (#[trigger] votes[i]).rollback_reason is None && votes[i].from.0
                != missing,
    ensures
        state::all_taken(s, votes),
        state::after_votes(s, votes).status == StatusView::Rollbacking(
            InfoView { by: votes[k].from, reason: votes[k].rollback_reason->0 },
        ),
    decreases votes.len(),
{
    let next = state::after_vote(s, votes[0]);
    let rest = votes.drop_first();
    if k == 0 {
        crate::xact::laws::law_votes_after_rollback(next, rest);
    } else {
        assert(votes[0].rollback_reason is None && votes[0].from.0 != missing);
        assert(!next.voted.contains(missing));
        assert(next.status is Waiting);
        assert(rest[k - 1] == votes[k]);
        assert forall|i: int| 0 <= i < k - 1 implies (#[trigger] rest[i]).rollback_reason is None
            && rest[i].from.0 != missing by {
            assert(rest[i] == votes[i + 1]);
        }
        lemma_first_no(next, rest, k - 1, missing);
    }
}

} // verus!
