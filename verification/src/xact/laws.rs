//! What holds of every transaction, whatever votes it gets.
use super::state::{self, FinishView, InitStep, StateView};
use super::{StatusView, XactError};
use crate::id::{NodeId, XactId};
use crate::vote::{InfoView, ReasonView, VoteView};
use vstd::prelude::*;

verus! {

/// Whether a vote is for the transaction.
pub open spec fn is_yes(vote: VoteView) -> bool {
    vote.rollback_reason is None
}

/// Whether a list holds a vote of the node with the given number for the transaction.
pub open spec fn has_yes(votes: Seq<VoteView>, node: usize) -> bool {
    exists|i: int|
        0 <= i < votes.len() && is_yes(#[trigger] votes[i]) && state::index_of(votes[i].from)
            == node
}

/// The position of the first vote against the transaction, or the number of votes where there
/// is none.
pub open spec fn first_no(votes: Seq<VoteView>) -> int
    decreases votes.len(),
{
    if votes.len() == 0 || !is_yes(votes[0]) {
        0
    } else {
        1 + first_no(votes.drop_first())
    }
}

/// The numbers of the nodes that vote for the transaction in a list.
pub open spec fn yes_voters(votes: Seq<VoteView>) -> Set<usize> {
    Set::new(|n: usize| has_yes(votes, n))
}

/// Whether the decision to commit rests on the vote of each participant and of nobody else.
pub open spec fn consistent(s: StateView) -> bool {
    s.status.commits() ==> s.voted == s.participants
}

/// Whether two states are of the same transaction on the same node.
pub open spec fn same_xact(a: StateView, b: StateView) -> bool {
    &&& a.xact_id == b.xact_id
    &&& a.node_id == b.node_id
    &&& a.coordinator == b.coordinator
    &&& a.participants == b.participants
}

/// Votes never change which transaction it is, never take a vote back, and keep the decision
/// consistent.
pub proof fn law_votes_keep(s: StateView, votes: Seq<VoteView>)
    requires
        consistent(s),
    ensures
        consistent(state::after_votes(s, votes)),
        same_xact(state::after_votes(s, votes), s),
        s.voted.subset_of(state::after_votes(s, votes).voted),
        state::after_votes(s, votes).pending == s.pending,
    decreases votes.len(),
{
    if votes.len() > 0 && state::takes_votes(s.status) {
        law_votes_keep(state::after_vote(s, votes[0]), votes.drop_first());
    }
}

/// No step of a transaction makes its decision inconsistent or changes which transaction it is.
pub proof fn law_consistent(
    xact_id: XactId,
    node_id: NodeId,
    coordinator: NodeId,
    participants: Set<usize>,
    s: StateView,
    vote: VoteView,
    existing: Seq<VoteView>,
    reason: Option<ReasonView>,
    ok: bool,
)
    requires
        consistent(s),
    ensures
        consistent(state::new_state(xact_id, node_id, coordinator, participants)),
        consistent(state::after_vote(s, vote)),
        consistent(state::after_initialize(s, existing)),
        consistent(state::after_executed(s, reason)),
        consistent(state::after_finished(s, ok)),
        same_xact(state::after_vote(s, vote), s),
        same_xact(state::after_initialize(s, existing), s),
        same_xact(state::after_executed(s, reason), s),
        same_xact(state::after_finished(s, ok), s),
{
    let waiting = StateView { status: StatusView::Waiting, ..s };
    law_votes_keep(waiting, state::own_and(s, None, existing));
    law_votes_keep(
        StateView { pending: Seq::empty(), ..s },
        state::own_and(s, reason, s.pending),
    );
}

/// Who is counted as having voted for the transaction was so before, or votes so in the list.
pub proof fn law_counted_voters(s: StateView, votes: Seq<VoteView>, n: usize)
    requires
        state::after_votes(s, votes).voted.contains(n),
    ensures
        s.voted.contains(n) || has_yes(votes, n),
    decreases votes.len(),
{
    if votes.len() > 0 && state::takes_votes(s.status) {
        let next = state::after_vote(s, votes[0]);
        law_counted_voters(next, votes.drop_first(), n);
        if has_yes(votes.drop_first(), n) {
            let i = choose|i: int|
                0 <= i < votes.drop_first().len() && is_yes(#[trigger] votes.drop_first()[i])
                    && state::index_of(votes.drop_first()[i].from) == n;
            assert(votes[i + 1] == votes.drop_first()[i]);
            assert(has_yes(votes, n));
        } else if !s.voted.contains(n) {
            assert(is_yes(votes[0]) && state::index_of(votes[0].from) == n);
        }
    }
}

/// A transaction commits only if each participant voted for it.
pub proof fn law_commit_is_unanimous(s: StateView, votes: Seq<VoteView>, n: usize)
    requires
        consistent(s),
        state::after_votes(s, votes).status.commits(),
        s.participants.contains(n),
    ensures
        s.voted.contains(n) || has_yes(votes, n),
{
    law_votes_keep(s, votes);
    law_counted_voters(s, votes, n);
}

/// A transaction is rolled back only on a vote against it: the first one, whose node and reason
/// are kept.
pub proof fn law_rollback_has_a_cause(s: StateView, votes: Seq<VoteView>)
    requires
        s.status is Waiting,
        state::after_votes(s, votes).status.rolls_back(),
    ensures
        0 <= first_no(votes) < votes.len(),
        votes[first_no(votes)].rollback_reason is Some,
        forall|i: int| 0 <= i < first_no(votes) ==> is_yes(#[trigger] votes[i]),
        state::after_votes(s, votes).status == StatusView::Rollbacking(
            InfoView {
                by: votes[first_no(votes)].from,
                reason: votes[first_no(votes)].rollback_reason->0,
            },
        ),
    decreases votes.len(),
{
    if votes.len() > 0 {
        let next = state::after_vote(s, votes[0]);
        let rest = votes.drop_first();
        if !is_yes(votes[0]) {
            lemma_rolling_back_stays(next, rest);
        } else if next.status is Waiting {
            law_rollback_has_a_cause(next, rest);
            assert forall|i: int| 0 <= i < first_no(votes) implies is_yes(#[trigger] votes[i]) by {
                if i > 0 {
                    assert(votes[i] == rest[i - 1]);
                }
            }
        } else {
            assert(state::after_votes(next, rest) == next);
        }
    }
}

proof fn lemma_rolling_back_stays(s: StateView, votes: Seq<VoteView>)
    requires
        s.status.rolls_back(),
    ensures
        state::after_votes(s, votes) == s,
        state::all_taken(s, votes),
    decreases votes.len(),
{
    if votes.len() > 0 {
        lemma_rolling_back_stays(s, votes.drop_first());
    }
}

/// Once a transaction is bound to roll back, or has, all further votes are taken and have no
/// effect.
pub proof fn law_votes_after_rollback(s: StateView, votes: Seq<VoteView>)
    requires
        s.status.rolls_back(),
    ensures
        state::after_votes(s, votes) == s,
        state::all_taken(s, votes),
{
    lemma_rolling_back_stays(s, votes);
}

/// Once a transaction is bound to commit, or has, no vote is taken and none has an effect.
pub proof fn law_votes_after_commit(s: StateView, votes: Seq<VoteView>)
    requires
        s.status.commits(),
    ensures
        state::after_votes(s, votes) == s,
        state::all_taken(s, votes) <==> votes.len() == 0,
{
}

/// Two nodes decide differently only if some node voted both ways: where one node commits and
/// another rolls back on account of a participant, that participant's vote for the transaction
/// reached the first and its vote against it reached the second.
pub proof fn law_agreement(
    a: StateView,
    b: StateView,
    votes_a: Seq<VoteView>,
    votes_b: Seq<VoteView>,
)
    requires
        a.status is Waiting && a.voted == Set::<usize>::empty(),
        b.status is Waiting && b.voted == Set::<usize>::empty(),
        state::after_votes(a, votes_a).status.commits(),
        state::after_votes(b, votes_b).status.rolls_back(),
        0 <= first_no(votes_b) < votes_b.len() ==> a.participants.contains(
            state::index_of(votes_b[first_no(votes_b)].from),
        ),
    ensures
        0 <= first_no(votes_b) < votes_b.len(),
        !is_yes(votes_b[first_no(votes_b)]),
        has_yes(votes_a, state::index_of(votes_b[first_no(votes_b)].from)),
{
    law_rollback_has_a_cause(b, votes_b);
    law_commit_is_unanimous(a, votes_a, state::index_of(votes_b[first_no(votes_b)].from));
}

/// Votes for a transaction that are all taken are all counted, and in whatever order they come:
/// the transaction is bound to commit if they completed the set of its participants, and goes on
/// waiting otherwise.
pub proof fn law_yes_votes(s: StateView, votes: Seq<VoteView>)
    requires
        s.status is Waiting,
        forall|i: int| 0 <= i < votes.len() ==> is_yes(#[trigger] votes[i]),
        state::all_taken(s, votes),
    ensures
        state::after_votes(s, votes).voted == s.voted.union(yes_voters(votes)),
        state::after_votes(s, votes).status == (if s.voted.union(yes_voters(votes)) == s.participants
            && s.voted.union(yes_voters(votes)) != s.voted {
            StatusView::Committing
        } else {
            StatusView::Waiting
        }),
    decreases votes.len(),
{
    if votes.len() == 0 {
        assert(s.voted.union(yes_voters(votes)) == s.voted);
    } else {
        let next = state::after_vote(s, votes[0]);
        let rest = votes.drop_first();
        assert forall|i: int| 0 <= i < rest.len() implies is_yes(#[trigger] rest[i]) by {
            assert(rest[i] == votes[i + 1]);
        }
        let n = state::index_of(votes[0].from);
        assert(yes_voters(votes) == yes_voters(rest).insert(n)) by {
            assert forall|m: usize| has_yes(votes, m) <==> has_yes(rest, m) || m == n by {
                if has_yes(votes, m) {
                    let i = choose|i: int|
                        0 <= i < votes.len() && is_yes(#[trigger] votes[i]) && state::index_of(
                            votes[i].from,
                        ) == m;
                    if i > 0 {
                        assert(rest[i - 1] == votes[i]);
                    }
                }
                if has_yes(rest, m) {
                    let i = choose|i: int|
                        0 <= i < rest.len() && is_yes(#[trigger] rest[i]) && state::index_of(
                            rest[i].from,
                        ) == m;
                    assert(votes[i + 1] == rest[i]);
                }
                if m == n {
                    assert(is_yes(votes[0]));
                }
            }
        }
        if next.status is Waiting {
            law_yes_votes(next, rest);
            assert(s.voted.union(yes_voters(votes)) == next.voted.union(yes_voters(rest)));
            if s.voted.contains(n) {
                assert(next.voted == s.voted);
            } else {
                let all = s.voted.union(yes_voters(votes));
                assert(all.contains(n));
                assert(all != s.voted);
                if all == next.voted {
                    assert(next.voted != s.participants);
                }
            }
        } else {
            assert(state::all_taken(next, rest));
            assert(rest.len() == 0);
            assert(yes_voters(rest) == Set::<usize>::empty());
            assert(s.voted.union(yes_voters(votes)) == next.voted);
            assert(next.voted.contains(n) && !s.voted.contains(n));
        }
    }
}

/// Among votes that are all taken, one against the transaction decides it, whatever the others
/// are.
pub proof fn law_no_vote_decides(s: StateView, votes: Seq<VoteView>)
    requires
        s.status is Waiting,
        state::all_taken(s, votes),
        exists|i: int| 0 <= i < votes.len() && !is_yes(#[trigger] votes[i]),
    ensures
        state::after_votes(s, votes).status.rolls_back(),
    decreases votes.len(),
{
    let next = state::after_vote(s, votes[0]);
    let rest = votes.drop_first();
    if !is_yes(votes[0]) {
        lemma_rolling_back_stays(next, rest);
    } else {
        let i = choose|i: int| 0 <= i < votes.len() && !is_yes(#[trigger] votes[i]);
        assert(rest[i - 1] == votes[i]);
        assert(state::all_taken(next, rest));
        assert(state::takes_votes(next.status));
        law_no_vote_decides(next, rest);
    }
}

/// A second vote of a node for the transaction has no effect while votes are counted.
pub proof fn law_repeated_vote(s: StateView, node: NodeId)
    requires
        state::after_vote(s, state::yes(node)).status is Waiting,
    ensures
        ({
            let once = state::after_vote(s, state::yes(node));
            state::after_vote(once, state::yes(node)) == once
        }),
{
}

/// A transaction for which somebody voted who is not a participant never commits.
pub proof fn law_outsider_blocks_commit(s: StateView, votes: Seq<VoteView>, outsider: usize)
    requires
        !s.status.commits(),
        s.voted.contains(outsider),
        !s.participants.contains(outsider),
    ensures
        !state::after_votes(s, votes).status.commits(),
    decreases votes.len(),
{
    if votes.len() > 0 {
        law_outsider_blocks_commit(state::after_vote(s, votes[0]), votes.drop_first(), outsider);
    }
}

/// To initialize a transaction on a node that does not coordinate it is to count the vote of the
/// coordinator, that of the node itself, and those that came before, in this order.
pub proof fn law_initialization_counts_votes(
    s: StateView,
    existing: Seq<VoteView>,
    reason: Option<ReasonView>,
)
    requires
        s.status is Uninitialized,
        s.pending.len() == 0,
        s.node_id != s.coordinator,
    ensures
        state::after_executed(state::after_initialize(s, existing), reason) == state::after_votes(
            StateView { status: StatusView::Waiting, ..s },
            seq![state::yes(s.coordinator)] + state::own_and(s, reason, existing),
        ),
{
    let waiting = StateView { status: StatusView::Waiting, ..s };
    let votes = seq![state::yes(s.coordinator)] + state::own_and(s, reason, existing);
    assert(votes.drop_first() == state::own_and(s, reason, existing));
    let begun = state::after_initialize(s, existing);
    assert(s.pending == Seq::<VoteView>::empty());
    assert((StateView { pending: Seq::empty(), ..begun }) == state::after_vote(
        waiting,
        state::yes(s.coordinator),
    ));
}

/// A decision is carried out once: after that, and before there is one, nothing is to be done, and
/// a finished transaction stays as it is.
pub proof fn law_finish_once(s: StateView, ok: bool)
    ensures
        state::finish_step(s.status) is Nothing <==> !(s.status is Committing || s.status
            is Rollbacking),
        state::finish_step(s.status) is Nothing ==> state::after_finished(s, ok) == s,
        state::finish_step(s.status) !is Nothing ==> state::after_finished(
            s,
            true,
        ).status.is_terminal(),
        state::finish_step(state::after_finished(s, true).status) == FinishView::Nothing,
        state::after_finished(s, false) == s,
{
}

/// A transaction in which only its coordinator takes part is bound to commit as soon as it is
/// initialized, and needs no execution.
pub proof fn law_lone_participant(s: StateView)
    requires
        s.status is Uninitialized,
        s.node_id == s.coordinator,
        s.voted == Set::<usize>::empty(),
        s.participants == Set::<usize>::empty().insert(state::index_of(s.node_id)),
    ensures
        state::initialize_result(s, Seq::empty()) == Ok::<InitStep, XactError>(
            InitStep::Initialized,
        ),
        state::after_initialize(s, Seq::empty()).status is Committing,
{
    let waiting = StateView { status: StatusView::Waiting, ..s };
    let votes = state::own_and(s, None, Seq::empty());
    let next = state::after_vote(waiting, votes[0]);
    assert(votes.drop_first().len() == 0);
    assert(next.status is Committing);
    assert(state::after_votes(next, votes.drop_first()) == next);
    assert(state::all_taken(next, votes.drop_first()));
}

} // verus!
