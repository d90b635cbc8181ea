//! The state of a transaction on a node that takes part in it: who takes part, who voted, and
//! what was decided.
use super::{StatusView, XactError, XactStatus};
use crate::id::{NodeId, XactId};
use crate::node_set;
use crate::vote::{self, InfoView, ReasonView, RollbackInfo, RollbackReason, Vote, VoteView};
use bit_set::BitSet;
use vstd::prelude::*;

verus! {

/// A transaction on one node. The controller is what carries out the decision.
pub struct XactState<C> {
    pub xact_id: XactId,
    pub node_id: NodeId,
    pub coordinator: NodeId,
    pub status: XactStatus,
    pub participants: BitSet,
    pub voted: BitSet,
    /// Votes that came before the transaction did, to be counted once it is executed.
    pub pending: Vec<Vote>,
    pub controller: C,
}

/// What an [`XactState`] holds, but for its controller.
#[verifier::ext_equal]
pub struct StateView {
    pub xact_id: XactId,
    pub node_id: NodeId,
    pub coordinator: NodeId,
    pub status: StatusView,
    pub participants: Set<usize>,
    pub voted: Set<usize>,
    pub pending: Seq<VoteView>,
}

/// What must be done to go on with the initialization of a transaction.
#[derive(Clone, Copy, Debug, PartialEq, Eq, Structural)]
pub enum InitStep {
    /// Execute the transaction on this node, and say how it went.
    Execute,
    /// Nothing: the transaction is initialized.
    Initialized,
}

/// What must be done to finish a transaction.
#[derive(Debug, PartialEq)]
pub enum FinishStep {
    /// Commit it, and say how it went.
    Commit,
    /// Roll it back, and say how it went.
    Rollback(RollbackInfo),
    /// Nothing: it is undecided, or finished.
    Nothing,
}

/// The number by which a node is kept in a node set.
pub open spec fn index_of(node: NodeId) -> usize {
    node.0 as usize
}

/// Whether a node can be kept in a node set. Only where `usize` has 32 bits is there a node that
/// cannot.
pub open spec fn indexable(node: NodeId) -> bool {
    node.0 < usize::MAX
}

/// Whether a node can be kept in a node set.
pub fn is_indexable(node: NodeId) -> (b: bool)
    ensures
        b == indexable(node),
{
    usize::from(node) < usize::MAX
}

/// What a list of votes holds.
pub open spec fn votes_view(votes: Seq<Vote>) -> Seq<VoteView> {
    votes.map_values(|v: Vote| v@)
}

/// Whether every voter can be kept in a node set.
pub open spec fn all_indexable(votes: Seq<VoteView>) -> bool {
    forall|i: int| 0 <= i < votes.len() ==> indexable((#[trigger] votes[i]).from)
}

/// The vote of a node for a transaction.
pub open spec fn yes(node: NodeId) -> VoteView {
    VoteView { from: node, rollback_reason: None }
}

/// Whether a transaction still takes votes, be it only to ignore them.
pub open spec fn takes_votes(status: StatusView) -> bool {
    !status.commits()
}

/// The state after one more vote.
pub open spec fn after_vote(s: StateView, vote: VoteView) -> StateView {
    if s.status != StatusView::Waiting {
        s
    } else {
        match vote.rollback_reason {
            Some(reason) => StateView {
                status: StatusView::Rollbacking(InfoView { by: vote.from, reason }),
                ..s
            },
            None => if s.voted.contains(index_of(vote.from)) {
                s
            } else {
                let voted = s.voted.insert(index_of(vote.from));
                StateView {
                    voted,
                    status: if voted == s.participants {
                        StatusView::Committing
                    } else {
                        StatusView::Waiting
                    },
                    ..s
                }
            },
        }
    }
}

/// The state after a list of votes, counted in order up to the first that is not taken.
pub open spec fn after_votes(s: StateView, votes: Seq<VoteView>) -> StateView
    decreases votes.len(),
{
    if votes.len() == 0 || !takes_votes(s.status) {
        s
    } else {
        after_votes(after_vote(s, votes[0]), votes.drop_first())
    }
}

/// Whether every vote of a list is taken.
pub open spec fn all_taken(s: StateView, votes: Seq<VoteView>) -> bool
    decreases votes.len(),
{
    votes.len() > 0 ==> takes_votes(s.status) && all_taken(
        after_vote(s, votes[0]),
        votes.drop_first(),
    )
}

/// The state of a transaction that nothing happened to yet.
pub open spec fn new_state(
    xact_id: XactId,
    node_id: NodeId,
    coordinator: NodeId,
    participants: Set<usize>,
) -> StateView {
    StateView {
        xact_id,
        node_id,
        coordinator,
        status: StatusView::Uninitialized,
        participants,
        voted: Set::empty(),
        pending: Seq::empty(),
    }
}

/// The votes that are counted once a transaction was executed, or need not be: that of the node
/// itself, then those that came before.
pub open spec fn own_and(
    s: StateView,
    rollback_reason: Option<ReasonView>,
    existing: Seq<VoteView>,
) -> Seq<VoteView> {
    seq![VoteView { from: s.node_id, rollback_reason }] + existing
}

/// The state after initialization began.
pub open spec fn after_initialize(s: StateView, existing: Seq<VoteView>) -> StateView {
    let waiting = StateView { status: StatusView::Waiting, ..s };
    if s.status != StatusView::Uninitialized {
        s
    } else if s.node_id == s.coordinator {
        after_votes(waiting, own_and(s, None, existing))
    } else {
        StateView { pending: existing, ..after_vote(waiting, yes(s.coordinator)) }
    }
}

/// How the beginning of the initialization ends.
pub open spec fn initialize_result(s: StateView, existing: Seq<VoteView>) -> Result<
    InitStep,
    XactError,
> {
    let waiting = StateView { status: StatusView::Waiting, ..s };
    if s.status != StatusView::Uninitialized {
        Err(XactError::AlreadyInitialized)
    } else if s.node_id != s.coordinator {
        Ok(InitStep::Execute)
    } else if all_taken(waiting, own_and(s, None, existing)) {
        Ok(InitStep::Initialized)
    } else {
        Err(XactError::AlreadyCommitting)
    }
}

/// The state after the node executed the transaction.
pub open spec fn after_executed(s: StateView, rollback_reason: Option<ReasonView>) -> StateView {
    after_votes(
        StateView { pending: Seq::empty(), ..s },
        own_and(s, rollback_reason, s.pending),
    )
}

/// Whether all votes are taken that are counted after the node executed the transaction.
pub open spec fn executed_ok(s: StateView, rollback_reason: Option<ReasonView>) -> bool {
    all_taken(
        StateView { pending: Seq::empty(), ..s },
        own_and(s, rollback_reason, s.pending),
    )
}

/// The state after the decision was carried out, or failed to be.
pub open spec fn after_finished(s: StateView, ok: bool) -> StateView {
    match s.status {
        StatusView::Committing if ok => StateView { status: StatusView::Committed, ..s },
        StatusView::Rollbacking(info) if ok => StateView {
            status: StatusView::Rollbacked(info),
            ..s
        },
        _ => s,
    }
}

/// How carrying out the decision ends.
pub open spec fn finished_result(s: StateView, ok: bool) -> Result<(), XactError> {
    match s.status {
        StatusView::Committing if !ok => Err(XactError::CommitFailed),
        StatusView::Rollbacking(_) if !ok => Err(XactError::RollbackFailed),
        _ => Ok(()),
    }
}

/// What a [`FinishStep`] holds.
#[verifier::ext_equal]
pub enum FinishView {
    Commit,
    Rollback(InfoView),
    Nothing,
}

impl View for FinishStep {
    type V = FinishView;

    open spec fn view(&self) -> FinishView {
        match self {
            FinishStep::Commit => FinishView::Commit,
            FinishStep::Rollback(info) => FinishView::Rollback(info@),
            FinishStep::Nothing => FinishView::Nothing,
        }
    }
}

/// What must be done to finish a transaction with the given status.
pub open spec fn finish_step(status: StatusView) -> FinishView {
    match status {
        StatusView::Committing => FinishView::Commit,
        StatusView::Rollbacking(info) => FinishView::Rollback(info),
        _ => FinishView::Nothing,
    }
}

impl<C> View for XactState<C> {
    type V = StateView;

    open spec fn view(&self) -> StateView {
        StateView {
            xact_id: self.xact_id,
            node_id: self.node_id,
            coordinator: self.coordinator,
            status: self.status@,
            participants: node_set::members(self.participants),
            voted: node_set::members(self.voted),
            pending: votes_view(self.pending@),
        }
    }
}

impl StateView {
    /// Whether every node that will be counted can be kept in a node set.
    pub open spec fn wf(self) -> bool {
        &&& indexable(self.node_id)
        &&& indexable(self.coordinator)
        &&& all_indexable(self.pending)
    }
}

impl<C> XactState<C> {
    /// A transaction that nothing happened to yet.
    pub fn new(
        xact_id: XactId,
        node_id: NodeId,
        coordinator: NodeId,
        participants: BitSet,
        controller: C,
    ) -> (state: Self)
        ensures
            state@ == new_state(
                xact_id,
                node_id,
                coordinator,
                node_set::members(participants),
            ),
            state.controller == controller,
    {
        let state = Self {
            xact_id,
            node_id,
            coordinator,
            status: XactStatus::Uninitialized,
            participants,
            voted: node_set::empty(),
            pending: Vec::new(),
            controller,
        };
        assert(state@.pending == Seq::<VoteView>::empty());
        state
    }

    /// Counts a vote. A vote against the transaction decides it at once; a vote for it decides it
    /// once all participants, and nobody else, voted so.
    pub fn add_vote(&mut self, vote: Vote) -> (r: Result<&XactStatus, XactError>)
        requires
            indexable(vote.from),
        ensures
            final(self).controller == old(self).controller,
            final(self)@ == after_vote(old(self)@, vote@),
            match r {
                Ok(status) => takes_votes(old(self)@.status) && status@ == final(self)@.status,
                Err(e) => !takes_votes(old(self)@.status) && e == XactError::AlreadyCommitting,
            },
    {
        match self.status {
            XactStatus::Committing | XactStatus::Committed => {
                return Err(XactError::AlreadyCommitting);
            },
            XactStatus::Waiting => {},
            _ => {
                return Ok(&self.status);
            },
        }
        let index: usize = usize::from(vote.from);
        match vote.rollback_reason {
            Some(reason) => {
                self.status = XactStatus::Rollbacking(RollbackInfo(vote.from, reason));
            },
            None => {
                if !node_set::contains(&self.voted, index) {
                    node_set::insert(&mut self.voted, index);
                    if node_set::same(&self.voted, &self.participants) {
                        self.status = XactStatus::Committing;
                    }
                }
            },
        }
        Ok(&self.status)
    }

    /// Counts votes in order, up to the first that is not taken.
    fn add_votes(&mut self, votes: Vec<Vote>) -> (r: Result<(), XactError>)
        requires
            all_indexable(votes_view(votes@)),
        ensures
            final(self).controller == old(self).controller,
            final(self)@ == after_votes(old(self)@, votes_view(votes@)),
            r == (if all_taken(old(self)@, votes_view(votes@)) {
                Ok::<(), XactError>(())
            } else {
                Err(XactError::AlreadyCommitting)
            }),
    {
        let ghost all = votes_view(votes@);
        let ghost before = self@;
        proof {
            assert(all.skip(0) == all);
        }
        for vote in iter: votes
            invariant
                all == votes_view(iter.seq()),
                all == votes_view(votes@),
                before == old(self)@,
                all_indexable(all),
                self.controller == old(self).controller,
                after_votes(before, all) == after_votes(self@, all.skip(iter.index() as int)),
                all_taken(before, all) == all_taken(self@, all.skip(iter.index() as int)),
        {
            let ghost i = iter.index() as int;
            let ghost rest = all.skip(i);
            proof {
                assert(rest[0] == all[i]);
                assert(all[i] == vote@);
                assert(rest.drop_first() == all.skip(i + 1));
            }
            match self.add_vote(vote) {
                Ok(_) => {},
                Err(e) => {
                    return Err(e);
                },
            }
        }
        proof {
            assert(all.skip(all.len() as int).len() == 0);
        }
        Ok(())
    }

    /// Begins to initialize the transaction. The coordinator has executed it already, and counts
    /// its own vote and those that came before. Any other node counts the vote of the coordinator
    /// and executes the transaction first.
    pub fn initialize(&mut self, existing_votes: Vec<Vote>) -> (r: Result<InitStep, XactError>)
        requires
            indexable(old(self).node_id),
            indexable(old(self).coordinator),
            all_indexable(votes_view(existing_votes@)),
        ensures
            final(self).controller == old(self).controller,
            final(self)@ == after_initialize(old(self)@, votes_view(existing_votes@)),
            r == initialize_result(old(self)@, votes_view(existing_votes@)),
    {
        match self.status {
            XactStatus::Uninitialized => {},
            _ => {
                return Err(XactError::AlreadyInitialized);
            },
        }
        self.status = XactStatus::Waiting;
        if self.node_id == self.coordinator {
            match self.add_own_and(None, existing_votes) {
                Ok(_) => Ok(InitStep::Initialized),
                Err(e) => Err(e),
            }
        } else {
            let coordinator = self.coordinator;
            match self.add_vote(Vote::yes(coordinator)) {
                Ok(_) => {},
                Err(e) => {
                    return Err(e);
                },
            }
            self.pending = existing_votes;
            Ok(InitStep::Execute)
        }
    }

    /// Counts the vote of this node, then others.
    fn add_own_and(&mut self, rollback_reason: Option<RollbackReason>, votes: Vec<Vote>) -> (r:
        Result<(), XactError>)
        requires
            indexable(old(self).node_id),
            all_indexable(votes_view(votes@)),
        ensures
            final(self).controller == old(self).controller,
            final(self)@ == after_votes(
                old(self)@,
                own_and(old(self)@, vote::reason_view(rollback_reason), votes_view(votes@)),
            ),
            r == (if all_taken(
                old(self)@,
                own_and(old(self)@, vote::reason_view(rollback_reason), votes_view(votes@)),
            ) {
                Ok::<(), XactError>(())
            } else {
                Err(XactError::AlreadyCommitting)
            }),
    {
        let ghost all = own_and(old(self)@, vote::reason_view(rollback_reason), votes_view(votes@));
        assert(all.drop_first() == votes_view(votes@));
        let own = Vote { from: self.node_id, rollback_reason };
        assert(all[0] == own@);
        match self.add_vote(own) {
            Ok(_) => {},
            Err(e) => {
                return Err(e);
            },
        }
        self.add_votes(votes)
    }

    /// Completes the initialization with what the execution of the transaction on this node came
    /// to: this node votes against the transaction if it had to be rolled back, and for it
    /// otherwise. Then the votes that came before are counted.
    pub fn executed(&mut self, rollback_reason: Option<RollbackReason>) -> (r: Result<
        &XactStatus,
        XactError,
    >)
        requires
            old(self)@.wf(),
        ensures
            final(self).controller == old(self).controller,
            final(self)@ == after_executed(old(self)@, vote::reason_view(rollback_reason)),
            match r {
                Ok(status) => executed_ok(old(self)@, vote::reason_view(rollback_reason)) && status@
                    == final(self)@.status,
                Err(e) => !executed_ok(old(self)@, vote::reason_view(rollback_reason)) && e
                    == XactError::AlreadyCommitting,
            },
    {
        let mut votes = Vec::new();
        std::mem::swap(&mut self.pending, &mut votes);
        assert(self@ == (StateView { pending: Seq::empty(), ..old(self)@ }));
        match self.add_own_and(rollback_reason, votes) {
            Ok(_) => Ok(&self.status),
            Err(e) => Err(e),
        }
    }

    /// What must be done to finish the transaction.
    pub fn try_finish(&self) -> (step: FinishStep)
        ensures
            step@ == finish_step(self@.status),
    {
        match &self.status {
            XactStatus::Committing => FinishStep::Commit,
            XactStatus::Rollbacking(info) => FinishStep::Rollback(info.clone()),
            XactStatus::Committed
            | XactStatus::Rollbacked(_)
            | XactStatus::Waiting
            | XactStatus::Uninitialized => FinishStep::Nothing,
        }
    }

    /// Finishes the transaction if what had to be done succeeded. Where nothing had to be done,
    /// nothing changes.
    pub fn finished(&mut self, ok: bool) -> (r: Result<&XactStatus, XactError>)
        ensures
            final(self).controller == old(self).controller,
            final(self)@ == after_finished(old(self)@, ok),
            match r {
                Ok(status) => finished_result(old(self)@, ok) is Ok && status@
                    == final(self)@.status,
                Err(e) => finished_result(old(self)@, ok) == Err::<(), XactError>(e),
            },
    {
        match &self.status {
            XactStatus::Committing => {
                if !ok {
                    return Err(XactError::CommitFailed);
                }
                self.status = XactStatus::Committed;
            },
            XactStatus::Rollbacking(info) => {
                if !ok {
                    return Err(XactError::RollbackFailed);
                }
                self.status = XactStatus::Rollbacked(info.clone());
            },
            _ => {},
        }
        Ok(&self.status)
    }
}

} // verus!
