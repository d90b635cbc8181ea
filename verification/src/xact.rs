//! The life of one transaction on one node.
pub mod laws;
pub mod state;

use crate::buf;
use crate::id::{NodeId, XactId};
use crate::node_set;
use crate::pg::xact_controller::{
    self, LocalXactController, Notice, PgRequest, PgStep, PgStepView, ProgressView, RequestView,
    SurrogateView, SurrogateXactController,
};
use crate::vote::{InfoView, ReasonView, RollbackInfo, RollbackReason, Vote, VoteView};
use bit_set::BitSet;
use bytes::Bytes;
use state::{FinishStep, FinishView, InitStep, StateView, XactState};
use vstd::prelude::*;

verus! {

/// How far a transaction has come.
#[derive(Debug, PartialEq)]
pub enum XactStatus {
    Uninitialized,
    /// Votes are being counted.
    Waiting,
    /// Every participant voted for the transaction.
    Committing,
    /// A node voted against the transaction.
    Rollbacking(RollbackInfo),
    Committed,
    Rollbacked(RollbackInfo),
}

/// What an [`XactStatus`] holds.
#[verifier::ext_equal]
pub enum StatusView {
    Uninitialized,
    Waiting,
    Committing,
    Rollbacking(InfoView),
    Committed,
    Rollbacked(InfoView),
}

impl View for XactStatus {
    type V = StatusView;

    open spec fn view(&self) -> StatusView {
        match self {
            XactStatus::Uninitialized => StatusView::Uninitialized,
            XactStatus::Waiting => StatusView::Waiting,
            XactStatus::Committing => StatusView::Committing,
            XactStatus::Rollbacking(info) => StatusView::Rollbacking(info@),
            XactStatus::Committed => StatusView::Committed,
            XactStatus::Rollbacked(info) => StatusView::Rollbacked(info@),
        }
    }
}

impl Clone for XactStatus {
    fn clone(&self) -> (copy: Self)
        ensures
            copy@ == self@,
    {
        match self {
            XactStatus::Uninitialized => XactStatus::Uninitialized,
            XactStatus::Waiting => XactStatus::Waiting,
            XactStatus::Committing => XactStatus::Committing,
            XactStatus::Rollbacking(info) => XactStatus::Rollbacking(info.clone()),
            XactStatus::Committed => XactStatus::Committed,
            XactStatus::Rollbacked(info) => XactStatus::Rollbacked(info.clone()),
        }
    }
}

impl StatusView {
    /// Whether nothing more happens to the transaction.
    pub open spec fn is_terminal(self) -> bool {
        self is Committed || self is Rollbacked
    }

    /// Whether the transaction is bound to commit, or has.
    pub open spec fn commits(self) -> bool {
        self is Committing || self is Committed
    }

    /// Whether the transaction is bound to roll back, or has.
    pub open spec fn rolls_back(self) -> bool {
        self is Rollbacking || self is Rollbacked
    }
}

impl XactStatus {
    /// Whether nothing more happens to the transaction.
    pub fn is_terminal(&self) -> (b: bool)
        ensures
            b == self@.is_terminal(),
    {
        matches!(self, XactStatus::Committed | XactStatus::Rollbacked(_))
    }
}

/// Why a step of a transaction is refused or failed.
#[derive(Clone, Copy, Debug, PartialEq, Eq, Structural)]
pub enum XactError {
    /// The transaction was initialized before.
    AlreadyInitialized,
    /// A vote came although the transaction is bound to commit.
    AlreadyCommitting,
    /// The transaction is not known on this node yet.
    Uninitialized,
    /// The transaction was committed or rolled back before.
    AlreadyFinished,
    /// Committing failed.
    CommitFailed,
    /// Rolling back failed.
    RollbackFailed,
}

/// A transaction, as it is known to one node.
pub enum XactType<C> {
    /// Nothing is known of the transaction but some votes on it.
    Unknown(Vec<Vote>),
    /// The transaction came from the local database, which waits for the decision.
    Local(XactState<LocalXactController<C>>),
    /// The transaction came from another node.
    Surrogate(XactState<SurrogateXactController>),
}

/// What an [`XactType`] holds.
#[verifier::ext_equal]
pub enum XactView<C> {
    Unknown(Seq<VoteView>),
    Local { state: StateView, commit_tx: Option<C> },
    Surrogate { state: StateView, controller: SurrogateView },
}

impl<C> View for XactType<C> {
    type V = XactView<C>;

    open spec fn view(&self) -> XactView<C> {
        match self {
            XactType::Unknown(votes) => XactView::Unknown(state::votes_view(votes@)),
            XactType::Local(xact) => XactView::Local {
                state: xact@,
                commit_tx: xact.controller.commit_tx,
            },
            XactType::Surrogate(xact) => XactView::Surrogate {
                state: xact@,
                controller: xact.controller@,
            },
        }
    }
}

impl<C> XactView<C> {
    /// Whether every node that will be counted can be kept in a node set.
    pub open spec fn wf(self) -> bool {
        match self {
            XactView::Unknown(votes) => state::all_indexable(votes),
            XactView::Local { state, .. } => state.wf(),
            XactView::Surrogate { state, .. } => state.wf(),
        }
    }

    /// How far the transaction has come.
    pub open spec fn status(self) -> StatusView {
        match self {
            XactView::Unknown(_) => StatusView::Uninitialized,
            XactView::Local { state, .. } => state.status,
            XactView::Surrogate { state, .. } => state.status,
        }
    }

    /// The votes that came while nothing else was known of the transaction.
    pub open spec fn early_votes(self) -> Seq<VoteView> {
        match self {
            XactView::Unknown(votes) => votes,
            _ => Seq::empty(),
        }
    }

    /// Whether the answer to a request to the local database is awaited.
    pub open spec fn awaits_pg(self) -> bool {
        self matches XactView::Surrogate { controller, .. } && controller.progress !is Idle
    }
}

/// What must be done to go on with a transaction.
#[derive(Debug, PartialEq)]
pub enum XactStep<C> {
    /// Tell the one who waits for the transaction, and say whether that succeeded.
    Notify(Notice<C>),
    /// Do this with the local database, and say how it went.
    Pg(PgRequest),
    /// Nothing: the transaction has come as far as it can.
    Nothing,
}

/// What an [`XactStep`] holds.
#[verifier::ext_equal]
pub enum XactStepView<C> {
    Notify(C, Option<InfoView>),
    Pg(RequestView),
    Nothing,
}

impl<C> View for XactStep<C> {
    type V = XactStepView<C>;

    open spec fn view(&self) -> XactStepView<C> {
        match self {
            XactStep::Notify(notice) => XactStepView::Notify(
                notice.to,
                xact_controller::info_view(notice.info),
            ),
            XactStep::Pg(request) => XactStepView::Pg(request@),
            XactStep::Nothing => XactStepView::Nothing,
        }
    }
}

/// What the end of a step holds.
pub open spec fn step_view<C>(r: Result<XactStep<C>, XactError>) -> Result<
    XactStepView<C>,
    XactError,
> {
    match r {
        Ok(step) => Ok(step@),
        Err(e) => Err(e),
    }
}

/// What becomes of a transaction from the local database, and whether all votes on it are taken.
/// A local transaction needs no execution: the database has executed it.
pub open spec fn local_init<C>(
    votes: Seq<VoteView>,
    node_id: NodeId,
    coordinator: NodeId,
    participants: Set<usize>,
    commit_tx: C,
) -> (XactView<C>, Result<(), XactError>) {
    let new = state::new_state(XactId(0), node_id, coordinator, participants);
    let begun = state::after_initialize(new, votes);
    let commit_tx = Some(commit_tx);
    match state::initialize_result(new, votes) {
        Ok(InitStep::Execute) => (
            XactView::Local { state: state::after_executed(begun, None), commit_tx },
            if state::executed_ok(begun, None) {
                Ok(())
            } else {
                Err(XactError::AlreadyCommitting)
            },
        ),
        Ok(InitStep::Initialized) => (XactView::Local { state: begun, commit_tx }, Ok(())),
        Err(e) => (XactView::Local { state: begun, commit_tx }, Err(e)),
    }
}

/// What becomes of a transaction from another node, and how to go on with it.
pub open spec fn surrogate_init<C>(
    votes: Seq<VoteView>,
    xact_id: XactId,
    node_id: NodeId,
    coordinator: NodeId,
    participants: Set<usize>,
    data: Seq<u8>,
) -> (XactView<C>, Result<XactStepView<C>, XactError>) {
    let new = state::new_state(xact_id, node_id, coordinator, participants);
    let begun = state::after_initialize(new, votes);
    let idle = SurrogateView { xact_id, data, progress: ProgressView::Idle };
    match state::initialize_result(new, votes) {
        Ok(InitStep::Execute) => (
            XactView::Surrogate {
                state: begun,
                controller: SurrogateView { progress: ProgressView::ConnectingToExecute, ..idle },
            },
            Ok(XactStepView::Pg(RequestView::Connect)),
        ),
        Ok(InitStep::Initialized) => (
            XactView::Surrogate { state: begun, controller: idle },
            Ok(XactStepView::Nothing),
        ),
        Err(e) => (XactView::Surrogate { state: begun, controller: idle }, Err(e)),
    }
}

/// What becomes of a transaction with one more vote, and whether it is taken.
pub open spec fn vote_added<C>(x: XactView<C>, vote: VoteView) -> (
    XactView<C>,
    Result<(), XactError>,
) {
    let result = if state::takes_votes(x.status()) {
        Ok(())
    } else {
        Err(XactError::AlreadyCommitting)
    };
    match x {
        XactView::Unknown(votes) => (XactView::Unknown(votes.push(vote)), Ok(())),
        XactView::Local { state, commit_tx } => (
            XactView::Local { state: state::after_vote(state, vote), commit_tx },
            result,
        ),
        XactView::Surrogate { state, controller } => (
            XactView::Surrogate { state: state::after_vote(state, vote), controller },
            result,
        ),
    }
}

/// What becomes of a transaction when it is to be finished if it is decided, and how to go on.
pub open spec fn finish_tried<C>(x: XactView<C>) -> (
    XactView<C>,
    Result<XactStepView<C>, XactError>,
) {
    match x {
        XactView::Unknown(_) => (x, Err(XactError::Uninitialized)),
        XactView::Local { state, commit_tx } => {
            let info = match state::finish_step(state.status) {
                FinishView::Rollback(info) => Some(info),
                _ => None,
            };
            if state::finish_step(state.status) is Nothing {
                (x, Ok(XactStepView::Nothing))
            } else {
                (
                    XactView::Local { state, commit_tx: None },
                    match commit_tx {
                        Some(to) => Ok(XactStepView::Notify(to, info)),
                        None => Err(XactError::AlreadyFinished),
                    },
                )
            }
        },
        XactView::Surrogate { state, controller } => {
            let progress = match state::finish_step(state.status) {
                FinishView::Commit => ProgressView::ConnectingToCommit,
                FinishView::Rollback(_) => ProgressView::ConnectingToRollback,
                FinishView::Nothing => controller.progress,
            };
            (
                XactView::Surrogate { state, controller: SurrogateView { progress, ..controller } },
                if state::finish_step(state.status) is Nothing {
                    Ok(XactStepView::Nothing)
                } else {
                    Ok(XactStepView::Pg(RequestView::Connect))
                },
            )
        },
    }
}

/// What becomes of a transaction when the one who waits for it was told, or could not be.
pub open spec fn told<C>(x: XactView<C>, ok: bool) -> (XactView<C>, Result<(), XactError>) {
    match x {
        XactView::Local { state, commit_tx } => (
            XactView::Local { state: state::after_finished(state, ok), commit_tx },
            state::finished_result(state, ok),
        ),
        _ => (x, Ok(())),
    }
}

/// What becomes of a transaction with the answer to a request to the local database, and how to
/// go on. A transaction whose execution failed is rolled back for the reason of the failure.
pub open spec fn pg_answered<C>(x: XactView<C>, reply: Result<bool, ReasonView>) -> (
    XactView<C>,
    Result<XactStepView<C>, XactError>,
) {
    match x {
        XactView::Surrogate { state, controller } => {
            let (progress, step) = xact_controller::next(controller, reply);
            let next = SurrogateView { progress, ..controller };
            match step {
                PgStepView::Request(request) => (
                    XactView::Surrogate { state, controller: next },
                    Ok(XactStepView::Pg(request)),
                ),
                PgStepView::Finished(failure) => if controller.progress.is_executing() {
                    let reason = match failure {
                        Some(failure) => Some(failure.reason),
                        None => None,
                    };
                    (
                        XactView::Surrogate {
                            state: state::after_executed(state, reason),
                            controller: next,
                        },
                        if state::executed_ok(state, reason) {
                            Ok(XactStepView::Nothing)
                        } else {
                            Err(XactError::AlreadyCommitting)
                        },
                    )
                } else {
                    let ok = failure is None;
                    (
                        XactView::Surrogate {
                            state: state::after_finished(state, ok),
                            controller: next,
                        },
                        match state::finished_result(state, ok) {
                            Ok(_) => Ok(XactStepView::Nothing),
                            Err(e) => Err(e),
                        },
                    )
                },
            }
        },
        _ => (x, Ok(XactStepView::Nothing)),
    }
}

/// Counting votes changes nothing but the status and who voted.
pub(crate) proof fn lemma_votes_frame(s: StateView, votes: Seq<VoteView>)
    ensures
        ({
            let t = state::after_votes(s, votes);
            t == StateView { status: t.status, voted: t.voted, ..s }
        }),
    decreases votes.len(),
{
    if votes.len() > 0 && state::takes_votes(s.status) {
        lemma_votes_frame(state::after_vote(s, votes[0]), votes.drop_first());
    }
}

impl<C> Default for XactType<C> {
    fn default() -> (xact: Self)
        ensures
            xact@ == XactView::<C>::Unknown(Seq::empty()),
    {
        let xact = XactType::Unknown(Vec::new());
        assert(xact@ == XactView::<C>::Unknown(Seq::empty()));
        xact
    }
}

impl<C> XactType<C> {
    /// How far the transaction has come, once more is known of it than votes.
    pub fn status(&self) -> (status: Option<&XactStatus>)
        ensures
            match status {
                Some(status) => self@ !is Unknown && status@ == self@.status(),
                None => self@ is Unknown,
            },
    {
        match self {
            XactType::Unknown(_) => None,
            XactType::Local(xact) => Some(&xact.status),
            XactType::Surrogate(xact) => Some(&xact.status),
        }
    }

    /// Makes this a transaction from the local database. Votes that came before are counted.
    pub fn init_as_local(
        &mut self,
        node_id: NodeId,
        coordinator: NodeId,
        participants: BitSet,
        commit_tx: C,
    ) -> (r: Result<&XactStatus, XactError>)
        requires
            old(self)@ is Unknown,
            old(self)@.wf(),
            state::indexable(node_id),
            state::indexable(coordinator),
        ensures
            final(self)@.wf(),
            final(self)@ == local_init(
                old(self)@.early_votes(),
                node_id,
                coordinator,
                node_set::members(participants),
                commit_tx,
            ).0,
            ({
                let result = local_init(
                    old(self)@.early_votes(),
                    node_id,
                    coordinator,
                    node_set::members(participants),
                    commit_tx,
                ).1;
                match r {
                    Ok(status) => result is Ok && status@ == final(self)@.status(),
                    Err(e) => result == Err::<(), XactError>(e),
                }
            }),
    {
        let controller = LocalXactController::new(commit_tx);
        let mut xact = XactState::new(
            XactId::invalid(),
            node_id,
            coordinator,
            participants,
            controller,
        );
        let mut votes = Vec::new();
        if let XactType::Unknown(early) = self {
            std::mem::swap(&mut votes, early);
        }
        let ghost new = xact@;
        let ghost early = state::votes_view(votes@);
        proof {
            let waiting = StateView { status: StatusView::Waiting, ..new };
            lemma_votes_frame(waiting, state::own_and(new, None, early));
        }
        let begun = xact.initialize(votes);
        let ghost begun_state = xact@;
        let result = match begun {
            Ok(InitStep::Execute) => {
                let rollback_reason = xact.controller.execute().err();
                match xact.executed(rollback_reason) {
                    Ok(_) => Ok(()),
                    Err(e) => Err(e),
                }
            },
            Ok(InitStep::Initialized) => Ok(()),
            Err(e) => Err(e),
        };
        proof {
            lemma_votes_frame(
                StateView { pending: Seq::empty(), ..begun_state },
                state::own_and(begun_state, None, begun_state.pending),
            );
        }
        *self = XactType::Local(xact);
        match result {
            Ok(_) => match self {
                XactType::Local(xact) => Ok(&xact.status),
                _ => Err(XactError::Uninitialized),
            },
            Err(e) => Err(e),
        }
    }

    /// Makes this a transaction from another node. It is executed in the local database, then the
    /// votes that came before are counted.
    pub fn init_as_surrogate(
        &mut self,
        xact_id: XactId,
        node_id: NodeId,
        coordinator: NodeId,
        participants: BitSet,
        data: Bytes,
    ) -> (r: Result<XactStep<C>, XactError>)
        requires
            old(self)@ is Unknown,
            old(self)@.wf(),
            state::indexable(node_id),
            state::indexable(coordinator),
        ensures
            final(self)@.wf(),
            (final(self)@, step_view(r)) == surrogate_init::<C>(
                old(self)@.early_votes(),
                xact_id,
                node_id,
                coordinator,
                node_set::members(participants),
                buf::unread(data),
            ),
    {
        let controller = SurrogateXactController::new(xact_id, data);
        let mut xact = XactState::new(xact_id, node_id, coordinator, participants, controller);
        let mut votes = Vec::new();
        if let XactType::Unknown(early) = self {
            std::mem::swap(&mut votes, early);
        }
        proof {
            let waiting = StateView { status: StatusView::Waiting, ..xact@ };
            lemma_votes_frame(waiting, state::own_and(xact@, None, state::votes_view(votes@)));
        }
        let result = match xact.initialize(votes) {
            Ok(InitStep::Execute) => Ok(XactStep::Pg(xact.controller.execute())),
            Ok(InitStep::Initialized) => Ok(XactStep::Nothing),
            Err(e) => Err(e),
        };
        *self = XactType::Surrogate(xact);
        result
    }

    /// Counts a vote, or keeps it until more is known of the transaction.
    pub fn add_vote(&mut self, vote: Vote) -> (r: Result<(), XactError>)
        requires
            old(self)@.wf(),
            state::indexable(vote.from),
        ensures
            final(self)@.wf(),
            (final(self)@, r) == vote_added(old(self)@, vote@),
    {
        match self {
            XactType::Unknown(votes) => {
                votes.push(vote);
                assert(self@->Unknown_0 == old(self)@->Unknown_0.push(vote@));
                Ok(())
            },
            XactType::Local(xact) => match xact.add_vote(vote) {
                Ok(_) => Ok(()),
                Err(e) => Err(e),
            },
            XactType::Surrogate(xact) => match xact.add_vote(vote) {
                Ok(_) => Ok(()),
                Err(e) => Err(e),
            },
        }
    }

    /// Begins to finish the transaction if it is decided.
    pub fn try_finish(&mut self) -> (r: Result<XactStep<C>, XactError>)
        requires
            old(self)@.wf(),
        ensures
            final(self)@.wf(),
            (final(self)@, step_view(r)) == finish_tried(old(self)@),
    {
        match self {
            XactType::Unknown(_) => Err(XactError::Uninitialized),
            XactType::Local(xact) => {
                let notice = match xact.try_finish() {
                    FinishStep::Commit => xact.controller.commit(),
                    FinishStep::Rollback(info) => xact.controller.rollback(&info),
                    FinishStep::Nothing => {
                        return Ok(XactStep::Nothing);
                    },
                };
                match notice {
                    Ok(notice) => Ok(XactStep::Notify(notice)),
                    Err(e) => Err(e),
                }
            },
            XactType::Surrogate(xact) => match xact.try_finish() {
                FinishStep::Commit => Ok(XactStep::Pg(xact.controller.commit())),
                FinishStep::Rollback(_) => Ok(XactStep::Pg(xact.controller.rollback())),
                FinishStep::Nothing => Ok(XactStep::Nothing),
            },
        }
    }

    /// Goes on after the one who waits for the transaction was told, or could not be.
    pub fn notified(&mut self, ok: bool) -> (r: Result<(), XactError>)
        requires
            old(self)@.wf(),
            old(self)@ is Local,
        ensures
            final(self)@.wf(),
            (final(self)@, r) == told(old(self)@, ok),
    {
        match self {
            XactType::Local(xact) => match xact.finished(ok) {
                Ok(_) => Ok(()),
                Err(e) => Err(e),
            },
            _ => Ok(()),
        }
    }

    /// Goes on after the last request to the local database succeeded, by finding a row or not
    /// where that was asked, or failed.
    pub fn pg_replied(&mut self, reply: Result<bool, RollbackReason>) -> (r: Result<
        XactStep<C>,
        XactError,
    >)
        requires
            old(self)@.wf(),
            old(self)@.awaits_pg(),
        ensures
            final(self)@.wf(),
            (final(self)@, step_view(r)) == pg_answered(
                old(self)@,
                xact_controller::reply_view(reply),
            ),
    {
        match self {
            XactType::Surrogate(xact) => {
                let executing = xact.controller.is_executing();
                let ghost before = xact@;
                match xact.controller.replied(reply) {
                    PgStep::Request(request) => Ok(XactStep::Pg(request)),
                    PgStep::Finished(result) => if executing {
                        let reason = match result {
                            Ok(_) => None,
                            Err(failure) => Some(failure.reason),
                        };
                        proof {
                            lemma_votes_frame(
                                StateView { pending: Seq::empty(), ..before },
                                state::own_and(
                                    before,
                                    crate::vote::reason_view(reason),
                                    before.pending,
                                ),
                            );
                        }
                        match xact.executed(reason) {
                            Ok(_) => Ok(XactStep::Nothing),
                            Err(e) => Err(e),
                        }
                    } else {
                        match xact.finished(result.is_ok()) {
                            Ok(_) => Ok(XactStep::Nothing),
                            Err(e) => Err(e),
                        }
                    },
                }
            },
            _ => Ok(XactStep::Nothing),
        }
    }
}

} // verus!
