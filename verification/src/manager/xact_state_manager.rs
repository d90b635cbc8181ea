//! What each message on one transaction leads to.
use crate::buf;
use crate::decoder::{self, DecodeError, RWSet};
use crate::id::{NodeId, XactId};
use crate::message::XsMessage;
use crate::metrics::{self, Labels};
use crate::node_set;
use crate::pg::xact_controller::{self, Notice, PgRequest, RequestView};
use crate::proto::{
    vote_message, PrepareMessage, PrepareView, VoteMessage, VoteMessageView,
};
use crate::vote::{InfoView, ReasonView, RollbackInfo, RollbackReason, Vote, VoteView};
use crate::xact::state::{self, StateView};
use crate::xact::{self, StatusView, XactError, XactStatus, XactStep, XactStepView, XactType, XactView};
use bit_set::BitSet;
use bytes::Bytes;
use vstd::prelude::*;

verus! {

/// What a transaction waits for.
#[derive(Clone, Copy, Debug, PartialEq, Eq, Structural)]
pub enum Phase {
    /// A message.
    Idle,
    /// The local database, which executes the transaction.
    Executing,
    /// That the other participants are asked to prepare.
    SendingPrepares,
    /// That the other participants are told how this node votes.
    SendingVotes,
    /// That the decision is carried out.
    Finishing,
    /// That the end of the transaction is recorded.
    Finished,
    /// Nothing.
    Stopped,
}

/// Why a transaction is given up.
#[derive(Clone, Copy, Debug, PartialEq, Eq, Structural)]
pub enum ManagerError {
    /// Its read/write set could not be decoded.
    Decode(DecodeError),
    /// A step was refused or failed.
    Xact(XactError),
    /// Another participant could not be reached.
    SendFailed,
}

/// What must be done to go on with a transaction.
#[derive(Debug, PartialEq)]
pub enum Action<C> {
    /// Wait for a message.
    Wait,
    /// Do this with the local database, and say how it went.
    Pg(PgRequest),
    /// Send this to each of these nodes, and say whether all got it.
    Prepare { to: Vec<NodeId>, message: PrepareMessage },
    /// Send this to each of these nodes, and say whether all got it.
    Vote { to: Vec<NodeId>, message: VoteMessage },
    /// Tell the one who waits for the transaction, and say whether that succeeded.
    Notify(Notice<C>),
    /// Record the end of the transaction, and stop.
    Finish,
    /// Stop, for the given error or because this node takes no part.
    Stop(Option<ManagerError>),
}

/// What an [`Action`] holds.
#[verifier::ext_equal]
pub enum ActionView<C> {
    Wait,
    Pg(RequestView),
    Prepare { to: Set<NodeId>, message: PrepareView },
    Vote { to: Set<NodeId>, message: VoteMessageView },
    Notify(C, Option<InfoView>),
    Finish,
    Stop(Option<ManagerError>),
}

impl<C> View for Action<C> {
    type V = ActionView<C>;

    open spec fn view(&self) -> ActionView<C> {
        match self {
            Action::Wait => ActionView::Wait,
            Action::Pg(request) => ActionView::Pg(request@),
            Action::Prepare { to, message } => ActionView::Prepare {
                to: to@.to_set(),
                message: message@,
            },
            Action::Vote { to, message } => ActionView::Vote {
                to: to@.to_set(),
                message: message@,
            },
            Action::Notify(notice) => ActionView::Notify(
                notice.to,
                xact_controller::info_view(notice.info),
            ),
            Action::Finish => ActionView::Finish,
            Action::Stop(error) => ActionView::Stop(*error),
        }
    }
}

/// Whether nodes are listed in ascending order, and so once each.
pub open spec fn ascending(nodes: Seq<NodeId>) -> bool {
    forall|i: int, j: int| 0 <= i < j < nodes.len() ==> nodes[i].0 < nodes[j].0
}

impl<C> Action<C> {
    /// Whether what is sent goes to each receiver once.
    pub open spec fn sends_once(self) -> bool {
        match self {
            Action::Prepare { to, .. } => ascending(to@),
            Action::Vote { to, .. } => ascending(to@),
            _ => true,
        }
    }
}

/// How the handling of a message ends with an action: with an error, or with whether the
/// transaction is over. With any other action it has not ended.
pub open spec fn handler_end<C>(action: ActionView<C>) -> Option<Result<bool, ManagerError>> {
    match action {
        ActionView::Wait => Some(Ok(false)),
        ActionView::Finish => Some(Ok(true)),
        ActionView::Stop(None) => Some(Ok(true)),
        ActionView::Stop(Some(e)) => Some(Err(e)),
        _ => None,
    }
}

impl<C> Action<C> {
    /// How the handling of a message ends with this action, if it does: with an error, or with
    /// whether the transaction is over.
    pub fn handler_end(&self) -> (r: Option<Result<bool, ManagerError>>)
        ensures
            r == handler_end(self@),
    {
        match self {
            Action::Wait => Some(Ok(false)),
            Action::Finish => Some(Ok(true)),
            Action::Stop(None) => Some(Ok(true)),
            Action::Stop(Some(e)) => Some(Err(*e)),
            _ => None,
        }
    }
}

/// One transaction on one node.
pub struct XactStateManager<C> {
    pub xact_id: XactId,
    pub node_id: NodeId,
    /// The node that coordinates the transaction, once that is known.
    pub coordinator_id: Option<NodeId>,
    pub xact: XactType<C>,
    /// Whether the beginning of the transaction was recorded, and not yet its end.
    pub measuring: bool,
    pub phase: Phase,
}

/// What an [`XactStateManager`] holds.
#[verifier::ext_equal]
pub struct ManagerView<C> {
    pub xact_id: XactId,
    pub node_id: NodeId,
    pub coordinator_id: Option<NodeId>,
    pub xact: XactView<C>,
    pub measuring: bool,
    pub phase: Phase,
}

impl<C> View for XactStateManager<C> {
    type V = ManagerView<C>;

    open spec fn view(&self) -> ManagerView<C> {
        ManagerView {
            xact_id: self.xact_id,
            node_id: self.node_id,
            coordinator_id: self.coordinator_id,
            xact: self.xact@,
            measuring: self.measuring,
            phase: self.phase,
        }
    }
}

/// Whether a transaction is initialized and not finished.
pub open spec fn is_open(status: StatusView) -> bool {
    status is Waiting || status is Committing || status is Rollbacking
}

/// Whether no participant has a number of more than 32 bits.
pub open spec fn numbered(participants: Set<usize>) -> bool {
    forall|n: usize| #[trigger] participants.contains(n) ==> n <= u32::MAX
}

impl<C> ManagerView<C> {
    /// Whether no request to the local database is under way.
    pub open spec fn pg_idle(self) -> bool {
        self.xact matches XactView::Surrogate { controller, .. } ==> controller.progress is Idle
    }

    /// Whether the transaction is one of this node and, if it is from another node, the one that
    /// is carried out.
    pub open spec fn is_mine(self) -> bool {
        match self.xact {
            XactView::Unknown(_) => true,
            XactView::Local { state, .. } => state.node_id == self.node_id,
            XactView::Surrogate { state, controller } => {
                &&& state.node_id == self.node_id
                &&& state.xact_id == self.xact_id
                &&& controller.xact_id == self.xact_id
                &&& numbered(state.participants)
            },
        }
    }

    /// Whether what is known of the transaction fits what it waits for.
    pub open spec fn wf(self) -> bool {
        &&& state::indexable(self.node_id)
        &&& self.xact.wf()
        &&& self.is_mine()
        &&& self.xact !is Unknown && self.phase != Phase::Stopped ==> self.coordinator_id is Some
            && self.measuring
        &&& match self.phase {
            Phase::Idle => {
                &&& self.xact is Unknown || self.xact.status() is Waiting
                &&& self.pg_idle()
            },
            Phase::Executing => {
                &&& self.xact matches XactView::Surrogate { controller, .. }
                &&& controller.progress.is_executing()
                &&& is_open(self.xact.status())
            },
            Phase::SendingPrepares => {
                &&& self.xact is Local
                &&& self.xact.status() is Waiting
            },
            Phase::SendingVotes => {
                &&& self.xact is Surrogate
                &&& is_open(self.xact.status())
                &&& self.pg_idle()
            },
            Phase::Finishing => {
                &&& self.xact !is Unknown
                &&& self.xact.status() is Committing || self.xact.status() is Rollbacking
                &&& self.xact matches XactView::Surrogate { state, controller }
                    ==> if state.status is Committing {
                    controller.progress.is_committing()
                } else {
                    controller.progress.is_rolling_back()
                }
            },
            Phase::Finished => self.xact.status().is_terminal(),
            Phase::Stopped => true,
        }
    }
}

/// The participants but for one.
pub open spec fn all_but(me: NodeId, participants: Set<usize>) -> Set<NodeId> {
    Set::new(|node: NodeId| node != me && participants.contains(node.0 as usize))
}

/// Stops for an error.
pub open spec fn stopped<C>(s: ManagerView<C>, error: ManagerError) -> (
    ManagerView<C>,
    ActionView<C>,
) {
    (ManagerView { phase: Phase::Stopped, ..s }, ActionView::Stop(Some(error)))
}

/// Ends if the transaction is finished, and waits for a message if it is not.
pub open spec fn settled<C>(s: ManagerView<C>) -> (ManagerView<C>, ActionView<C>) {
    if s.xact.status().is_terminal() {
        (ManagerView { phase: Phase::Finished, ..s }, ActionView::Finish)
    } else {
        (ManagerView { phase: Phase::Idle, ..s }, ActionView::Wait)
    }
}

/// Finishes the transaction if it is decided.
pub open spec fn finishing<C>(s: ManagerView<C>) -> (ManagerView<C>, ActionView<C>) {
    let (xact, result) = xact::finish_tried(s.xact);
    let next = ManagerView { xact, phase: Phase::Finishing, ..s };
    match result {
        Ok(XactStepView::Notify(to, info)) => (next, ActionView::Notify(to, info)),
        Ok(XactStepView::Pg(request)) => (next, ActionView::Pg(request)),
        Ok(XactStepView::Nothing) => settled(ManagerView { xact, ..s }),
        Err(e) => stopped(ManagerView { xact, ..s }, ManagerError::Xact(e)),
    }
}

/// Why a node votes against a transaction with the given status, if it does.
pub open spec fn cause(status: StatusView) -> Option<ReasonView> {
    match status {
        StatusView::Rollbacking(info) => Some(info.reason),
        StatusView::Rollbacked(info) => Some(info.reason),
        _ => None,
    }
}

/// Tells the other participants how this node votes.
pub open spec fn voting<C>(s: ManagerView<C>) -> (ManagerView<C>, ActionView<C>) {
    let participants = match s.xact {
        XactView::Surrogate { state, .. } => state.participants,
        _ => Set::empty(),
    };
    (
        ManagerView { phase: Phase::SendingVotes, ..s },
        ActionView::Vote {
            to: all_but(s.node_id, participants),
            message: VoteMessageView {
                from: s.node_id.0,
                xact_id: s.xact_id.0,
                rollback_reason: cause(s.xact.status()),
            },
        },
    )
}

/// A transaction of the local database comes in. This node coordinates it, and asks the other
/// participants to prepare it.
pub open spec fn local_xact<C>(s: ManagerView<C>, data: Seq<u8>, commit_tx: C) -> (
    ManagerView<C>,
    ActionView<C>,
) {
    let begun = ManagerView { coordinator_id: Some(s.node_id), measuring: true, ..s };
    match decoder::decoded(data) {
        Err(e) => stopped(begun, ManagerError::Decode(e)),
        Ok(rwset) => {
            let (xact, result) = xact::local_init(
                s.xact.early_votes(),
                s.node_id,
                s.node_id,
                rwset.header.participants,
                commit_tx,
            );
            match result {
                Err(e) => stopped(ManagerView { xact, ..begun }, ManagerError::Xact(e)),
                Ok(_) => (
                    ManagerView { xact, phase: Phase::SendingPrepares, ..begun },
                    ActionView::Prepare {
                        to: all_but(s.node_id, rwset.header.participants),
                        message: PrepareView { from: s.node_id.0, xact_id: s.xact_id.0, data },
                    },
                ),
            }
        },
    }
}

/// Another node asks this one to prepare a transaction. If this node takes part in it, it is
/// executed, and then voted on.
pub open spec fn prepare<C>(s: ManagerView<C>, from: u32, data: Seq<u8>) -> (
    ManagerView<C>,
    ActionView<C>,
) {
    let begun = ManagerView { coordinator_id: Some(NodeId(from)), measuring: true, ..s };
    match decoder::decoded(data) {
        Err(e) => stopped(begun, ManagerError::Decode(e)),
        Ok(rwset) => if !rwset.header.participants.contains(state::index_of(s.node_id)) {
            (ManagerView { phase: Phase::Stopped, ..begun }, ActionView::Stop(None))
        } else {
            let (xact, result) = xact::surrogate_init::<C>(
                s.xact.early_votes(),
                s.xact_id,
                s.node_id,
                NodeId(from),
                rwset.header.participants,
                data,
            );
            let next = ManagerView { xact, ..begun };
            match result {
                Ok(XactStepView::Pg(request)) => (
                    ManagerView { phase: Phase::Executing, ..next },
                    ActionView::Pg(request),
                ),
                Ok(_) => voting(next),
                Err(e) => stopped(next, ManagerError::Xact(e)),
            }
        },
    }
}

/// Another node votes on the transaction.
pub open spec fn vote<C>(s: ManagerView<C>, vote: VoteView) -> (ManagerView<C>, ActionView<C>) {
    let (xact, result) = xact::vote_added(s.xact, vote);
    match result {
        Ok(_) => finishing(ManagerView { xact, ..s }),
        Err(e) => stopped(ManagerView { xact, ..s }, ManagerError::Xact(e)),
    }
}

/// Messages were sent to the other participants, or one of them could not be reached.
pub open spec fn sent<C>(s: ManagerView<C>, ok: bool) -> (ManagerView<C>, ActionView<C>) {
    if !ok {
        stopped(s, ManagerError::SendFailed)
    } else if s.phase == Phase::SendingVotes {
        finishing(s)
    } else {
        (ManagerView { phase: Phase::Idle, ..s }, ActionView::Wait)
    }
}

/// The local database answered.
pub open spec fn pg_replied<C>(s: ManagerView<C>, reply: Result<bool, ReasonView>) -> (
    ManagerView<C>,
    ActionView<C>,
) {
    let (xact, result) = xact::pg_answered(s.xact, reply);
    let next = ManagerView { xact, ..s };
    match result {
        Ok(XactStepView::Pg(request)) => (next, ActionView::Pg(request)),
        Ok(_) => if s.phase == Phase::Executing {
            voting(next)
        } else {
            settled(next)
        },
        Err(e) => stopped(next, ManagerError::Xact(e)),
    }
}

/// The one who waits for the transaction was told, or could not be.
pub open spec fn notified<C>(s: ManagerView<C>, ok: bool) -> (ManagerView<C>, ActionView<C>) {
    let (xact, result) = xact::told(s.xact, ok);
    let next = ManagerView { xact, ..s };
    match result {
        Ok(_) => settled(next),
        Err(e) => stopped(next, ManagerError::Xact(e)),
    }
}

/// Whether a transaction of the local database with the given read/write set would wait for the
/// votes of others, if it is initialized at all.
pub open spec fn local_waits<C>(s: ManagerView<C>, data: Seq<u8>) -> bool {
    match decoder::decoded(data) {
        Err(_) => true,
        Ok(rwset) => {
            let (xact, result) = xact::local_init(
                s.xact.early_votes(),
                s.node_id,
                s.node_id,
                rwset.header.participants,
                (),
            );
            result is Ok ==> xact.status() is Waiting
        },
    }
}

/// The node that coordinates a transaction that a message brings.
pub open spec fn coordinator_of<C>(s: ManagerView<C>, msg: XsMessage<C>) -> Option<NodeId> {
    match msg {
        XsMessage::LocalXact { .. } => Some(s.node_id),
        XsMessage::Prepare(msg) => Some(NodeId(msg.from)),
        XsMessage::Vote(_) => None,
    }
}

/// Whether a message can be taken in. A transaction comes only once, and where it comes from the
/// local database it takes the votes of other nodes to decide it. Senders can be kept in a node
/// set.
pub open spec fn acceptable<C>(s: ManagerView<C>, msg: XsMessage<C>) -> bool {
    match msg {
        XsMessage::LocalXact { data, .. } => s.xact is Unknown && local_waits(
            s,
            buf::unread(data),
        ),
        XsMessage::Prepare(msg) => s.xact is Unknown && state::indexable(NodeId(msg.from)),
        XsMessage::Vote(msg) => state::indexable(NodeId(msg.from)),
    }
}

/// What a message leads to.
pub open spec fn handled<C>(s: ManagerView<C>, msg: XsMessage<C>) -> (
    ManagerView<C>,
    ActionView<C>,
) {
    match msg {
        XsMessage::LocalXact { data, commit_tx } => local_xact(s, buf::unread(data), commit_tx),
        XsMessage::Prepare(msg) => prepare(s, msg.from, msg.data@),
        XsMessage::Vote(msg) => vote(
            s,
            VoteView { from: NodeId(msg.from), rollback_reason: msg@.rollback_reason },
        ),
    }
}

/// Votes neither finish nor uninitialize a transaction.
pub(crate) proof fn lemma_votes_open(s: StateView, votes: Seq<VoteView>)
    requires
        is_open(s.status),
    ensures
        is_open(state::after_votes(s, votes).status),
    decreases votes.len(),
{
    if votes.len() > 0 && state::takes_votes(s.status) {
        lemma_votes_open(state::after_vote(s, votes[0]), votes.drop_first());
    }
}

/// The members of `all`, as nodes, but for `me`.
fn all_but_me(me: NodeId, participants: &BitSet) -> (to: Vec<NodeId>)
    requires
        numbered(node_set::members(*participants)),
    ensures
        ascending(to@),
        to@.to_set() == all_but(me, node_set::members(*participants)),
{
    let ghost members = node_set::members(*participants);
    let indices = node_set::to_vec(participants);
    let mut to: Vec<NodeId> = Vec::new();
    let mut i: usize = 0;
    while i < indices.len()
        invariant
            i <= indices.len(),
            numbered(members),
            node_set::lists(indices@, members),
            ascending(to@),
            forall|j: int|
                0 <= j < to@.len() ==> (#[trigger] to@[j]) != me && members.contains(
                    to@[j].0 as usize,
                ),
            forall|j: int, k: int|
                0 <= j < to@.len() && i <= k < indices@.len() ==> (#[trigger] to@[j]).0
                    < #[trigger] indices@[k],
            forall|k: int|
                #![trigger indices@[k]]
                0 <= k < i ==> NodeId(indices@[k] as u32) == me || to@.contains(
                    NodeId(indices@[k] as u32),
                ),
        decreases indices.len() - i,
    {
        let index: usize = indices[i];
        let ghost before = to@;
        proof {
            assert(indices@.contains(index));
            assert(members.contains(index));
        }
        let node = NodeId::from(index);
        if node != me {
            to.push(node);
            proof {
                assert(to@ == before.push(node));
                assert forall|k: int|
                    #![trigger indices@[k]]
                    0 <= k < i + 1 implies NodeId(indices@[k] as u32) == me || to@.contains(
                    NodeId(indices@[k] as u32),
                ) by {
                    if k == i {
                        assert(to@[before.len() as int] == node);
                    } else if NodeId(indices@[k] as u32) != me {
                        let m = choose|m: int|
                            0 <= m < before.len() && before[m] == NodeId(indices@[k] as u32);
                        assert(to@[m] == NodeId(indices@[k] as u32));
                    }
                }
            }
        }
        i = i + 1;
    }
    proof {
        assert forall|node: NodeId| to@.to_set().contains(node) <==> all_but(me, members).contains(
            node,
        ) by {
            if to@.contains(node) {
                let j = choose|j: int| 0 <= j < to@.len() && to@[j] == node;
                assert(to@[j] == node);
            }
            if all_but(me, members).contains(node) {
                assert(indices@.contains(node.0 as usize));
                let k = choose|k: int| 0 <= k < indices@.len() && indices@[k] == node.0 as usize;
                assert(NodeId(indices@[k] as u32) == node);
            }
        }
        assert(to@.to_set() =~= all_but(me, members));
    }
    to
}

impl<C> XactStateManager<C> {
    pub fn new(xact_id: XactId, node_id: NodeId) -> (manager: Self)
        requires
            state::indexable(node_id),
        ensures
            manager@.wf(),
            manager@ == (ManagerView {
                xact_id,
                node_id,
                coordinator_id: None,
                xact: XactView::<C>::Unknown(Seq::empty()),
                measuring: false,
                phase: Phase::Idle,
            }),
    {
        Self {
            xact_id,
            node_id,
            coordinator_id: None,
            xact: XactType::default(),
            measuring: false,
            phase: Phase::Idle,
        }
    }

    /// Stops for an error.
    fn stop(&mut self, error: ManagerError) -> (action: Action<C>)
        ensures
            (final(self)@, action@) == stopped(old(self)@, error),
            action.sends_once(),
    {
        self.phase = Phase::Stopped;
        Action::Stop(Some(error))
    }

    /// Ends if the transaction is finished, and waits for a message if it is not.
    fn settle(&mut self) -> (action: Action<C>)
        ensures
            (final(self)@, action@) == settled(old(self)@),
            action.sends_once(),
    {
        let finished = match self.xact.status() {
            Some(status) => status.is_terminal(),
            None => false,
        };
        if finished {
            self.phase = Phase::Finished;
            Action::Finish
        } else {
            self.phase = Phase::Idle;
            Action::Wait
        }
    }

    /// Finishes the transaction if it is decided.
    fn try_finish(&mut self) -> (action: Action<C>)
        requires
            old(self)@.xact.wf(),
        ensures
            (final(self)@, action@) == finishing(old(self)@),
            action.sends_once(),
    {
        match self.xact.try_finish() {
            Ok(XactStep::Notify(notice)) => {
                self.phase = Phase::Finishing;
                Action::Notify(notice)
            },
            Ok(XactStep::Pg(request)) => {
                self.phase = Phase::Finishing;
                Action::Pg(request)
            },
            Ok(XactStep::Nothing) => self.settle(),
            Err(e) => self.stop(ManagerError::Xact(e)),
        }
    }

    /// Tells the other participants how this node votes.
    fn cast_vote(&mut self) -> (action: Action<C>)
        requires
            old(self)@.xact is Surrogate,
            old(self)@.is_mine(),
        ensures
            (final(self)@, action@) == voting(old(self)@),
            action.sends_once(),
    {
        self.phase = Phase::SendingVotes;
        let rollback_reason = match self.xact.status() {
            Some(XactStatus::Rollbacking(RollbackInfo(_, reason)))
            | Some(XactStatus::Rollbacked(RollbackInfo(_, reason))) => Some(
                vote_message::RollbackReason::from(reason),
            ),
            _ => None,
        };
        let to = match &self.xact {
            XactType::Surrogate(xact) => all_but_me(self.node_id, &xact.participants),
            _ => Vec::new(),
        };
        let message = VoteMessage {
            from: u32::from(self.node_id),
            xact_id: u64::from(self.xact_id),
            rollback_reason,
        };
        Action::Vote { to, message }
    }

    /// Whether a transaction of the local database with the given read/write set would wait for
    /// the votes of others, if it is initialized at all.
    pub fn would_wait(&self, data: &Bytes) -> (b: bool)
        requires
            self@.wf(),
            self@.xact is Unknown,
        ensures
            b == local_waits(self@, buf::unread(*data)),
    {
        let rwset = match RWSet::decode(buf::clone(data)) {
            Ok(rwset) => rwset,
            Err(_) => {
                return true;
            },
        };
        let mut votes: Vec<Vote> = Vec::new();
        if let XactType::Unknown(early) = &self.xact {
            let mut i: usize = 0;
            while i < early.len()
                invariant
                    i <= early.len(),
                    votes@.len() == i,
                    forall|j: int| 0 <= j < i ==> (#[trigger] votes@[j])@ == early@[j]@,
                decreases early.len() - i,
            {
                votes.push(early[i].clone());
                i = i + 1;
            }
            assert(state::votes_view(votes@) == state::votes_view(early@));
        }
        let mut trial: XactType<()> = XactType::Unknown(votes);
        let b = match trial.init_as_local(self.node_id, self.node_id, rwset.participants(), ()) {
            Ok(XactStatus::Waiting) => true,
            Ok(_) => false,
            Err(_) => true,
        };
        b
    }

    /// Takes in a transaction of the local database, which this node coordinates. The labels are
    /// those under which its beginning is recorded.
    pub fn handle_local_xact_msg(&mut self, data: Bytes, commit_tx: C) -> (r: (Labels, Action<C>))
        requires
            old(self)@.wf(),
            old(self)@.phase == Phase::Idle,
            old(self)@.xact is Unknown,
            local_waits(old(self)@, buf::unread(data)),
        ensures
            final(self)@.wf(),
            r.0@ == metrics::labels(old(self)@.node_id, old(self)@.node_id),
            (final(self)@, r.1@) == local_xact(old(self)@, buf::unread(data), commit_tx),
            r.1.sends_once(),
    {
        self.coordinator_id = Some(self.node_id);
        self.measuring = true;
        let labels = Labels::new(self.node_id, self.node_id);
        let rwset = match RWSet::decode(buf::clone(&data)) {
            Ok(rwset) => rwset,
            Err(e) => {
                let action = self.stop(ManagerError::Decode(e));
                return (labels, action);
            },
        };
        let participants = rwset.participants();
        let to = all_but_me(self.node_id, &participants);
        proof {
            let new = state::new_state(
                XactId(0),
                self.node_id,
                self.node_id,
                node_set::members(participants),
            );
            let waiting = StateView { status: StatusView::Waiting, ..new };
            xact::lemma_votes_frame(
                waiting,
                state::own_and(new, None, self@.xact.early_votes()),
            );
        }
        let failed = match self.xact.init_as_local(
            self.node_id,
            self.node_id,
            participants,
            commit_tx,
        ) {
            Ok(_) => None,
            Err(e) => Some(e),
        };
        if let Some(e) = failed {
            let action = self.stop(ManagerError::Xact(e));
            return (labels, action);
        }
        self.phase = Phase::SendingPrepares;
        let message = PrepareMessage {
            from: u32::from(self.node_id),
            xact_id: u64::from(self.xact_id),
            data: buf::to_vec(&data),
        };
        (labels, Action::Prepare { to, message })
    }

    /// Takes in a transaction that another node coordinates. The labels are those under which its
    /// beginning is recorded.
    pub fn handle_prepare_msg(&mut self, prepare_msg: PrepareMessage) -> (r: (Labels, Action<C>))
        requires
            old(self)@.wf(),
            old(self)@.phase == Phase::Idle,
            old(self)@.xact is Unknown,
            state::indexable(NodeId(prepare_msg.from)),
        ensures
            final(self)@.wf(),
            r.0@ == metrics::labels(old(self)@.node_id, NodeId(prepare_msg.from)),
            (final(self)@, r.1@) == prepare(old(self)@, prepare_msg.from, prepare_msg.data@),
            r.1.sends_once(),
    {
        let coordinator_id = NodeId::from(prepare_msg.from);
        self.coordinator_id = Some(coordinator_id);
        self.measuring = true;
        let labels = Labels::new(self.node_id, coordinator_id);
        let data = buf::from_vec(prepare_msg.data);
        let rwset = match RWSet::decode(buf::clone(&data)) {
            Ok(rwset) => rwset,
            Err(e) => {
                let action = self.stop(ManagerError::Decode(e));
                return (labels, action);
            },
        };
        let participants = rwset.participants();
        if !node_set::contains(&participants, usize::from(self.node_id)) {
            self.phase = Phase::Stopped;
            return (labels, Action::Stop(None));
        }
        proof {
            let new = state::new_state(
                self.xact_id,
                self.node_id,
                coordinator_id,
                node_set::members(participants),
            );
            let waiting = StateView { status: StatusView::Waiting, ..new };
            let all = state::own_and(new, None, self@.xact.early_votes());
            xact::lemma_votes_frame(waiting, all);
            lemma_votes_open(waiting, all);
        }
        let step = self.xact.init_as_surrogate(
            self.xact_id,
            self.node_id,
            coordinator_id,
            participants,
            data,
        );
        let action = match step {
            Ok(XactStep::Pg(request)) => {
                self.phase = Phase::Executing;
                Action::Pg(request)
            },
            Ok(_) => self.cast_vote(),
            Err(e) => self.stop(ManagerError::Xact(e)),
        };
        (labels, action)
    }

    /// Takes in the vote of another node. A vote on a transaction of which nothing else is known
    /// ends it.
    pub fn handle_vote_msg(&mut self, vote_msg: VoteMessage) -> (action: Action<C>)
        requires
            old(self)@.wf(),
            old(self)@.phase == Phase::Idle,
            state::indexable(NodeId(vote_msg.from)),
        ensures
            final(self)@.wf(),
            (final(self)@, action@) == vote(
                old(self)@,
                VoteView {
                    from: NodeId(vote_msg.from),
                    rollback_reason: vote_msg@.rollback_reason,
                },
            ),
            action.sends_once(),
    {
        match self.xact.add_vote(Vote::from(vote_msg)) {
            Ok(_) => self.try_finish(),
            Err(e) => self.stop(ManagerError::Xact(e)),
        }
    }

    /// Whether a message can be taken in now.
    pub fn accepts(&self, msg: &XsMessage<C>) -> (b: bool)
        requires
            self@.wf(),
        ensures
            b == (self@.phase == Phase::Idle && acceptable(self@, *msg)),
    {
        if self.phase != Phase::Idle {
            return false;
        }
        let unknown = matches!(self.xact, XactType::Unknown(_));
        match msg {
            XsMessage::LocalXact { data, .. } => unknown && self.would_wait(data),
            XsMessage::Prepare(prepare_msg) => unknown && state::is_indexable(
                NodeId::from(prepare_msg.from),
            ),
            XsMessage::Vote(vote_msg) => state::is_indexable(NodeId::from(vote_msg.from)),
        }
    }

    /// Takes in a message. The labels, if any, are those under which the beginning of the
    /// transaction is recorded.
    pub fn handle_msg(&mut self, msg: XsMessage<C>) -> (r: (Option<Labels>, Action<C>))
        requires
            old(self)@.wf(),
            old(self)@.phase == Phase::Idle,
            acceptable(old(self)@, msg),
        ensures
            final(self)@.wf(),
            (final(self)@, r.1@) == handled(old(self)@, msg),
            r.1.sends_once(),
            match coordinator_of(old(self)@, msg) {
                Some(coordinator) => r.0 matches Some(labels) && labels@ == metrics::labels(
                    old(self)@.node_id,
                    coordinator,
                ),
                None => r.0 is None,
            },
    {
        match msg {
            XsMessage::LocalXact { data, commit_tx } => {
                let (labels, action) = self.handle_local_xact_msg(data, commit_tx);
                (Some(labels), action)
            },
            XsMessage::Prepare(prepare_msg) => {
                let (labels, action) = self.handle_prepare_msg(prepare_msg);
                (Some(labels), action)
            },
            XsMessage::Vote(vote_msg) => (None, self.handle_vote_msg(vote_msg)),
        }
    }

    /// Goes on after messages were sent to the other participants, or not all got theirs.
    pub fn sent(&mut self, ok: bool) -> (action: Action<C>)
        requires
            old(self)@.wf(),
            old(self)@.phase == Phase::SendingPrepares || old(self)@.phase == Phase::SendingVotes,
        ensures
            final(self)@.wf(),
            (final(self)@, action@) == sent(old(self)@, ok),
            action.sends_once(),
    {
        if !ok {
            return self.stop(ManagerError::SendFailed);
        }
        if self.phase == Phase::SendingVotes {
            self.try_finish()
        } else {
            self.phase = Phase::Idle;
            Action::Wait
        }
    }

    /// Goes on after the last request to the local database succeeded, by finding a row or not
    /// where that was asked, or failed.
    pub fn pg_replied(&mut self, reply: Result<bool, RollbackReason>) -> (action: Action<C>)
        requires
            old(self)@.wf(),
            old(self)@.phase == Phase::Executing || old(self)@.phase == Phase::Finishing,
            old(self)@.xact is Surrogate,
        ensures
            final(self)@.wf(),
            (final(self)@, action@) == pg_replied(
                old(self)@,
                xact_controller::reply_view(reply),
            ),
            action.sends_once(),
    {
        proof {
            if let XactView::Surrogate { state, controller } = self@.xact {
                let reason = match xact_controller::next(
                    controller,
                    xact_controller::reply_view(reply),
                ).1 {
                    xact_controller::PgStepView::Finished(Some(failure)) => Some(failure.reason),
                    _ => None,
                };
                let cleared = StateView { pending: Seq::empty(), ..state };
                let all = state::own_and(state, reason, state.pending);
                xact::lemma_votes_frame(cleared, all);
                lemma_votes_open(cleared, all);
            }
        }
        match self.xact.pg_replied(reply) {
            Ok(XactStep::Pg(request)) => Action::Pg(request),
            Ok(_) => {
                if self.phase == Phase::Executing {
                    self.cast_vote()
                } else {
                    self.settle()
                }
            },
            Err(e) => self.stop(ManagerError::Xact(e)),
        }
    }

    /// Goes on after the one who waits for the transaction was told, or could not be.
    pub fn notified(&mut self, ok: bool) -> (action: Action<C>)
        requires
            old(self)@.wf(),
            old(self)@.phase == Phase::Finishing,
            old(self)@.xact is Local,
        ensures
            final(self)@.wf(),
            (final(self)@, action@) == notified(old(self)@, ok),
            action.sends_once(),
    {
        match self.xact.notified(ok) {
            Ok(_) => self.settle(),
            Err(e) => self.stop(ManagerError::Xact(e)),
        }
    }

    /// Whether the reason for which the transaction was rolled back, if it was, has a label.
    pub fn has_label(&self) -> (b: bool)
        ensures
            b == (self@.xact.status() matches StatusView::Rollbacked(info) ==> metrics::is_readable(
                info.reason,
            )),
    {
        match self.xact.status() {
            Some(XactStatus::Rollbacked(RollbackInfo(_, reason))) => metrics::readable(reason),
            _ => true,
        }
    }

    /// Ends with the labels under which the end of the transaction is recorded: those of its
    /// beginning, and why it was rolled back.
    pub fn end_xact_measurement(&mut self) -> (r: (Labels, &'static str))
        requires
            old(self)@.wf(),
            old(self)@.phase == Phase::Finished,
            old(self)@.xact.status() matches StatusView::Rollbacked(info) ==> metrics::is_readable(
                info.reason,
            ),
        ensures
            final(self)@.wf(),
            final(self)@ == (ManagerView {
                measuring: false,
                phase: Phase::Stopped,
                ..old(self)@
            }),
            old(self)@.coordinator_id matches Some(coordinator) && r.0@ == metrics::labels(
                old(self)@.node_id,
                coordinator,
            ),
            metrics::status_label(old(self)@.xact.status()) == Some(r.1@),
    {
        self.measuring = false;
        self.phase = Phase::Stopped;
        let coordinator = match self.coordinator_id {
            Some(coordinator) => coordinator,
            None => self.node_id,
        };
        let labels = Labels::new(self.node_id, coordinator);
        let label = match self.xact.status() {
            Some(status) => match metrics::get_rollback_reason_label(status) {
                Some(label) => label,
                None => "",
            },
            None => "",
        };
        (labels, label)
    }
}

} // verus!
