use bit_set::BitSet;
use xactserver::xact::state::{FinishStep, InitStep, XactState};
use xactserver::xact::XactError;
use xactserver::{NodeId, RollbackInfo, RollbackReason, Vote, XactId, XactStatus};

/// A fake controller that trivially keeps track of what was done.
struct TestXactController {
    rollback_on_execution: bool,
    executed: bool,
    committed: bool,
    rollbacked: bool,
}

impl TestXactController {
    fn check(&self, executed: bool, committed: bool, rollbacked: bool) {
        assert_eq!(self.executed, executed, "wrong execution status");
        assert_eq!(self.committed, committed, "wrong commit status");
        assert_eq!(self.rollbacked, rollbacked, "wrong rollback status");
    }
}

type State = XactState<TestXactController>;

#[derive(Default)]
struct XactStateBuilder {
    node_id: NodeId,
    coordinator: NodeId,
    participants: Vec<NodeId>,
    rollback_on_execution: bool,
}

impl XactStateBuilder {
    fn new() -> Self {
        Self { participants: vec![NodeId(0)], ..Default::default() }
    }

    fn with_node_id(mut self, node_id: NodeId) -> Self {
        self.node_id = node_id;
        self
    }

    fn with_coordinator(mut self, coordinator: NodeId) -> Self {
        self.coordinator = coordinator;
        self
    }

    fn with_participants(mut self, participants: Vec<NodeId>) -> Self {
        self.participants = participants;
        self
    }

    fn with_rollback_on_execution(mut self, rollback_on_execution: bool) -> Self {
        self.rollback_on_execution = rollback_on_execution;
        self
    }

    fn build(self) -> State {
        let mut participant_set = BitSet::new();
        for p in self.participants {
            participant_set.insert(p.into());
        }
        XactState::new(
            XactId(100),
            self.node_id,
            self.coordinator,
            participant_set,
            TestXactController {
                rollback_on_execution: self.rollback_on_execution,
                executed: false,
                committed: false,
                rollbacked: false,
            },
        )
    }
}

fn initialize(state: &mut State, existing_votes: Vec<Vote>) -> Result<XactStatus, XactError> {
    match state.initialize(existing_votes)? {
        InitStep::Initialized => {}
        InitStep::Execute => {
            state.controller.executed = true;
            let reason = if state.controller.rollback_on_execution {
                Some(RollbackReason::Other("rolled back".to_string()))
            } else {
                None
            };
            state.executed(reason)?;
        }
    }
    Ok(state.status.clone())
}

fn try_finish(state: &mut State) -> Result<XactStatus, XactError> {
    match state.try_finish() {
        FinishStep::Commit => state.controller.committed = true,
        FinishStep::Rollback(_) => state.controller.rollbacked = true,
        FinishStep::Nothing => {}
    }
    state.finished(true).cloned()
}

fn is_rollbacking(reason: &XactStatus) -> bool {
    matches!(reason, &XactStatus::Rollbacking(RollbackInfo(_, RollbackReason::Other(_))))
}

fn is_rollbacked(reason: &XactStatus) -> bool {
    matches!(reason, &XactStatus::Rollbacked(RollbackInfo(_, RollbackReason::Other(_))))
}

fn no(node: u32, reason: &str) -> Vote {
    Vote::no(NodeId(node), RollbackReason::Other(reason.to_string()))
}

#[test]
fn test_1_participant() {
    let mut state_1 = XactStateBuilder::new().build();

    assert_eq!(initialize(&mut state_1, vec![]), Ok(XactStatus::Committing));
    assert_eq!(try_finish(&mut state_1), Ok(XactStatus::Committed));
    // There is only one participant and the transaction is local so it is immediately
    // committed without executing.
    state_1.controller.check(false, true, false);
}

#[test]
fn test_2_participants_rollbacked() {
    let mut state_1 = XactStateBuilder::new()
        .with_node_id(NodeId(1))
        .with_coordinator(NodeId(0))
        .with_participants(vec![NodeId(0), NodeId(1)])
        .with_rollback_on_execution(true)
        .build();

    let status = initialize(&mut state_1, vec![]).unwrap();
    assert!(is_rollbacking(&status), "Actual status: {:?}", status);
    let status = try_finish(&mut state_1).unwrap();
    assert!(is_rollbacked(&status), "Actual status: {:?}", status);
    state_1.controller.check(true, false, true);
}

#[test]
fn test_3_participants() {
    let mut state = XactStateBuilder::new()
        .with_node_id(NodeId(1))
        .with_coordinator(NodeId(3))
        .with_participants(vec![NodeId(1), NodeId(3), NodeId(5)])
        .build();

    assert_eq!(initialize(&mut state, vec![]), Ok(XactStatus::Waiting));
    state.controller.check(true, false, false);

    // Participant 3 already voted so nothing changes
    assert_eq!(state.add_vote(Vote::yes(NodeId(3))), Ok(&XactStatus::Waiting));
    state.controller.check(true, false, false);

    // The last participant votes for it so the transaction is committed
    assert_eq!(state.add_vote(Vote::yes(NodeId(5))), Ok(&XactStatus::Committing));
    state.controller.check(true, false, false);

    assert_eq!(try_finish(&mut state), Ok(XactStatus::Committed));
    state.controller.check(true, true, false);
}

#[test]
fn test_4_participants_rollbacked() {
    let mut state = XactStateBuilder::new()
        .with_node_id(NodeId(2))
        .with_coordinator(NodeId(2))
        .with_participants(vec![NodeId(0), NodeId(2), NodeId(4), NodeId(6)])
        .build();

    assert_eq!(initialize(&mut state, vec![]), Ok(XactStatus::Waiting));
    state.controller.check(false, false, false);

    // Participant 0 votes to abort
    let status =
        state.add_vote(Vote::no(NodeId(0), RollbackReason::Other("".to_string()))).unwrap();
    assert!(is_rollbacking(status), "actual status: {:?}", status);
    state.controller.check(false, false, false);

    // Transaction is rollbacking, further votes have no effect
    let status = state.add_vote(Vote::yes(NodeId(4))).unwrap();
    assert!(is_rollbacking(status), "actual status: {:?}", status);
    state.controller.check(false, false, false);

    let status = try_finish(&mut state).unwrap();
    assert!(is_rollbacked(&status), "actual status: {:?}", status);
    state.controller.check(false, false, true);

    // Transaction is rollbacked, further votes have no effect
    let status = state.add_vote(Vote::yes(NodeId(6))).unwrap();
    assert!(is_rollbacked(status), "actual status: {:?}", status);
    state.controller.check(false, false, true);
}

#[test]
fn test_wrong_participant() {
    let mut state_1 = XactStateBuilder::new()
        .with_node_id(NodeId(3))
        .with_coordinator(NodeId(2))
        .with_participants(vec![NodeId(0), NodeId(1), NodeId(2)])
        .build();

    assert_eq!(initialize(&mut state_1, vec![]), Ok(XactStatus::Waiting));

    let mut state_2 = XactStateBuilder::new()
        .with_node_id(NodeId(2))
        .with_coordinator(NodeId(2))
        .with_participants(vec![NodeId(0), NodeId(1), NodeId(2)])
        .build();

    assert_eq!(initialize(&mut state_2, vec![]), Ok(XactStatus::Waiting));
    assert_eq!(state_2.add_vote(Vote::yes(NodeId(4))), Ok(&XactStatus::Waiting));
}

fn two_participants() -> State {
    XactStateBuilder::new().with_participants(vec![NodeId(0), NodeId(1)]).build()
}

#[test]
fn initializing_twice_is_refused() {
    let mut state = two_participants();
    assert_eq!(initialize(&mut state, vec![]), Ok(XactStatus::Waiting));
    assert_eq!(initialize(&mut state, vec![]), Err(XactError::AlreadyInitialized));
    assert_eq!(state.status, XactStatus::Waiting);
}

#[test]
fn votes_before_initialization_have_no_effect() {
    let mut state = two_participants();
    assert_eq!(state.add_vote(no(1, "early")), Ok(&XactStatus::Uninitialized));
    assert_eq!(initialize(&mut state, vec![]), Ok(XactStatus::Waiting));
}

#[test]
fn votes_after_the_decision_to_commit_are_refused() {
    let mut state = two_participants();
    initialize(&mut state, vec![]).unwrap();
    assert_eq!(state.add_vote(Vote::yes(NodeId(1))), Ok(&XactStatus::Committing));
    assert_eq!(state.add_vote(no(1, "late")), Err(XactError::AlreadyCommitting));
    assert_eq!(try_finish(&mut state), Ok(XactStatus::Committed));
    assert_eq!(state.add_vote(Vote::yes(NodeId(1))), Err(XactError::AlreadyCommitting));
    assert_eq!(state.status, XactStatus::Committed);
}

#[test]
fn the_first_vote_against_it_is_kept() {
    let mut state = two_participants();
    initialize(&mut state, vec![]).unwrap();
    state.add_vote(no(1, "first")).unwrap();
    state.add_vote(no(0, "second")).unwrap();
    let first = RollbackInfo(NodeId(1), RollbackReason::Other("first".to_string()));
    assert_eq!(try_finish(&mut state), Ok(XactStatus::Rollbacked(first.clone())));
    assert_eq!(try_finish(&mut state), Ok(XactStatus::Rollbacked(first)));
}

#[test]
fn a_repeated_vote_counts_once() {
    let mut state =
        XactStateBuilder::new().with_participants(vec![NodeId(0), NodeId(1), NodeId(2)]).build();
    initialize(&mut state, vec![]).unwrap();
    assert_eq!(state.add_vote(Vote::yes(NodeId(1))), Ok(&XactStatus::Waiting));
    assert_eq!(state.add_vote(Vote::yes(NodeId(1))), Ok(&XactStatus::Waiting));
    assert_eq!(state.add_vote(Vote::yes(NodeId(2))), Ok(&XactStatus::Committing));
}

#[test]
fn the_vote_of_an_outsider_blocks_the_commit() {
    let mut state = two_participants();
    initialize(&mut state, vec![]).unwrap();
    assert_eq!(state.add_vote(Vote::yes(NodeId(7))), Ok(&XactStatus::Waiting));
    assert_eq!(state.add_vote(Vote::yes(NodeId(1))), Ok(&XactStatus::Waiting));
    assert_eq!(state.try_finish(), FinishStep::Nothing);
}

#[test]
fn the_order_of_votes_does_not_matter() {
    let nodes = vec![NodeId(0), NodeId(1), NodeId(2), NodeId(3)];
    for order in [[1, 2, 3], [3, 1, 2], [2, 3, 1], [3, 2, 1]] {
        let mut state = XactStateBuilder::new().with_participants(nodes.clone()).build();
        initialize(&mut state, vec![]).unwrap();
        for node in order {
            assert_eq!(state.status, XactStatus::Waiting);
            state.add_vote(Vote::yes(NodeId(node))).unwrap();
        }
        assert_eq!(state.status, XactStatus::Committing);
    }
}

#[test]
fn a_surrogate_counts_the_votes_that_came_before() {
    let mut state = XactStateBuilder::new()
        .with_node_id(NodeId(1))
        .with_coordinator(NodeId(0))
        .with_participants(vec![NodeId(0), NodeId(1), NodeId(2)])
        .build();
    let votes = vec![Vote::yes(NodeId(2))];
    assert_eq!(state.initialize(votes), Ok(InitStep::Execute));
    assert_eq!(state.pending, vec![Vote::yes(NodeId(2))]);
    assert_eq!(state.status, XactStatus::Waiting);
    assert_eq!(state.executed(None), Ok(&XactStatus::Committing));
    assert_eq!(state.pending, vec![]);
}

#[test]
fn too_many_early_votes_are_refused() {
    let mut state = two_participants();
    let votes = vec![Vote::yes(NodeId(1)), Vote::yes(NodeId(1))];
    assert_eq!(initialize(&mut state, votes), Err(XactError::AlreadyCommitting));
    assert_eq!(state.status, XactStatus::Committing);

    // The coordinator alone takes part, so that the vote of this node comes too late.
    let mut state = XactStateBuilder::new().with_node_id(NodeId(1)).build();
    assert_eq!(initialize(&mut state, vec![]), Err(XactError::AlreadyCommitting));
}

#[test]
fn a_decision_that_fails_is_not_finished() {
    let mut state = XactStateBuilder::new().build();
    initialize(&mut state, vec![]).unwrap();
    assert_eq!(state.finished(false), Err(XactError::CommitFailed));
    assert_eq!(state.status, XactStatus::Committing);
    assert_eq!(state.finished(true), Ok(&XactStatus::Committed));
    assert_eq!(state.finished(false), Ok(&XactStatus::Committed));

    let mut state = two_participants();
    initialize(&mut state, vec![no(1, "x")]).unwrap();
    assert_eq!(state.finished(false), Err(XactError::RollbackFailed));
    assert!(is_rollbacking(&state.status));
    assert!(!state.status.is_terminal());
    assert!(is_rollbacked(&try_finish(&mut state).unwrap()));
    assert!(state.status.is_terminal());
}
