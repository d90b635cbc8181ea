use bit_set::BitSet;
use bytes::Bytes;
use tokio::sync::oneshot;
use xactserver::pg::fake::{FakeClient, FakePostgresConnectionManager};
use xactserver::pg::xact_controller::{Notice, PgRequest};
use xactserver::xact::{XactError, XactStep, XactType};
use xactserver::{NodeId, RollbackInfo, RollbackReason, Vote, XactId, XactStatus};

type CommitTx = oneshot::Sender<Option<RollbackInfo>>;

fn participants(p: &[NodeId]) -> BitSet {
    let mut bs = BitSet::new();
    for i in p {
        bs.insert((*i).into());
    }
    bs
}

/// A database that is content with everything, and a log of what it was asked.
struct Pg {
    client: FakeClient,
    log: Vec<String>,
}

impl Pg {
    fn new() -> Self {
        let manager =
            FakePostgresConnectionManager::new_from_stringlike("postgresql://fake:5432", ());
        Self { client: manager.unwrap().connect().unwrap(), log: Vec::new() }
    }

    fn perform(&mut self, request: &PgRequest) -> Result<bool, RollbackReason> {
        match request {
            PgRequest::Connect => Ok(false),
            PgRequest::BatchExecute(query) => {
                self.log.push(query.clone());
                self.client.batch_execute(query).map(|_| false).map_err(|e| (&e).into())
            }
            PgRequest::Execute { statement, data } => {
                self.log.push(statement.clone());
                self.client.execute(statement, data).map(|_| false).map_err(|e| (&e).into())
            }
            PgRequest::QueryOpt(statement) => {
                self.log.push(statement.clone());
                self.client
                    .query_opt(statement)
                    .map(|row| row.is_some())
                    .map_err(|e| (&e).into())
            }
        }
    }

    fn logs_contain(&self, text: &str) -> bool {
        self.log.iter().any(|line| line.contains(text))
    }
}

/// Does what has to be done until the transaction has come as far as it can.
fn complete(
    xact: &mut XactType<CommitTx>,
    pg: &mut Pg,
    step: Result<XactStep<CommitTx>, XactError>,
) -> Result<XactStatus, XactError> {
    let mut step = step?;
    loop {
        step = match step {
            XactStep::Nothing => return Ok(xact.status().unwrap().clone()),
            XactStep::Notify(Notice { to, info }) => {
                let ok = to.send(info).is_ok();
                xact.notified(ok)?;
                XactStep::Nothing
            }
            XactStep::Pg(request) => {
                let reply = pg.perform(&request);
                xact.pg_replied(reply)?
            }
        };
    }
}

fn try_finish(xact: &mut XactType<CommitTx>, pg: &mut Pg) -> Result<XactStatus, XactError> {
    let step = xact.try_finish();
    complete(xact, pg, step)
}

fn init_as_surrogate(
    xact: &mut XactType<CommitTx>,
    pg: &mut Pg,
    xact_id: XactId,
) -> Result<XactStatus, XactError> {
    let step = xact.init_as_surrogate(
        xact_id,
        NodeId(2),
        NodeId(1),
        participants(&[NodeId(1), NodeId(2), NodeId(3), NodeId(4)]),
        Bytes::from("data"),
    );
    complete(xact, pg, step)
}

#[test]
fn test_init_as_local() {
    let (commit_tx, mut commit_rx) = oneshot::channel();
    let mut pg = Pg::new();
    let mut xact = XactType::default();
    let status = xact.init_as_local(
        NodeId(1),
        NodeId(1),
        participants(&[NodeId(1), NodeId(3), NodeId(4)]),
        commit_tx,
    );
    assert_eq!(status, Ok(&XactStatus::Waiting));

    xact.add_vote(Vote::yes(NodeId(3))).unwrap();
    assert_eq!(try_finish(&mut xact, &mut pg), Ok(XactStatus::Waiting));

    xact.add_vote(Vote::yes(NodeId(4))).unwrap();
    assert_eq!(try_finish(&mut xact, &mut pg), Ok(XactStatus::Committed));

    assert_eq!(commit_rx.try_recv().unwrap(), None);
}

#[test]
fn test_init_as_local_aborted() {
    let (commit_tx, mut commit_rx) = oneshot::channel();
    let mut pg = Pg::new();
    let mut xact = XactType::default();
    let status = xact.init_as_local(
        NodeId(1),
        NodeId(1),
        participants(&[NodeId(1), NodeId(3), NodeId(4)]),
        commit_tx,
    );
    assert_eq!(status, Ok(&XactStatus::Waiting));

    xact.add_vote(Vote::yes(NodeId(3))).unwrap();
    assert_eq!(try_finish(&mut xact, &mut pg), Ok(XactStatus::Waiting));

    xact.add_vote(Vote::no(NodeId(4), RollbackReason::Other("abort".to_string()))).unwrap();
    assert!(matches!(try_finish(&mut xact, &mut pg), Ok(XactStatus::Rollbacked(_))));

    assert_eq!(
        commit_rx.try_recv().unwrap(),
        Some(RollbackInfo(NodeId(4), RollbackReason::Other("abort".to_string())))
    );
}

#[test]
fn test_init_as_surrogate() {
    let mut pg = Pg::new();
    let xact_id = XactId(100);
    let mut xact = XactType::default();

    // Initialize the transaction as a surrogate
    let status = init_as_surrogate(&mut xact, &mut pg, xact_id);
    assert_eq!(status, Ok(XactStatus::Waiting));

    // The transaction should send validation query to postgres
    assert!(pg.logs_contain("BEGIN TRANSACTION ISOLATION LEVEL SERIALIZABLE"));
    assert!(pg.logs_contain("SELECT validate_and_apply_xact($1::bytea)"));
    assert!(pg.logs_contain(format!("PREPARE TRANSACTION '{}'", xact_id.to_string()).as_str()));

    // No commit or rollback decision yet
    assert!(!pg.logs_contain("COMMIT"));
    assert!(!pg.logs_contain("ROLLBACK"));

    xact.add_vote(Vote::yes(NodeId(3))).unwrap();
    assert_eq!(try_finish(&mut xact, &mut pg), Ok(XactStatus::Waiting));

    xact.add_vote(Vote::yes(NodeId(4))).unwrap();
    assert_eq!(try_finish(&mut xact, &mut pg), Ok(XactStatus::Committed));

    // The transaction must commit now
    assert!(pg.logs_contain(format!("COMMIT PREPARED '{}'", xact_id.to_string()).as_str()));
}

#[test]
fn test_init_as_surrogate_aborted() {
    let mut pg = Pg::new();
    let xact_id = XactId(100);
    let mut xact = XactType::default();

    // Initialize the transaction as a surrogate
    let status = init_as_surrogate(&mut xact, &mut pg, xact_id);
    assert_eq!(status, Ok(XactStatus::Waiting));

    // The transaction should send validation query to postgres
    assert!(pg.logs_contain("BEGIN TRANSACTION ISOLATION LEVEL SERIALIZABLE"));
    assert!(pg.logs_contain("SELECT validate_and_apply_xact($1::bytea)"));
    assert!(pg.logs_contain(format!("PREPARE TRANSACTION '{}'", xact_id.to_string()).as_str()));

    // No commit or rollback decision yet
    assert!(!pg.logs_contain("COMMIT"));
    assert!(!pg.logs_contain("ROLLBACK"));

    xact.add_vote(Vote::yes(NodeId(3))).unwrap();
    assert_eq!(try_finish(&mut xact, &mut pg), Ok(XactStatus::Waiting));

    xact.add_vote(Vote::no(NodeId(4), RollbackReason::Other("abort".to_string()))).unwrap();
    assert!(matches!(try_finish(&mut xact, &mut pg), Ok(XactStatus::Rollbacked(_))));

    // The transaction must rollback now
    assert!(pg.logs_contain(format!("ROLLBACK PREPARED '{}'", xact_id.to_string()).as_str()));
}

#[test]
fn test_init_as_surrogate_with_existing_votes() {
    let mut pg = Pg::new();
    let xact_id = XactId(100);
    let mut xact = XactType::default();
    xact.add_vote(Vote::yes(NodeId(3))).unwrap();

    let status = init_as_surrogate(&mut xact, &mut pg, xact_id);
    assert_eq!(status, Ok(XactStatus::Waiting));

    // The transaction should send validation query to postgres
    assert!(pg.logs_contain("BEGIN TRANSACTION ISOLATION LEVEL SERIALIZABLE"));
    assert!(pg.logs_contain("SELECT validate_and_apply_xact($1::bytea)"));
    assert!(pg.logs_contain(format!("PREPARE TRANSACTION '{}'", xact_id.to_string()).as_str()));

    // No commit or rollback decision yet
    assert!(!pg.logs_contain("COMMIT"));
    assert!(!pg.logs_contain("ROLLBACK"));

    xact.add_vote(Vote::yes(NodeId(4))).unwrap();
    assert_eq!(try_finish(&mut xact, &mut pg), Ok(XactStatus::Committed));

    // The transaction must commit now
    assert!(pg.logs_contain(format!("COMMIT PREPARED '{}'", xact_id.to_string()).as_str()));
}

#[test]
fn test_init_as_surrogate_with_all_existing_yes_votes() {
    let mut pg = Pg::new();
    let xact_id = XactId(100);
    let mut xact = XactType::default();
    xact.add_vote(Vote::yes(NodeId(3))).unwrap();
    xact.add_vote(Vote::yes(NodeId(4))).unwrap();

    let status = init_as_surrogate(&mut xact, &mut pg, xact_id);
    assert_eq!(status, Ok(XactStatus::Committing));

    // The transaction should send validation query to postgres
    assert!(pg.logs_contain("BEGIN TRANSACTION ISOLATION LEVEL SERIALIZABLE"));
    assert!(pg.logs_contain("SELECT validate_and_apply_xact($1::bytea)"));
    assert!(pg.logs_contain(format!("PREPARE TRANSACTION '{}'", xact_id.to_string()).as_str()));

    // No commit or rollback decision yet
    assert!(!pg.logs_contain("COMMIT"));
    assert!(!pg.logs_contain("ROLLBACK"));

    assert_eq!(try_finish(&mut xact, &mut pg), Ok(XactStatus::Committed));

    // The transaction must commit now
    assert!(pg.logs_contain(format!("COMMIT PREPARED '{}'", xact_id.to_string()).as_str()));
}

#[test]
fn test_init_as_surrogate_with_existing_no_votes() {
    let mut pg = Pg::new();
    let xact_id = XactId(100);
    let mut xact = XactType::default();
    xact.add_vote(Vote::no(NodeId(4), RollbackReason::Other("abort".to_string()))).unwrap();

    let status = init_as_surrogate(&mut xact, &mut pg, xact_id);
    assert!(matches!(status, Ok(XactStatus::Rollbacking(_))));

    // The transaction should send validation query to postgres
    assert!(pg.logs_contain("BEGIN TRANSACTION ISOLATION LEVEL SERIALIZABLE"));
    assert!(pg.logs_contain("SELECT validate_and_apply_xact($1::bytea)"));
    assert!(pg.logs_contain(format!("PREPARE TRANSACTION '{}'", xact_id.to_string()).as_str()));

    // No commit or rollback decision yet
    assert!(!pg.logs_contain("COMMIT"));
    assert!(!pg.logs_contain("ROLLBACK"));

    xact.add_vote(Vote::yes(NodeId(3))).unwrap();
    assert!(matches!(try_finish(&mut xact, &mut pg), Ok(XactStatus::Rollbacked(_))));

    // The transaction must rollback now
    assert!(pg.logs_contain(format!("ROLLBACK PREPARED '{}'", xact_id.to_string()).as_str()));
}

#[test]
fn the_database_is_asked_in_order() {
    let mut pg = Pg::new();
    let mut xact = XactType::default();
    init_as_surrogate(&mut xact, &mut pg, XactId::new(5, NodeId(1))).unwrap();
    xact.add_vote(Vote::no(NodeId(3), RollbackReason::Other("x".to_string()))).unwrap();
    try_finish(&mut xact, &mut pg).unwrap();
    assert_eq!(
        pg.log,
        [
            "BEGIN TRANSACTION ISOLATION LEVEL SERIALIZABLE",
            "SELECT validate_and_apply_xact($1::bytea);",
            "PREPARE TRANSACTION '(5,1)'",
            "SELECT 1 FROM pg_prepared_xacts WHERE gid='(5,1)'",
            "ROLLBACK PREPARED '(5,1)'",
        ]
    );
}

#[test]
fn nothing_can_be_finished_before_it_is_known() {
    let mut xact: XactType<CommitTx> = XactType::default();
    assert!(xact.status().is_none());
    assert_eq!(xact.try_finish().unwrap_err(), XactError::Uninitialized);
}

#[test]
fn a_local_transaction_is_told_once() {
    let (commit_tx, commit_rx) = oneshot::channel::<Option<RollbackInfo>>();
    let mut xact = XactType::default();
    let all = participants(&[NodeId(1)]);
    assert_eq!(
        xact.init_as_local(NodeId(1), NodeId(1), all, commit_tx),
        Ok(&XactStatus::Committing)
    );
    let step = xact.try_finish().unwrap();
    assert!(matches!(step, XactStep::Notify(Notice { info: None, .. })));
    // The notice was not delivered, and there is no other.
    drop(commit_rx);
    assert_eq!(xact.notified(false), Err(XactError::CommitFailed));
    assert_eq!(xact.try_finish().unwrap_err(), XactError::AlreadyFinished);
}

#[test]
fn a_local_transaction_of_another_coordinator_needs_no_execution() {
    let (commit_tx, _commit_rx) = oneshot::channel::<Option<RollbackInfo>>();
    let mut xact = XactType::default();
    let all = participants(&[NodeId(1), NodeId(2)]);
    assert_eq!(
        xact.init_as_local(NodeId(1), NodeId(2), all, commit_tx),
        Ok(&XactStatus::Committing)
    );
}
