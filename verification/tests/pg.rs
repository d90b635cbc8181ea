use bytes::{BufMut, Bytes, BytesMut};
use tokio_postgres::Config;
use xactserver::pg::error::{rollback_reason, PgErrorFields};
use xactserver::pg::fake::{FakeClient, FakePostgresConnectionManager};
use xactserver::pg::watcher::{
    is_answerable, poll_step, serialize_rollback_info, FeMessage, PgWatcherHandler, PollStep,
    Polled, WatcherError, WatcherPhase, WatcherStep,
};
use xactserver::pg::xact_controller::{PgFailure, PgRequest, PgStage, PgStep};
use xactserver::pg::{LocalXactController, SurrogateXactController};
use xactserver::pg_dispatcher::PgDispatcher;
use xactserver::proto::DbError;
use xactserver::tuple::{get_tuple, get_tuples};
use xactserver::xact::XactError;
use xactserver::{NodeId, RollbackInfo, RollbackReason, XactId};

fn db_error() -> DbError {
    DbError {
        code: b"40001".to_vec(),
        severity: "ERROR".to_string(),
        message: "failed".to_string(),
        detail: "d\u{e9}tail".to_string(),
        hint: "retry".to_string(),
    }
}

fn other(text: &str) -> RollbackReason {
    RollbackReason::Other(text.to_string())
}

fn failed(stage: PgStage, text: &str) -> PgStep {
    PgStep::Finished(Err(PgFailure { stage, reason: other(text) }))
}

#[test]
fn answers_to_the_database() {
    assert_eq!(serialize_rollback_info(None), Bytes::from(vec![0]));
    assert_eq!(
        serialize_rollback_info(Some(RollbackInfo(NodeId(0), other("no")))),
        Bytes::from_static(b"\x01no\0\0")
    );
    assert_eq!(
        serialize_rollback_info(Some(RollbackInfo(NodeId(254), RollbackReason::Db(db_error())))),
        Bytes::from_static(b"\xfffailed\0\x0140001ERROR\0d\xc3\xa9tail\0retry\0\0")
    );
}

#[test]
fn nodes_whose_number_does_not_fit_have_no_answer() {
    assert!(is_answerable(&None));
    assert!(is_answerable(&Some(RollbackInfo(NodeId(254), other("x")))));
    assert!(!is_answerable(&Some(RollbackInfo(NodeId(255), other("x")))));
    assert!(is_answerable(&Some(RollbackInfo(NodeId(1), RollbackReason::Db(db_error())))));
}

#[test]
fn answers_differ() {
    let infos = [
        None,
        Some(RollbackInfo(NodeId(0), other(""))),
        Some(RollbackInfo(NodeId(1), other(""))),
        Some(RollbackInfo(NodeId(0), other("failed"))),
        Some(RollbackInfo(NodeId(0), RollbackReason::Db(db_error()))),
        Some(RollbackInfo(
            NodeId(0),
            RollbackReason::Db(DbError { hint: String::new(), ..db_error() }),
        )),
        Some(RollbackInfo(
            NodeId(0),
            RollbackReason::Db(DbError { detail: String::new(), ..db_error() }),
        )),
    ];
    for (i, a) in infos.iter().enumerate() {
        for (j, b) in infos.iter().enumerate() {
            let (x, y) = (serialize_rollback_info(a.clone()), serialize_rollback_info(b.clone()));
            assert_eq!(x == y, i == j);
            assert_eq!(x[0] == 0, a.is_none());
        }
    }
}

#[test]
fn conversation_with_the_database() {
    let data = Bytes::from("data");
    let mut handler = PgWatcherHandler::new();
    for info in [None, Some(RollbackInfo(NodeId(0), other("no")))] {
        assert_eq!(
            handler.received(Ok(Some(FeMessage::CopyData(data.clone())))),
            WatcherStep::Start(data.clone())
        );
        assert_eq!(handler.started(true), WatcherStep::Await);
        let answer = serialize_rollback_info(info.clone());
        assert_eq!(handler.decided(Some(info)), WatcherStep::Answer(answer));
        assert_eq!(handler.answered(true), WatcherStep::Read);
    }
    assert_eq!(handler.received(Ok(Some(FeMessage::Terminate))), WatcherStep::Stop);
    assert_eq!(handler.phase, WatcherPhase::Closed);
    assert_eq!(PgWatcherHandler::new().received(Ok(None)), WatcherStep::Stop);
}

#[test]
fn broken_conversations() {
    let received = |message| PgWatcherHandler::new().received(message);
    assert_eq!(
        received(Ok(Some(FeMessage::Other))),
        WatcherStep::Fail(WatcherError::UnexpectedMessage)
    );
    assert_eq!(received(Err(())), WatcherStep::Fail(WatcherError::Connection));
    let at = |phase| PgWatcherHandler { phase };
    assert_eq!(
        at(WatcherPhase::Starting).started(false),
        WatcherStep::Fail(WatcherError::NotStarted)
    );
    assert_eq!(
        at(WatcherPhase::Deciding).decided(None),
        WatcherStep::Fail(WatcherError::NotDecided)
    );
    assert_eq!(
        at(WatcherPhase::Answering).answered(false),
        WatcherStep::Fail(WatcherError::Connection)
    );
}

#[test]
fn conversation_without_answers() {
    let data = Bytes::from("data");
    let message = |m| poll_step(Polled::Message(m));
    assert_eq!(message(Some(FeMessage::CopyData(data.clone()))), PollStep::Take(data));
    assert_eq!(message(Some(FeMessage::Terminate)), PollStep::Continue);
    assert_eq!(message(Some(FeMessage::Other)), PollStep::Continue);
    assert_eq!(message(None), PollStep::Stop);
    assert_eq!(poll_step(Polled::TimedOut), PollStep::Continue);
    assert_eq!(poll_step(Polled::Failed), PollStep::Fail);
}

#[test]
fn execution_is_prepared_even_if_validation_fails() {
    let mut controller = SurrogateXactController::new(XactId(100), Bytes::from("data"));
    assert_eq!(controller.execute(), PgRequest::Connect);
    assert!(controller.is_executing());
    assert_eq!(
        controller.replied(Ok(false)),
        PgStep::Request(PgRequest::BatchExecute(
            "BEGIN TRANSACTION ISOLATION LEVEL SERIALIZABLE".to_string()
        ))
    );
    assert_eq!(
        controller.replied(Ok(false)),
        PgStep::Request(PgRequest::Execute {
            statement: "SELECT validate_and_apply_xact($1::bytea);".to_string(),
            data: Bytes::from("data"),
        })
    );
    assert_eq!(
        controller.replied(Err(other("invalid"))),
        PgStep::Request(PgRequest::BatchExecute("PREPARE TRANSACTION '(0,100)'".to_string()))
    );
    assert_eq!(controller.replied(Ok(false)), failed(PgStage::Validate, "invalid"));
    assert!(!controller.is_executing());
}

#[test]
fn execution_fails_at_each_stage() {
    let run = |replies: Vec<Result<bool, RollbackReason>>| {
        let mut controller = SurrogateXactController::new(XactId(1), Bytes::new());
        controller.execute();
        let mut last = None;
        for reply in replies {
            last = Some(controller.replied(reply));
        }
        last.unwrap()
    };
    assert_eq!(run(vec![Err(other("a"))]), failed(PgStage::Connect, "a"));
    assert_eq!(run(vec![Ok(false), Err(other("b"))]), failed(PgStage::Begin, "b"));
    assert_eq!(
        run(vec![Ok(false), Ok(false), Err(other("c")), Err(other("d"))]),
        failed(PgStage::Prepare, "d")
    );
    assert_eq!(
        run(vec![Ok(false), Ok(false), Ok(false), Ok(false)]),
        PgStep::Finished(Ok(()))
    );
}

#[test]
fn commit_and_rollback() {
    let mut controller = SurrogateXactController::new(XactId(1), Bytes::new());
    assert_eq!(controller.commit(), PgRequest::Connect);
    assert!(!controller.is_executing());
    assert_eq!(
        controller.replied(Ok(false)),
        PgStep::Request(PgRequest::BatchExecute("COMMIT PREPARED '(0,1)'".to_string()))
    );
    assert_eq!(controller.replied(Err(other("x"))), failed(PgStage::Commit, "x"));

    let check = "SELECT 1 FROM pg_prepared_xacts WHERE gid='(0,1)'".to_string();
    assert_eq!(controller.rollback(), PgRequest::Connect);
    assert_eq!(
        controller.replied(Ok(false)),
        PgStep::Request(PgRequest::QueryOpt(check))
    );
    assert_eq!(controller.replied(Ok(false)), PgStep::Finished(Ok(())));

    controller.rollback();
    controller.replied(Ok(false));
    assert_eq!(controller.replied(Err(other("y"))), failed(PgStage::CheckPrepared, "y"));

    controller.rollback();
    controller.replied(Ok(false));
    assert_eq!(
        controller.replied(Ok(true)),
        PgStep::Request(PgRequest::BatchExecute("ROLLBACK PREPARED '(0,1)'".to_string()))
    );
    assert_eq!(controller.replied(Err(other("z"))), failed(PgStage::Rollback, "z"));
}

#[test]
fn local_controller_tells_once() {
    let mut controller = LocalXactController::new("backend");
    let notice = controller.commit().unwrap();
    assert_eq!((notice.to, notice.info), ("backend", None));
    assert_eq!(controller.commit(), Err(XactError::AlreadyFinished));

    let info = RollbackInfo(NodeId(3), other("x"));
    let mut controller = LocalXactController::new("backend");
    let notice = controller.rollback(&info).unwrap();
    assert_eq!(notice.info, Some(info.clone()));
    assert_eq!(controller.rollback(&info), Err(XactError::AlreadyFinished));
}

#[test]
fn local_controller_tells_the_first_decision() {
    let info = RollbackInfo(NodeId(3), other("x"));
    let mut controller = LocalXactController::new("backend");
    assert_eq!(controller.execute(), Ok(()));
    assert_eq!(controller.commit_tx, Some("backend"));
    assert_eq!(controller.rollback(&info).unwrap().info, Some(info.clone()));
    assert_eq!(controller.execute(), Ok(()));
    for _ in 0..2 {
        assert_eq!(controller.commit(), Err(XactError::AlreadyFinished));
        assert_eq!(controller.rollback(&info), Err(XactError::AlreadyFinished));
    }
}

#[test]
fn database_errors_are_reasons() {
    let fields = PgErrorFields {
        code: "40001".to_string(),
        severity: "ERROR".to_string(),
        message: "failed".to_string(),
        detail: None,
        hint: Some("retry".to_string()),
    };
    assert_eq!(
        rollback_reason(Some(fields), "unused".to_string()),
        RollbackReason::Db(DbError { detail: String::new(), ..db_error() })
    );
    assert_eq!(rollback_reason(None, "in words".to_string()), other("in words"));

    let error = "port=x".parse::<Config>().unwrap_err();
    assert_eq!(RollbackReason::from(&error), RollbackReason::Other(error.to_string()));
}

#[test]
fn fake_database_is_content() {
    let manager =
        FakePostgresConnectionManager::new_from_stringlike("postgresql://fake:5432", 7).unwrap();
    assert_eq!(manager.tls, 7);
    let client: FakeClient = manager.connect().unwrap();
    assert_eq!(client.execute("SELECT", b"data").unwrap(), 0);
    assert!(client.batch_execute("BEGIN").is_ok());
    assert_eq!(client.query_opt("SELECT").unwrap(), Some(()));
}

#[test]
fn tuples_are_signed() {
    let mut buf = BytesMut::new();
    for n in [1, -2, i32::MAX] {
        buf.put_i32(n);
    }
    buf.put_i16(-3);
    for n in [0, 0, i32::MIN] {
        buf.put_i32(n);
    }
    buf.put_i16(i16::MAX);
    let mut data = buf.freeze();
    let both = vec![(1, -2, i32::MAX, -3), (0, 0, i32::MIN, i16::MAX)];
    assert_eq!(get_tuples(data.clone()), (both.clone(), true));
    assert_eq!(get_tuples(data.slice(..27)), (both[..1].to_vec(), false));
    assert_eq!(get_tuples(data.slice(..13)), (vec![], false));
    assert_eq!(get_tuples(Bytes::new()), (vec![], true));
    assert_eq!(get_tuple(&mut data), Some((1, -2, i32::MAX, -3)));
    assert_eq!(data.len(), 14);
    assert_eq!(get_tuple(&mut data), Some((0, 0, i32::MIN, i16::MAX)));
    assert_eq!(get_tuple(&mut data), None);
}

#[test]
fn dispatcher_connection() {
    let dispatcher = PgDispatcher::new("127.0.0.1:55433");
    assert_eq!(
        dispatcher.conn_str(),
        "host=127.0.0.1 port=55433 user=postgres application_name=#remotexact"
    );
    assert_eq!(
        PgDispatcher::new("a:b:c").conn_str(),
        "host=a port=b user=postgres application_name=#remotexact"
    );
}
