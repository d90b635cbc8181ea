use bytes::{BufMut, Bytes, BytesMut};
use xactserver::decoder::{DecodeError, HeaderField, Short};
use xactserver::manager::xact_state_manager::{Action, ManagerError, Phase};
use xactserver::manager::{Route, XactStateManager};
use xactserver::pg::xact_controller::{Notice, PgRequest};
use xactserver::proto::{vote_message, DbError, PrepareMessage, VoteMessage};
use xactserver::xact::{XactError, XactType};
use xactserver::{Manager, NodeId, RollbackInfo, RollbackReason, Vote, XactId, XactStatus, XsMessage};

type Xact = XactStateManager<&'static str>;

fn rwset(participants: &[u32]) -> Bytes {
    let mut buf = BytesMut::new();
    buf.put_u32(10);
    buf.put_u64(participants.iter().map(|p| 1u64 << p).sum());
    buf.put_u32(0);
    buf.put_u32(0);
    buf.freeze()
}

fn local(participants: &[u32]) -> XsMessage<&'static str> {
    XsMessage::LocalXact { data: rwset(participants), commit_tx: "backend" }
}

fn other(text: &str) -> RollbackReason {
    RollbackReason::Other(text.to_string())
}

fn vote(from: u32, xact_id: u64, reason: Option<&str>) -> VoteMessage {
    VoteMessage {
        from,
        xact_id,
        rollback_reason: reason.map(|text| vote_message::RollbackReason::Other(text.to_string())),
    }
}

fn prepare(from: u32, xact_id: u64, participants: &[u32]) -> PrepareMessage {
    PrepareMessage { from, xact_id, data: rwset(participants).to_vec() }
}

fn nodes(ids: &[u32]) -> Vec<NodeId> {
    ids.iter().map(|id| NodeId(*id)).collect()
}

/// A transaction on node 2 that nodes 1, 2 and 4 take part in, up to the votes of this node.
fn executed(replies: [Result<bool, RollbackReason>; 4]) -> (Xact, Action<&'static str>) {
    let mut xact = Xact::new(XactId::new(9, NodeId(1)), NodeId(2));
    let id = u64::from(XactId::new(9, NodeId(1)));
    let (labels, mut action) = xact.handle_prepare_msg(prepare(1, id, &[1, 2, 4]));
    assert_eq!((labels.region.as_str(), labels.coordinator.as_str()), ("2", "1"));
    assert_eq!(labels.is_local, "false");
    for reply in replies {
        assert!(matches!(action, Action::Pg(_)));
        assert_eq!(xact.phase, Phase::Executing);
        action = xact.pg_replied(reply);
    }
    (xact, action)
}

#[test]
fn local_transaction_commits() {
    let id = XactId::new(3, NodeId(2));
    let mut xact = Xact::new(id, NodeId(2));
    assert!(xact.would_wait(&rwset(&[0, 2, 5])));
    let (labels, action) = xact.handle_msg(local(&[0, 2, 5]));
    let labels = labels.unwrap();
    assert_eq!((labels.region.as_str(), labels.coordinator.as_str()), ("2", "2"));
    assert_eq!(labels.is_local, "true");
    assert_eq!(
        action,
        Action::Prepare {
            to: nodes(&[0, 5]),
            message: PrepareMessage { from: 2, xact_id: id.0, data: rwset(&[0, 2, 5]).to_vec() },
        }
    );
    assert_eq!(xact.sent(true), Action::Wait);
    assert_eq!(xact.handle_vote_msg(vote(5, id.0, None)), Action::Wait);
    let (labels, action) = xact.handle_msg(XsMessage::Vote(vote(0, id.0, None)));
    assert_eq!(labels, None);
    assert_eq!(action, Action::Notify(Notice { to: "backend", info: None }));
    assert_eq!(xact.notified(true), Action::Finish);
    assert!(xact.has_label());
    let (labels, label) = xact.end_xact_measurement();
    assert_eq!((labels.region.as_str(), labels.coordinator.as_str()), ("2", "2"));
    assert_eq!(label, "none");
    assert_eq!(xact.phase, Phase::Stopped);
    assert!(!xact.measuring);
}

#[test]
fn local_transaction_is_rolled_back() {
    let mut xact = Xact::new(XactId(7), NodeId(0));
    xact.handle_msg(local(&[0, 1]));
    assert_eq!(xact.sent(true), Action::Wait);
    let info = RollbackInfo(NodeId(1), other("conflict"));
    assert_eq!(
        xact.handle_vote_msg(vote(1, 7, Some("conflict"))),
        Action::Notify(Notice { to: "backend", info: Some(info.clone()) })
    );
    assert_eq!(xact.notified(true), Action::Finish);
    assert_eq!(xact.xact.status(), Some(&XactStatus::Rollbacked(info)));
    assert_eq!(xact.end_xact_measurement().1, "other");
}

#[test]
fn surrogate_transaction_commits() {
    let id = XactId::new(9, NodeId(1));
    let (mut xact, action) = executed([Ok(false), Ok(false), Ok(false), Ok(false)]);
    assert_eq!(
        action,
        Action::Vote {
            to: nodes(&[1, 4]),
            message: VoteMessage { from: 2, xact_id: id.0, rollback_reason: None },
        }
    );
    assert_eq!(xact.sent(true), Action::Wait);
    assert_eq!(xact.handle_vote_msg(vote(4, id.0, None)), Action::Pg(PgRequest::Connect));
    assert_eq!(
        xact.pg_replied(Ok(false)),
        Action::Pg(PgRequest::BatchExecute("COMMIT PREPARED '(9,1)'".to_string()))
    );
    assert_eq!(xact.pg_replied(Ok(false)), Action::Finish);
    let (labels, label) = xact.end_xact_measurement();
    assert_eq!((labels.coordinator.as_str(), label), ("1", "none"));
}

#[test]
fn failed_execution_is_voted_against() {
    let id = XactId::new(9, NodeId(1));
    let err = DbError {
        code: b"40001".to_vec(),
        severity: "ERROR".to_string(),
        message: "could not serialize".to_string(),
        detail: String::new(),
        hint: String::new(),
    };
    let failed = Err(RollbackReason::Db(err.clone()));
    let (mut xact, action) = executed([Ok(false), Ok(false), failed, Ok(false)]);
    assert_eq!(
        action,
        Action::Vote {
            to: nodes(&[1, 4]),
            message: VoteMessage {
                from: 2,
                xact_id: id.0,
                rollback_reason: Some(vote_message::RollbackReason::Db(err)),
            },
        }
    );
    assert_eq!(xact.sent(true), Action::Pg(PgRequest::Connect));
    assert_eq!(
        xact.pg_replied(Ok(false)),
        Action::Pg(PgRequest::QueryOpt(
            "SELECT 1 FROM pg_prepared_xacts WHERE gid='(9,1)'".to_string()
        ))
    );
    // It is not prepared, so there is nothing to roll back.
    assert_eq!(xact.pg_replied(Ok(false)), Action::Finish);
    assert_eq!(xact.end_xact_measurement().1, "serialization_failure");
}

#[test]
fn prepared_transaction_is_rolled_back() {
    let (mut xact, _) = executed([Ok(false), Ok(false), Ok(false), Ok(false)]);
    xact.sent(true);
    assert_eq!(xact.handle_vote_msg(vote(1, 0, Some("no"))), Action::Pg(PgRequest::Connect));
    xact.pg_replied(Ok(false));
    assert_eq!(
        xact.pg_replied(Ok(true)),
        Action::Pg(PgRequest::BatchExecute("ROLLBACK PREPARED '(9,1)'".to_string()))
    );
    assert_eq!(xact.pg_replied(Ok(false)), Action::Finish);
    assert_eq!(
        xact.xact.status(),
        Some(&XactStatus::Rollbacked(RollbackInfo(NodeId(1), other("no"))))
    );
}

#[test]
fn prepare_of_a_transaction_of_others_stops() {
    let mut xact = Xact::new(XactId(5), NodeId(3));
    let (labels, action) = xact.handle_msg(XsMessage::Prepare(prepare(1, 5, &[1, 2])));
    assert_eq!(labels.unwrap().coordinator, "1");
    assert_eq!(action, Action::Stop(None));
    assert_eq!(xact.phase, Phase::Stopped);
    assert!(xact.xact.status().is_none());
}

#[test]
fn prepare_from_this_node_itself_is_voted_on_at_once() {
    let mut xact = Xact::new(XactId(5), NodeId(1));
    let (_, action) = xact.handle_prepare_msg(prepare(1, 5, &[1, 2]));
    assert_eq!(action, Action::Vote { to: nodes(&[2]), message: vote(1, 5, None) });
}

#[test]
fn undecodable_transactions_stop() {
    let error = DecodeError::Header(HeaderField::Dbid, Short { required: 4, remaining: 2 });
    let mut xact = Xact::new(XactId(5), NodeId(1));
    assert!(xact.would_wait(&Bytes::from("ab")));
    let (_, action) = xact.handle_local_xact_msg(Bytes::from("ab"), "backend");
    assert_eq!(action, Action::Stop(Some(ManagerError::Decode(error))));

    let mut xact = Xact::new(XactId(5), NodeId(1));
    let message = PrepareMessage { from: 0, xact_id: 5, data: b"ab".to_vec() };
    let (_, action) = xact.handle_prepare_msg(message);
    assert_eq!(action, Action::Stop(Some(ManagerError::Decode(error))));
}

#[test]
fn failures_stop() {
    let mut xact = Xact::new(XactId(7), NodeId(0));
    xact.handle_msg(local(&[0, 1]));
    assert_eq!(xact.sent(false), Action::Stop(Some(ManagerError::SendFailed)));

    let mut xact = Xact::new(XactId(7), NodeId(0));
    xact.handle_msg(local(&[0, 1]));
    xact.sent(true);
    xact.handle_vote_msg(vote(1, 7, None));
    assert_eq!(
        xact.notified(false),
        Action::Stop(Some(ManagerError::Xact(XactError::CommitFailed)))
    );

    let (mut xact, _) = executed([Ok(false), Ok(false), Ok(false), Ok(false)]);
    xact.sent(true);
    xact.handle_vote_msg(vote(4, 0, Some("no")));
    assert_eq!(
        xact.pg_replied(Err(other("no connection"))),
        Action::Stop(Some(ManagerError::Xact(XactError::RollbackFailed)))
    );
}

#[test]
fn vote_on_an_unknown_transaction_stops() {
    let mut xact = Xact::new(XactId(7), NodeId(0));
    assert_eq!(
        xact.handle_vote_msg(vote(1, 7, None)),
        Action::Stop(Some(ManagerError::Xact(XactError::Uninitialized)))
    );
}

#[test]
fn transactions_that_would_not_wait_are_told_apart() {
    let xact = Xact::new(XactId(7), NodeId(0));
    assert!(xact.would_wait(&rwset(&[0, 1])));
    assert!(!xact.would_wait(&rwset(&[0])));

    let mut xact = Xact::new(XactId(7), NodeId(0));
    xact.xact = XactType::Unknown(vec![Vote::no(NodeId(1), other("early"))]);
    assert!(!xact.would_wait(&rwset(&[0, 1])));
    xact.xact = XactType::Unknown(vec![Vote::yes(NodeId(1))]);
    assert!(!xact.would_wait(&rwset(&[0, 1])));
    assert!(xact.would_wait(&rwset(&[0, 1, 2])));
    xact.xact = XactType::Unknown(vec![Vote::yes(NodeId(1)), Vote::yes(NodeId(1))]);
    assert!(xact.would_wait(&rwset(&[0, 1])));
    let (_, action) = xact.handle_msg(local(&[0, 1]));
    assert_eq!(action, Action::Stop(Some(ManagerError::Xact(XactError::AlreadyCommitting))));
}

#[test]
fn unreadable_reason_has_no_label() {
    let (mut xact, _) = executed([Ok(false), Ok(false), Ok(false), Ok(false)]);
    xact.sent(true);
    let err = DbError {
        code: vec![0xff],
        severity: String::new(),
        message: String::new(),
        detail: String::new(),
        hint: String::new(),
    };
    let message = VoteMessage {
        from: 4,
        xact_id: 0,
        rollback_reason: Some(vote_message::RollbackReason::Db(err)),
    };
    xact.handle_vote_msg(message);
    xact.pg_replied(Ok(false));
    assert_eq!(xact.pg_replied(Ok(false)), Action::Finish);
    assert!(!xact.has_label());
}

#[test]
fn nodes_agree() {
    // Every participant handles what the others send, until all are finished.
    let ids = [0u32, 3, 6];
    let id = XactId::new(1, NodeId(3));
    for refuse in [None, Some(6)] {
        let mut xacts: Vec<Xact> = ids.iter().map(|n| Xact::new(id, NodeId(*n))).collect();
        let at = |node: NodeId| ids.iter().position(|n| *n == node.0).unwrap();
        let first = xacts[1].handle_msg(local(&ids)).1;
        let mut todo: Vec<(usize, Action<&'static str>)> = vec![(1, first)];
        let mut inbox: Vec<(usize, XsMessage<&'static str>)> = vec![];
        let mut finished = 0;
        loop {
            if let Some((i, action)) = todo.pop() {
                let next = match action {
                    Action::Wait => continue,
                    Action::Stop(error) => panic!("{:?}", error),
                    Action::Finish => {
                        finished += 1;
                        continue;
                    }
                    Action::Pg(PgRequest::Execute { .. }) if refuse == Some(ids[i]) => {
                        xacts[i].pg_replied(Err(other("refused")))
                    }
                    Action::Pg(_) => xacts[i].pg_replied(Ok(true)),
                    Action::Notify(_) => xacts[i].notified(true),
                    Action::Prepare { to, message } => {
                        for node in to {
                            let copy = PrepareMessage { data: message.data.clone(), ..message };
                            inbox.push((at(node), XsMessage::Prepare(copy)));
                        }
                        xacts[i].sent(true)
                    }
                    Action::Vote { to, message } => {
                        for node in to {
                            let copy = VoteMessage {
                                rollback_reason: message.rollback_reason.clone(),
                                ..message
                            };
                            inbox.push((at(node), XsMessage::Vote(copy)));
                        }
                        xacts[i].sent(true)
                    }
                };
                todo.push((i, next));
            } else if !inbox.is_empty() {
                let (i, message) = inbox.remove(0);
                if xacts[i].phase == Phase::Idle {
                    let action = xacts[i].handle_msg(message).1;
                    todo.push((i, action));
                }
            } else {
                break;
            }
        }
        assert_eq!(finished, 3);
        for xact in &xacts {
            let status = xact.xact.status().unwrap();
            assert!(status.is_terminal());
            assert_eq!(status == &XactStatus::Committed, refuse.is_none());
        }
    }
}

#[test]
fn messages_are_taken_in_only_where_one_is_awaited() {
    let mut xact = Xact::new(XactId(7), NodeId(0));
    assert_eq!(xact.phase, Phase::Idle);
    xact.handle_msg(local(&[0, 1, 2]));
    assert_eq!(xact.phase, Phase::SendingPrepares);
    assert_eq!(xact.sent(true), Action::Wait);
    assert_eq!(xact.phase, Phase::Idle);
    assert_eq!(xact.handle_vote_msg(vote(1, 7, None)), Action::Wait);
    assert_eq!(xact.phase, Phase::Idle);
    xact.handle_vote_msg(vote(2, 7, None));
    assert_eq!(xact.phase, Phase::Finishing);
    assert_eq!(xact.notified(true), Action::Finish);
    assert_eq!(xact.phase, Phase::Finished);
    xact.end_xact_measurement();
    assert_eq!(xact.phase, Phase::Stopped);
}

#[test]
fn messages_are_accepted_once_and_in_turn() {
    let mut xact = Xact::new(XactId(7), NodeId(0));
    let vote_msg = || XsMessage::Vote(vote(1, 7, None));
    assert!(xact.accepts(&local(&[0, 1])));
    assert!(!xact.accepts(&local(&[0])));
    assert!(xact.accepts(&XsMessage::Prepare(prepare(1, 7, &[0, 1]))));
    assert!(xact.accepts(&vote_msg()));
    xact.handle_msg(local(&[0, 1]));
    assert!(!xact.accepts(&vote_msg()));
    xact.sent(true);
    assert!(xact.accepts(&vote_msg()));
    assert!(!xact.accepts(&local(&[0, 1])));
    assert!(!xact.accepts(&XsMessage::Prepare(prepare(1, 7, &[0, 1]))));
    xact.handle_msg(vote_msg());
    assert!(!xact.accepts(&vote_msg()));
    assert_eq!(xact.notified(true).handler_end(), Some(Ok(true)));
    assert!(!xact.accepts(&vote_msg()));
}

#[test]
fn handling_ends_with_some_actions() {
    let end = |action: Action<&str>| action.handler_end();
    assert_eq!(end(Action::Wait), Some(Ok(false)));
    assert_eq!(end(Action::Finish), Some(Ok(true)));
    assert_eq!(end(Action::Stop(None)), Some(Ok(true)));
    let error = ManagerError::SendFailed;
    assert_eq!(end(Action::Stop(Some(error))), Some(Err(error)));
    assert_eq!(end(Action::Pg(PgRequest::Connect)), None);
    assert_eq!(end(Action::Notify(Notice { to: "backend", info: None })), None);
}

#[test]
fn messages_are_routed() {
    let mut manager: Manager<&'static str> = Manager::new(NodeId(4));
    let first = manager.process_message(&local(&[4, 5]));
    assert_eq!(first, Route { xact_id: XactId::new(1, NodeId(4)), is_new: true });
    assert_eq!(manager.get(first.xact_id), None);
    manager.start(first.xact_id, "first");
    assert_eq!(manager.get(first.xact_id), Some(&"first"));

    // Where the messages on a known transaction go does not change.
    manager.start(first.xact_id, "another");
    assert_eq!(manager.get(first.xact_id), Some(&"first"));

    let second = manager.process_message(&local(&[4, 5]));
    assert_eq!(second, Route { xact_id: XactId::new(2, NodeId(4)), is_new: true });
    let message: XsMessage<&str> = XsMessage::Vote(vote(5, first.xact_id.0, None));
    assert_eq!(
        manager.process_message(&message),
        Route { xact_id: first.xact_id, is_new: false }
    );
    let message: XsMessage<&str> = XsMessage::Prepare(prepare(5, 77, &[4, 5]));
    assert_eq!(manager.process_message(&message), Route { xact_id: XactId(77), is_new: true });
    assert_eq!(manager.xact_id_counter, 2);
}
