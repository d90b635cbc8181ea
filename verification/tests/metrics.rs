use xactserver::metrics::{get_rollback_reason_label, readable, Labels};
use xactserver::proto::DbError;
use xactserver::{NodeId, RollbackInfo, RollbackReason, XactStatus};

fn db(code: &[u8]) -> RollbackReason {
    RollbackReason::Db(DbError {
        code: code.to_vec(),
        severity: "ERROR".to_string(),
        message: "m".to_string(),
        detail: String::new(),
        hint: String::new(),
    })
}

fn rollbacked(reason: RollbackReason) -> XactStatus {
    XactStatus::Rollbacked(RollbackInfo(NodeId(1), reason))
}

#[test]
fn rollback_reason_labels() {
    assert_eq!(get_rollback_reason_label(&XactStatus::Committed), Some("none"));
    let codes: [(&[u8], &str); 6] = [
        (b"40P01", "deadlock"),
        (b"40001", "serialization_failure"),
        (b"40003", "statement_completion_unknown"),
        (b"40002", "other_sql"),
        (b"XYZ", "other_sql"),
        (b"", "other_sql"),
    ];
    for (code, label) in codes {
        assert_eq!(get_rollback_reason_label(&rollbacked(db(code))), Some(label));
    }
    let other = RollbackReason::Other("40001".to_string());
    assert_eq!(get_rollback_reason_label(&rollbacked(other)), Some("other"));
}

#[test]
fn unfinished_transactions_have_no_label() {
    let info = RollbackInfo(NodeId(1), db(b"40001"));
    for status in [
        XactStatus::Uninitialized,
        XactStatus::Waiting,
        XactStatus::Committing,
        XactStatus::Rollbacking(info),
    ] {
        assert_eq!(get_rollback_reason_label(&status), None);
    }
}

#[test]
fn codes_that_are_no_text_are_not_readable() {
    assert!(readable(&db(b"40001")));
    assert!(readable(&db("\u{e9}".as_bytes())));
    assert!(!readable(&db(&[0x34, 0xff])));
    assert!(readable(&RollbackReason::Other(String::new())));
}

#[test]
fn labels_of_a_transaction() {
    let labels = Labels::new(NodeId(12), NodeId(3));
    assert_eq!(
        labels,
        Labels {
            region: "12".to_string(),
            coordinator: "3".to_string(),
            is_local: "false".to_string()
        }
    );
    assert_eq!(Labels::new(NodeId(3), NodeId(3)).is_local, "true");
}
