//! The labels under which transactions are counted and timed.
use crate::id::NodeId;
use crate::text;
use crate::vote::{ReasonView, RollbackInfo, RollbackReason};
use crate::xact::{StatusView, XactStatus};
use tokio_postgres::error::SqlState;
use vstd::prelude::*;

verus! {

/// The labels of a transaction on one node.
#[derive(Debug, PartialEq)]
pub struct Labels {
    /// The node.
    pub region: String,
    /// The node that coordinates the transaction.
    pub coordinator: String,
    /// Whether these are the same.
    pub is_local: String,
}

/// What [`Labels`] hold.
#[verifier::ext_equal]
pub struct LabelsView {
    pub region: Seq<char>,
    pub coordinator: Seq<char>,
    pub is_local: Seq<char>,
}

impl View for Labels {
    type V = LabelsView;

    open spec fn view(&self) -> LabelsView {
        LabelsView {
            region: self.region@,
            coordinator: self.coordinator@,
            is_local: self.is_local@,
        }
    }
}

/// The labels of a transaction that `coordinator` coordinates, on `node`.
pub open spec fn labels(node: NodeId, coordinator: NodeId) -> LabelsView {
    LabelsView {
        region: node.text(),
        coordinator: coordinator.text(),
        is_local: text::bool_text(node == coordinator),
    }
}

impl Labels {
    /// The labels of a transaction that `coordinator` coordinates, on `node`.
    pub fn new(node: NodeId, coordinator: NodeId) -> (r: Self)
        ensures
            r@ == labels(node, coordinator),
    {
        Self {
            region: node.to_string(),
            coordinator: coordinator.to_string(),
            is_local: text::bool_string(node == coordinator),
        }
    }
}

/// The error codes of a database that have a label of their own.
#[derive(Clone, Copy, Debug, PartialEq, Eq, Structural)]
pub enum SqlStateKind {
    Deadlock,
    SerializationFailure,
    StatementCompletionUnknown,
    Other,
}

/// What kind of error a code stands for.
pub open spec fn kind_of(code: Seq<char>) -> SqlStateKind {
    if code == "40P01"@ {
        SqlStateKind::Deadlock
    } else if code == "40001"@ {
        SqlStateKind::SerializationFailure
    } else if code == "40003"@ {
        SqlStateKind::StatementCompletionUnknown
    } else {
        SqlStateKind::Other
    }
}

/// `tokio_postgres::error::SqlState::from_code`: the state with the given code. It is
/// `T_R_DEADLOCK_DETECTED` for the code 40P01, `T_R_SERIALIZATION_FAILURE` for 40001 and
/// `T_R_STATEMENT_COMPLETION_UNKNOWN` for 40003, and none of these for any other.
#[verifier::external_body]
fn sql_state_kind(code: &str) -> (kind: SqlStateKind)
    ensures
        kind == kind_of(code@),
{
    match SqlState::from_code(code) {
        SqlState::T_R_DEADLOCK_DETECTED => SqlStateKind::Deadlock,
        SqlState::T_R_SERIALIZATION_FAILURE => SqlStateKind::SerializationFailure,
        SqlState::T_R_STATEMENT_COMPLETION_UNKNOWN => SqlStateKind::StatementCompletionUnknown,
        _ => SqlStateKind::Other,
    }
}

/// `std::str::from_utf8`: the text that bytes encode, if they are valid UTF-8.
#[verifier::external_body]
fn from_utf8(bytes: &[u8]) -> (s: Option<&str>)
    ensures
        match s {
            Some(s) => vstd::utf8::valid_utf8(bytes@) && vstd::utf8::encode_utf8(s@) == bytes@,
            None => !vstd::utf8::valid_utf8(bytes@),
        },
{
    std::str::from_utf8(bytes).ok()
}

/// The ASCII codes of 40P01.
pub open spec fn deadlock_code() -> Seq<u8> {
    seq![0x34u8, 0x30, 0x50, 0x30, 0x31]
}

/// The ASCII codes of 40001.
pub open spec fn serialization_failure_code() -> Seq<u8> {
    seq![0x34u8, 0x30, 0x30, 0x30, 0x31]
}

/// The ASCII codes of 40003.
pub open spec fn statement_completion_unknown_code() -> Seq<u8> {
    seq![0x34u8, 0x30, 0x30, 0x30, 0x33]
}

/// The label of a reason to roll back.
pub open spec fn reason_label(reason: ReasonView) -> Seq<char> {
    match reason {
        ReasonView::Db(err) => if err.code == deadlock_code() {
            "deadlock"@
        } else if err.code == serialization_failure_code() {
            "serialization_failure"@
        } else if err.code == statement_completion_unknown_code() {
            "statement_completion_unknown"@
        } else {
            "other_sql"@
        },
        ReasonView::Other(_) => "other"@,
    }
}

/// The label of a finished transaction.
pub open spec fn status_label(status: StatusView) -> Option<Seq<char>> {
    match status {
        StatusView::Committed => Some("none"@),
        StatusView::Rollbacked(info) => Some(reason_label(info.reason)),
        _ => None,
    }
}

/// Whether the code of a database error, if the reason is one, is text.
pub open spec fn is_readable(reason: ReasonView) -> bool {
    reason matches ReasonView::Db(err) ==> vstd::utf8::valid_utf8(err.code)
}

proof fn lemma_ascii(text: Seq<char>, bytes: Seq<u8>)
    requires
        text.len() == bytes.len(),
        forall|i: int| 0 <= i < text.len() ==> '\0' <= #[trigger] text[i] <= '\u{7f}',
        forall|i: int| 0 <= i < text.len() ==> text[i] as u8 == #[trigger] bytes[i],
    ensures
        vstd::utf8::encode_utf8(text) == bytes,
{
    vstd::utf8::is_ascii_chars_encode_utf8(text);
    assert(vstd::utf8::encode_utf8(text) =~= bytes);
}

/// The kind of a code is that of its ASCII codes.
proof fn lemma_kind(code: Seq<char>, bytes: Seq<u8>)
    requires
        vstd::utf8::encode_utf8(code) == bytes,
    ensures
        code == "40P01"@ <==> bytes == deadlock_code(),
        code == "40001"@ <==> bytes == serialization_failure_code(),
        code == "40003"@ <==> bytes == statement_completion_unknown_code(),
{
    reveal_strlit("40P01");
    reveal_strlit("40001");
    reveal_strlit("40003");
    lemma_ascii("40P01"@, deadlock_code());
    lemma_ascii("40001"@, serialization_failure_code());
    lemma_ascii("40003"@, statement_completion_unknown_code());
    vstd::utf8::encode_utf8_decode_utf8(code);
    vstd::utf8::encode_utf8_decode_utf8("40P01"@);
    vstd::utf8::encode_utf8_decode_utf8("40001"@);
    vstd::utf8::encode_utf8_decode_utf8("40003"@);
}

/// Whether the code of a database error, if the reason is one, is text.
pub fn readable(reason: &RollbackReason) -> (b: bool)
    ensures
        b == is_readable(reason@),
{
    match reason {
        RollbackReason::Db(err) => from_utf8(err.code.as_slice()).is_some(),
        RollbackReason::Other(_) => true,
    }
}

/// The label of a finished transaction: why it was rolled back, or `none`.
pub fn get_rollback_reason_label(status: &XactStatus) -> (label: Option<&'static str>)
    requires
        status@ matches StatusView::Rollbacked(info) ==> is_readable(info.reason),
    ensures
        match status_label(status@) {
            Some(text) => label matches Some(s) && s@ == text,
            None => label is None,
        },
{
    match status {
        XactStatus::Committed => Some("none"),
        XactStatus::Rollbacked(RollbackInfo(_, reason)) => match reason {
            RollbackReason::Db(err) => {
                let code = match from_utf8(err.code.as_slice()) {
                    Some(code) => code,
                    None => "",
                };
                proof {
                    lemma_kind(code@, err.code@);
                }
                match sql_state_kind(code) {
                    SqlStateKind::Deadlock => Some("deadlock"),
                    SqlStateKind::SerializationFailure => Some("serialization_failure"),
                    SqlStateKind::StatementCompletionUnknown => Some(
                        "statement_completion_unknown",
                    ),
                    SqlStateKind::Other => Some("other_sql"),
                }
            },
            RollbackReason::Other(_) => Some("other"),
        },
        _ => None,
    }
}

/// A transaction has a label if and only if it is finished.
pub proof fn law_label_of_finished(status: StatusView)
    ensures
        status_label(status) is Some <==> status.is_terminal(),
{
}

} // verus!
