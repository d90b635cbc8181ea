//! Errors of the local database as reasons to roll back.
use crate::metrics;
use crate::proto::{DbError, DbErrorView};
use crate::vote::{ReasonView, RollbackReason};
use vstd::prelude::*;

verus! {

/// `tokio_postgres::Error`: an error of the database, or of the connection to it.
#[verifier::external_type_specification]
#[verifier::external_body]
pub struct ExError(tokio_postgres::Error);

/// What the database said of an error.
#[derive(Debug, PartialEq)]
pub struct PgErrorFields {
    pub code: String,
    pub severity: String,
    pub message: String,
    pub detail: Option<String>,
    pub hint: Option<String>,
}

/// What [`PgErrorFields`] hold.
#[verifier::ext_equal]
pub struct FieldsView {
    pub code: Seq<char>,
    pub severity: Seq<char>,
    pub message: Seq<char>,
    pub detail: Option<Seq<char>>,
    pub hint: Option<Seq<char>>,
}

/// What an optional text holds.
pub open spec fn text_view(text: Option<String>) -> Option<Seq<char>> {
    match text {
        Some(text) => Some(text@),
        None => None,
    }
}

impl View for PgErrorFields {
    type V = FieldsView;

    open spec fn view(&self) -> FieldsView {
        FieldsView {
            code: self.code@,
            severity: self.severity@,
            message: self.message@,
            detail: text_view(self.detail),
            hint: text_view(self.hint),
        }
    }
}

/// What optional [`PgErrorFields`] hold.
pub open spec fn fields_view(fields: Option<PgErrorFields>) -> Option<FieldsView> {
    match fields {
        Some(fields) => Some(fields@),
        None => None,
    }
}

/// What the database said of an error, if the error is one of the database.
pub uninterp spec fn fields_of(error: tokio_postgres::Error) -> Option<FieldsView>;

/// An error in words.
pub uninterp spec fn words_of(error: tokio_postgres::Error) -> Seq<char>;

/// `tokio_postgres::Error::as_db_error`: what the database said of an error, if the error is one
/// of the database. It depends on the error alone.
#[verifier::external_body]
fn db_error_fields(error: &tokio_postgres::Error) -> (fields: Option<PgErrorFields>)
    ensures
        fields_view(fields) == fields_of(*error),
{
    match error.as_db_error() {
        Some(e) => Some(PgErrorFields {
            code: e.code().code().to_string(),
            severity: e.severity().to_string(),
            message: e.message().to_string(),
            detail: e.detail().map(str::to_string),
            hint: e.hint().map(str::to_string),
        }),
        None => None,
    }
}

/// `<tokio_postgres::Error as ToString>::to_string`: an error in words. They depend on the error
/// alone.
#[verifier::external_body]
fn error_text(error: &tokio_postgres::Error) -> (text: String)
    ensures
        text@ == words_of(*error),
{
    error.to_string()
}

/// A text that may be missing, which is then empty.
pub open spec fn or_empty(text: Option<Seq<char>>) -> Seq<char> {
    match text {
        Some(text) => text,
        None => Seq::empty(),
    }
}

/// The reason to roll back that an error gives.
pub open spec fn reason_of(fields: Option<FieldsView>, words: Seq<char>) -> ReasonView {
    match fields {
        Some(fields) => ReasonView::Db(
            DbErrorView {
                code: vstd::utf8::encode_utf8(fields.code),
                severity: fields.severity,
                message: fields.message,
                detail: or_empty(fields.detail),
                hint: or_empty(fields.hint),
            },
        ),
        None => ReasonView::Other(words),
    }
}

fn unwrap_or_empty(text: Option<String>) -> (s: String)
    ensures
        s@ == or_empty(text_view(text)),
{
    match text {
        Some(text) => text,
        None => String::new(),
    }
}

/// The reason to roll back that an error gives: what the database said of it, if it is an error of
/// the database, or else the error in words.
pub fn rollback_reason(fields: Option<PgErrorFields>, words: String) -> (reason: RollbackReason)
    ensures
        reason@ == reason_of(fields_view(fields), words@),
{
    match fields {
        Some(fields) => {
            let code = vstd::slice::slice_to_vec(fields.code.as_str().as_bytes());
            RollbackReason::Db(
                DbError {
                    code,
                    severity: fields.severity,
                    message: fields.message,
                    detail: unwrap_or_empty(fields.detail),
                    hint: unwrap_or_empty(fields.hint),
                },
            )
        },
        None => RollbackReason::Other(words),
    }
}

impl From<&tokio_postgres::Error> for RollbackReason {
    fn from(error: &tokio_postgres::Error) -> (reason: Self)
        ensures
            reason@ == reason_of(fields_of(*error), words_of(*error)),
    {
        let fields = db_error_fields(error);
        let words = error_text(error);
        rollback_reason(fields, words)
    }
}

impl vstd::std_specs::convert::FromSpecImpl<&tokio_postgres::Error> for RollbackReason {
    open spec fn obeys_from_spec() -> bool {
        false
    }

    open spec fn from_spec(error: &tokio_postgres::Error) -> Self {
        arbitrary()
    }
}

/// The reason that an error of the local database gives has a label.
pub proof fn law_own_errors_have_labels(fields: Option<FieldsView>, words: Seq<char>)
    ensures
        metrics::is_readable(reason_of(fields, words)),
{
    if let Some(fields) = fields {
        vstd::utf8::encode_utf8_valid_utf8(fields.code);
    }
}

} // verus!
