//! What carries out the decision on a transaction: by telling the database that waits for it, or
//! by preparing the transaction in the local database and committing it there.
use crate::buf;
use crate::id::XactId;
use crate::vote::{InfoView, ReasonView, RollbackInfo, RollbackReason};
use crate::xact::XactError;
use bytes::Bytes;
use vstd::prelude::*;

verus! {

/// A message to the one who waits for the outcome of a transaction.
#[derive(Debug, PartialEq)]
pub struct Notice<C> {
    /// To whom it goes.
    pub to: C,
    /// Why the transaction was rolled back, or nothing if it was committed.
    pub info: Option<RollbackInfo>,
}

/// What an optional [`RollbackInfo`] holds.
pub open spec fn info_view(info: Option<RollbackInfo>) -> Option<InfoView> {
    match info {
        Some(info) => Some(info@),
        None => None,
    }
}

/// What a [`Notice`], or the error in its place, holds.
pub open spec fn notice_view<C>(r: Result<Notice<C>, XactError>) -> Result<
    (C, Option<InfoView>),
    XactError,
> {
    match r {
        Ok(notice) => Ok((notice.to, info_view(notice.info))),
        Err(e) => Err(e),
    }
}

/// What becomes of the one who waits when a decision is to be told, and the notice of it.
pub open spec fn tell<C>(commit_tx: Option<C>, info: Option<InfoView>) -> (
    Option<C>,
    Result<(C, Option<InfoView>), XactError>,
) {
    match commit_tx {
        Some(to) => (None, Ok((to, info))),
        None => (None, Err(XactError::AlreadyFinished)),
    }
}

/// Tells the one who waits for a local transaction what became of it.
#[derive(Debug, PartialEq)]
pub struct LocalXactController<C> {
    /// Who is to be told, until that is done.
    pub commit_tx: Option<C>,
}

impl<C> LocalXactController<C> {
    pub fn new(commit_tx: C) -> (controller: Self)
        ensures
            controller.commit_tx == Some(commit_tx),
    {
        Self { commit_tx: Some(commit_tx) }
    }

    /// There is nothing to execute: the database that waits has executed the transaction.
    pub fn execute(&mut self) -> (r: Result<(), RollbackReason>)
        ensures
            *final(self) == *old(self),
            r is Ok,
    {
        Ok(())
    }

    /// The notice that the transaction is committed. There is only one notice of a transaction.
    pub fn commit(&mut self) -> (r: Result<Notice<C>, XactError>)
        ensures
            (final(self).commit_tx, notice_view(r)) == tell(old(self).commit_tx, None),
    {
        match self.commit_tx.take() {
            Some(to) => Ok(Notice { to, info: None }),
            None => Err(XactError::AlreadyFinished),
        }
    }

    /// The notice that the transaction is rolled back. There is only one notice of a transaction.
    pub fn rollback(&mut self, info: &RollbackInfo) -> (r: Result<Notice<C>, XactError>)
        ensures
            (final(self).commit_tx, notice_view(r)) == tell(old(self).commit_tx, Some(info@)),
    {
        match self.commit_tx.take() {
            Some(to) => Ok(Notice { to, info: Some(info.clone()) }),
            None => Err(XactError::AlreadyFinished),
        }
    }
}

/// Something to be done with the local database.
#[derive(Debug, PartialEq)]
pub enum PgRequest {
    /// Get a connection, to be used from now on.
    Connect,
    /// Run a statement.
    BatchExecute(String),
    /// Run a statement with one parameter.
    Execute { statement: String, data: Bytes },
    /// Run a query that gives one row at most.
    QueryOpt(String),
}

/// What a [`PgRequest`] holds.
#[verifier::ext_equal]
pub enum RequestView {
    Connect,
    BatchExecute(Seq<char>),
    Execute { statement: Seq<char>, data: Seq<u8> },
    QueryOpt(Seq<char>),
}

impl View for PgRequest {
    type V = RequestView;

    open spec fn view(&self) -> RequestView {
        match self {
            PgRequest::Connect => RequestView::Connect,
            PgRequest::BatchExecute(statement) => RequestView::BatchExecute(statement@),
            PgRequest::Execute { statement, data } => RequestView::Execute {
                statement: statement@,
                data: buf::unread(*data),
            },
            PgRequest::QueryOpt(statement) => RequestView::QueryOpt(statement@),
        }
    }
}

/// What failed in the local database.
#[derive(Clone, Copy, Debug, PartialEq, Eq, Structural)]
pub enum PgStage {
    Connect,
    Begin,
    Validate,
    Prepare,
    Commit,
    CheckPrepared,
    Rollback,
}

/// A failure in the local database.
#[derive(Debug, PartialEq)]
pub struct PgFailure {
    pub stage: PgStage,
    pub reason: RollbackReason,
}

/// What a [`PgFailure`] holds.
#[verifier::ext_equal]
pub struct FailureView {
    pub stage: PgStage,
    pub reason: ReasonView,
}

impl View for PgFailure {
    type V = FailureView;

    open spec fn view(&self) -> FailureView {
        FailureView { stage: self.stage, reason: self.reason@ }
    }
}

/// How far an operation on the local database has come.
#[derive(Debug, PartialEq)]
pub enum Progress {
    /// There is none.
    Idle,
    ConnectingToExecute,
    Beginning,
    Validating,
    /// The transaction is being prepared, whatever its validation came to.
    Preparing(Option<RollbackReason>),
    ConnectingToCommit,
    Committing,
    ConnectingToRollback,
    CheckingPrepared,
    RollingBack,
}

/// What a [`Progress`] holds.
#[verifier::ext_equal]
pub enum ProgressView {
    Idle,
    ConnectingToExecute,
    Beginning,
    Validating,
    Preparing(Option<ReasonView>),
    ConnectingToCommit,
    Committing,
    ConnectingToRollback,
    CheckingPrepared,
    RollingBack,
}

impl View for Progress {
    type V = ProgressView;

    open spec fn view(&self) -> ProgressView {
        match self {
            Progress::Idle => ProgressView::Idle,
            Progress::ConnectingToExecute => ProgressView::ConnectingToExecute,
            Progress::Beginning => ProgressView::Beginning,
            Progress::Validating => ProgressView::Validating,
            Progress::Preparing(validation) => ProgressView::Preparing(
                crate::vote::reason_view(*validation),
            ),
            Progress::ConnectingToCommit => ProgressView::ConnectingToCommit,
            Progress::Committing => ProgressView::Committing,
            Progress::ConnectingToRollback => ProgressView::ConnectingToRollback,
            Progress::CheckingPrepared => ProgressView::CheckingPrepared,
            Progress::RollingBack => ProgressView::RollingBack,
        }
    }
}

impl ProgressView {
    /// Whether the transaction is being executed, rather than committed or rolled back.
    pub open spec fn is_executing(self) -> bool {
        self is ConnectingToExecute || self is Beginning || self is Validating || self is Preparing
    }

    /// Whether the transaction is being committed.
    pub open spec fn is_committing(self) -> bool {
        self is ConnectingToCommit || self is Committing
    }

    /// Whether the transaction is being rolled back.
    pub open spec fn is_rolling_back(self) -> bool {
        self is ConnectingToRollback || self is CheckingPrepared || self is RollingBack
    }
}

/// How an operation on the local database goes on.
#[derive(Debug, PartialEq)]
pub enum PgStep {
    /// Do this, and say how it went.
    Request(PgRequest),
    /// The operation is over.
    Finished(Result<(), PgFailure>),
}

/// What a [`PgStep`] holds.
#[verifier::ext_equal]
pub enum PgStepView {
    Request(RequestView),
    Finished(Option<FailureView>),
}

impl View for PgStep {
    type V = PgStepView;

    open spec fn view(&self) -> PgStepView {
        match self {
            PgStep::Request(request) => PgStepView::Request(request@),
            PgStep::Finished(Ok(_)) => PgStepView::Finished(None),
            PgStep::Finished(Err(failure)) => PgStepView::Finished(Some(failure@)),
        }
    }
}

/// What the answer to a request holds.
pub open spec fn reply_view(reply: Result<bool, RollbackReason>) -> Result<bool, ReasonView> {
    match reply {
        Ok(found) => Ok(found),
        Err(reason) => Err(reason@),
    }
}

/// Begins the transaction in which another is validated.
pub open spec fn begin_statement() -> Seq<char> {
    "BEGIN TRANSACTION ISOLATION LEVEL SERIALIZABLE"@
}

/// Validates a transaction and applies what it wrote.
pub open spec fn validate_statement() -> Seq<char> {
    "SELECT validate_and_apply_xact($1::bytea);"@
}

/// A statement that ends in the quoted name of a transaction.
pub open spec fn named(start: Seq<char>, xact_id: XactId) -> Seq<char> {
    start + xact_id.text() + "'"@
}

/// Prepares a transaction to be committed.
pub open spec fn prepare_statement(xact_id: XactId) -> Seq<char> {
    named("PREPARE TRANSACTION '"@, xact_id)
}

/// Commits a prepared transaction.
pub open spec fn commit_statement(xact_id: XactId) -> Seq<char> {
    named("COMMIT PREPARED '"@, xact_id)
}

/// Rolls back a prepared transaction.
pub open spec fn rollback_statement(xact_id: XactId) -> Seq<char> {
    named("ROLLBACK PREPARED '"@, xact_id)
}

/// Asks whether a transaction is prepared.
pub open spec fn check_statement(xact_id: XactId) -> Seq<char> {
    named("SELECT 1 FROM pg_prepared_xacts WHERE gid='"@, xact_id)
}

/// Carries out a transaction that another node coordinates in the local database.
#[derive(Debug, PartialEq)]
pub struct SurrogateXactController {
    pub xact_id: XactId,
    /// The encoded read/write set of the transaction.
    pub data: Bytes,
    pub progress: Progress,
}

/// What a [`SurrogateXactController`] holds.
#[verifier::ext_equal]
pub struct SurrogateView {
    pub xact_id: XactId,
    pub data: Seq<u8>,
    pub progress: ProgressView,
}

impl View for SurrogateXactController {
    type V = SurrogateView;

    open spec fn view(&self) -> SurrogateView {
        SurrogateView {
            xact_id: self.xact_id,
            data: buf::unread(self.data),
            progress: self.progress@,
        }
    }
}

/// A failed operation.
pub open spec fn failed(stage: PgStage, reason: ReasonView) -> (ProgressView, PgStepView) {
    (ProgressView::Idle, PgStepView::Finished(Some(FailureView { stage, reason })))
}

/// A request of an operation that goes on.
pub open spec fn going_on(progress: ProgressView, request: RequestView) -> (
    ProgressView,
    PgStepView,
) {
    (progress, PgStepView::Request(request))
}

/// How an operation goes on after the answer to its last request.
///
/// To execute is to begin a transaction, validate, and prepare. It is prepared even where the
/// validation failed, for the database to roll it back properly. To roll back is to ask whether
/// the transaction is prepared, and to roll it back if it is.
pub open spec fn next(s: SurrogateView, reply: Result<bool, ReasonView>) -> (
    ProgressView,
    PgStepView,
) {
    let succeeded = (ProgressView::Idle, PgStepView::Finished(None));
    match s.progress {
        ProgressView::Idle => succeeded,
        ProgressView::ConnectingToExecute => match reply {
            Ok(_) => going_on(
                ProgressView::Beginning,
                RequestView::BatchExecute(begin_statement()),
            ),
            Err(reason) => failed(PgStage::Connect, reason),
        },
        ProgressView::Beginning => match reply {
            Ok(_) => going_on(
                ProgressView::Validating,
                RequestView::Execute { statement: validate_statement(), data: s.data },
            ),
            Err(reason) => failed(PgStage::Begin, reason),
        },
        ProgressView::Validating => going_on(
            ProgressView::Preparing(
                match reply {
                    Ok(_) => None,
                    Err(reason) => Some(reason),
                },
            ),
            RequestView::BatchExecute(prepare_statement(s.xact_id)),
        ),
        ProgressView::Preparing(validation) => match (reply, validation) {
            (Err(reason), _) => failed(PgStage::Prepare, reason),
            (Ok(_), Some(reason)) => failed(PgStage::Validate, reason),
            (Ok(_), None) => succeeded,
        },
        ProgressView::ConnectingToCommit => match reply {
            Ok(_) => going_on(
                ProgressView::Committing,
                RequestView::BatchExecute(commit_statement(s.xact_id)),
            ),
            Err(reason) => failed(PgStage::Connect, reason),
        },
        ProgressView::Committing => match reply {
            Ok(_) => succeeded,
            Err(reason) => failed(PgStage::Commit, reason),
        },
        ProgressView::ConnectingToRollback => match reply {
            Ok(_) => going_on(
                ProgressView::CheckingPrepared,
                RequestView::QueryOpt(check_statement(s.xact_id)),
            ),
            Err(reason) => failed(PgStage::Connect, reason),
        },
        ProgressView::CheckingPrepared => match reply {
            Ok(true) => going_on(
                ProgressView::RollingBack,
                RequestView::BatchExecute(rollback_statement(s.xact_id)),
            ),
            Ok(false) => succeeded,
            Err(reason) => failed(PgStage::CheckPrepared, reason),
        },
        ProgressView::RollingBack => match reply {
            Ok(_) => succeeded,
            Err(reason) => failed(PgStage::Rollback, reason),
        },
    }
}

impl SurrogateXactController {
    pub fn new(xact_id: XactId, data: Bytes) -> (controller: Self)
        ensures
            controller@ == (SurrogateView {
                xact_id,
                data: buf::unread(data),
                progress: ProgressView::Idle,
            }),
    {
        Self { xact_id, data, progress: Progress::Idle }
    }

    /// Whether the transaction is being executed, rather than committed or rolled back.
    pub fn is_executing(&self) -> (b: bool)
        ensures
            b == self@.progress.is_executing(),
    {
        matches!(
            self.progress,
            Progress::ConnectingToExecute
                | Progress::Beginning
                | Progress::Validating
                | Progress::Preparing(_)
        )
    }

    /// Begins to execute the transaction: it is validated, applied and prepared.
    pub fn execute(&mut self) -> (request: PgRequest)
        ensures
            request@ == RequestView::Connect,
            final(self)@ == (SurrogateView {
                progress: ProgressView::ConnectingToExecute,
                ..old(self)@
            }),
    {
        self.progress = Progress::ConnectingToExecute;
        PgRequest::Connect
    }

    /// Begins to commit the prepared transaction.
    pub fn commit(&mut self) -> (request: PgRequest)
        ensures
            request@ == RequestView::Connect,
            final(self)@ == (SurrogateView {
                progress: ProgressView::ConnectingToCommit,
                ..old(self)@
            }),
    {
        self.progress = Progress::ConnectingToCommit;
        PgRequest::Connect
    }

    /// Begins to roll back the transaction, if it is prepared.
    pub fn rollback(&mut self) -> (request: PgRequest)
        ensures
            request@ == RequestView::Connect,
            final(self)@ == (SurrogateView {
                progress: ProgressView::ConnectingToRollback,
                ..old(self)@
            }),
    {
        self.progress = Progress::ConnectingToRollback;
        PgRequest::Connect
    }

    fn named_statement(&self, start: &str) -> (s: String)
        ensures
            s@ == named(start@, self.xact_id),
    {
        let mut out = start.to_owned();
        out.append(self.xact_id.to_string().as_str());
        out.append("'");
        out
    }

    /// Goes on with the operation after its last request succeeded, by finding a row or not where
    /// that was asked, or failed.
    pub fn replied(&mut self, reply: Result<bool, RollbackReason>) -> (step: PgStep)
        requires
            old(self)@.progress !is Idle,
        ensures
            final(self)@ == (SurrogateView {
                progress: next(old(self)@, reply_view(reply)).0,
                ..old(self)@
            }),
            step@ == next(old(self)@, reply_view(reply)).1,
    {
        let mut progress = Progress::Idle;
        std::mem::swap(&mut self.progress, &mut progress);
        match progress {
            Progress::Idle => PgStep::Finished(Ok(())),
            Progress::ConnectingToExecute => match reply {
                Ok(_) => {
                    self.progress = Progress::Beginning;
                    PgStep::Request(
                        PgRequest::BatchExecute(
                            "BEGIN TRANSACTION ISOLATION LEVEL SERIALIZABLE".to_owned(),
                        ),
                    )
                },
                Err(reason) => PgStep::Finished(
                    Err(PgFailure { stage: PgStage::Connect, reason }),
                ),
            },
            Progress::Beginning => match reply {
                Ok(_) => {
                    self.progress = Progress::Validating;
                    PgStep::Request(
                        PgRequest::Execute {
                            statement: "SELECT validate_and_apply_xact($1::bytea);".to_owned(),
                            data: buf::clone(&self.data),
                        },
                    )
                },
                Err(reason) => PgStep::Finished(Err(PgFailure { stage: PgStage::Begin, reason })),
            },
            Progress::Validating => {
                self.progress = Progress::Preparing(reply.err());
                PgStep::Request(
                    PgRequest::BatchExecute(self.named_statement("PREPARE TRANSACTION '")),
                )
            },
            Progress::Preparing(validation) => match (reply, validation) {
                (Err(reason), _) => PgStep::Finished(
                    Err(PgFailure { stage: PgStage::Prepare, reason }),
                ),
                (Ok(_), Some(reason)) => PgStep::Finished(
                    Err(PgFailure { stage: PgStage::Validate, reason }),
                ),
                (Ok(_), None) => PgStep::Finished(Ok(())),
            },
            Progress::ConnectingToCommit => match reply {
                Ok(_) => {
                    self.progress = Progress::Committing;
                    PgStep::Request(
                        PgRequest::BatchExecute(self.named_statement("COMMIT PREPARED '")),
                    )
                },
                Err(reason) => PgStep::Finished(
                    Err(PgFailure { stage: PgStage::Connect, reason }),
                ),
            },
            Progress::Committing => match reply {
                Ok(_) => PgStep::Finished(Ok(())),
                Err(reason) => PgStep::Finished(
                    Err(PgFailure { stage: PgStage::Commit, reason }),
                ),
            },
            Progress::ConnectingToRollback => match reply {
                Ok(_) => {
                    self.progress = Progress::CheckingPrepared;
                    PgStep::Request(
                        PgRequest::QueryOpt(
                            self.named_statement("SELECT 1 FROM pg_prepared_xacts WHERE gid='"),
                        ),
                    )
                },
                Err(reason) => PgStep::Finished(
                    Err(PgFailure { stage: PgStage::Connect, reason }),
                ),
            },
            Progress::CheckingPrepared => match reply {
                Ok(true) => {
                    self.progress = Progress::RollingBack;
                    PgStep::Request(
                        PgRequest::BatchExecute(self.named_statement("ROLLBACK PREPARED '")),
                    )
                },
                Ok(false) => PgStep::Finished(Ok(())),
                Err(reason) => PgStep::Finished(
                    Err(PgFailure { stage: PgStage::CheckPrepared, reason }),
                ),
            },
            Progress::RollingBack => match reply {
                Ok(_) => PgStep::Finished(Ok(())),
                Err(reason) => PgStep::Finished(
                    Err(PgFailure { stage: PgStage::Rollback, reason }),
                ),
            },
        }
    }
}

} // verus!
