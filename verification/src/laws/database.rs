//! What the local database is asked to do, and under which name.
use crate::buf;
use crate::id::XactId;
use crate::pg::xact_controller::{
    self, LocalXactController, Notice, PgRequest, PgStage, PgStep, Progress,
    SurrogateXactController,
};
use crate::text;
use crate::vote::{RollbackInfo, RollbackReason};
use crate::xact::XactError;
use vstd::prelude::*;

verus! {

/// A transaction goes by one name in all statements: its counter and its node, in decimal digits,
/// with a comma between them, in brackets and in quotes.
pub proof fn law_one_name(xact_id: XactId)
    ensures
        ({
            let name = "("@ + text::decimal(xact_id.0 as nat / 0x1_0000_0000) + ","@
                + text::decimal(xact_id.0 as nat % 0x1_0000_0000) + ")"@;
            &&& xact_controller::prepare_statement(xact_id) == "PREPARE TRANSACTION '"@ + name
                + "'"@
            &&& xact_controller::commit_statement(xact_id) == "COMMIT PREPARED '"@ + name + "'"@
            &&& xact_controller::rollback_statement(xact_id) == "ROLLBACK PREPARED '"@ + name
                + "'"@
            &&& xact_controller::check_statement(xact_id)
                == "SELECT 1 FROM pg_prepared_xacts WHERE gid='"@ + name + "'"@
        }),
{
}

/// No statement that names a transaction names another one as well.
pub proof fn law_names_differ(a: XactId, b: XactId)
    requires
        xact_controller::commit_statement(a) == xact_controller::commit_statement(b)
            || xact_controller::rollback_statement(a) == xact_controller::rollback_statement(b)
            || xact_controller::prepare_statement(a) == xact_controller::prepare_statement(b)
            || xact_controller::check_statement(a) == xact_controller::check_statement(b),
    ensures
        a == b,
{
    law_one_name(a);
    law_one_name(b);
    lemma_between("COMMIT PREPARED '"@, a.text(), b.text(), "'"@);
    lemma_between("ROLLBACK PREPARED '"@, a.text(), b.text(), "'"@);
    lemma_between("PREPARE TRANSACTION '"@, a.text(), b.text(), "'"@);
    lemma_between("SELECT 1 FROM pg_prepared_xacts WHERE gid='"@, a.text(), b.text(), "'"@);
    crate::id::law_xact_id_text(a, b);
}

proof fn lemma_between(start: Seq<char>, a: Seq<char>, b: Seq<char>, end: Seq<char>)
    ensures
        start + a + end == start + b + end ==> a == b,
{
    if start + a + end == start + b + end {
        let all = start + a + end;
        assert(all.len() == start.len() + a.len() + end.len());
        assert(all.len() == start.len() + b.len() + end.len());
        assert(a == all.subrange(start.len() as int, (start.len() + a.len()) as int));
        assert(b == (start + b + end).subrange(start.len() as int, (start.len() + b.len()) as int));
    }
}

/// Which operation begins, it begins by connecting, and changes nothing else.
pub proof fn law_begins(
    before: SurrogateXactController,
    executing: SurrogateXactController,
    committing: SurrogateXactController,
    rolling_back: SurrogateXactController,
    asked: (PgRequest, PgRequest, PgRequest),
)
    requires
        exists|c: &mut SurrogateXactController| #[trigger]
            call_ensures(SurrogateXactController::execute, (c,), asked.0) && *c == before
                && *final(c) == executing,
        exists|c: &mut SurrogateXactController| #[trigger]
            call_ensures(SurrogateXactController::commit, (c,), asked.1) && *c == before
                && *final(c) == committing,
        exists|c: &mut SurrogateXactController| #[trigger]
            call_ensures(SurrogateXactController::rollback, (c,), asked.2) && *c == before
                && *final(c) == rolling_back,
    ensures
        asked.0 is Connect && asked.1 is Connect && asked.2 is Connect,
        executing.progress is ConnectingToExecute,
        committing.progress is ConnectingToCommit,
        rolling_back.progress is ConnectingToRollback,
        executing.xact_id == before.xact_id,
        committing.xact_id == before.xact_id,
        rolling_back.xact_id == before.xact_id,
        buf::unread(executing.data) == buf::unread(before.data),
        buf::unread(committing.data) == buf::unread(before.data),
        buf::unread(rolling_back.data) == buf::unread(before.data),
{
}

/// Nothing ever changes which transaction is carried out, or what it read and wrote.
pub proof fn law_keeps_xact(
    before: SurrogateXactController,
    reply: Result<bool, RollbackReason>,
    after: SurrogateXactController,
    step: PgStep,
)
    requires
        exists|c: &mut SurrogateXactController| #[trigger]
            call_ensures(SurrogateXactController::replied, (c, reply), step) && *c == before
                && *final(c) == after,
    ensures
        after.xact_id == before.xact_id,
        buf::unread(after.data) == buf::unread(before.data),
        step is Finished <==> after.progress is Idle,
{
}

/// An execution begins a transaction in the database, hands it what the transaction read and wrote,
/// and prepares it under its name, even where the second failed. It succeeds only if all succeeded.
pub proof fn law_executes(
    before: SurrogateXactController,
    reply: Result<bool, RollbackReason>,
    after: SurrogateXactController,
    step: PgStep,
)
    requires
        exists|c: &mut SurrogateXactController| #[trigger]
            call_ensures(SurrogateXactController::replied, (c, reply), step) && *c == before
                && *final(c) == after,
    ensures
        before.progress is ConnectingToExecute && reply is Ok ==> after.progress is Beginning && (
        step matches PgStep::Request(PgRequest::BatchExecute(t)) && t@
            == "BEGIN TRANSACTION ISOLATION LEVEL SERIALIZABLE"@),
        before.progress is Beginning && reply is Ok ==> after.progress is Validating && (
        step matches PgStep::Request(PgRequest::Execute { statement, data }) && statement@
            == "SELECT validate_and_apply_xact($1::bytea);"@ && buf::unread(data) == buf::unread(
            before.data,
        )),
        before.progress is Validating ==> (step matches PgStep::Request(
            PgRequest::BatchExecute(t),
        ) && t@ == "PREPARE TRANSACTION '"@ + "("@ + text::decimal(
            before.xact_id.0 as nat / 0x1_0000_0000,
        ) + ","@ + text::decimal(before.xact_id.0 as nat % 0x1_0000_0000) + ")"@ + "'"@) && (
        after.progress matches Progress::Preparing(failed) && match (failed, reply) {
            (Some(kept), Err(reason)) => kept@ == reason@,
            (None, Ok(_)) => true,
            _ => false,
        }),
        before.progress matches Progress::Preparing(failed) ==> match (reply, failed) {
            (Ok(_), None) => step matches PgStep::Finished(Ok(_)),
            (Ok(_), Some(reason)) => step matches PgStep::Finished(Err(f)) && f.stage
                == PgStage::Validate && f.reason@ == reason@,
            (Err(reason), _) => step matches PgStep::Finished(Err(f)) && f.stage
                == PgStage::Prepare && f.reason@ == reason@,
        },
        before.progress is ConnectingToExecute ==> (reply matches Err(reason) ==> (
        step matches PgStep::Finished(Err(f)) && f.stage == PgStage::Connect && f.reason@
            == reason@)),
        before.progress is Beginning ==> (reply matches Err(reason) ==> (
        step matches PgStep::Finished(Err(f)) && f.stage == PgStage::Begin && f.reason@
            == reason@)),
{
    if before.progress is Validating {
        let name = before.xact_id.text();
        assert("PREPARE TRANSACTION '"@ + name + "'"@ =~= "PREPARE TRANSACTION '"@ + "("@
            + text::decimal(before.xact_id.0 as nat / 0x1_0000_0000) + ","@ + text::decimal(
            before.xact_id.0 as nat % 0x1_0000_0000,
        ) + ")"@ + "'"@);
    }
}

/// A commit commits the transaction that was prepared under its name, and succeeds if and only if
/// that did.
pub proof fn law_commits(
    before: SurrogateXactController,
    reply: Result<bool, RollbackReason>,
    after: SurrogateXactController,
    step: PgStep,
)
    requires
        exists|c: &mut SurrogateXactController| #[trigger]
            call_ensures(SurrogateXactController::replied, (c, reply), step) && *c == before
                && *final(c) == after,
    ensures
        before.progress is ConnectingToCommit && reply is Ok ==> after.progress is Committing && (
        step matches PgStep::Request(PgRequest::BatchExecute(t)) && t@ == "COMMIT PREPARED '"@
            + "("@ + text::decimal(before.xact_id.0 as nat / 0x1_0000_0000) + ","@ + text::decimal(
            before.xact_id.0 as nat % 0x1_0000_0000,
        ) + ")"@ + "'"@),
        before.progress is Committing && reply is Ok ==> step matches PgStep::Finished(Ok(_)),
        before.progress is ConnectingToCommit ==> (reply matches Err(reason) ==> (
        step matches PgStep::Finished(Err(f)) && f.stage == PgStage::Connect && f.reason@
            == reason@)),
        before.progress is Committing ==> (reply matches Err(reason) ==> (
        step matches PgStep::Finished(Err(f)) && f.stage == PgStage::Commit && f.reason@
            == reason@)),
{
    let name = before.xact_id.text();
    assert("COMMIT PREPARED '"@ + name + "'"@ =~= "COMMIT PREPARED '"@ + "("@ + text::decimal(
        before.xact_id.0 as nat / 0x1_0000_0000,
    ) + ","@ + text::decimal(before.xact_id.0 as nat % 0x1_0000_0000) + ")"@ + "'"@);
}

/// To roll back asks whether the transaction is prepared under its name, rolls it back if and only
/// if it is, and succeeds if and only if what was asked did.
pub proof fn law_rolls_back(
    before: SurrogateXactController,
    reply: Result<bool, RollbackReason>,
    after: SurrogateXactController,
    step: PgStep,
)
    requires
        exists|c: &mut SurrogateXactController| #[trigger]
            call_ensures(SurrogateXactController::replied, (c, reply), step) && *c == before
                && *final(c) == after,
    ensures
        before.progress is ConnectingToRollback && reply is Ok ==> after.progress
            is CheckingPrepared && (step matches PgStep::Request(PgRequest::QueryOpt(t)) && t@
            == "SELECT 1 FROM pg_prepared_xacts WHERE gid='"@ + "("@ + text::decimal(
            before.xact_id.0 as nat / 0x1_0000_0000,
        ) + ","@ + text::decimal(before.xact_id.0 as nat % 0x1_0000_0000) + ")"@ + "'"@),
        before.progress is CheckingPrepared && reply == Ok::<bool, RollbackReason>(true)
            ==> after.progress is RollingBack && (step matches PgStep::Request(
            PgRequest::BatchExecute(t),
        ) && t@ == "ROLLBACK PREPARED '"@ + "("@ + text::decimal(
            before.xact_id.0 as nat / 0x1_0000_0000,
        ) + ","@ + text::decimal(before.xact_id.0 as nat % 0x1_0000_0000) + ")"@ + "'"@),
        before.progress is CheckingPrepared && reply == Ok::<bool, RollbackReason>(false)
            ==> step matches PgStep::Finished(Ok(_)),
        before.progress is RollingBack && reply is Ok ==> step matches PgStep::Finished(Ok(_)),
        before.progress is ConnectingToRollback ==> (reply matches Err(reason) ==> (
        step matches PgStep::Finished(Err(f)) && f.stage == PgStage::Connect && f.reason@
            == reason@)),
        before.progress is CheckingPrepared ==> (reply matches Err(reason) ==> (
        step matches PgStep::Finished(Err(f)) && f.stage == PgStage::CheckPrepared && f.reason@
            == reason@)),
        before.progress is RollingBack ==> (reply matches Err(reason) ==> (
        step matches PgStep::Finished(Err(f)) && f.stage == PgStage::Rollback && f.reason@
            == reason@)),
{
    let name = before.xact_id.text();
    let start = "SELECT 1 FROM pg_prepared_xacts WHERE gid='"@;
    assert(start + name + "'"@ =~= start + "("@ + text::decimal(
        before.xact_id.0 as nat / 0x1_0000_0000,
    ) + ","@ + text::decimal(before.xact_id.0 as nat % 0x1_0000_0000) + ")"@ + "'"@);
    assert("ROLLBACK PREPARED '"@ + name + "'"@ =~= "ROLLBACK PREPARED '"@ + "("@ + text::decimal(
        before.xact_id.0 as nat / 0x1_0000_0000,
    ) + ","@ + text::decimal(before.xact_id.0 as nat % 0x1_0000_0000) + ")"@ + "'"@);
}

/// The one who waits for a local transaction is told of the decision if it was not told before:
/// that it is committed, or who rolled it back and why. Then nobody waits any more.
pub proof fn law_tells<C>(
    before: LocalXactController<C>,
    info: RollbackInfo,
    committed: LocalXactController<C>,
    commit: Result<Notice<C>, XactError>,
    rolled_back: LocalXactController<C>,
    rollback: Result<Notice<C>, XactError>,
)
    requires
        exists|c: &mut LocalXactController<C>| #[trigger]
            call_ensures(LocalXactController::<C>::commit, (c,), commit) && *c == before
                && *final(c) == committed,
        exists|c: &mut LocalXactController<C>| #[trigger]
            call_ensures(LocalXactController::<C>::rollback, (c, &info), rollback) && *c == before
                && *final(c) == rolled_back,
    ensures
        committed.commit_tx is None && rolled_back.commit_tx is None,
        before.commit_tx is None ==> commit == Err::<Notice<C>, XactError>(
            XactError::AlreadyFinished,
        ) && rollback == Err::<Notice<C>, XactError>(XactError::AlreadyFinished),
        before.commit_tx matches Some(to) ==> (commit matches Ok(notice) && notice.to == to
            && notice.info is None) && (rollback matches Ok(notice) && notice.to == to && (
        notice.info matches Some(told) && told.0 == info.0 && told.1@ == info.1@)),
{
}

/// A controller begins with nothing under way. Whether a transaction is being executed shows in how
/// far it has come.
pub proof fn law_controllers<C>(
    commit_tx: C,
    local: LocalXactController<C>,
    xact_id: XactId,
    data: bytes::Bytes,
    surrogate: SurrogateXactController,
    c: SurrogateXactController,
    executing: bool,
)
    requires
        call_ensures(LocalXactController::<C>::new, (commit_tx,), local),
        call_ensures(SurrogateXactController::new, (xact_id, data), surrogate),
        call_ensures(SurrogateXactController::is_executing, (&c,), executing),
    ensures
        local.commit_tx == Some(commit_tx),
        surrogate.xact_id == xact_id,
        buf::unread(surrogate.data) == buf::unread(data),
        surrogate.progress is Idle,
        executing <==> c.progress is ConnectingToExecute || c.progress is Beginning || c.progress
            is Validating || c.progress is Preparing,
{
}

/// The one who waits for a local transaction has executed it: there is nothing to do, and it is not
/// told anything yet.
pub proof fn law_local_execution<C>(
    before: LocalXactController<C>,
    after: LocalXactController<C>,
    r: Result<(), RollbackReason>,
)
    requires
        exists|c: &mut LocalXactController<C>| #[trigger]
            call_ensures(LocalXactController::<C>::execute, (c,), r) && *c == before && *final(c)
                == after,
    ensures
        r is Ok,
        after.commit_tx == before.commit_tx,
{
}

} // verus!
