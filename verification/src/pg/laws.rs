//! What the local database is asked to do with a transaction, whatever it answers.
use super::xact_controller::{
    self, FailureView, PgStage, PgStepView, RequestView, SurrogateView,
};
use crate::id::XactId;
use crate::vote::{InfoView, ReasonView};
use crate::xact::XactError;
use vstd::prelude::*;

verus! {

/// The requests that follow a series of answers, and how the operation ends if it does.
pub open spec fn run(s: SurrogateView, replies: Seq<Result<bool, ReasonView>>) -> (
    Seq<RequestView>,
    Option<Option<FailureView>>,
)
    decreases replies.len(),
{
    if replies.len() == 0 {
        (Seq::empty(), None)
    } else {
        let (progress, step) = xact_controller::next(s, replies[0]);
        match step {
            PgStepView::Finished(failure) => (Seq::empty(), Some(failure)),
            PgStepView::Request(request) => {
                let (rest, end) = run(SurrogateView { progress, ..s }, replies.drop_first());
                (seq![request] + rest, end)
            },
        }
    }
}

/// The requests of an execution that is not cut short.
pub open spec fn execution(xact_id: XactId, data: Seq<u8>) -> Seq<RequestView> {
    seq![
        RequestView::BatchExecute(xact_controller::begin_statement()),
        RequestView::Execute { statement: xact_controller::validate_statement(), data },
        RequestView::BatchExecute(xact_controller::prepare_statement(xact_id)),
    ]
}

/// How many answers an execution gets before it ends, or all if it does not.
pub open spec fn execution_steps(replies: Seq<Result<bool, ReasonView>>) -> nat {
    if replies.len() > 0 && replies[0] is Err {
        0
    } else if replies.len() > 1 && replies[1] is Err {
        1
    } else if replies.len() < 3 {
        replies.len()
    } else {
        3
    }
}

/// An execution begins a transaction, validates it and prepares it, in this order. It stops
/// where there is no connection or no transaction begun. It prepares the transaction even where
/// the validation failed. It succeeds if and only if every request did; where both the validation
/// and the preparation failed, the failure is that of the preparation.
pub proof fn law_execution(s: SurrogateView, replies: Seq<Result<bool, ReasonView>>)
    requires
        s.progress is ConnectingToExecute,
    ensures
        run(s, replies).0 == execution(s.xact_id, s.data).take(execution_steps(replies) as int),
        run(s, replies).1 == (if replies.len() > 0 && replies[0] is Err {
            Some(Some(FailureView { stage: PgStage::Connect, reason: replies[0]->Err_0 }))
        } else if replies.len() > 1 && replies[1] is Err {
            Some(Some(FailureView { stage: PgStage::Begin, reason: replies[1]->Err_0 }))
        } else if replies.len() < 4 {
            None
        } else if replies[3] is Err {
            Some(Some(FailureView { stage: PgStage::Prepare, reason: replies[3]->Err_0 }))
        } else if replies[2] is Err {
            Some(Some(FailureView { stage: PgStage::Validate, reason: replies[2]->Err_0 }))
        } else {
            Some(None)
        }),
{
    let r1 = replies.drop_first();
    let r2 = r1.drop_first();
    let r3 = r2.drop_first();
    reveal_with_fuel(run, 5);
    if replies.len() > 1 {
        assert(r1[0] == replies[1]);
    }
    if replies.len() > 2 {
        assert(r2[0] == replies[2]);
    }
    if replies.len() > 3 {
        assert(r3[0] == replies[3]);
    }
    assert(run(s, replies).0 =~= execution(s.xact_id, s.data).take(
        execution_steps(replies) as int,
    ));
}

/// A commit asks for nothing but to commit the prepared transaction, and succeeds if and only if
/// that did.
pub proof fn law_commit(s: SurrogateView, replies: Seq<Result<bool, ReasonView>>)
    requires
        s.progress is ConnectingToCommit,
        replies.len() >= 2,
    ensures
        run(s, replies).0 == (if replies[0] is Ok {
            seq![RequestView::BatchExecute(xact_controller::commit_statement(s.xact_id))]
        } else {
            Seq::empty()
        }),
        run(s, replies).1 == Some(
            if replies[0] is Err {
                Some(FailureView { stage: PgStage::Connect, reason: replies[0]->Err_0 })
            } else if replies[1] is Err {
                Some(FailureView { stage: PgStage::Commit, reason: replies[1]->Err_0 })
            } else {
                None
            },
        ),
{
    reveal_with_fuel(run, 3);
    assert(replies.drop_first()[0] == replies[1]);
}

/// To roll back asks whether the transaction is prepared, and asks to roll it back if and only if
/// it is.
pub proof fn law_rollback(s: SurrogateView, replies: Seq<Result<bool, ReasonView>>)
    requires
        s.progress is ConnectingToRollback,
        replies.len() >= 3,
    ensures
        run(s, replies).0 == (if replies[0] is Err {
            Seq::empty()
        } else if replies[1] == Ok::<bool, ReasonView>(true) {
            seq![
                RequestView::QueryOpt(xact_controller::check_statement(s.xact_id)),
                RequestView::BatchExecute(xact_controller::rollback_statement(s.xact_id)),
            ]
        } else {
            seq![RequestView::QueryOpt(xact_controller::check_statement(s.xact_id))]
        }),
        run(s, replies).1 == Some(
            if replies[0] is Err {
                Some(FailureView { stage: PgStage::Connect, reason: replies[0]->Err_0 })
            } else if replies[1] is Err {
                Some(FailureView { stage: PgStage::CheckPrepared, reason: replies[1]->Err_0 })
            } else if replies[1] == Ok::<bool, ReasonView>(true) && replies[2] is Err {
                Some(FailureView { stage: PgStage::Rollback, reason: replies[2]->Err_0 })
            } else {
                None
            },
        ),
{
    reveal_with_fuel(run, 4);
    let rest = replies.drop_first();
    assert(rest[0] == replies[1]);
    assert(rest.drop_first()[0] == replies[2]);
}

/// Whether a request decides a transaction.
pub open spec fn decides(request: RequestView, xact_id: XactId) -> bool {
    ||| request == RequestView::BatchExecute(xact_controller::commit_statement(xact_id))
    ||| request == RequestView::BatchExecute(xact_controller::rollback_statement(xact_id))
}

/// No request of an execution commits or rolls back a transaction, be it this one or another.
pub proof fn law_execution_decides_nothing(
    s: SurrogateView,
    replies: Seq<Result<bool, ReasonView>>,
    i: int,
    xact_id: XactId,
)
    requires
        s.progress is ConnectingToExecute,
        0 <= i < run(s, replies).0.len(),
    ensures
        !decides(run(s, replies).0[i], xact_id),
{
    law_execution(s, replies);
    lemma_statements(s.xact_id, xact_id);
}

/// The statements are told apart by how they start.
pub(crate) proof fn lemma_statements(a: XactId, b: XactId)
    ensures
        xact_controller::begin_statement() != xact_controller::commit_statement(b),
        xact_controller::begin_statement() != xact_controller::rollback_statement(b),
        xact_controller::prepare_statement(a) != xact_controller::commit_statement(b),
        xact_controller::prepare_statement(a) != xact_controller::rollback_statement(b),
        xact_controller::commit_statement(a) != xact_controller::rollback_statement(b),
{
    reveal_strlit("BEGIN TRANSACTION ISOLATION LEVEL SERIALIZABLE");
    reveal_strlit("PREPARE TRANSACTION '");
    reveal_strlit("COMMIT PREPARED '");
    reveal_strlit("ROLLBACK PREPARED '");
    assert(xact_controller::begin_statement()[0] == 'B');
    assert(xact_controller::prepare_statement(a)[0] == 'P');
    assert(xact_controller::commit_statement(a)[0] == 'C');
    assert(xact_controller::commit_statement(b)[0] == 'C');
    assert(xact_controller::rollback_statement(b)[0] == 'R');
}

/// A call of the controller of a local transaction.
pub enum LocalCall {
    Execute,
    Commit,
    Rollback(InfoView),
}

/// What a call decides, if it does: why the transaction is rolled back, or nothing if it is
/// committed.
pub open spec fn decision(call: LocalCall) -> Option<Option<InfoView>> {
    match call {
        LocalCall::Execute => None,
        LocalCall::Commit => Some(None),
        LocalCall::Rollback(info) => Some(Some(info)),
    }
}

/// Who is still to be told after a series of calls.
pub open spec fn left_to_tell<C>(commit_tx: Option<C>, calls: Seq<LocalCall>) -> Option<C>
    decreases calls.len(),
{
    if calls.len() == 0 {
        commit_tx
    } else {
        let before = left_to_tell(commit_tx, calls.drop_last());
        match decision(calls.last()) {
            None => before,
            Some(info) => xact_controller::tell(before, info).0,
        }
    }
}

/// What the last of a series of calls gives, if it decides: a notice or an error.
pub open spec fn last_notice<C>(commit_tx: Option<C>, calls: Seq<LocalCall>) -> Option<
    Result<(C, Option<InfoView>), XactError>,
> {
    match decision(calls.last()) {
        None => None,
        Some(info) => Some(
            xact_controller::tell(left_to_tell(commit_tx, calls.drop_last()), info).1,
        ),
    }
}

/// All notices that a series of calls gives.
pub open spec fn notices<C>(commit_tx: Option<C>, calls: Seq<LocalCall>) -> Seq<
    (C, Option<InfoView>),
>
    decreases calls.len(),
{
    if calls.len() == 0 {
        Seq::empty()
    } else {
        let before = notices(commit_tx, calls.drop_last());
        match last_notice(commit_tx, calls) {
            Some(Ok(notice)) => before.push(notice),
            _ => before,
        }
    }
}

/// The first decision in a series of calls.
pub open spec fn first_decision(calls: Seq<LocalCall>) -> Option<Option<InfoView>>
    decreases calls.len(),
{
    if calls.len() == 0 {
        None
    } else {
        match first_decision(calls.drop_last()) {
            Some(info) => Some(info),
            None => decision(calls.last()),
        }
    }
}

/// Whatever calls are made of the controller of a local transaction, the one who waits gets one
/// notice, of the first decision, if there is any.
pub proof fn law_first_decision_is_told<C>(to: C, calls: Seq<LocalCall>)
    ensures
        notices(Some(to), calls) == (match first_decision(calls) {
            Some(info) => seq![(to, info)],
            None => Seq::empty(),
        }),
        left_to_tell(Some(to), calls) == (match first_decision(calls) {
            Some(_) => None,
            None => Some(to),
        }),
    decreases calls.len(),
{
    if calls.len() > 0 {
        law_first_decision_is_told(to, calls.drop_last());
        assert(notices(Some(to), calls) =~= (match first_decision(calls) {
            Some(info) => seq![(to, info)],
            None => Seq::empty(),
        }));
    }
}

/// Of the calls that decide only the first succeeds, and every later one fails.
pub proof fn law_later_decisions_fail<C>(to: C, calls: Seq<LocalCall>)
    requires
        calls.len() > 0,
        decision(calls.last()) is Some,
    ensures
        last_notice(Some(to), calls) == (match first_decision(calls.drop_last()) {
            None => Some(Ok((to, decision(calls.last())->0))),
            Some(_) => Some(Err(XactError::AlreadyFinished)),
        }),
{
    law_first_decision_is_told(to, calls.drop_last());
}

} // verus!
