//! Each event takes the transaction of a manager as far as the event alone would take it, and the
//! manager waits for what that needs.
use crate::manager::xact_state_manager::{Action, ManagerError, Phase, XactStateManager};
use crate::node_set;
use crate::proto::VoteMessage;
use crate::vote::{RollbackReason, Vote};
use crate::xact::state::{self, InitStep, StateView, XactState};
use crate::xact::{self, StatusView, XactError, XactStatus, XactStep, XactType};
use vstd::prelude::*;

verus! {

/// How a manager goes on after the attempt to finish its transaction: it does what that needs, ends
/// with the transaction, waits for messages where there is nothing to do, or gives up.
pub open spec fn goes_on<C>(
    after: XactStateManager<C>,
    x: XactType<C>,
    r: Result<XactStep<C>, XactError>,
    action: Action<C>,
) -> bool {
    let over = match x {
        XactType::Unknown(_) => false,
        XactType::Local(s) => s.status is Committed || s.status is Rollbacked,
        XactType::Surrogate(s) => s.status is Committed || s.status is Rollbacked,
    };
    match r {
        Ok(XactStep::Notify(notice)) => after.phase == Phase::Finishing && (
        action matches Action::Notify(told) && told.to == notice.to && (told.info is Some
            <==> notice.info is Some) && (notice.info matches Some(info) ==> (
        told.info matches Some(why) && why@ == info@))),
        Ok(XactStep::Pg(request)) => after.phase == Phase::Finishing && (
        action matches Action::Pg(asked) && asked@ == request@),
        Ok(XactStep::Nothing) => if over {
            after.phase == Phase::Finished && action is Finish
        } else {
            after.phase == Phase::Idle && action is Wait
        },
        Err(e) => after.phase == Phase::Stopped && action == Action::<C>::Stop(
            Some(ManagerError::Xact(e)),
        ),
    }
}

/// A vote is added to the transaction, which is then finished if it is decided.
pub proof fn law_vote<C>(
    before: XactStateManager<C>,
    msg: VoteMessage,
    after: XactStateManager<C>,
    action: Action<C>,
    vote: Vote,
    added: XactType<C>,
    p: Result<(), XactError>,
    tried: XactType<C>,
    q: Result<XactStep<C>, XactError>,
)
    requires
        exists|m: &mut XactStateManager<C>| #[trigger]
            call_ensures(XactStateManager::<C>::handle_vote_msg, (m, msg), action) && *m == before
                && *final(m) == after,
        call_ensures(<Vote as From<VoteMessage>>::from, (msg,), vote),
        exists|x: &mut XactType<C>| #[trigger]
            call_ensures(XactType::<C>::add_vote, (x, vote), p) && *x == before.xact && *final(x)
                == added,
        exists|x: &mut XactType<C>| #[trigger]
            call_ensures(XactType::<C>::try_finish, (x,), q) && *x == added && *final(x) == tried,
    ensures
        p is Ok ==> after.xact@ == tried@ && goes_on(after, tried, q, action),
        p matches Err(e) ==> after.xact@ == added@ && after.phase == Phase::Stopped && action
            == Action::<C>::Stop(Some(ManagerError::Xact(e))),
{
}

/// Once all have got the vote of this node, its transaction is finished if it is decided.
pub proof fn law_votes_were_sent<C>(
    before: XactStateManager<C>,
    after: XactStateManager<C>,
    action: Action<C>,
    tried: XactType<C>,
    q: Result<XactStep<C>, XactError>,
)
    requires
        exists|m: &mut XactStateManager<C>| #[trigger]
            call_ensures(XactStateManager::<C>::sent, (m, true), action) && *m == before
                && *final(m) == after,
        before.phase == Phase::SendingVotes,
        exists|x: &mut XactType<C>| #[trigger]
            call_ensures(XactType::<C>::try_finish, (x,), q) && *x == before.xact && *final(x)
                == tried,
    ensures
        after.xact@ == tried@,
        goes_on(after, tried, q, action),
{
}

/// An answer of the local database goes to the transaction. Where the database needs nothing more,
/// an execution is voted on, and anything else ends the transaction if it is finished.
pub proof fn law_database_answered<C>(
    before: XactStateManager<C>,
    reply: Result<bool, RollbackReason>,
    after: XactStateManager<C>,
    action: Action<C>,
    x: XactType<C>,
    q: Result<XactStep<C>, XactError>,
)
    requires
        exists|m: &mut XactStateManager<C>| #[trigger]
            call_ensures(XactStateManager::<C>::pg_replied, (m, reply), action) && *m == before
                && *final(m) == after,
        before.xact is Surrogate,
        exists|t: &mut XactType<C>| #[trigger]
            call_ensures(XactType::<C>::pg_replied, (t, reply), q) && *t == before.xact && *final(t)
                == x,
    ensures
        after.xact@ == x@,
        q matches Ok(XactStep::Pg(request)) ==> after.phase == before.phase && (
        action matches Action::Pg(asked) && asked@ == request@),
        q matches Ok(XactStep::Nothing) ==> before.phase == Phase::Executing ==> after.phase
            == Phase::SendingVotes && action is Vote,
        q matches Ok(XactStep::Nothing) ==> before.phase != Phase::Executing ==> goes_on(
            after,
            x,
            q,
            action,
        ),
        q matches Err(e) ==> after.phase == Phase::Stopped && action == Action::<C>::Stop(
            Some(ManagerError::Xact(e)),
        ),
{
}

/// That the one who waits was told, or could not be, goes to the transaction, which ends if it is
/// finished.
pub proof fn law_was_told<C>(
    before: XactStateManager<C>,
    ok: bool,
    after: XactStateManager<C>,
    action: Action<C>,
    x: XactType<C>,
    q: Result<(), XactError>,
)
    requires
        exists|m: &mut XactStateManager<C>| #[trigger]
            call_ensures(XactStateManager::<C>::notified, (m, ok), action) && *m == before
                && *final(m) == after,
        before.xact is Local,
        exists|t: &mut XactType<C>| #[trigger]
            call_ensures(XactType::<C>::notified, (t, ok), q) && *t == before.xact && *final(t)
                == x,
    ensures
        after.xact@ == x@,
        q is Ok ==> goes_on(after, x, Ok(XactStep::Nothing), action),
        q matches Err(e) ==> after.phase == Phase::Stopped && action == Action::<C>::Stop(
            Some(ManagerError::Xact(e)),
        ),
{
}

/// Initializing a transaction changes nothing but how far it has come and which votes are counted
/// or kept.
pub proof fn law_initialize_keeps<C>(
    before: XactState<C>,
    existing: Vec<Vote>,
    after: XactState<C>,
    r: Result<InitStep, XactError>,
)
    requires
        exists|x: &mut XactState<C>| #[trigger]
            call_ensures(XactState::<C>::initialize, (x, existing), r) && *x == before && *final(x)
                == after,
    ensures
        after.xact_id == before.xact_id,
        after.node_id == before.node_id,
        after.coordinator == before.coordinator,
        after.controller == before.controller,
        node_set::members(after.participants) == node_set::members(before.participants),
        before.status is Uninitialized ==> after.status is Waiting || after.status is Committing
            || after.status is Rollbacking,
        before.status is Uninitialized && before.node_id != before.coordinator ==> after.status
            !is Rollbacking,
{
    let waiting = StateView { status: StatusView::Waiting, ..before@ };
    let votes = state::own_and(before@, None, state::votes_view(existing@));
    xact::lemma_votes_frame(waiting, votes);
    crate::manager::xact_state_manager::lemma_votes_open(waiting, votes);
}

/// An execution changes nothing but how far the transaction has come and which votes are counted.
/// One that is bound to commit before this node voted cannot be voted on.
pub proof fn law_executed_keeps<C>(
    before: XactState<C>,
    reason: Option<RollbackReason>,
    after: XactState<C>,
    r: Result<&XactStatus, XactError>,
)
    requires
        exists|x: &mut XactState<C>| #[trigger]
            call_ensures(XactState::<C>::executed, (x, reason), r) && *x == before && *final(x)
                == after,
    ensures
        after.xact_id == before.xact_id,
        after.node_id == before.node_id,
        after.coordinator == before.coordinator,
        after.controller == before.controller,
        node_set::members(after.participants) == node_set::members(before.participants),
        after.pending@.len() == 0,
        before.status is Committing || before.status is Committed ==> after.status@
            == before.status@ && node_set::members(after.voted) == node_set::members(before.voted)
            && r == Err::<&XactStatus, XactError>(XactError::AlreadyCommitting),
{
    let cleared = StateView { pending: Seq::empty(), ..before@ };
    let votes = state::own_and(before@, crate::vote::reason_view(reason), before@.pending);
    xact::lemma_votes_frame(cleared, votes);
    assert(after@.pending.len() == after.pending@.len());
}

/// Carrying out a decision changes nothing but how far the transaction has come.
pub proof fn law_finished_keeps<C>(
    before: XactState<C>,
    ok: bool,
    after: XactState<C>,
    r: Result<&XactStatus, XactError>,
)
    requires
        exists|x: &mut XactState<C>| #[trigger]
            call_ensures(XactState::<C>::finished, (x, ok), r) && *x == before && *final(x)
                == after,
    ensures
        after.xact_id == before.xact_id,
        after.node_id == before.node_id,
        after.coordinator == before.coordinator,
        after.controller == before.controller,
        after.pending@.len() == before.pending@.len(),
        r matches Ok(status) ==> status@ == after.status@,
{
    assert(after@.pending.len() == before@.pending.len());
}

} // verus!
