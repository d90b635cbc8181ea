//! What a database that waits for decisions reads, and how the conversation with it goes.
use crate::buf;
use crate::pg::watcher::{
    self, FeMessage, PgWatcherHandler, PollStep, Polled, WatcherError, WatcherPhase, WatcherStep,
};
use crate::vote::{RollbackInfo, RollbackReason};
use bytes::Bytes;
use vstd::prelude::*;
use vstd::utf8::encode_utf8;

verus! {

/// What a reader learns from an answer.
#[verifier::ext_equal]
pub enum Decision {
    Committed,
    RolledBack { node: int, message: Seq<u8>, error: Option<ErrorDetails> },
}

/// What a reader learns of a database error beside its message.
#[verifier::ext_equal]
pub struct ErrorDetails {
    pub code: Seq<u8>,
    pub severity: Seq<u8>,
    pub detail: Seq<u8>,
    pub hint: Seq<u8>,
}

/// Reads up to the first zero: what stands before it, and what follows it.
pub open spec fn read_text(s: Seq<u8>) -> Option<(Seq<u8>, Seq<u8>)>
    decreases s.len(),
{
    if s.len() == 0 {
        None
    } else if s[0] == 0 {
        Some((Seq::empty(), s.skip(1)))
    } else {
        match read_text(s.skip(1)) {
            Some((text, rest)) => Some((seq![s[0]] + text, rest)),
            None => None,
        }
    }
}

/// Reads what follows the message of a database error: five bytes of a code, three texts, and
/// nothing after them but one zero.
pub open spec fn read_details(s: Seq<u8>) -> Option<ErrorDetails> {
    if s.len() < 5 {
        None
    } else {
        match read_text(s.skip(5)) {
            None => None,
            Some((severity, rest)) => match read_text(rest) {
                None => None,
                Some((detail, rest)) => match read_text(rest) {
                    None => None,
                    Some((hint, rest)) => if rest == seq![0u8] {
                        Some(ErrorDetails { code: s.subrange(0, 5), severity, detail, hint })
                    } else {
                        None
                    },
                },
            },
        }
    }
}

/// Reads an answer: a zero alone, or the number of a node plus one and a message, and then either a
/// zero alone, or a one and the details of a database error.
pub open spec fn read_answer(s: Seq<u8>) -> Option<Decision> {
    if s.len() == 0 {
        None
    } else if s[0] == 0 {
        if s.len() == 1 {
            Some(Decision::Committed)
        } else {
            None
        }
    } else {
        match read_text(s.skip(1)) {
            None => None,
            Some((message, rest)) => if rest == seq![0u8] {
                Some(Decision::RolledBack { node: s[0] - 1, message, error: None })
            } else if rest.len() > 0 && rest[0] == 1 {
                match read_details(rest.skip(1)) {
                    None => None,
                    Some(details) => Some(
                        Decision::RolledBack { node: s[0] - 1, message, error: Some(details) },
                    ),
                }
            } else {
                None
            },
        }
    }
}

/// A text without zeros that is followed by one is read as it is, empty or not.
proof fn lemma_read_text(text: Seq<u8>, rest: Seq<u8>)
    requires
        !text.contains(0),
    ensures
        read_text(text.push(0) + rest) == Some((text, rest)),
    decreases text.len(),
{
    let all = text.push(0) + rest;
    if text.len() == 0 {
        assert(all[0] == 0);
        assert(all.skip(1) == rest);
    } else {
        let tail = text.drop_first();
        assert(text.contains(text[0]));
        assert(all[0] == text[0]);
        assert(all.skip(1) == tail.push(0) + rest);
        assert forall|b: u8| tail.contains(b) implies text.contains(b) by {
            let i = choose|i: int| 0 <= i < tail.len() && tail[i] == b;
            assert(text[i + 1] == b);
        }
        lemma_read_text(tail, rest);
        assert(seq![text[0]] + tail == text);
    }
}

/// Whatever was decided is read back from the answer, field by field: that the transaction is
/// committed, or on account of which node it is rolled back, and why. Texts may be empty but hold
/// no zero, and a code has five bytes.
pub proof fn law_answer_is_read(info: Option<RollbackInfo>, data: Bytes)
    requires
        call_ensures(watcher::serialize_rollback_info, (info,), data),
        info matches Some(info) ==> info.0.0 < 255 && match info.1 {
            RollbackReason::Db(err) => !encode_utf8(err.message@).contains(0) && !encode_utf8(
                err.severity@,
            ).contains(0) && !encode_utf8(err.detail@).contains(0) && !encode_utf8(
                err.hint@,
            ).contains(0) && err.code@.len() == 5,
            RollbackReason::Other(text) => !encode_utf8(text@).contains(0),
        },
    ensures
        match info {
            None => read_answer(buf::unread(data)) == Some(Decision::Committed),
            Some(info) => match info.1 {
                RollbackReason::Other(text) => read_answer(buf::unread(data)) == Some(
                    Decision::RolledBack {
                        node: info.0.0 as int,
                        message: encode_utf8(text@),
                        error: None,
                    },
                ),
                RollbackReason::Db(err) => read_answer(buf::unread(data)) == Some(
                    Decision::RolledBack {
                        node: info.0.0 as int,
                        message: encode_utf8(err.message@),
                        error: Some(
                            ErrorDetails {
                                code: err.code@,
                                severity: encode_utf8(err.severity@),
                                detail: encode_utf8(err.detail@),
                                hint: encode_utf8(err.hint@),
                            },
                        ),
                    },
                ),
            },
        },
{
    let s = buf::unread(data);
    let end = seq![0u8];
    if let Some(info) = info {
        assert(s[0] == info.0.0 + 1);
        match info.1 {
            RollbackReason::Other(text) => {
                assert(s.skip(1) == encode_utf8(text@).push(0) + end);
                lemma_read_text(encode_utf8(text@), end);
            },
            RollbackReason::Db(err) => {
                let hint = encode_utf8(err.hint@).push(0) + end;
                let detail = encode_utf8(err.detail@).push(0) + hint;
                let severity = encode_utf8(err.severity@).push(0) + detail;
                let rest = seq![1u8] + err.code@ + severity;
                assert(s.skip(1) == encode_utf8(err.message@).push(0) + rest);
                lemma_read_text(encode_utf8(err.message@), rest);
                let details = rest.skip(1);
                assert(details == err.code@ + severity);
                assert(details.skip(5) == severity);
                assert(details.subrange(0, 5) == err.code@);
                lemma_read_text(encode_utf8(err.severity@), detail);
                lemma_read_text(encode_utf8(err.detail@), hint);
                lemma_read_text(encode_utf8(err.hint@), end);
                assert(rest[0] == 1);
                assert(rest != end);
            },
        }
    }
}

/// There is an answer if and only if the number of the node plus one fits in a byte, and the bytes
/// of the answer in an allocation.
pub proof fn law_is_answerable(info: Option<RollbackInfo>, b: bool)
    requires
        call_ensures(watcher::is_answerable, (&info,), b),
    ensures
        match info {
            None => b,
            Some(info) => b <==> info.0.0 < 255 && match info.1 {
                RollbackReason::Other(text) => encode_utf8(text@).len() + 3 <= isize::MAX,
                RollbackReason::Db(err) => encode_utf8(err.message@).len() + err.code@.len()
                    + encode_utf8(err.severity@).len() + encode_utf8(err.detail@).len()
                    + encode_utf8(err.hint@).len() + 7 <= isize::MAX,
            },
        },
{
    assert(watcher::answer(None).len() == 1);
}

/// Data from the database is a transaction to be started, as it was sent. If the database ends the
/// conversation or goes away it is over, and anything else breaks it off.
pub proof fn law_received(
    before: PgWatcherHandler,
    message: Result<Option<FeMessage>, ()>,
    after: PgWatcherHandler,
    step: WatcherStep,
)
    requires
        exists|h: &mut PgWatcherHandler| #[trigger]
            call_ensures(PgWatcherHandler::received, (h, message), step) && *h == before
                && *final(h) == after,
    ensures
        match message {
            Ok(Some(FeMessage::CopyData(sent))) => after.phase == WatcherPhase::Starting && (
            step matches WatcherStep::Start(data) && buf::unread(data) == buf::unread(sent)),
            Ok(Some(FeMessage::Terminate)) | Ok(None) => after.phase == WatcherPhase::Closed
                && step is Stop,
            Ok(Some(FeMessage::Other)) => after.phase == WatcherPhase::Closed && step
                == WatcherStep::Fail(WatcherError::UnexpectedMessage),
            Err(_) => after.phase == WatcherPhase::Closed && step == WatcherStep::Fail(
                WatcherError::Connection,
            ),
        },
{
}

/// A conversation begins by reading. A transaction that was handed on is awaited, and one that
/// could not be breaks the conversation off. Once the answer was sent the next message is read.
pub proof fn law_conversation(
    new: PgWatcherHandler,
    ok: bool,
    starting: PgWatcherHandler,
    started: PgWatcherHandler,
    after_start: WatcherStep,
    answering: PgWatcherHandler,
    answered: PgWatcherHandler,
    after_answer: WatcherStep,
)
    requires
        call_ensures(PgWatcherHandler::new, (), new),
        exists|h: &mut PgWatcherHandler| #[trigger]
            call_ensures(PgWatcherHandler::started, (h, ok), after_start) && *h == starting
                && *final(h) == started,
        exists|h: &mut PgWatcherHandler| #[trigger]
            call_ensures(PgWatcherHandler::answered, (h, ok), after_answer) && *h == answering
                && *final(h) == answered,
    ensures
        new.phase == WatcherPhase::Reading,
        ok ==> started.phase == WatcherPhase::Deciding && after_start is Await,
        ok ==> answered.phase == WatcherPhase::Reading && after_answer is Read,
        !ok ==> started.phase == WatcherPhase::Closed && after_start == WatcherStep::Fail(
            WatcherError::NotStarted,
        ),
        !ok ==> answered.phase == WatcherPhase::Closed && after_answer == WatcherStep::Fail(
            WatcherError::Connection,
        ),
{
}

/// Every decision is answered, with the answer that stands for it. Without a decision there is no
/// answer, and the conversation is broken off.
pub proof fn law_decided(
    before: PgWatcherHandler,
    decision: Option<Option<RollbackInfo>>,
    after: PgWatcherHandler,
    step: WatcherStep,
    info: Option<RollbackInfo>,
    answer: Bytes,
)
    requires
        exists|h: &mut PgWatcherHandler| #[trigger]
            call_ensures(PgWatcherHandler::decided, (h, decision), step) && *h == before
                && *final(h) == after,
        decision matches Some(decided) ==> info == decided,
        call_ensures(watcher::serialize_rollback_info, (info,), answer),
    ensures
        decision is Some ==> after.phase == WatcherPhase::Answering && (
        step matches WatcherStep::Answer(data) && buf::unread(data) == buf::unread(answer)),
        decision is None ==> after.phase == WatcherPhase::Closed && step == WatcherStep::Fail(
            WatcherError::NotDecided,
        ),
{
}

/// Where the database gets no answers, its data is taken in and everything else is passed over,
/// until it goes away or reading fails.
pub proof fn law_poll(polled: Polled, step: PollStep)
    requires
        call_ensures(watcher::poll_step, (polled,), step),
    ensures
        step is Stop <==> polled == Polled::Message(None),
        step is Fail <==> polled is Failed,
        step matches PollStep::Take(data) ==> polled == Polled::Message(
            Some(FeMessage::CopyData(data)),
        ),
        polled matches Polled::Message(Some(FeMessage::CopyData(_))) ==> step is Take,
{
}

} // verus!
