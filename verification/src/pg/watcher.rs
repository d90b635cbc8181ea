//! The conversation with a database that sends its transactions and waits for the decisions.
//!
//! The database switches to copying data both ways. It sends each transaction as one piece of
//! data, and gets one piece of data back: a zero if the transaction is committed, else the number
//! of the node on whose account it is rolled back, plus one, a message that ends in a zero, and a
//! zero. Where the reason is an error of a database, a one and the details of the error stand
//! before the last zero: the code, and the severity, the detail and the hint, each of which ends
//! in a zero.
use super::xact_controller;
use crate::buf;
use crate::vote::{InfoView, ReasonView, RollbackInfo, RollbackReason};
use bytes::{Bytes, BytesMut};
use vstd::prelude::*;

verus! {

/// What a database sends.
#[derive(Debug, PartialEq)]
pub enum FeMessage {
    CopyData(Bytes),
    Terminate,
    Other,
}

/// What a conversation waits for.
#[derive(Clone, Copy, Debug, PartialEq, Eq, Structural)]
pub enum WatcherPhase {
    /// A message of the database.
    Reading,
    /// That a transaction is handed on.
    Starting,
    /// The decision on the transaction.
    Deciding,
    /// That the decision is sent to the database.
    Answering,
    /// Nothing: it is over.
    Closed,
}

/// Why a conversation is broken off.
#[derive(Clone, Copy, Debug, PartialEq, Eq, Structural)]
pub enum WatcherError {
    /// A message does not belong into it.
    UnexpectedMessage,
    /// A transaction could not be handed on.
    NotStarted,
    /// There will be no decision on the transaction.
    NotDecided,
    /// Reading from the database, or writing to it, failed.
    Connection,
}

/// How a conversation goes on.
#[derive(Debug, PartialEq)]
pub enum WatcherStep {
    /// Read the next message of the database.
    Read,
    /// Start a transaction with this read/write set.
    Start(Bytes),
    /// Wait for the decision on the transaction.
    Await,
    /// Send this to the database.
    Answer(Bytes),
    /// End the conversation.
    Stop,
    /// Break the conversation off.
    Fail(WatcherError),
}

/// What a [`WatcherStep`] holds.
#[verifier::ext_equal]
pub enum WatcherStepView {
    Read,
    Start(Seq<u8>),
    Await,
    Answer(Seq<u8>),
    Stop,
    Fail(WatcherError),
}

impl View for WatcherStep {
    type V = WatcherStepView;

    open spec fn view(&self) -> WatcherStepView {
        match self {
            WatcherStep::Read => WatcherStepView::Read,
            WatcherStep::Start(data) => WatcherStepView::Start(buf::unread(*data)),
            WatcherStep::Await => WatcherStepView::Await,
            WatcherStep::Answer(data) => WatcherStepView::Answer(buf::unread(*data)),
            WatcherStep::Stop => WatcherStepView::Stop,
            WatcherStep::Fail(error) => WatcherStepView::Fail(*error),
        }
    }
}

/// How a conversation goes on after the database sent something or went away, or reading failed.
pub open spec fn after_read(message: Result<Option<FeMessage>, ()>) -> (
    WatcherPhase,
    WatcherStepView,
) {
    match message {
        Ok(Some(FeMessage::CopyData(data))) => (
            WatcherPhase::Starting,
            WatcherStepView::Start(buf::unread(data)),
        ),
        Ok(Some(FeMessage::Terminate)) => (WatcherPhase::Closed, WatcherStepView::Stop),
        Ok(Some(FeMessage::Other)) => (
            WatcherPhase::Closed,
            WatcherStepView::Fail(WatcherError::UnexpectedMessage),
        ),
        Ok(None) => (WatcherPhase::Closed, WatcherStepView::Stop),
        Err(_) => (WatcherPhase::Closed, WatcherStepView::Fail(WatcherError::Connection)),
    }
}

/// How a conversation goes on after a transaction was handed on, or could not be.
pub open spec fn after_start(ok: bool) -> (WatcherPhase, WatcherStepView) {
    if ok {
        (WatcherPhase::Deciding, WatcherStepView::Await)
    } else {
        (WatcherPhase::Closed, WatcherStepView::Fail(WatcherError::NotStarted))
    }
}

/// How a conversation goes on after a transaction was committed or rolled back, or given up.
pub open spec fn after_decision(decision: Option<Option<InfoView>>) -> (
    WatcherPhase,
    WatcherStepView,
) {
    match decision {
        Some(info) => (WatcherPhase::Answering, WatcherStepView::Answer(answer(info))),
        None => (WatcherPhase::Closed, WatcherStepView::Fail(WatcherError::NotDecided)),
    }
}

/// How a conversation goes on after the answer was sent, or could not be.
pub open spec fn after_answer(ok: bool) -> (WatcherPhase, WatcherStepView) {
    if ok {
        (WatcherPhase::Reading, WatcherStepView::Read)
    } else {
        (WatcherPhase::Closed, WatcherStepView::Fail(WatcherError::Connection))
    }
}

/// What a decision, if there is one, holds.
pub open spec fn decision_view(decision: Option<Option<RollbackInfo>>) -> Option<
    Option<InfoView>,
> {
    match decision {
        Some(info) => Some(xact_controller::info_view(info)),
        None => None,
    }
}

/// A conversation with a database: for each transaction that it sends, it gets one answer, before
/// the next is read.
#[derive(Debug, PartialEq)]
pub struct PgWatcherHandler {
    pub phase: WatcherPhase,
}

impl PgWatcherHandler {
    /// A conversation that begins with the first message of the database.
    pub fn new() -> (handler: Self)
        ensures
            handler.phase == WatcherPhase::Reading,
    {
        Self { phase: WatcherPhase::Reading }
    }

    /// Goes on after the database sent something or went away, or reading failed.
    pub fn received(&mut self, message: Result<Option<FeMessage>, ()>) -> (step: WatcherStep)
        requires
            old(self).phase == WatcherPhase::Reading,
        ensures
            (final(self).phase, step@) == after_read(message),
    {
        self.phase = WatcherPhase::Closed;
        match message {
            Ok(Some(FeMessage::CopyData(data))) => {
                self.phase = WatcherPhase::Starting;
                WatcherStep::Start(data)
            },
            Ok(Some(FeMessage::Terminate)) => WatcherStep::Stop,
            Ok(Some(FeMessage::Other)) => WatcherStep::Fail(WatcherError::UnexpectedMessage),
            Ok(None) => WatcherStep::Stop,
            Err(_) => WatcherStep::Fail(WatcherError::Connection),
        }
    }

    /// Goes on after the transaction was handed on, or could not be.
    pub fn started(&mut self, ok: bool) -> (step: WatcherStep)
        requires
            old(self).phase == WatcherPhase::Starting,
        ensures
            (final(self).phase, step@) == after_start(ok),
    {
        if ok {
            self.phase = WatcherPhase::Deciding;
            WatcherStep::Await
        } else {
            self.phase = WatcherPhase::Closed;
            WatcherStep::Fail(WatcherError::NotStarted)
        }
    }

    /// Goes on after the transaction was committed or rolled back, or given up.
    pub fn decided(&mut self, decision: Option<Option<RollbackInfo>>) -> (step: WatcherStep)
        requires
            old(self).phase == WatcherPhase::Deciding,
            decision matches Some(info) ==> answerable(xact_controller::info_view(info)),
        ensures
            (final(self).phase, step@) == after_decision(decision_view(decision)),
    {
        match decision {
            Some(info) => {
                self.phase = WatcherPhase::Answering;
                WatcherStep::Answer(serialize_rollback_info(info))
            },
            None => {
                self.phase = WatcherPhase::Closed;
                WatcherStep::Fail(WatcherError::NotDecided)
            },
        }
    }

    /// Goes on after the answer was sent to the database, or could not be.
    pub fn answered(&mut self, ok: bool) -> (step: WatcherStep)
        requires
            old(self).phase == WatcherPhase::Answering,
        ensures
            (final(self).phase, step@) == after_answer(ok),
    {
        if ok {
            self.phase = WatcherPhase::Reading;
            WatcherStep::Read
        } else {
            self.phase = WatcherPhase::Closed;
            WatcherStep::Fail(WatcherError::Connection)
        }
    }
}

/// What came of an attempt to read a message for a limited time.
#[derive(Debug, PartialEq)]
pub enum Polled {
    Message(Option<FeMessage>),
    TimedOut,
    Failed,
}

/// How a conversation goes on in which the database gets no answers.
#[derive(Debug, PartialEq)]
pub enum PollStep {
    /// Take in this data, and read on.
    Take(Bytes),
    /// Read on.
    Continue,
    /// End the conversation.
    Stop,
    /// End the conversation because reading failed.
    Fail,
}

/// How a conversation goes on in which the database gets no answers. Messages other than data are
/// passed over.
pub fn poll_step(polled: Polled) -> (step: PollStep)
    ensures
        match polled {
            Polled::Message(Some(FeMessage::CopyData(data))) => step == PollStep::Take(data),
            Polled::Message(Some(_)) => step == PollStep::Continue,
            Polled::Message(None) => step == PollStep::Stop,
            Polled::TimedOut => step == PollStep::Continue,
            Polled::Failed => step == PollStep::Fail,
        },
{
    match polled {
        Polled::Message(Some(FeMessage::CopyData(data))) => PollStep::Take(data),
        Polled::Message(Some(_)) => PollStep::Continue,
        Polled::Message(None) => PollStep::Stop,
        Polled::TimedOut => PollStep::Continue,
        Polled::Failed => PollStep::Fail,
    }
}

/// A text that ends in a zero.
pub open spec fn terminated(text: Seq<char>) -> Seq<u8> {
    vstd::utf8::encode_utf8(text).push(0)
}

/// What follows the number of the node.
pub open spec fn reason_bytes(reason: ReasonView) -> Seq<u8> {
    match reason {
        ReasonView::Db(err) => terminated(err.message).push(1) + err.code + terminated(err.severity)
            + terminated(err.detail) + terminated(err.hint),
        ReasonView::Other(text) => terminated(text),
    }
}

/// The answer to a database that waits for the decision on a transaction.
pub open spec fn answer(info: Option<InfoView>) -> Seq<u8> {
    match info {
        None => seq![0u8],
        Some(info) => seq![(info.by.0 + 1) as u8] + reason_bytes(info.reason) + seq![0u8],
    }
}

/// Whether there is an answer: the number of the node, plus one, fits in a byte, and the answer in
/// an allocation.
pub open spec fn answerable(info: Option<InfoView>) -> bool {
    &&& info matches Some(info) ==> info.by.0 < 255
    &&& answer(info).len() <= isize::MAX
}

fn put_terminated(buf: &mut BytesMut, text: &String)
    requires
        buf::written(*old(buf)).len() + terminated(text@).len() <= isize::MAX,
    ensures
        buf::written(*final(buf)) == buf::written(*old(buf)) + terminated(text@),
{
    let ghost before = buf::written(*buf);
    buf::put_slice(buf, text.as_str().as_bytes());
    buf::put_u8(buf, 0);
    assert(buf::written(*buf) == before + terminated(text@));
}

/// The length of a text that ends in a zero.
fn terminated_len(text: &String) -> (n: u128)
    ensures
        n == terminated(text@).len(),
        n <= usize::MAX + 1,
{
    text.as_str().as_bytes().len() as u128 + 1
}

/// Whether there is an answer to a database that waits for the decision on a transaction.
pub fn is_answerable(info: &Option<RollbackInfo>) -> (b: bool)
    ensures
        b == answerable(xact_controller::info_view(*info)),
{
    match info {
        None => {
            assert(answer(None).len() == 1);
            true
        },
        Some(RollbackInfo(by, reason)) => {
            if by.0 >= 255 {
                return false;
            }
            let reason_len: u128 = match reason {
                RollbackReason::Db(err) => {
                    let n: u128 = terminated_len(&err.message) + 1 + err.code.len() as u128
                        + terminated_len(&err.severity) + terminated_len(&err.detail)
                        + terminated_len(&err.hint);
                    n
                },
                RollbackReason::Other(text) => terminated_len(text),
            };
            reason_len + 2 <= isize::MAX as u128
        },
    }
}

/// The answer to a database that waits for the decision on a transaction.
pub fn serialize_rollback_info(info: Option<RollbackInfo>) -> (data: Bytes)
    requires
        answerable(xact_controller::info_view(info)),
    ensures
        buf::unread(data) == answer(xact_controller::info_view(info)),
{
    let mut buf = buf::empty();
    if let Some(info) = info {
        let ghost all = reason_bytes(info@.reason);
        assert(answer(Some(info@)).len() == all.len() + 2);
        let RollbackInfo(by, reason) = info;
        // The number of a node is never zero here, which is the end of the answer.
        let node: u8 = (by.0 + 1) as u8;
        buf::put_u8(&mut buf, node);
        match reason {
            RollbackReason::Db(err) => {
                put_terminated(&mut buf, &err.message);
                buf::put_u8(&mut buf, 1);
                buf::put_slice(&mut buf, err.code.as_slice());
                put_terminated(&mut buf, &err.severity);
                put_terminated(&mut buf, &err.detail);
                put_terminated(&mut buf, &err.hint);
            },
            RollbackReason::Other(text) => {
                put_terminated(&mut buf, &text);
            },
        }
        assert(buf::written(buf) == seq![node] + all);
    }
    buf::put_u8(&mut buf, 0);
    assert(buf::written(buf) == answer(xact_controller::info_view(info)));
    buf::freeze(buf)
}

/// The first byte of an answer tells a committed transaction from one that is rolled back, and
/// gives the node on whose account that is.
pub proof fn law_first_byte(info: Option<InfoView>)
    requires
        answerable(info),
    ensures
        answer(info)[0] == 0 <==> info is None,
        info matches Some(info) ==> answer(Some(info))[0] - 1 == info.by.0,
        answer(info).last() == 0,
{
}

/// Whether a text holds no zero.
pub open spec fn zero_free(text: Seq<char>) -> bool {
    !vstd::utf8::encode_utf8(text).contains(0)
}

/// Whether the texts of a reason hold no zero, and its code, if it has one, has five characters.
pub open spec fn plain(reason: ReasonView) -> bool {
    match reason {
        ReasonView::Db(err) => {
            &&& zero_free(err.message) && zero_free(err.severity)
            &&& zero_free(err.detail) && zero_free(err.hint)
            &&& err.code.len() == 5
        },
        ReasonView::Other(text) => zero_free(text),
    }
}

/// A text without zeros is read back from where it ends in one, and so is what follows it.
proof fn lemma_terminated(a: Seq<char>, b: Seq<char>, rest_a: Seq<u8>, rest_b: Seq<u8>)
    requires
        zero_free(a),
        zero_free(b),
        terminated(a) + rest_a == terminated(b) + rest_b,
    ensures
        a == b,
        rest_a == rest_b,
{
    let ea = vstd::utf8::encode_utf8(a);
    let eb = vstd::utf8::encode_utf8(b);
    let all = terminated(a) + rest_a;
    assert(all[ea.len() as int] == 0);
    assert((terminated(b) + rest_b)[eb.len() as int] == 0);
    if ea.len() < eb.len() {
        assert(all[ea.len() as int] == eb[ea.len() as int]);
        assert(eb.contains(0));
    }
    if eb.len() < ea.len() {
        assert(all[eb.len() as int] == ea[eb.len() as int]);
        assert(ea.contains(0));
    }
    assert(ea == all.take(ea.len() as int));
    assert(eb == all.take(eb.len() as int));
    assert(rest_a == all.skip(ea.len() as int + 1));
    assert(rest_b == all.skip(eb.len() as int + 1));
    vstd::utf8::encode_utf8_decode_utf8(a);
    vstd::utf8::encode_utf8_decode_utf8(b);
}

/// Different decisions have different answers, where the texts hold no zero and codes have five
/// characters.
pub proof fn law_answers_differ(a: Option<InfoView>, b: Option<InfoView>)
    requires
        answerable(a),
        answerable(b),
        a matches Some(info) ==> plain(info.reason),
        b matches Some(info) ==> plain(info.reason),
        answer(a) == answer(b),
    ensures
        a == b,
{
    law_first_byte(a);
    law_first_byte(b);
    if a is Some && b is Some {
        let (ra, rb) = (a->0.reason, b->0.reason);
        assert(answer(a).subrange(1, answer(a).len() - 1) == reason_bytes(ra));
        assert(answer(b).subrange(1, answer(b).len() - 1) == reason_bytes(rb));
        let (ma, tail_a) = split_reason(ra);
        let (mb, tail_b) = split_reason(rb);
        lemma_split_reason(ra);
        lemma_split_reason(rb);
        lemma_terminated(ma, mb, tail_a, tail_b);
        if ra is Db {
            assert(tail_a[0] == 1);
            assert(tail_b.len() > 0);
        }
        if rb is Db {
            assert(tail_b[0] == 1);
            assert(tail_a.len() > 0);
        }
        if let (ReasonView::Db(ea), ReasonView::Db(eb)) = (ra, rb) {
            assert(ea.code == tail_a.subrange(1, 6));
            assert(eb.code == tail_b.subrange(1, 6));
            let hint_a = terminated(ea.hint) + Seq::<u8>::empty();
            let hint_b = terminated(eb.hint) + Seq::<u8>::empty();
            let detail_a = terminated(ea.detail) + hint_a;
            let detail_b = terminated(eb.detail) + hint_b;
            assert(tail_a.skip(6) == terminated(ea.severity) + detail_a);
            assert(tail_b.skip(6) == terminated(eb.severity) + detail_b);
            lemma_terminated(ea.severity, eb.severity, detail_a, detail_b);
            lemma_terminated(ea.detail, eb.detail, hint_a, hint_b);
            lemma_terminated(ea.hint, eb.hint, Seq::empty(), Seq::empty());
        }
    }
}

/// The message of a reason, and the bytes behind it.
spec fn split_reason(reason: ReasonView) -> (Seq<char>, Seq<u8>) {
    match reason {
        ReasonView::Db(err) => (
            err.message,
            seq![1u8] + err.code + terminated(err.severity) + terminated(err.detail)
                + terminated(err.hint),
        ),
        ReasonView::Other(text) => (text, Seq::empty()),
    }
}

proof fn lemma_split_reason(reason: ReasonView)
    ensures
        reason_bytes(reason) == terminated(split_reason(reason).0) + split_reason(reason).1,
{
    assert(reason_bytes(reason) =~= terminated(split_reason(reason).0) + split_reason(reason).1);
}

/// What happens in a conversation.
pub enum WatcherEvent {
    Received(Result<Option<FeMessage>, ()>),
    Started(bool),
    Decided(Option<Option<InfoView>>),
    Answered(bool),
}

/// Whether a conversation waits for such an event.
pub open spec fn awaited(phase: WatcherPhase, event: WatcherEvent) -> bool {
    match event {
        WatcherEvent::Received(_) => phase == WatcherPhase::Reading,
        WatcherEvent::Started(_) => phase == WatcherPhase::Starting,
        WatcherEvent::Decided(_) => phase == WatcherPhase::Deciding,
        WatcherEvent::Answered(_) => phase == WatcherPhase::Answering,
    }
}

/// How a conversation goes on after an event.
pub open spec fn after_event(event: WatcherEvent) -> (WatcherPhase, WatcherStepView) {
    match event {
        WatcherEvent::Received(message) => after_read(message),
        WatcherEvent::Started(ok) => after_start(ok),
        WatcherEvent::Decided(decision) => after_decision(decision),
        WatcherEvent::Answered(ok) => after_answer(ok),
    }
}

/// What a conversation waits for after a series of events.
pub open spec fn phase_after(events: Seq<WatcherEvent>) -> WatcherPhase {
    if events.len() == 0 {
        WatcherPhase::Reading
    } else {
        after_event(events.last()).0
    }
}

/// Whether each of a series of events is awaited when it happens.
pub open spec fn all_awaited(events: Seq<WatcherEvent>) -> bool
    decreases events.len(),
{
    events.len() > 0 ==> {
        &&& all_awaited(events.drop_last())
        &&& awaited(phase_after(events.drop_last()), events.last())
    }
}

/// How many transactions were started in a series of events.
pub open spec fn starts(events: Seq<WatcherEvent>) -> nat
    decreases events.len(),
{
    if events.len() == 0 {
        0
    } else {
        starts(events.drop_last()) + if after_event(events.last()).1 is Start {
            1nat
        } else {
            0
        }
    }
}

/// How many answers were given in a series of events.
pub open spec fn answers(events: Seq<WatcherEvent>) -> nat
    decreases events.len(),
{
    if events.len() == 0 {
        0
    } else {
        answers(events.drop_last()) + if after_event(events.last()).1 is Answer {
            1nat
        } else {
            0
        }
    }
}

/// Each transaction that a database sends gets one answer, before the next is read: as many are
/// answered as were started, but for one that is under way or was given up with the conversation.
pub proof fn law_one_answer_each(events: Seq<WatcherEvent>)
    requires
        all_awaited(events),
    ensures
        match phase_after(events) {
            WatcherPhase::Reading | WatcherPhase::Answering => answers(events) == starts(events),
            WatcherPhase::Starting | WatcherPhase::Deciding => answers(events) + 1 == starts(
                events,
            ),
            WatcherPhase::Closed => answers(events) <= starts(events) <= answers(events) + 1,
        },
    decreases events.len(),
{
    if events.len() > 0 {
        law_one_answer_each(events.drop_last());
    }
}

} // verus!
