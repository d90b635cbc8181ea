//! The transaction log of this server, to which other servers subscribe.
use crate::proto::LogEntry;
use vstd::prelude::*;

verus! {

/// A list of transactions, in the order in which they came.
#[derive(Debug, PartialEq)]
pub struct XactLog {
    pub log: Vec<Vec<u8>>,
}

impl View for XactLog {
    type V = Seq<Seq<u8>>;

    open spec fn view(&self) -> Seq<Seq<u8>> {
        self.log@.map_values(|entry: Vec<u8>| entry@)
    }
}

impl XactLog {
    /// An empty log.
    pub fn new() -> (log: XactLog)
        ensures
            log@ == Seq::<Seq<u8>>::empty(),
    {
        let log = XactLog { log: Vec::new() };
        assert(log@ == Seq::<Seq<u8>>::empty());
        log
    }

    /// Adds a transaction at the end.
    pub fn append(&mut self, entry: Vec<u8>)
        ensures
            final(self)@ == old(self)@.push(entry@),
    {
        self.log.push(entry);
        assert(self@ == old(self)@.push(entry@));
    }

    /// The last transaction, if there is any.
    pub fn tail(&self) -> (r: Option<&Vec<u8>>)
        ensures
            match r {
                Some(entry) => self@.len() > 0 && entry@ == self@.last(),
                None => self@.len() == 0,
            },
    {
        let n: usize = self.log.len();
        if n == 0 {
            None
        } else {
            Some(&self.log[n - 1])
        }
    }
}

/// Keeps the transaction log of this server, and offers it under an address.
#[derive(Debug, PartialEq)]
pub struct LocalLogManager {
    pub xact_log: XactLog,
    pub addr: String,
}

impl LocalLogManager {
    pub fn new(addr: &str) -> (manager: LocalLogManager)
        ensures
            manager.xact_log@ == Seq::<Seq<u8>>::empty(),
            manager.addr@ == addr@,
    {
        LocalLogManager { xact_log: XactLog::new(), addr: addr.to_owned() }
    }
}

/// What happens while a subscriber is served.
#[derive(Clone, Copy, Debug, PartialEq, Eq, Structural)]
pub enum ReplicationEvent {
    /// The log grew.
    Appended,
    /// The log will not grow any more.
    LogClosed,
    /// The subscriber went away.
    SubscriberClosed,
    /// An entry was sent to the subscriber, or could not be.
    Sent(bool),
}

/// How a subscriber is served.
#[derive(Debug, PartialEq)]
pub enum ReplicationStep {
    /// Send this entry, and say whether that succeeded.
    Send(LogEntry),
    /// Wait for the log to grow or the subscriber to go away.
    Wait,
    /// Stop.
    Stop,
}

/// Whether a subscriber that was sent the first `sent` entries is offered the next one, if there
/// is any, and is waited for otherwise. The first `next` entries are then taken for sent.
pub open spec fn offered(
    log: Seq<Seq<u8>>,
    sent: usize,
    next: usize,
    step: ReplicationStep,
) -> bool {
    if sent < log.len() {
        next == sent + 1 && (step matches ReplicationStep::Send(entry) && entry.data@
            == log[sent as int])
    } else {
        next == sent && step == ReplicationStep::Wait
    }
}

/// Serves a subscriber that was sent the first `sent` entries: whenever the log grew, it gets all
/// entries that it was not sent yet, one after the other. Gives the number of entries that are
/// sent with this step.
pub fn replicate(log: &XactLog, sent: usize, event: ReplicationEvent) -> (r: (
    usize,
    ReplicationStep,
))
    requires
        sent <= log@.len(),
    ensures
        r.0 <= log@.len(),
        match event {
            ReplicationEvent::Appended | ReplicationEvent::Sent(true) => offered(
                log@,
                sent,
                r.0,
                r.1,
            ),
            _ => r.0 == sent && r.1 == ReplicationStep::Stop,
        },
{
    match event {
        ReplicationEvent::Appended | ReplicationEvent::Sent(true) => {
            if sent < log.log.len() {
                let data = log.log[sent].clone();
                (sent + 1, ReplicationStep::Send(LogEntry { data }))
            } else {
                (sent, ReplicationStep::Wait)
            }
        },
        ReplicationEvent::LogClosed
        | ReplicationEvent::SubscriberClosed
        | ReplicationEvent::Sent(false) => (sent, ReplicationStep::Stop),
    }
}

/// The entries that are sent in a series of steps.
pub open spec fn entries_sent(steps: Seq<ReplicationStep>) -> Seq<Seq<u8>>
    decreases steps.len(),
{
    if steps.len() == 0 {
        Seq::empty()
    } else {
        match steps.last() {
            ReplicationStep::Send(entry) => entries_sent(steps.drop_last()).push(entry.data@),
            _ => entries_sent(steps.drop_last()),
        }
    }
}

/// Whether a subscriber is served by a series of steps. `logs` is the log at each step, which only
/// grows, and `positions` is how many entries are taken for sent before each step and at the end.
pub open spec fn serves(
    logs: Seq<Seq<Seq<u8>>>,
    positions: Seq<usize>,
    steps: Seq<ReplicationStep>,
) -> bool {
    &&& logs.len() == steps.len()
    &&& positions.len() == steps.len() + 1
    &&& forall|i: int, j: int| 0 <= i <= j < logs.len() ==> logs[i].is_prefix_of(logs[j])
    &&& forall|i: int|
        0 <= i < steps.len() ==> offered(
            logs[i],
            positions[i],
            positions[i + 1],
            #[trigger] steps[i],
        )
}

/// However the log grows meanwhile, a subscriber is sent the entries of the log in their order:
/// none is passed over, and none is sent twice.
pub proof fn law_entries_in_order(
    logs: Seq<Seq<Seq<u8>>>,
    positions: Seq<usize>,
    steps: Seq<ReplicationStep>,
)
    requires
        serves(logs, positions, steps),
        steps.len() > 0,
        positions[0] <= logs[0].len(),
    ensures
        positions[0] <= positions.last() <= logs.last().len(),
        entries_sent(steps) == logs.last().subrange(
            positions[0] as int,
            positions.last() as int,
        ),
    decreases steps.len(),
{
    let n = steps.len() - 1;
    assert(offered(logs[n], positions[n], positions[n + 1], steps[n]));
    if n == 0 {
        assert(entries_sent(steps.drop_last()) == Seq::<Seq<u8>>::empty());
        assert(entries_sent(steps) =~= logs.last().subrange(
            positions[0] as int,
            positions.last() as int,
        ));
    } else {
        let earlier = logs.drop_last();
        assert forall|i: int| 0 <= i < n implies offered(
            earlier[i],
            positions.drop_last()[i],
            positions.drop_last()[i + 1],
            #[trigger] steps.drop_last()[i],
        ) by {
            assert(offered(logs[i], positions[i], positions[i + 1], steps[i]));
        }
        law_entries_in_order(earlier, positions.drop_last(), steps.drop_last());
        assert(earlier.last() == logs[n - 1]);
        assert(logs[n - 1].is_prefix_of(logs[n]));
        assert(positions.drop_last().last() == positions[n]);
        assert(entries_sent(steps) =~= logs.last().subrange(
            positions[0] as int,
            positions.last() as int,
        ));
    }
}

/// Until a subscriber is waited for again, it is sent all entries that it was not sent before, be
/// they appended before it was woken up or while it was served.
pub proof fn law_all_new_entries(
    logs: Seq<Seq<Seq<u8>>>,
    positions: Seq<usize>,
    steps: Seq<ReplicationStep>,
)
    requires
        serves(logs, positions, steps),
        steps.len() > 0,
        positions[0] <= logs[0].len(),
        steps.last() == ReplicationStep::Wait,
    ensures
        entries_sent(steps) == logs.last().skip(positions[0] as int),
{
    law_entries_in_order(logs, positions, steps);
    let n = steps.len() - 1;
    assert(offered(logs[n], positions[n], positions[n + 1], steps[n]));
}

/// The last entry of a log is the one that was appended last, and those before it stay.
pub proof fn law_append(log: Seq<Seq<u8>>, entry: Seq<u8>)
    ensures
        log.push(entry).last() == entry,
        log.push(entry).drop_last() == log,
{
    assert(log.push(entry).drop_last() =~= log);
}

} // verus!
