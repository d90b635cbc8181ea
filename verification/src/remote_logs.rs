//! The transaction logs of other servers.
use crate::buf;
use crate::proto::LogEntry;
use bytes::Bytes;
use vstd::prelude::*;

verus! {

/// Subscribes to the transaction logs of other servers.
#[derive(Debug, PartialEq)]
pub struct RemoteLogsManager {
    /// The addresses of the servers.
    pub peers: Vec<String>,
}

impl RemoteLogsManager {
    pub fn new(peers: Vec<&str>) -> (manager: RemoteLogsManager)
        ensures
            manager.peers@.len() == peers@.len(),
            forall|i: int|
                0 <= i < peers@.len() ==> (#[trigger] manager.peers@[i])@ == peers@[i]@,
    {
        let mut owned: Vec<String> = Vec::new();
        let mut i: usize = 0;
        while i < peers.len()
            invariant
                i <= peers.len(),
                owned@.len() == i,
                forall|j: int| 0 <= j < i ==> (#[trigger] owned@[j])@ == peers@[j]@,
            decreases peers.len() - i,
        {
            owned.push(peers[i].to_owned());
            i = i + 1;
        }
        RemoteLogsManager { peers: owned }
    }
}

/// What came of the last action of a subscription.
#[derive(Debug, PartialEq)]
pub enum SubscriptionEvent {
    /// The server was connected to, or could not be.
    Connected(bool),
    /// Its log was subscribed to, or could not be.
    Subscribed(bool),
    /// An entry of the log came, or there will be no more.
    Received(Option<LogEntry>),
    /// The pause is over.
    Slept,
}

/// What keeps a subscription going.
#[derive(Debug, PartialEq)]
pub enum SubscriptionAction {
    /// Connect to the server.
    Connect,
    /// Subscribe to its log.
    Subscribe,
    /// Receive the next entry.
    Receive,
    /// Take in the tuples of an entry, and receive the next.
    Take(Bytes),
    /// Make a pause.
    Sleep,
}

/// What a [`SubscriptionAction`] holds.
#[verifier::ext_equal]
pub enum SubscriptionView {
    Connect,
    Subscribe,
    Receive,
    Take(Seq<u8>),
    Sleep,
}

impl View for SubscriptionAction {
    type V = SubscriptionView;

    open spec fn view(&self) -> SubscriptionView {
        match self {
            SubscriptionAction::Connect => SubscriptionView::Connect,
            SubscriptionAction::Subscribe => SubscriptionView::Subscribe,
            SubscriptionAction::Receive => SubscriptionView::Receive,
            SubscriptionAction::Take(data) => SubscriptionView::Take(buf::unread(*data)),
            SubscriptionAction::Sleep => SubscriptionView::Sleep,
        }
    }
}

/// Keeps a subscription going: whatever fails, and when the log ends, it starts anew after a pause.
pub fn next_action(event: SubscriptionEvent) -> (action: SubscriptionAction)
    ensures
        action@ == (match event {
            SubscriptionEvent::Connected(true) => SubscriptionView::Subscribe,
            SubscriptionEvent::Connected(false) => SubscriptionView::Sleep,
            SubscriptionEvent::Subscribed(true) => SubscriptionView::Receive,
            SubscriptionEvent::Subscribed(false) => SubscriptionView::Sleep,
            SubscriptionEvent::Received(Some(entry)) => SubscriptionView::Take(entry.data@),
            SubscriptionEvent::Received(None) => SubscriptionView::Sleep,
            SubscriptionEvent::Slept => SubscriptionView::Connect,
        }),
{
    match event {
        SubscriptionEvent::Connected(true) => SubscriptionAction::Subscribe,
        SubscriptionEvent::Connected(false) => SubscriptionAction::Sleep,
        SubscriptionEvent::Subscribed(true) => SubscriptionAction::Receive,
        SubscriptionEvent::Subscribed(false) => SubscriptionAction::Sleep,
        SubscriptionEvent::Received(Some(entry)) => SubscriptionAction::Take(
            buf::from_vec(entry.data),
        ),
        SubscriptionEvent::Received(None) => SubscriptionAction::Sleep,
        SubscriptionEvent::Slept => SubscriptionAction::Connect,
    }
}

} // verus!
