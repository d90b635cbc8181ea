//! The transactions of a node: which messages belong to which of them, and what each message
//! leads to.
pub mod cluster;
pub mod laws;
pub mod xact_state_manager;

pub use xact_state_manager::XactStateManager;

use crate::id::{NodeId, XactId};
use crate::message::XsMessage;
use std::collections::HashMap;
use vstd::prelude::*;

verus! {

/// The transactions of a node. `S` is where the messages on one transaction are sent.
pub struct Manager<S> {
    pub node_id: NodeId,
    /// Where the messages on each known transaction go, by the number of the transaction.
    pub xact_state_managers: HashMap<u64, S>,
    /// The counter of the last transaction that started on this node.
    pub xact_id_counter: u32,
}

/// What a [`Manager`] holds.
#[verifier::ext_equal]
pub struct NodeView<S> {
    pub node_id: NodeId,
    pub xact_state_managers: Map<u64, S>,
    pub xact_id_counter: u32,
}

impl<S> View for Manager<S> {
    type V = NodeView<S>;

    open spec fn view(&self) -> NodeView<S> {
        NodeView {
            node_id: self.node_id,
            xact_state_managers: self.xact_state_managers@,
            xact_id_counter: self.xact_id_counter,
        }
    }
}

/// Where a message goes.
#[derive(Clone, Copy, Debug, PartialEq, Eq, Structural)]
pub struct Route {
    /// The transaction that the message is about.
    pub xact_id: XactId,
    /// Whether the transaction has yet to be made known.
    pub is_new: bool,
}

/// The node after a message came in: a transaction of the local database takes the next counter.
pub open spec fn after_message<S, C>(s: NodeView<S>, msg: XsMessage<C>) -> NodeView<S> {
    match msg {
        XsMessage::LocalXact { .. } => NodeView {
            xact_id_counter: (s.xact_id_counter + 1) as u32,
            ..s
        },
        _ => s,
    }
}

/// The number of the transaction that a message is about.
pub open spec fn xact_of<S, C>(s: NodeView<S>, msg: XsMessage<C>) -> int {
    match msg {
        XsMessage::LocalXact { .. } => (s.xact_id_counter + 1) * crate::id::node_id_space()
            + s.node_id.0,
        XsMessage::Prepare(prepare) => prepare.xact_id as int,
        XsMessage::Vote(vote) => vote.xact_id as int,
    }
}

/// The node after a transaction was made known, if it was not before.
pub open spec fn after_start<S>(s: NodeView<S>, xact_id: u64, tx: S) -> NodeView<S> {
    if s.xact_state_managers.contains_key(xact_id) {
        s
    } else {
        NodeView { xact_state_managers: s.xact_state_managers.insert(xact_id, tx), ..s }
    }
}

impl<S> Manager<S> {
    pub fn new(node_id: NodeId) -> (manager: Self)
        ensures
            manager@ == (NodeView {
                node_id,
                xact_state_managers: Map::<u64, S>::empty(),
                xact_id_counter: 0,
            }),
    {
        Self { node_id, xact_state_managers: HashMap::new(), xact_id_counter: 0 }
    }

    /// Which transaction a message is about, and whether that is new. A message from the local
    /// database starts a transaction with the next number, any other names its own.
    pub fn process_message<C>(&mut self, msg: &XsMessage<C>) -> (route: Route)
        requires
            msg is LocalXact ==> old(self)@.xact_id_counter < u32::MAX,
        ensures
            route.xact_id.0 == xact_of(old(self)@, *msg),
            route.is_new == !old(self)@.xact_state_managers.contains_key(route.xact_id.0),
            final(self)@ == after_message(old(self)@, *msg),
    {
        let xact_id = match msg {
            XsMessage::LocalXact { .. } => {
                self.xact_id_counter = self.xact_id_counter + 1;
                XactId::new(self.xact_id_counter, self.node_id)
            },
            XsMessage::Prepare(prepare) => XactId::from(prepare.xact_id),
            XsMessage::Vote(vote) => XactId::from(vote.xact_id),
        };
        Route { xact_id, is_new: self.get(xact_id).is_none() }
    }

    /// Where the messages on a transaction go, if it is known.
    pub fn get(&self, xact_id: XactId) -> (r: Option<&S>)
        ensures
            match r {
                Some(tx) => self@.xact_state_managers.contains_key(xact_id.0) && *tx
                    == self@.xact_state_managers[xact_id.0],
                None => !self@.xact_state_managers.contains_key(xact_id.0),
            },
    {
        broadcast use vstd::std_specs::hash::group_hash_axioms;

        self.xact_state_managers.get(&xact_id.0)
    }

    /// Makes a transaction known. Where the messages on a known transaction go never changes.
    pub fn start(&mut self, xact_id: XactId, tx: S)
        ensures
            final(self)@ == after_start(old(self)@, xact_id.0, tx),
    {
        broadcast use vstd::std_specs::hash::group_hash_axioms;

        if !self.xact_state_managers.contains_key(&xact_id.0) {
            self.xact_state_managers.insert(xact_id.0, tx);
        }
    }
}

} // verus!
