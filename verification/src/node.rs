//! The connections of a node to the others.
use crate::id::NodeId;
use crate::text;
use vstd::prelude::*;

verus! {

/// The connections to all nodes, by the numbers of the nodes. `P` is the connections to one node.
#[derive(Debug, PartialEq)]
pub struct Nodes<P> {
    pub conn_pools: Vec<P>,
}

/// There is no node with the given id.
#[derive(Clone, Copy, Debug, PartialEq, Eq, Structural)]
pub struct OutOfRange {
    pub id: NodeId,
    /// How many nodes there are.
    pub size: usize,
}

impl OutOfRange {
    /// What went wrong, in words.
    pub open spec fn text(self) -> Seq<char> {
        "Node id "@ + self.id.text() + " is out of range (1 - "@ + text::decimal(self.size as nat)
            + ")"@
    }

    /// What went wrong, in words.
    pub fn to_string(&self) -> (s: String)
        ensures
            s@ == self.text(),
    {
        let mut out = "Node id ".to_owned();
        out.append(self.id.to_string().as_str());
        out.append(" is out of range (1 - ");
        text::push_decimal(&mut out, self.size as u64);
        out.append(")");
        out
    }
}

impl<P> Nodes<P> {
    /// The connections to a node.
    pub fn get(&self, id: NodeId) -> (r: Result<&P, OutOfRange>)
        ensures
            match r {
                Ok(pool) => id.0 < self.conn_pools@.len() && *pool == self.conn_pools@[id.0 as int],
                Err(e) => {
                    &&& id.0 >= self.conn_pools@.len()
                    &&& e.id == id
                    &&& e.size == self.conn_pools@.len()
                },
            },
    {
        let index: usize = usize::from(id);
        if index < self.conn_pools.len() {
            Ok(&self.conn_pools[index])
        } else {
            Err(OutOfRange { id, size: self.conn_pools.len() })
        }
    }

    /// How many nodes there are.
    pub fn size(&self) -> (n: usize)
        ensures
            n == self.conn_pools@.len(),
    {
        self.conn_pools.len()
    }
}

} // verus!
