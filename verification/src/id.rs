//! Identifiers of nodes and of transactions.
use crate::printing;
use crate::text;
use std::str::FromStr;
use vstd::prelude::*;

verus! {

/// Number of distinct node ids.
pub open spec fn node_id_space() -> nat {
    0x1_0000_0000
}

/// Identifies a transaction: the counter of the node that started it above the id of that node.
#[derive(Clone, Copy, PartialEq, Eq, Hash, PartialOrd, Ord, Default, Structural)]
pub struct XactId(pub u64);

/// Identifies a node.
#[derive(Clone, Copy, PartialEq, Eq, Hash, Debug, Default, Structural)]
pub struct NodeId(pub u32);

/// A text that is not a node id.
#[derive(Clone, Copy, PartialEq, Eq, Debug, Structural)]
pub struct NodeIdParseError;

impl NodeId {
    /// Number of bits in a node id.
    pub const BIT_LENGTH: usize = 32;

    /// The text of the id.
    pub open spec fn text(self) -> Seq<char> {
        text::decimal(self.0 as nat)
    }

    /// The text of the id: its decimal digits.
    pub fn to_string(&self) -> (s: String)
        ensures
            s@ == self.text(),
    {
        let mut out = String::new();
        text::push_decimal(&mut out, self.0 as u64);
        out
    }

    /// Reads a node id from its text: an optional `+`, then decimal digits.
    pub fn parse(s: &str) -> (r: Result<NodeId, NodeIdParseError>)
        ensures
            r == (match text::parsed_u32(s@) {
                Some(id) => Ok::<NodeId, NodeIdParseError>(NodeId(id)),
                None => Err(NodeIdParseError),
            }),
    {
        match text::parse_u32(s) {
            Some(id) => Ok(NodeId(id)),
            None => Err(NodeIdParseError),
        }
    }
}

impl FromStr for NodeId {
    type Err = NodeIdParseError;

    fn from_str(s: &str) -> (r: Result<Self, Self::Err>)
        ensures
            r == (match text::parsed_u32(s@) {
                Some(id) => Ok::<NodeId, NodeIdParseError>(NodeId(id)),
                None => Err(NodeIdParseError),
            }),
    {
        NodeId::parse(s)
    }
}

impl core::fmt::Debug for XactId {
    /// Prints the text of the id for diagnostics: `XactId(counter, NodeId(node))`.
    fn fmt(&self, f: &mut core::fmt::Formatter<'_>) -> (r: core::fmt::Result)
        ensures
            r is Ok ==> printing::given(*final(f)) == printing::given(*old(f)) + self.debug_text(),
    {
        printing::write_str(f, self.debug_string().as_str())
    }
}

impl XactId {
    /// The counter part of the id.
    pub open spec fn spec_counter(self) -> nat {
        self.0 as nat / node_id_space()
    }

    /// The node part of the id.
    pub open spec fn spec_node(self) -> nat {
        self.0 as nat % node_id_space()
    }

    /// The text of the id, by which prepared transactions are named.
    pub open spec fn text(self) -> Seq<char> {
        "("@ + text::decimal(self.spec_counter()) + ","@ + text::decimal(self.spec_node()) + ")"@
    }

    /// The text of the id for diagnostics.
    pub open spec fn debug_text(self) -> Seq<char> {
        "XactId("@ + text::decimal(self.spec_counter()) + ", NodeId("@ + text::decimal(
            self.spec_node(),
        ) + "))"@
    }

    /// The id that no node hands out.
    pub fn invalid() -> (id: Self)
        ensures
            id.0 == 0,
    {
        XactId(0)
    }

    /// The id of the transaction with the given counter value on the given node.
    pub fn new(counter: u32, node_id: NodeId) -> (id: Self)
        ensures
            id.0 == counter * node_id_space() + node_id.0,
    {
        let c: u64 = counter as u64;
        let n: u64 = node_id.0 as u64;
        assert((c << 32) | n == c * 0x1_0000_0000 + n) by (bit_vector)
            requires
                c <= 0xffff_ffff,
                n <= 0xffff_ffff,
        ;
        Self((counter as u64) << NodeId::BIT_LENGTH | node_id.0 as u64)
    }

    /// The counter value that the id was made from.
    pub fn counter(self) -> (c: u32)
        ensures
            c == self.spec_counter(),
    {
        let v: u64 = self.0;
        assert(v >> 32 == v / 0x1_0000_0000 && v / 0x1_0000_0000 <= 0xffff_ffff) by (bit_vector);
        (self.0 >> NodeId::BIT_LENGTH) as u32
    }

    /// The node that the id was made for.
    pub fn node_id(self) -> (n: NodeId)
        ensures
            n.0 == self.spec_node(),
    {
        let v: u64 = self.0;
        assert(v & (((1u64 << 32) - 1) as u64) == v % 0x1_0000_0000) by (bit_vector);
        assert(1u64 << 32 == 0x1_0000_0000) by (bit_vector);
        NodeId((self.0 & ((1 << NodeId::BIT_LENGTH) - 1)) as u32)
    }

    /// The text of the id: `(counter,node)`.
    pub fn to_string(&self) -> (s: String)
        ensures
            s@ == self.text(),
    {
        let mut out = "(".to_owned();
        text::push_decimal(&mut out, self.counter() as u64);
        out.append(",");
        text::push_decimal(&mut out, self.node_id().0 as u64);
        out.append(")");
        out
    }

    /// The text of the id for diagnostics: `XactId(counter, NodeId(node))`.
    pub fn debug_string(&self) -> (s: String)
        ensures
            s@ == self.debug_text(),
    {
        let mut out = "XactId(".to_owned();
        text::push_decimal(&mut out, self.counter() as u64);
        out.append(", NodeId(");
        text::push_decimal(&mut out, self.node_id().0 as u64);
        out.append("))");
        out
    }
}

impl From<XactId> for u64 {
    fn from(xact_id: XactId) -> (r: Self) {
        xact_id.0
    }
}

impl vstd::std_specs::convert::FromSpecImpl<XactId> for u64 {
    open spec fn obeys_from_spec() -> bool {
        true
    }

    open spec fn from_spec(xact_id: XactId) -> Self {
        xact_id.0
    }
}

impl From<u64> for XactId {
    fn from(xact_id: u64) -> (r: Self) {
        Self(xact_id)
    }
}

impl vstd::std_specs::convert::FromSpecImpl<u64> for XactId {
    open spec fn obeys_from_spec() -> bool {
        true
    }

    open spec fn from_spec(xact_id: u64) -> Self {
        XactId(xact_id)
    }
}

impl From<NodeId> for u32 {
    fn from(node_id: NodeId) -> (r: Self) {
        node_id.0
    }
}

impl vstd::std_specs::convert::FromSpecImpl<NodeId> for u32 {
    open spec fn obeys_from_spec() -> bool {
        true
    }

    open spec fn from_spec(node_id: NodeId) -> Self {
        node_id.0
    }
}

impl From<NodeId> for usize {
    fn from(node_id: NodeId) -> (r: Self) {
        node_id.0 as usize
    }
}

impl vstd::std_specs::convert::FromSpecImpl<NodeId> for usize {
    open spec fn obeys_from_spec() -> bool {
        true
    }

    open spec fn from_spec(node_id: NodeId) -> Self {
        node_id.0 as usize
    }
}

impl From<u32> for NodeId {
    fn from(node_id: u32) -> (r: Self) {
        Self(node_id)
    }
}

impl vstd::std_specs::convert::FromSpecImpl<u32> for NodeId {
    open spec fn obeys_from_spec() -> bool {
        true
    }

    open spec fn from_spec(node_id: u32) -> Self {
        NodeId(node_id)
    }
}

impl From<usize> for NodeId {
    /// Keeps the low bits where the number does not fit.
    fn from(node_id: usize) -> (r: Self) {
        Self(
            #[verifier::truncate]
            (node_id as u32),
        )
    }
}

impl vstd::std_specs::convert::FromSpecImpl<usize> for NodeId {
    open spec fn obeys_from_spec() -> bool {
        true
    }

    open spec fn from_spec(node_id: usize) -> Self {
        NodeId(node_id as u32)
    }
}

/// An id gives back the counter and the node that it was made from.
pub proof fn law_id_parts(id: XactId, counter: u32, node_id: NodeId)
    requires
        id.0 == counter * node_id_space() + node_id.0,
    ensures
        id.spec_counter() == counter,
        id.spec_node() == node_id.0,
{
}

/// An id is made again from its own counter and node, and both fit in 32 bits.
pub proof fn law_id_from_parts(id: XactId)
    ensures
        id.spec_counter() <= u32::MAX,
        id.spec_node() <= u32::MAX,
        id.0 == id.spec_counter() * node_id_space() + id.spec_node(),
{
}

/// Ids made from different counters or for different nodes are different.
pub proof fn law_ids_distinct(a: XactId, b: XactId, ca: u32, cb: u32, na: NodeId, nb: NodeId)
    requires
        a.0 == ca * node_id_space() + na.0,
        b.0 == cb * node_id_space() + nb.0,
        ca != cb || na != nb,
    ensures
        a != b,
{
}

/// Ids are ordered by their counter, and by their node where the counters are equal.
pub proof fn law_id_order(a: XactId, b: XactId)
    ensures
        a.0 < b.0 <==> a.spec_counter() < b.spec_counter() || (a.spec_counter()
            == b.spec_counter() && a.spec_node() < b.spec_node()),
{
}

/// A node id is read back from its text.
pub proof fn law_node_id_text(node_id: NodeId)
    ensures
        text::parsed_u32(node_id.text()) == Some(node_id.0),
{
    text::law_decimal(node_id.0 as nat);
    assert(text::is_digit(node_id.text()[0]));
}

/// Different transactions have different texts, so that no two of them are prepared under the
/// same name.
pub proof fn law_xact_id_text(a: XactId, b: XactId)
    requires
        a.text() == b.text(),
    ensures
        a == b,
{
    lemma_counter_text(a, b);
    lemma_counter_text(b, a);
    reveal_strlit("(");
    reveal_strlit(",");
    reveal_strlit(")");
    let ca = text::decimal(a.spec_counter());
    let cb = text::decimal(b.spec_counter());
    let na = text::decimal(a.spec_node());
    let nb = text::decimal(b.spec_node());
    assert(ca == a.text().subrange(1, 1 + ca.len() as int));
    assert(cb == b.text().subrange(1, 1 + cb.len() as int));
    assert(na == a.text().subrange(2 + ca.len() as int, a.text().len() - 1));
    assert(nb == b.text().subrange(2 + cb.len() as int, b.text().len() - 1));
    text::law_decimal_distinct(a.spec_counter(), b.spec_counter());
    text::law_decimal_distinct(a.spec_node(), b.spec_node());
}

/// The digits of the counter end at the comma.
proof fn lemma_counter_text(a: XactId, b: XactId)
    requires
        a.text() == b.text(),
    ensures
        text::decimal(a.spec_counter()).len() >= text::decimal(b.spec_counter()).len(),
{
    reveal_strlit("(");
    reveal_strlit(",");
    reveal_strlit(")");
    text::law_decimal(a.spec_counter());
    text::law_decimal(b.spec_counter());
    let ca = text::decimal(a.spec_counter());
    let cb = text::decimal(b.spec_counter());
    if ca.len() < cb.len() {
        let i = 1 + ca.len() as int;
        assert(a.text()[i] == ',');
        assert(b.text()[i] == cb[ca.len() as int]);
        assert(text::is_digit(cb[ca.len() as int]));
    }
}

} // verus!
