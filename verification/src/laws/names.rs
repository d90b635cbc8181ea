//! Numbers and names: how transactions and nodes are identified and written down.
use crate::id::{NodeId, NodeIdParseError, XactId};
use crate::text;
use crate::xact::state;
use vstd::prelude::*;

verus! {

/// An id holds the counter above the node, 32 bits for each, and gives both back.
pub proof fn law_id(counter: u32, node_id: NodeId, id: XactId, c: u32, n: NodeId)
    requires
        call_ensures(XactId::new, (counter, node_id), id),
        call_ensures(XactId::counter, (id,), c),
        call_ensures(XactId::node_id, (id,), n),
    ensures
        id.0 == counter * 0x1_0000_0000 + node_id.0,
        c == counter,
        n == node_id,
{
}

/// Every number is an id, with the counter and the node that it is made of.
pub proof fn law_id_is_its_parts(id: XactId, c: u32, n: NodeId, again: XactId)
    requires
        call_ensures(XactId::counter, (id,), c),
        call_ensures(XactId::node_id, (id,), n),
        call_ensures(XactId::new, (c, n), again),
    ensures
        c == id.0 / 0x1_0000_0000,
        n.0 == id.0 % 0x1_0000_0000,
        again == id,
{
}

/// No node makes the invalid id but with the counter zero, which is never given out.
pub proof fn law_invalid(invalid: XactId, counter: u32, node_id: NodeId, id: XactId)
    requires
        call_ensures(XactId::invalid, (), invalid),
        call_ensures(XactId::new, (counter, node_id), id),
    ensures
        invalid.0 == 0,
        counter > 0 ==> id != invalid,
{
}

/// The decimal digits of a number: one digit for a number below ten, and otherwise those of a tenth
/// of it and one more. There is no zero in front.
pub proof fn law_digits(n: nat)
    ensures
        text::decimal(0) == "0"@,
        text::decimal(1) == "1"@,
        text::decimal(2) == "2"@,
        text::decimal(3) == "3"@,
        text::decimal(4) == "4"@,
        text::decimal(5) == "5"@,
        text::decimal(6) == "6"@,
        text::decimal(7) == "7"@,
        text::decimal(8) == "8"@,
        text::decimal(9) == "9"@,
        n >= 10 ==> text::decimal(n) == text::decimal(n / 10) + text::decimal(n % 10),
        n > 0 ==> text::decimal(n)[0] != '0',
        forall|i: int|
            0 <= i < text::decimal(n).len() ==> '0' <= #[trigger] text::decimal(n)[i] <= '9',
    decreases n,
{
    reveal_strlit("0");
    reveal_strlit("1");
    reveal_strlit("2");
    reveal_strlit("3");
    reveal_strlit("4");
    reveal_strlit("5");
    reveal_strlit("6");
    reveal_strlit("7");
    reveal_strlit("8");
    reveal_strlit("9");
    text::law_decimal(n);
    if n >= 10 {
        law_digits(n / 10);
        assert(text::decimal(n) == text::decimal(n / 10) + text::decimal(n % 10));
    }
    assert forall|i: int| 0 <= i < text::decimal(n).len() implies '0' <= #[trigger] text::decimal(
        n,
    )[i] <= '9' by {
        assert(text::is_digit(text::decimal(n)[i]));
    }
}

/// A number is appended as its decimal digits, behind what was there.
pub proof fn law_push_decimal(before: String, n: u64, after: String)
    requires
        exists|out: &mut String| #[trigger]
            call_ensures(text::push_decimal, (out, n), ()) && *out == before && *final(out)
                == after,
    ensures
        after@ == before@ + text::decimal(n as nat),
{
}

/// The text of an id is its counter and its node in decimal digits, with a comma between them, in
/// brackets. For diagnostics both are marked for what they are.
pub proof fn law_id_text(id: XactId, name: String, debug: String)
    requires
        call_ensures(XactId::to_string, (&id,), name),
        call_ensures(XactId::debug_string, (&id,), debug),
    ensures
        name@ == "("@ + text::decimal(id.0 as nat / 0x1_0000_0000) + ","@ + text::decimal(
            id.0 as nat % 0x1_0000_0000,
        ) + ")"@,
        debug@ == "XactId("@ + text::decimal(id.0 as nat / 0x1_0000_0000) + ", NodeId("@
            + text::decimal(id.0 as nat % 0x1_0000_0000) + "))"@,
{
}

/// Transactions with the same text are the same.
pub proof fn law_id_texts_differ(a: XactId, b: XactId, name_a: String, name_b: String)
    requires
        call_ensures(XactId::to_string, (&a,), name_a),
        call_ensures(XactId::to_string, (&b,), name_b),
        name_a@ == name_b@,
    ensures
        a == b,
{
    crate::id::law_xact_id_text(a, b);
}

/// A node id is read back from its text, with a plus sign in front or without.
pub proof fn law_node_id_read_back(
    id: NodeId,
    name: String,
    s: &str,
    r: Result<NodeId, NodeIdParseError>,
)
    requires
        call_ensures(NodeId::to_string, (&id,), name),
        s@ == name@ || s@ == "+"@ + name@,
        call_ensures(NodeId::parse, (s,), r),
    ensures
        name@ == text::decimal(id.0 as nat),
        r == Ok::<NodeId, NodeIdParseError>(id),
{
    reveal_strlit("+");
    text::law_decimal(id.0 as nat);
    assert(text::is_digit(text::decimal(id.0 as nat)[0]));
    if s@ == "+"@ + name@ {
        assert(s@.skip(1) == name@);
    }
}

/// A text of one digit is that number, and a digit more multiplies a number by ten and adds to it.
/// What does not fit in 32 bits is refused.
pub proof fn law_node_id_digits(
    s: &str,
    r: Result<NodeId, NodeIdParseError>,
    t: &str,
    longer: Result<NodeId, NodeIdParseError>,
    digit: char,
)
    requires
        call_ensures(NodeId::parse, (s,), r),
        call_ensures(NodeId::parse, (t,), longer),
        t@ == s@.push(digit),
        '0' <= digit <= '9',
    ensures
        s@.len() == 0 ==> longer == Ok::<NodeId, NodeIdParseError>(
            NodeId((digit as u32 - '0' as u32) as u32),
        ),
        r matches Ok(id) ==> {
            let value = id.0 * 10 + (digit as u32 - '0' as u32);
            &&& value <= u32::MAX ==> longer == Ok::<NodeId, NodeIdParseError>(NodeId(value as u32))
            &&& value > u32::MAX ==> longer is Err
        },
{
    let digits = text::unsigned_digits(s@);
    let more = text::unsigned_digits(t@);
    if s@.len() == 0 {
        assert(more == seq![digit]);
        reveal_with_fuel(text::digits_value, 2);
        assert(more.drop_last().len() == 0);
        assert(text::is_digit(more[0]));
    }
    if r is Ok {
        assert(t@[0] == s@[0]);
        assert(more == digits.push(digit));
        assert(more.drop_last() == digits);
        assert forall|i: int| 0 <= i < more.len() implies text::is_digit(#[trigger] more[i]) by {
            if i < digits.len() {
                assert(text::is_digit(digits[i]));
            }
        }
    }
}

/// Nothing is a node id but digits, at least one, behind a plus sign or without it.
pub proof fn law_node_id_refused(s: &str, r: Result<NodeId, NodeIdParseError>)
    requires
        call_ensures(NodeId::parse, (s,), r),
    ensures
        s@.len() == 0 ==> r is Err,
        s@ == "+"@ ==> r is Err,
        (exists|i: int| 0 <= i < s@.len() && !('0' <= #[trigger] s@[i] <= '9') && (i > 0 || s@[i]
            != '+')) ==> r is Err,
{
    reveal_strlit("+");
    if exists|i: int| 0 <= i < s@.len() && !('0' <= #[trigger] s@[i] <= '9') && (i > 0 || s@[i]
        != '+') {
        let i = choose|i: int|
            0 <= i < s@.len() && !('0' <= #[trigger] s@[i] <= '9') && (i > 0 || s@[i] != '+');
        let digits = text::unsigned_digits(s@);
        if s@[0] == '+' {
            assert(digits[i - 1] == s@[i]);
            assert(!text::is_digit(digits[i - 1]));
        } else {
            assert(!text::is_digit(digits[i]));
        }
    }
}

/// A text is its parts with the separator between them. No part holds the separator, and a part may
/// be empty.
pub proof fn law_split(s: &str, separator: char, v: Vec<String>)
    requires
        call_ensures(text::split, (s, separator), v),
    ensures
        v@.len() > 0,
        text::joined(v@.map_values(|part: String| part@), separator) == s@,
        forall|i: int| 0 <= i < v@.len() ==> !(#[trigger] v@[i])@.contains(separator),
{
    text::law_parts(s@, separator);
    let parts = v@.map_values(|part: String| part@);
    assert(parts.len() == v@.len());
    assert forall|i: int| 0 <= i < v@.len() implies !(#[trigger] v@[i])@.contains(separator) by {
        assert(parts[i] == v@[i]@);
    }
}

/// Joining puts a separator between parts and nowhere else.
pub proof fn law_joined(front: Seq<Seq<char>>, part: Seq<char>, separator: char)
    ensures
        text::joined(seq![part], separator) == part,
        front.len() > 0 ==> text::joined(front.push(part), separator) == text::joined(
            front,
            separator,
        ) + seq![separator] + part,
{
    assert(front.push(part).drop_last() == front);
}

/// Texts are equal if and only if all their characters are.
pub proof fn law_equal(a: &str, b: &str, r: bool)
    requires
        call_ensures(text::equal, (a, b), r),
    ensures
        r <==> a@.len() == b@.len() && forall|i: int| 0 <= i < a@.len() ==> a@[i] == b@[i],
{
    if a@.len() == b@.len() && forall|i: int| 0 <= i < a@.len() ==> a@[i] == b@[i] {
        assert(a@ =~= b@);
    }
}

/// Numbers and ids are the same thing under two types, and nothing is lost between them.
pub proof fn law_conversions(
    id: XactId,
    number: u64,
    made: XactId,
    node: NodeId,
    n: u32,
    index: usize,
    from_number: NodeId,
    from_index: NodeId,
)
    requires
        call_ensures(<u64 as From<XactId>>::from, (id,), number),
        call_ensures(<XactId as From<u64>>::from, (number,), made),
        call_ensures(<u32 as From<NodeId>>::from, (node,), n),
        call_ensures(<usize as From<NodeId>>::from, (node,), index),
        call_ensures(<NodeId as From<u32>>::from, (n,), from_number),
        call_ensures(<NodeId as From<usize>>::from, (index,), from_index),
    ensures
        number == id.0,
        made == id,
        n == node.0,
        index == node.0,
        from_number == node,
        from_index == node,
{
}

/// Every node can be kept in a node set but one, where sizes have no more bits than node ids.
pub proof fn law_indexable(node: NodeId, b: bool)
    requires
        call_ensures(state::is_indexable, (node,), b),
    ensures
        b <==> node.0 < usize::MAX,
{
}

} // verus!
