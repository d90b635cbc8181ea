//! What the bytes of a read/write set stand for, byte by byte.
use crate::buf;
use crate::decoder::{
    self, DecodeError, HeaderField, RWSet, RWSetHeader, RelationError, RelationField,
    RelationView, Short, TupleField,
};
use crate::node_set;
use crate::tuple;
use bytes::Bytes;
use vstd::arithmetic::power2::pow2;
use vstd::prelude::*;

verus! {

/// The number of two bytes from `i` on, most significant first.
pub open spec fn two(s: Seq<u8>, i: int) -> int {
    s[i] * 0x100 + s[i + 1]
}

/// The number of four bytes from `i` on, most significant first.
pub open spec fn four(s: Seq<u8>, i: int) -> int {
    s[i] * 0x100_0000 + s[i + 1] * 0x1_0000 + s[i + 2] * 0x100 + s[i + 3]
}

/// The number of eight bytes from `i` on, most significant first.
pub open spec fn eight(s: Seq<u8>, i: int) -> int {
    s[i] * 0x100_0000_0000_0000 + s[i + 1] * 0x1_0000_0000_0000 + s[i + 2] * 0x100_0000_0000 + s[i
        + 3] * 0x1_0000_0000 + s[i + 4] * 0x100_0000 + s[i + 5] * 0x1_0000 + s[i + 6] * 0x100 + s[i
        + 7]
}

pub(crate) proof fn lemma_two(s: Seq<u8>, i: int)
    requires
        0 <= i,
        i + 2 <= s.len(),
    ensures
        buf::be_value(s.subrange(i, i + 2)) == two(s, i),
{
    reveal_with_fuel(buf::be_value, 3);
    let t = s.subrange(i, i + 2);
    assert(t.drop_last().drop_last().len() == 0);
    assert(t.drop_last().last() == s[i]);
    assert(t.last() == s[i + 1]);
}

pub(crate) proof fn lemma_four(s: Seq<u8>, i: int)
    requires
        0 <= i,
        i + 4 <= s.len(),
    ensures
        buf::be_value(s.subrange(i, i + 4)) == four(s, i),
        0 <= four(s, i) <= u32::MAX,
{
    lemma_two(s, i);
    let t = s.subrange(i, i + 4);
    assert(t.drop_last().drop_last() == s.subrange(i, i + 2));
    assert(t.drop_last().last() == s[i + 2]);
    assert(t.last() == s[i + 3]);
    assert(buf::be_value(t) == buf::be_value(t.drop_last()) * 256 + t.last());
    assert(buf::be_value(t.drop_last()) == buf::be_value(t.drop_last().drop_last()) * 256
        + t.drop_last().last());
}

pub(crate) proof fn lemma_eight(s: Seq<u8>, i: int)
    requires
        0 <= i,
        i + 8 <= s.len(),
    ensures
        buf::be_value(s.subrange(i, i + 8)) == eight(s, i),
        0 <= eight(s, i) <= u64::MAX,
{
    lemma_four(s, i);
    let t8 = s.subrange(i, i + 8);
    let t7 = t8.drop_last();
    let t6 = t7.drop_last();
    let t5 = t6.drop_last();
    assert(t5.drop_last() == s.subrange(i, i + 4));
    assert(t5.last() == s[i + 4] && t6.last() == s[i + 5]);
    assert(t7.last() == s[i + 6] && t8.last() == s[i + 7]);
    assert(buf::be_value(t5) == buf::be_value(t5.drop_last()) * 256 + t5.last());
    assert(buf::be_value(t6) == buf::be_value(t5) * 256 + t6.last());
    assert(buf::be_value(t7) == buf::be_value(t6) * 256 + t7.last());
    assert(buf::be_value(t8) == buf::be_value(t7) * 256 + t8.last());
}

/// A bit of a number is the parity of what is left of it after so many halvings.
proof fn lemma_bit(n: u64, i: usize)
    requires
        i < 64,
    ensures
        (n >> i) & 1 == 1 <==> (n as nat / pow2(i as nat)) % 2 == 1,
{
    vstd::bits::lemma_u64_shr_is_div(n, i as u64);
    let shifted: u64 = n >> (i as u64);
    assert(shifted & 1 == shifted % 2) by (bit_vector);
    assert(n >> i == shifted);
}

/// The header is the first twelve bytes: the database in four, and in the next eight a number whose
/// bits say which nodes take part, the least significant bit for the first node.
pub proof fn law_header(before: Bytes, after: Bytes, r: Result<RWSetHeader, DecodeError>)
    requires
        exists|buf: &mut Bytes| #[trigger]
            call_ensures(RWSetHeader::decode, (buf,), r) && *buf == before && *final(buf) == after,
    ensures
        ({
            let s = buf::unread(before);
            &&& r is Ok <==> s.len() >= 12
            &&& r matches Ok(header) ==> {
                &&& header.dbid == four(s, 0)
                &&& forall|i: usize|
                    #[trigger] node_set::members(header.participants).contains(i) <==> i < 64 && (
                    eight(s, 4)
                        / pow2(i as nat) as int) % 2 == 1
                &&& buf::unread(after) == s.skip(12)
            }
            &&& s.len() < 4 ==> buf::unread(after) == s && r == Err::<RWSetHeader, DecodeError>(
                DecodeError::Header(
                    HeaderField::Dbid,
                    Short { required: 4, remaining: s.len() as usize },
                ),
            )
            &&& 4 <= s.len() < 12 ==> buf::unread(after) == s.skip(4) && r == Err::<
                RWSetHeader,
                DecodeError,
            >(
                DecodeError::Header(
                    HeaderField::RegionSet,
                    Short { required: 8, remaining: (s.len() - 4) as usize },
                ),
            )
        }),
{
    let s = buf::unread(before);
    if s.len() >= 12 {
        lemma_header(s);
        if let Ok(header) = r {
            assert(header@.participants == decoder::header_at(s)->Ok_0.participants);
        }
    } else if s.len() < 4 {
        assert(s.skip(0) == s);
    }
}

proof fn lemma_header(s: Seq<u8>)
    requires
        s.len() >= 12,
    ensures
        decoder::header_at(s) matches Ok(header) && header.dbid == four(s, 0) && forall|i: usize|
            #[trigger] header.participants.contains(i) <==> i < 64 && (eight(s, 4) / pow2(
                i as nat,
            ) as int)
                % 2 == 1,
{
    lemma_four(s, 0);
    lemma_eight(s, 4);
    let n: u64 = decoder::number_at(s, 4, 8) as u64;
    assert(n == eight(s, 4));
    assert forall|i: usize|
        decoder::regions(n).contains(i) <==> i < 64 && (eight(s, 4) / pow2(i as nat) as int) % 2
            == 1 by {
        if i < 64 {
            lemma_bit(n, i);
        }
    }
}

/// A read/write set is its header, the length of its relations in four bytes, their number in four
/// more, and the relations, which are left for later. It is decoded if and only if it is not cut
/// short, and otherwise the first thing that is cut short is named.
pub proof fn law_decode(data: Bytes, r: Result<RWSet, DecodeError>)
    requires
        call_ensures(RWSet::decode, (data,), r),
    ensures
        ({
            let s = buf::unread(data);
            &&& r is Ok <==> s.len() >= 20 && s.len() - 16 >= four(s, 12)
            &&& r matches Ok(x) ==> {
                &&& x.header.dbid == four(s, 0)
                &&& forall|i: usize|
                    #[trigger] node_set::members(x.header.participants).contains(i) <==> i < 64 && (
                    eight(
                        s,
                        4,
                    ) / pow2(i as nat) as int) % 2 == 1
                &&& x.relations_len == four(s, 12)
                &&& x.n_relations == four(s, 16)
                &&& x.relations is None
                &&& buf::unread(x.remainder) == s.skip(20)
                &&& !x.decoded_all
            }
            &&& s.len() < 4 ==> r == Err::<RWSet, DecodeError>(
                DecodeError::Header(
                    HeaderField::Dbid,
                    Short { required: 4, remaining: s.len() as usize },
                ),
            )
            &&& 4 <= s.len() < 12 ==> r == Err::<RWSet, DecodeError>(
                DecodeError::Header(
                    HeaderField::RegionSet,
                    Short { required: 8, remaining: (s.len() - 4) as usize },
                ),
            )
            &&& 12 <= s.len() < 16 ==> r == Err::<RWSet, DecodeError>(
                DecodeError::Length(Short { required: 4, remaining: (s.len() - 12) as usize }),
            )
            &&& 16 <= s.len() && s.len() - 16 < four(s, 12) ==> r == Err::<RWSet, DecodeError>(
                DecodeError::SectionTooShort {
                    expected: four(s, 12) as usize,
                    remaining: (s.len() - 16) as usize,
                },
            )
            &&& 16 <= s.len() < 20 && s.len() - 16 >= four(s, 12) ==> r == Err::<
                RWSet,
                DecodeError,
            >(DecodeError::RelationCount(Short { required: 4, remaining: (s.len() - 16) as usize }))
        }),
{
    let s = buf::unread(data);
    lemma_decoded(s);
    if let Ok(x) = r {
        assert(x@.header.participants == decoder::decoded(s)->Ok_0.header.participants);
    }
}

/// What is decoded of the bytes of a read/write set.
pub(crate) proof fn lemma_decoded(s: Seq<u8>)
    ensures
        decoder::decoded(s) is Ok <==> s.len() >= 20 && s.len() - 16 >= four(s, 12),
        decoder::decoded(s) matches Ok(x) ==> {
            &&& x.header.dbid == four(s, 0)
            &&& forall|i: usize|
                #[trigger] x.header.participants.contains(i) <==> i < 64 && (eight(s, 4) / pow2(
                    i as nat,
                ) as int) % 2 == 1
            &&& x.relations_len == four(s, 12)
            &&& x.n_relations == four(s, 16)
        },
        16 <= s.len() ==> decoder::number_at(s, 12, 4) == four(s, 12) && 0 <= four(s, 12)
            <= u32::MAX,
{
    if s.len() >= 12 {
        lemma_header(s);
    }
    if s.len() >= 16 {
        lemma_four(s, 12);
    }
    if s.len() >= 20 {
        lemma_four(s, 16);
    }
}

/// Who takes part in a transaction is what its header says.
pub proof fn law_participants(x: RWSet, set: bit_set::BitSet)
    requires
        call_ensures(RWSet::participants, (&x,), set),
    ensures
        forall|i: usize|
            node_set::members(set).contains(i) <==> node_set::members(
                x.header.participants,
            ).contains(i),
{
}

/// A relation is its type in one byte, its id in four, its region in one, its sequence number in
/// eight, one byte that says whether it was scanned, the number of its items in four, and the
/// items: of six bytes each in a table, and of four in an index. Whatever byte but zero says that
/// a table was scanned.
pub proof fn law_relation(s: Seq<u8>)
    requires
        s.len() >= 19,
    ensures
        s[0] == 0x54 && s.len() >= 19 + 6 * four(s, 15) ==> (decoder::relation_at(s) matches Ok(r)
            && (r.0 matches RelationView::Table {
            oid,
            region,
            csn,
            is_table_scan,
            n_tuples,
            tuples,
        } && oid == four(s, 1) && region == s[5] && csn == eight(s, 6) && (is_table_scan <==> s[14]
            != 0) && n_tuples == four(s, 15) && tuples.len() == four(s, 15) && (forall|i: int|
            0 <= i < tuples.len() ==> (#[trigger] tuples[i]).blocknum == four(s, 19 + 6 * i)
                && tuples[i].offset == two(s, 23 + 6 * i))) && r.1 == s.skip(
            19 + 6 * four(s, 15),
        )),
        s[0] == 0x49 && s.len() >= 19 + 4 * four(s, 15) ==> (decoder::relation_at(s) matches Ok(r)
            && (r.0 matches RelationView::Index { oid, region, csn, n_pages, pages } && oid == four(
            s,
            1,
        ) && region == s[5] && csn == eight(s, 6) && n_pages == four(s, 15) && pages.len() == four(
            s,
            15,
        ) && (forall|i: int|
            0 <= i < pages.len() ==> (#[trigger] pages[i]).blocknum == four(s, 19 + 4 * i))) && r.1
            == s.skip(19 + 4 * four(s, 15))),
{
    let b = s.skip(1);
    let n = four(s, 15);
    lemma_four(b, 0);
    lemma_eight(b, 5);
    lemma_four(b, 14);
    assert(n == four(b, 14));
    let items = b.skip(18);
    assert(items == s.skip(19));
    if s[0] == 0x54 && s.len() >= 19 + 6 * n {
        let tuples = decoder::tuples_at(items, n as nat);
        assert forall|i: int| 0 <= i < n implies (#[trigger] tuples[i]).blocknum == four(
            s,
            19 + 6 * i,
        ) && tuples[i].offset == two(s, 23 + 6 * i) by {
            lemma_four(items, 6 * i);
            lemma_two(items, 6 * i + 4);
        }
        assert(items.skip(6 * n) == s.skip(19 + 6 * n));
    }
    if s[0] == 0x49 && s.len() >= 19 + 4 * n {
        let pages = decoder::pages_at(items, n as nat);
        assert forall|i: int| 0 <= i < n implies (#[trigger] pages[i]).blocknum == four(
            s,
            19 + 4 * i,
        ) by {
            lemma_four(items, 4 * i);
        }
        assert(items.skip(4 * n) == s.skip(19 + 4 * n));
    }
}

/// What cannot be a relation is refused: no bytes, an unknown type, and what ends within a number.
/// The error names the number, and how many bytes of it there are.
pub proof fn law_no_relation(s: Seq<u8>)
    ensures
        ({
            let r = decoder::relation_at(s);
            let index = s[0] == 0x49;
            let known = s.len() > 0 && (s[0] == 0x54 || s[0] == 0x49);
            let field = |field: RelationField, required: usize, remaining: int|
                r == Err::<(RelationView, Seq<u8>), RelationError>(
                    RelationError::Field {
                        is_index: index,
                        field,
                        short: Short { required, remaining: remaining as usize },
                    },
                );
            &&& s.len() == 0 ==> r == Err::<(RelationView, Seq<u8>), RelationError>(
                RelationError::Type(Short { required: 1, remaining: 0 }),
            )
            &&& s.len() > 0 && !known ==> r == Err::<(RelationView, Seq<u8>), RelationError>(
                RelationError::InvalidType(s[0]),
            )
            &&& known && s.len() < 5 ==> field(RelationField::Relid, 4, s.len() - 1)
            &&& known && s.len() == 5 ==> field(RelationField::Region, 1, 0)
            &&& known && 6 <= s.len() < 14 ==> field(RelationField::Csn, 8, s.len() - 6)
            &&& known && s.len() == 14 ==> field(RelationField::IsTableScan, 1, 0)
            &&& known && 15 <= s.len() < 19 ==> field(RelationField::NItems, 4, s.len() - 15)
        }),
{
}

/// Items that are fewer than announced are refused. The error says how many whole ones there are,
/// and how many bytes of the next.
pub proof fn law_items_missing(s: Seq<u8>, whole: usize, over: usize)
    requires
        s.len() >= 19,
    ensures
        s[0] == 0x54 && s.len() == 19 + 6 * whole + over && over < 4 && whole < four(s, 15)
            ==> decoder::relation_at(s) == Err::<(RelationView, Seq<u8>), RelationError>(
            RelationError::Tuple {
                decoded: whole,
                field: TupleField::Blocknum,
                short: Short { required: 4, remaining: over },
            },
        ),
        s[0] == 0x54 && s.len() == 23 + 6 * whole + over && over < 2 && whole < four(s, 15)
            ==> decoder::relation_at(s) == Err::<(RelationView, Seq<u8>), RelationError>(
            RelationError::Tuple {
                decoded: whole,
                field: TupleField::Offset,
                short: Short { required: 2, remaining: over },
            },
        ),
        s[0] == 0x49 && s.len() == 19 + 4 * whole + over && over < 4 && whole < four(s, 15)
            ==> decoder::relation_at(s) == Err::<(RelationView, Seq<u8>), RelationError>(
            RelationError::Page {
                decoded: whole,
                short: Short { required: 4, remaining: over },
            },
        ),
{
    let b = s.skip(1);
    lemma_four(b, 14);
    assert(four(s, 15) == four(b, 14));
    let len = b.skip(18).len();
    assert(len == s.len() - 19);
}

/// Relations that follow each other in the bytes are decoded one after the other.
proof fn lemma_chain(
    starts: Seq<Seq<u8>>,
    relations: Seq<RelationView>,
    k: nat,
    decoded: nat,
)
    requires
        starts.len() == relations.len() + 1,
        k <= relations.len(),
        forall|i: int|
            0 <= i < relations.len() ==> starts[i].len() > 0 && (#[trigger] decoder::relation_at(
                starts[i],
            )) == Ok::<(RelationView, Seq<u8>), RelationError>((relations[i], starts[i + 1])),
    ensures
        match decoder::relations_in(starts.last(), decoded + k) {
            Ok(rest) => decoder::relations_in(starts[relations.len() - k], decoded) == Ok::<
                Seq<RelationView>,
                DecodeError,
            >(relations.skip(relations.len() - k) + rest),
            Err(error) => decoder::relations_in(starts[relations.len() - k], decoded) == Err::<
                Seq<RelationView>,
                DecodeError,
            >(error),
        },
    decreases k,
{
    let n = relations.len();
    if k == 0 {
        assert(starts[n as int] == starts.last());
        assert(relations.skip(n as int).len() == 0);
        if let Ok(rest) = decoder::relations_in(starts.last(), decoded) {
            assert(relations.skip(n as int) + rest == rest);
        }
    } else {
        lemma_chain(starts, relations, (k - 1) as nat, decoded + 1);
        let at = n - k;
        assert(decoder::relation_at(starts[at]) == Ok::<(RelationView, Seq<u8>), RelationError>(
            (relations[at], starts[at + 1]),
        ));
        if let Ok(rest) = decoder::relations_in(starts.last(), decoded + k) {
            assert(seq![relations[at]] + (relations.skip(at + 1) + rest) == relations.skip(at)
                + rest);
        }
    }
}

/// Relations are decoded one after the other, in their order, until their bytes are used up.
/// That succeeds if and only if there are as many as announced.
pub proof fn law_decode_rest(
    before: RWSet,
    after: RWSet,
    r: Result<&RWSet, DecodeError>,
    starts: Seq<Seq<u8>>,
    relations: Seq<RelationView>,
)
    requires
        exists|x: &mut RWSet| #[trigger]
            call_ensures(RWSet::decode_rest, (x,), r) && *x == before && *final(x) == after,
        !before.decoded_all,
        before.relations_len <= buf::unread(before.remainder).len(),
        relations.len() <= u32::MAX,
        starts.len() == relations.len() + 1,
        starts[0] == buf::unread(before.remainder).subrange(0, before.relations_len as int),
        starts.last().len() == 0,
        forall|i: int|
            0 <= i < relations.len() ==> starts[i].len() > 0 && (#[trigger] decoder::relation_at(
                starts[i],
            )) == Ok::<(RelationView, Seq<u8>), RelationError>((relations[i], starts[i + 1])),
    ensures
        r is Ok <==> relations.len() == before.n_relations,
        r is Ok ==> after.decoded_all && (after.relations matches Some(done) && done@.len()
            == relations.len() && forall|i: int|
            0 <= i < relations.len() ==> (#[trigger] done@[i])@ == relations[i]),
        r is Err ==> !after.decoded_all && r == Err::<&RWSet, DecodeError>(
            DecodeError::WrongCount {
                expected: before.n_relations,
                received: relations.len() as usize,
            },
        ),
        buf::unread(after.remainder) == buf::unread(before.remainder).skip(
            before.relations_len as int,
        ),
{
    lemma_chain(starts, relations, relations.len(), 0);
    let s = buf::unread(before.remainder).take(before.relations_len as int);
    assert(s == starts[0]);
    assert(relations.skip(0) + Seq::<RelationView>::empty() == relations);
    if r is Ok {
        assert(after@.relations == Some(relations));
        if let Some(done) = after.relations {
            assert(decoder::relations_view(done@).len() == done@.len());
            assert forall|i: int| 0 <= i < relations.len() implies (#[trigger] done@[i])@
                == relations[i] by {
                assert(decoder::relations_view(done@)[i] == done@[i]@);
            }
        }
    }
}

/// Relations are decoded up to the first that cannot be. The error says how many were, and why
/// the next was not.
pub proof fn law_decode_rest_failed(
    before: RWSet,
    after: RWSet,
    r: Result<&RWSet, DecodeError>,
    starts: Seq<Seq<u8>>,
    relations: Seq<RelationView>,
    error: RelationError,
)
    requires
        exists|x: &mut RWSet| #[trigger]
            call_ensures(RWSet::decode_rest, (x,), r) && *x == before && *final(x) == after,
        !before.decoded_all,
        before.relations_len <= buf::unread(before.remainder).len(),
        starts.len() == relations.len() + 1,
        starts[0] == buf::unread(before.remainder).subrange(0, before.relations_len as int),
        starts.last().len() > 0,
        decoder::relation_at(starts.last()) == Err::<(RelationView, Seq<u8>), RelationError>(error),
        forall|i: int|
            0 <= i < relations.len() ==> starts[i].len() > 0 && (#[trigger] decoder::relation_at(
                starts[i],
            )) == Ok::<(RelationView, Seq<u8>), RelationError>((relations[i], starts[i + 1])),
    ensures
        r == Err::<&RWSet, DecodeError>(
            DecodeError::Relation { decoded: relations.len() as usize, error },
        ),
        !after.decoded_all,
{
    lemma_chain(starts, relations, relations.len(), 0);
    let s = buf::unread(before.remainder).take(before.relations_len as int);
    assert(s == starts[0]);
}

/// Relations that were decoded are not decoded again, and nothing but them and what is left
/// changes.
pub proof fn law_decode_rest_keeps(before: RWSet, after: RWSet, r: Result<&RWSet, DecodeError>)
    requires
        exists|x: &mut RWSet| #[trigger]
            call_ensures(RWSet::decode_rest, (x,), r) && *x == before && *final(x) == after,
    ensures
        before.decoded_all ==> r is Ok && after@ == before@,
        r matches Ok(x) ==> x@ == after@ && after.decoded_all,
        r is Err ==> !after.decoded_all && (before.relations is None <==> after.relations is None),
        after.header.dbid == before.header.dbid,
        node_set::members(after.header.participants) == node_set::members(
            before.header.participants,
        ),
        after.relations_len == before.relations_len,
        after.n_relations == before.n_relations,
{
    assert(after@.header == before@.header);
}

/// The number that two's complement makes of one that is less than `2 * half`.
pub open spec fn balanced(n: int, half: int) -> int {
    if n >= half {
        n - 2 * half
    } else {
        n
    }
}

/// A tuple takes fourteen bytes: three numbers of four and one of two, which may all be negative.
pub proof fn law_get_tuple(before: Bytes, after: Bytes, r: Option<(i32, i32, i32, i16)>)
    requires
        exists|buf: &mut Bytes| #[trigger]
            call_ensures(tuple::get_tuple, (buf,), r) && *buf == before && *final(buf) == after,
    ensures
        r is Some <==> buf::unread(before).len() > 0,
        r matches Some(t) ==> {
            let s = buf::unread(before);
            &&& s.len() >= 14
            &&& t.0 == balanced(four(s, 0), 0x8000_0000)
            &&& t.1 == balanced(four(s, 4), 0x8000_0000)
            &&& t.2 == balanced(four(s, 8), 0x8000_0000)
            &&& t.3 == balanced(two(s, 12), 0x8000)
            &&& buf::unread(after) == s.skip(14)
        },
{
    let s = buf::unread(before);
    if r is Some {
        lemma_four(s, 0);
        lemma_four(s, 4);
        lemma_four(s, 8);
        lemma_two(s, 12);
    }
}

/// Tuples follow each other without a gap. All whole ones are given, and it is said whether
/// anything is left over.
pub proof fn law_get_tuples(data: Bytes, r: (Vec<(i32, i32, i32, i16)>, bool))
    requires
        call_ensures(tuple::get_tuples, (data,), r),
    ensures
        ({
            let s = buf::unread(data);
            &&& 14 * r.0@.len() <= s.len() < 14 * r.0@.len() + 14
            &&& r.1 <==> s.len() == 14 * r.0@.len()
            &&& forall|i: int|
                0 <= i < r.0@.len() ==> {
                    let t = #[trigger] r.0@[i];
                    &&& t.0 == balanced(four(s, 14 * i), 0x8000_0000)
                    &&& t.1 == balanced(four(s, 14 * i + 4), 0x8000_0000)
                    &&& t.2 == balanced(four(s, 14 * i + 8), 0x8000_0000)
                    &&& t.3 == balanced(two(s, 14 * i + 12), 0x8000)
                }
        }),
{
    let s = buf::unread(data);
    assert forall|i: int| 0 <= i < r.0@.len() implies ({
        let t = #[trigger] r.0@[i];
        &&& t.0 == balanced(four(s, 14 * i), 0x8000_0000)
        &&& t.1 == balanced(four(s, 14 * i + 4), 0x8000_0000)
        &&& t.2 == balanced(four(s, 14 * i + 8), 0x8000_0000)
        &&& t.3 == balanced(two(s, 14 * i + 12), 0x8000)
    }) by {
        let at = s.skip(14 * i);
        lemma_four(at, 0);
        lemma_four(at, 4);
        lemma_four(at, 8);
        lemma_two(at, 12);
    }
}

/// A read/write set that nothing was decoded of is empty.
pub proof fn law_default(header: RWSetHeader, x: RWSet)
    requires
        call_ensures(<RWSetHeader as Default>::default, (), header),
        call_ensures(<RWSet as Default>::default, (), x),
    ensures
        header.dbid == 0 && x.header.dbid == 0,
        forall|i: usize| !node_set::members(header.participants).contains(i),
        forall|i: usize| !node_set::members(x.header.participants).contains(i),
        x.relations_len == 0 && x.n_relations == 0 && x.relations is None && !x.decoded_all,
        buf::unread(x.remainder).len() == 0,
{
    assert(header@.participants == Set::<usize>::empty());
    assert(x@.header.participants == Set::<usize>::empty());
}

} // verus!
