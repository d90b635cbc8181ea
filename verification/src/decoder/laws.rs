//! What is written in the format of a read/write set is read back.
use super::{DecodeError, HeaderView, Page, RWSetView, RelationError, RelationView, Tuple};
use crate::buf;
use vstd::prelude::*;

verus! {

/// The last `len` base-256 digits of `n`, most significant first.
pub open spec fn be_bytes(n: nat, len: nat) -> Seq<u8>
    decreases len,
{
    if len == 0 {
        Seq::empty()
    } else {
        be_bytes(n / 256, (len - 1) as nat).push((n % 256) as u8)
    }
}

/// Whether `n` has at most `len` base-256 digits.
pub open spec fn fits(n: nat, len: nat) -> bool
    decreases len,
{
    if len == 0 {
        n == 0
    } else {
        fits(n / 256, (len - 1) as nat)
    }
}

/// The bytes of a list of tuples.
pub open spec fn tuple_bytes(tuples: Seq<Tuple>) -> Seq<u8>
    decreases tuples.len(),
{
    if tuples.len() == 0 {
        Seq::empty()
    } else {
        tuple_bytes(tuples.drop_last()) + be_bytes(tuples.last().blocknum as nat, 4) + be_bytes(
            tuples.last().offset as nat,
            2,
        )
    }
}

/// The bytes of a list of pages.
pub open spec fn page_bytes(pages: Seq<Page>) -> Seq<u8>
    decreases pages.len(),
{
    if pages.len() == 0 {
        Seq::empty()
    } else {
        page_bytes(pages.drop_last()) + be_bytes(pages.last().blocknum as nat, 4)
    }
}

/// The bytes at the front of a relation.
pub open spec fn front_bytes(
    tag: u8,
    oid: u32,
    region: u8,
    csn: u64,
    is_table_scan: bool,
    n: u32,
) -> Seq<u8> {
    seq![tag] + be_bytes(oid as nat, 4) + seq![region] + be_bytes(csn as nat, 8) + seq![
        if is_table_scan {
            1u8
        } else {
            0u8
        },
    ] + be_bytes(n as nat, 4)
}

/// The bytes of a relation.
pub open spec fn relation_bytes(relation: RelationView) -> Seq<u8> {
    match relation {
        RelationView::Table { oid, region, csn, is_table_scan, n_tuples, tuples } => {
            front_bytes(0x54, oid, region, csn, is_table_scan, n_tuples) + tuple_bytes(tuples)
        },
        RelationView::Index { oid, region, csn, n_pages, pages } => {
            front_bytes(0x49, oid, region, csn, false, n_pages) + page_bytes(pages)
        },
    }
}

/// Whether a relation announces as many items as it has.
pub open spec fn counts_its_items(relation: RelationView) -> bool {
    match relation {
        RelationView::Table { n_tuples, tuples, .. } => n_tuples == tuples.len(),
        RelationView::Index { n_pages, pages, .. } => n_pages == pages.len(),
    }
}

/// The bytes of a list of relations.
pub open spec fn relations_bytes(relations: Seq<RelationView>) -> Seq<u8>
    decreases relations.len(),
{
    if relations.len() == 0 {
        Seq::empty()
    } else {
        relation_bytes(relations[0]) + relations_bytes(relations.drop_first())
    }
}

/// The bytes of a read/write set.
pub open spec fn rwset_bytes(
    dbid: u32,
    region_set: u64,
    relations: Seq<RelationView>,
) -> Seq<u8> {
    be_bytes(dbid as nat, 4) + be_bytes(region_set as nat, 8) + be_bytes(
        relations_bytes(relations).len(),
        4,
    ) + be_bytes(relations.len(), 4) + relations_bytes(relations)
}

proof fn lemma_be_bytes(n: nat, len: nat)
    ensures
        be_bytes(n, len).len() == len,
        fits(n, len) ==> buf::be_value(be_bytes(n, len)) == n,
    decreases len,
{
    if len > 0 {
        lemma_be_bytes(n / 256, (len - 1) as nat);
        assert(be_bytes(n, len).drop_last() == be_bytes(n / 256, (len - 1) as nat));
    }
}

proof fn lemma_fits(n: nat)
    ensures
        n <= u16::MAX ==> fits(n, 2),
        n <= u32::MAX ==> fits(n, 4),
        n <= u64::MAX ==> fits(n, 8),
{
    reveal_with_fuel(fits, 9);
}

/// A number that is written in `width` bytes at `start` is read there.
proof fn lemma_number(s: Seq<u8>, start: int, n: nat, width: nat)
    requires
        0 <= start,
        start + width <= s.len(),
        s.subrange(start, start + width) == be_bytes(n, width),
        fits(n, width),
    ensures
        super::number_at(s, start, width as int) == n,
{
    lemma_be_bytes(n, width);
}

proof fn lemma_tuples(tuples: Seq<Tuple>, rest: Seq<u8>)
    ensures
        tuple_bytes(tuples).len() == 6 * tuples.len(),
        super::tuples_at(tuple_bytes(tuples) + rest, tuples.len()) == tuples,
    decreases tuples.len(),
{
    if tuples.len() > 0 {
        let before = tuples.drop_last();
        let last = tuples.last();
        let block = be_bytes(last.blocknum as nat, 4);
        let offset = be_bytes(last.offset as nat, 2);
        let s = tuple_bytes(tuples) + rest;
        let n = before.len() as int;
        lemma_be_bytes(last.blocknum as nat, 4);
        lemma_be_bytes(last.offset as nat, 2);
        lemma_fits(last.blocknum as nat);
        lemma_fits(last.offset as nat);
        lemma_tuples(before, block + offset + rest);
        assert(s == tuple_bytes(before) + (block + offset + rest));
        assert(s.subrange(6 * n, 6 * n + 4) == block);
        assert(s.subrange(6 * n + 4, 6 * n + 6) == offset);
        lemma_number(s, 6 * n, last.blocknum as nat, 4);
        lemma_number(s, 6 * n + 4, last.offset as nat, 2);
        assert forall|i: int| 0 <= i < tuples.len() implies super::tuples_at(s, tuples.len())[i]
            == tuples[i] by {
            if i < n {
                assert(super::tuples_at(s, before.len())[i] == before[i]);
            }
        }
        assert(super::tuples_at(s, tuples.len()) == tuples);
    } else {
        assert(super::tuples_at(tuple_bytes(tuples) + rest, tuples.len()) == tuples);
    }
}

proof fn lemma_pages(pages: Seq<Page>, rest: Seq<u8>)
    ensures
        page_bytes(pages).len() == 4 * pages.len(),
        super::pages_at(page_bytes(pages) + rest, pages.len()) == pages,
    decreases pages.len(),
{
    if pages.len() > 0 {
        let before = pages.drop_last();
        let last = pages.last();
        let block = be_bytes(last.blocknum as nat, 4);
        let s = page_bytes(pages) + rest;
        let n = before.len() as int;
        lemma_be_bytes(last.blocknum as nat, 4);
        lemma_fits(last.blocknum as nat);
        lemma_pages(before, block + rest);
        assert(s == page_bytes(before) + (block + rest));
        assert(s.subrange(4 * n, 4 * n + 4) == block);
        lemma_number(s, 4 * n, last.blocknum as nat, 4);
        assert forall|i: int| 0 <= i < pages.len() implies super::pages_at(s, pages.len())[i]
            == pages[i] by {
            if i < n {
                assert(super::pages_at(s, before.len())[i] == before[i]);
            }
        }
        assert(super::pages_at(s, pages.len()) == pages);
    } else {
        assert(super::pages_at(page_bytes(pages) + rest, pages.len()) == pages);
    }
}

proof fn lemma_front(
    s: Seq<u8>,
    tag: u8,
    oid: u32,
    region: u8,
    csn: u64,
    scan: bool,
    n: u32,
    items: Seq<u8>,
)
    requires
        s == front_bytes(tag, oid, region, csn, scan, n) + items,
    ensures
        front_bytes(tag, oid, region, csn, scan, n).len() == 19,
        s[0] == tag,
        s.skip(1).len() == 18 + items.len(),
        super::number_at(s.skip(1), 0, 4) == oid,
        s.skip(1)[4] == region,
        super::number_at(s.skip(1), 5, 8) == csn,
        s.skip(1)[13] != 0 <==> scan,
        super::number_at(s.skip(1), 14, 4) == n,
        s.skip(1).skip(18) == items,
{
    lemma_be_bytes(oid as nat, 4);
    lemma_be_bytes(csn as nat, 8);
    lemma_be_bytes(n as nat, 4);
    lemma_fits(oid as nat);
    lemma_fits(csn as nat);
    lemma_fits(n as nat);
    let b = s.skip(1);
    assert(b.subrange(0, 4) == be_bytes(oid as nat, 4));
    assert(b.subrange(5, 13) == be_bytes(csn as nat, 8));
    assert(b.subrange(14, 18) == be_bytes(n as nat, 4));
    lemma_number(b, 0, oid as nat, 4);
    lemma_number(b, 5, csn as nat, 8);
    lemma_number(b, 14, n as nat, 4);
    assert(b.skip(18) == items);
}

/// A relation that announces as many items as it has is read back from its bytes, whatever
/// follows them.
pub proof fn law_relation_round_trip(relation: RelationView, rest: Seq<u8>)
    requires
        counts_its_items(relation),
    ensures
        super::relation_at(relation_bytes(relation) + rest) == Ok::<_, RelationError>(
            (relation, rest),
        ),
        relation_bytes(relation).len() >= 19,
{
    let s = relation_bytes(relation) + rest;
    match relation {
        RelationView::Table { oid, region, csn, is_table_scan, n_tuples, tuples } => {
            let items = tuple_bytes(tuples) + rest;
            assert(s == front_bytes(0x54, oid, region, csn, is_table_scan, n_tuples) + items);
            lemma_front(s, 0x54, oid, region, csn, is_table_scan, n_tuples, items);
            lemma_tuples(tuples, rest);
            assert(items.skip(6 * n_tuples as int) == rest);
        },
        RelationView::Index { oid, region, csn, n_pages, pages } => {
            let items = page_bytes(pages) + rest;
            assert(s == front_bytes(0x49, oid, region, csn, false, n_pages) + items);
            lemma_front(s, 0x49, oid, region, csn, false, n_pages, items);
            lemma_pages(pages, rest);
            assert(items.skip(4 * n_pages as int) == rest);
        },
    }
}

/// A list of relations is read back from its bytes.
pub proof fn law_relations_round_trip(relations: Seq<RelationView>, decoded: nat)
    requires
        forall|i: int| 0 <= i < relations.len() ==> counts_its_items(#[trigger] relations[i]),
    ensures
        super::relations_in(relations_bytes(relations), decoded) == Ok::<_, DecodeError>(
            relations,
        ),
        relations_bytes(relations).len() >= 19 * relations.len(),
    decreases relations.len(),
{
    if relations.len() > 0 {
        let rest = relations.drop_first();
        assert forall|i: int| 0 <= i < rest.len() implies counts_its_items(#[trigger] rest[i]) by {
            assert(rest[i] == relations[i + 1]);
        }
        law_relations_round_trip(rest, decoded + 1);
        law_relation_round_trip(relations[0], relations_bytes(rest));
        assert(seq![relations[0]] + rest == relations);
    } else {
        assert(relations == Seq::<RelationView>::empty());
    }
}

/// A read/write set is read back from its bytes, whatever follows them, where the length of its
/// relations fits in the four bytes it is given.
pub proof fn law_rwset_round_trip(
    dbid: u32,
    region_set: u64,
    relations: Seq<RelationView>,
    rest: Seq<u8>,
)
    requires
        forall|i: int| 0 <= i < relations.len() ==> counts_its_items(#[trigger] relations[i]),
        relations_bytes(relations).len() <= u32::MAX,
    ensures
        super::decoded(rwset_bytes(dbid, region_set, relations) + rest) matches Ok(rwset) && {
            &&& rwset.header == (HeaderView { dbid, participants: super::regions(region_set) })
            &&& rwset.relations_len <= rwset.remainder.len()
            &&& super::after_decode_rest(rwset) == (RWSetView {
                relations: Some(relations),
                remainder: rest,
                decoded_all: true,
                ..rwset
            })
        },
{
    let body = relations_bytes(relations);
    let s = rwset_bytes(dbid, region_set, relations) + rest;
    law_relations_round_trip(relations, 0);
    lemma_be_bytes(dbid as nat, 4);
    lemma_be_bytes(region_set as nat, 8);
    lemma_be_bytes(body.len(), 4);
    lemma_be_bytes(relations.len(), 4);
    lemma_fits(dbid as nat);
    lemma_fits(region_set as nat);
    lemma_fits(body.len());
    lemma_fits(relations.len());
    assert(s.subrange(0, 4) == be_bytes(dbid as nat, 4));
    assert(s.subrange(4, 12) == be_bytes(region_set as nat, 8));
    assert(s.subrange(12, 16) == be_bytes(body.len(), 4));
    assert(s.subrange(16, 20) == be_bytes(relations.len(), 4));
    lemma_number(s, 0, dbid as nat, 4);
    lemma_number(s, 4, region_set as nat, 8);
    lemma_number(s, 12, body.len(), 4);
    lemma_number(s, 16, relations.len(), 4);
    assert(s.skip(20).take(body.len() as int) == body);
    assert(s.skip(20).skip(body.len() as int) == rest);
}

} // verus!
