//! The read/write set that a database sends for a transaction.
//!
//! All numbers are big-endian. The header holds the database id (4 bytes) and the regions that
//! take part, one bit each (8 bytes). The length of the relations section (4 bytes) and the number
//! of its relations (4 bytes) follow, then the section itself. A relation is a `T` or an `I`, then
//! its id (4), region (1), commit sequence number (8), whether it was scanned (1) and the number
//! of its items (4), then the items: a block number (4) and an offset (2) for each tuple of a
//! table, a block number (4) for each page of an index.
pub mod laws;

use crate::buf;
use crate::node_set;
use bit_set::BitSet;
use bytes::Bytes;
use vstd::prelude::*;

verus! {

/// The id of a database object.
pub type Oid = u32;

/// A number was cut short.
#[derive(Clone, Copy, Debug, PartialEq, Eq, Structural)]
pub struct Short {
    /// The bytes that the number takes.
    pub required: usize,
    /// The bytes that were left.
    pub remaining: usize,
}

/// The numbers of the header.
#[derive(Clone, Copy, Debug, PartialEq, Eq, Structural)]
pub enum HeaderField {
    Dbid,
    RegionSet,
}

/// The numbers at the front of a relation.
#[derive(Clone, Copy, Debug, PartialEq, Eq, Structural)]
pub enum RelationField {
    Relid,
    Region,
    Csn,
    IsTableScan,
    NItems,
}

/// The numbers of a tuple.
#[derive(Clone, Copy, Debug, PartialEq, Eq, Structural)]
pub enum TupleField {
    Blocknum,
    Offset,
}

/// Why a relation could not be decoded.
#[derive(Clone, Copy, Debug, PartialEq, Eq, Structural)]
pub enum RelationError {
    /// The type is cut short.
    Type(Short),
    /// The type is neither that of a table nor that of an index.
    InvalidType(u8),
    /// A number at the front of a table or an index is cut short.
    Field { is_index: bool, field: RelationField, short: Short },
    /// A page is cut short after so many others.
    Page { decoded: usize, short: Short },
    /// A tuple is cut short after so many others.
    Tuple { decoded: usize, field: TupleField, short: Short },
}

/// Why a read/write set could not be decoded.
#[derive(Clone, Copy, Debug, PartialEq, Eq, Structural)]
pub enum DecodeError {
    /// The header is cut short.
    Header(HeaderField, Short),
    /// The length of the relations section is cut short.
    Length(Short),
    /// The relations section is shorter than announced.
    SectionTooShort { expected: usize, remaining: usize },
    /// The number of relations is cut short.
    RelationCount(Short),
    /// A relation could not be decoded after so many others.
    Relation { decoded: usize, error: RelationError },
    /// There are not as many relations as announced.
    WrongCount { expected: u32, received: usize },
}

/// The number in `n` bytes from `start` on.
pub open spec fn number_at(s: Seq<u8>, start: int, n: int) -> nat {
    buf::be_value(s.subrange(start, start + n))
}

/// The regions whose bit is set, numbered from the least significant bit.
pub open spec fn regions(region_set: u64) -> Set<usize> {
    Set::new(|i: usize| i < 64 && (region_set >> i) & 1 == 1)
}

/// A tuple of a table.
#[derive(Clone, Copy, Debug, PartialEq, Eq, Structural)]
pub struct Tuple {
    pub blocknum: u32,
    pub offset: u16,
}

/// A page of an index.
#[derive(Clone, Copy, Debug, PartialEq, Eq, Structural)]
pub struct Page {
    pub blocknum: u32,
}

/// What a transaction read or wrote of one table or index.
#[derive(Debug, PartialEq)]
pub enum Relation {
    Table {
        oid: u32,
        region: u8,
        csn: u64,
        is_table_scan: bool,
        n_tuples: u32,
        tuples: Vec<Tuple>,
    },
    Index { oid: u32, region: u8, csn: u64, n_pages: u32, pages: Vec<Page> },
}

/// What a [`Relation`] holds.
#[verifier::ext_equal]
pub enum RelationView {
    Table {
        oid: u32,
        region: u8,
        csn: u64,
        is_table_scan: bool,
        n_tuples: u32,
        tuples: Seq<Tuple>,
    },
    Index { oid: u32, region: u8, csn: u64, n_pages: u32, pages: Seq<Page> },
}

impl View for Relation {
    type V = RelationView;

    open spec fn view(&self) -> RelationView {
        match self {
            Relation::Table { oid, region, csn, is_table_scan, n_tuples, tuples } => {
                RelationView::Table {
                    oid: *oid,
                    region: *region,
                    csn: *csn,
                    is_table_scan: *is_table_scan,
                    n_tuples: *n_tuples,
                    tuples: tuples@,
                }
            },
            Relation::Index { oid, region, csn, n_pages, pages } => RelationView::Index {
                oid: *oid,
                region: *region,
                csn: *csn,
                n_pages: *n_pages,
                pages: pages@,
            },
        }
    }
}

/// What a list of relations holds.
pub open spec fn relations_view(relations: Seq<Relation>) -> Seq<RelationView> {
    relations.map_values(|r: Relation| r@)
}

/// The first number at the front of a relation that `len` bytes cut short.
pub open spec fn short_field(len: nat) -> Option<(RelationField, Short)> {
    if len < 4 {
        Some((RelationField::Relid, Short { required: 4, remaining: len as usize }))
    } else if len < 5 {
        Some((RelationField::Region, Short { required: 1, remaining: 0 }))
    } else if len < 13 {
        Some((RelationField::Csn, Short { required: 8, remaining: (len - 5) as usize }))
    } else if len < 14 {
        Some((RelationField::IsTableScan, Short { required: 1, remaining: 0 }))
    } else if len < 18 {
        Some((RelationField::NItems, Short { required: 4, remaining: (len - 14) as usize }))
    } else {
        None
    }
}

/// The first `n` tuples.
pub open spec fn tuples_at(s: Seq<u8>, n: nat) -> Seq<Tuple> {
    Seq::new(
        n,
        |i: int|
            Tuple {
                blocknum: number_at(s, 6 * i, 4) as u32,
                offset: number_at(s, 6 * i + 4, 2) as u16,
            },
    )
}

/// The first `n` pages.
pub open spec fn pages_at(s: Seq<u8>, n: nat) -> Seq<Page> {
    Seq::new(n, |i: int| Page { blocknum: number_at(s, 4 * i, 4) as u32 })
}

/// How a list of tuples ends that `len` bytes cut short.
pub open spec fn short_tuple(len: nat) -> RelationError {
    let decoded = len / 6;
    let left = len % 6;
    if left < 4 {
        RelationError::Tuple {
            decoded: decoded as usize,
            field: TupleField::Blocknum,
            short: Short { required: 4, remaining: left as usize },
        }
    } else {
        RelationError::Tuple {
            decoded: decoded as usize,
            field: TupleField::Offset,
            short: Short { required: 2, remaining: (left - 4) as usize },
        }
    }
}

/// How a list of pages ends that `len` bytes cut short.
pub open spec fn short_page(len: nat) -> RelationError {
    RelationError::Page {
        decoded: (len / 4) as usize,
        short: Short { required: 4, remaining: (len % 4) as usize },
    }
}

/// The table or index at the front of `s`, behind its type, and what follows it.
pub open spec fn relation_body(s: Seq<u8>, is_index: bool) -> Result<
    (RelationView, Seq<u8>),
    RelationError,
> {
    match short_field(s.len()) {
        Some((field, short)) => Err(RelationError::Field { is_index, field, short }),
        None => {
            let oid = number_at(s, 0, 4) as u32;
            let region = s[4];
            let csn = number_at(s, 5, 8) as u64;
            let n = number_at(s, 14, 4);
            let items = s.skip(18);
            if is_index {
                if items.len() < 4 * n {
                    Err(short_page(items.len()))
                } else {
                    Ok(
                        (
                            RelationView::Index {
                                oid,
                                region,
                                csn,
                                n_pages: n as u32,
                                pages: pages_at(items, n),
                            },
                            items.skip(4 * n as int),
                        ),
                    )
                }
            } else if items.len() < 6 * n {
                Err(short_tuple(items.len()))
            } else {
                Ok(
                    (
                        RelationView::Table {
                            oid,
                            region,
                            csn,
                            is_table_scan: s[13] != 0,
                            n_tuples: n as u32,
                            tuples: tuples_at(items, n),
                        },
                        items.skip(6 * n as int),
                    ),
                )
            }
        },
    }
}

/// The relation at the front of `s` and what follows it.
pub open spec fn relation_at(s: Seq<u8>) -> Result<(RelationView, Seq<u8>), RelationError> {
    if s.len() == 0 {
        Err(RelationError::Type(Short { required: 1, remaining: 0 }))
    } else if s[0] == 0x54 {
        relation_body(s.skip(1), false)
    } else if s[0] == 0x49 {
        relation_body(s.skip(1), true)
    } else {
        Err(RelationError::InvalidType(s[0]))
    }
}

/// The number that was cut short, if that is why a relation could not be decoded.
pub open spec fn cut_short(error: RelationError) -> Option<Short> {
    match error {
        RelationError::Type(short) => Some(short),
        RelationError::InvalidType(_) => None,
        RelationError::Field { short, .. } => Some(short),
        RelationError::Page { short, .. } => Some(short),
        RelationError::Tuple { short, .. } => Some(short),
    }
}

/// What is left unread of `s` after the attempt to decode a relation failed: the bytes of the
/// number that was cut short, or all that follows an invalid type.
pub open spec fn left_unread(s: Seq<u8>, error: RelationError) -> Seq<u8> {
    match cut_short(error) {
        Some(short) => s.skip(s.len() - short.remaining),
        None => s.skip(1),
    }
}

/// The relations that fill `s`, after `decoded` others.
pub open spec fn relations_in(s: Seq<u8>, decoded: nat) -> Result<Seq<RelationView>, DecodeError>
    decreases s.len(),
{
    if s.len() == 0 {
        Ok(Seq::empty())
    } else {
        match relation_at(s) {
            Err(error) => Err(DecodeError::Relation { decoded: decoded as usize, error }),
            Ok((relation, rest)) => match relations_in(rest, decoded + 1) {
                Err(error) => Err(error),
                Ok(relations) => Ok(seq![relation] + relations),
            },
        }
    }
}

/// The relations that fill a section in which `n` are announced.
pub open spec fn section(s: Seq<u8>, n: u32) -> Result<Seq<RelationView>, DecodeError> {
    match relations_in(s, 0) {
        Err(error) => Err(error),
        Ok(relations) => if relations.len() as u32 == n {
            Ok(relations)
        } else {
            Err(DecodeError::WrongCount { expected: n, received: relations.len() as usize })
        },
    }
}

fn get_u8(buf: &mut Bytes) -> (r: Result<u8, Short>)
    ensures
        match r {
            Ok(v) => buf::unread(*old(buf)).len() >= 1 && v == buf::unread(*old(buf))[0]
                && buf::unread(*final(buf)) == buf::unread(*old(buf)).skip(1),
            Err(short) => buf::unread(*old(buf)).len() < 1 && short == (Short {
                required: 1,
                remaining: buf::unread(*old(buf)).len() as usize,
            }) && buf::unread(*final(buf)) == buf::unread(*old(buf)),
        },
{
    let remaining: usize = buf::remaining(buf);
    if remaining < 1 {
        return Err(Short { required: 1, remaining });
    }
    Ok(buf::get_u8(buf))
}

fn get_u16(buf: &mut Bytes) -> (r: Result<u16, Short>)
    ensures
        match r {
            Ok(v) => buf::unread(*old(buf)).len() >= 2 && v == number_at(
                buf::unread(*old(buf)),
                0,
                2,
            ) && buf::unread(*final(buf)) == buf::unread(*old(buf)).skip(2),
            Err(short) => buf::unread(*old(buf)).len() < 2 && short == (Short {
                required: 2,
                remaining: buf::unread(*old(buf)).len() as usize,
            }) && buf::unread(*final(buf)) == buf::unread(*old(buf)),
        },
{
    let remaining: usize = buf::remaining(buf);
    if remaining < 2 {
        return Err(Short { required: 2, remaining });
    }
    Ok(buf::get_u16(buf))
}

fn get_u32(buf: &mut Bytes) -> (r: Result<u32, Short>)
    ensures
        match r {
            Ok(v) => buf::unread(*old(buf)).len() >= 4 && v == number_at(
                buf::unread(*old(buf)),
                0,
                4,
            ) && buf::unread(*final(buf)) == buf::unread(*old(buf)).skip(4),
            Err(short) => buf::unread(*old(buf)).len() < 4 && short == (Short {
                required: 4,
                remaining: buf::unread(*old(buf)).len() as usize,
            }) && buf::unread(*final(buf)) == buf::unread(*old(buf)),
        },
{
    let remaining: usize = buf::remaining(buf);
    if remaining < 4 {
        return Err(Short { required: 4, remaining });
    }
    Ok(buf::get_u32(buf))
}

fn get_u64(buf: &mut Bytes) -> (r: Result<u64, Short>)
    ensures
        match r {
            Ok(v) => buf::unread(*old(buf)).len() >= 8 && v == number_at(
                buf::unread(*old(buf)),
                0,
                8,
            ) && buf::unread(*final(buf)) == buf::unread(*old(buf)).skip(8),
            Err(short) => buf::unread(*old(buf)).len() < 8 && short == (Short {
                required: 8,
                remaining: buf::unread(*old(buf)).len() as usize,
            }) && buf::unread(*final(buf)) == buf::unread(*old(buf)),
        },
{
    let remaining: usize = buf::remaining(buf);
    if remaining < 8 {
        return Err(Short { required: 8, remaining });
    }
    Ok(buf::get_u64(buf))
}

impl Relation {
    fn decode(buf: &mut Bytes) -> (r: Result<Relation, RelationError>)
        ensures
            match relation_at(buf::unread(*old(buf))) {
                Ok((relation, rest)) => r matches Ok(v) && v@ == relation && buf::unread(
                    *final(buf),
                ) == rest,
                Err(error) => r == Err::<Relation, RelationError>(error) && buf::unread(*final(buf))
                    == left_unread(buf::unread(*old(buf)), error),
            },
    {
        match get_u8(buf) {
            Err(short) => Err(RelationError::Type(short)),
            Ok(0x54) => Relation::decode_relation(buf, false),
            Ok(0x49) => Relation::decode_relation(buf, true),
            Ok(other) => Err(RelationError::InvalidType(other)),
        }
    }

    fn decode_relation(buf: &mut Bytes, is_index: bool) -> (r: Result<Relation, RelationError>)
        ensures
            match relation_body(buf::unread(*old(buf)), is_index) {
                Ok((relation, rest)) => r matches Ok(v) && v@ == relation && buf::unread(
                    *final(buf),
                ) == rest,
                Err(error) => r == Err::<Relation, RelationError>(error) && buf::unread(*final(buf))
                    == left_unread(buf::unread(*old(buf)), error),
            },
    {
        let ghost s = buf::unread(*buf);
        let relid: u32 = match get_u32(buf) {
            Ok(v) => v,
            Err(short) => {
                return Err(RelationError::Field { is_index, field: RelationField::Relid, short });
            },
        };
        let region: u8 = match get_u8(buf) {
            Ok(v) => v,
            Err(short) => {
                return Err(RelationError::Field { is_index, field: RelationField::Region, short });
            },
        };
        let csn: u64 = match get_u64(buf) {
            Ok(v) => v,
            Err(short) => {
                return Err(RelationError::Field { is_index, field: RelationField::Csn, short });
            },
        };
        let is_table_scan: u8 = match get_u8(buf) {
            Ok(v) => v,
            Err(short) => {
                return Err(
                    RelationError::Field { is_index, field: RelationField::IsTableScan, short },
                );
            },
        };
        let nitems: u32 = match get_u32(buf) {
            Ok(v) => v,
            Err(short) => {
                return Err(RelationError::Field { is_index, field: RelationField::NItems, short });
            },
        };
        proof {
            assert(s.skip(4).skip(1) == s.skip(5));
            assert(s.skip(5).skip(8) == s.skip(13));
            assert(s.skip(13).skip(1) == s.skip(14));
            assert(s.skip(14).skip(4) == s.skip(18));
            assert(s.skip(5).subrange(0, 8) == s.subrange(5, 13));
            assert(s.skip(14).subrange(0, 4) == s.subrange(14, 18));
        }
        if is_index {
            match Relation::decode_pages(buf, nitems) {
                Ok(pages) => Ok(
                    Relation::Index { oid: relid, region, csn, n_pages: nitems, pages },
                ),
                Err(error) => Err(error),
            }
        } else {
            match Relation::decode_tuples(buf, nitems) {
                Ok(tuples) => Ok(
                    Relation::Table {
                        oid: relid,
                        region,
                        csn,
                        is_table_scan: is_table_scan != 0,
                        n_tuples: nitems,
                        tuples,
                    },
                ),
                Err(error) => Err(error),
            }
        }
    }

    fn decode_pages(buf: &mut Bytes, n: u32) -> (r: Result<Vec<Page>, RelationError>)
        ensures
            match r {
                Ok(pages) => buf::unread(*old(buf)).len() >= 4 * n && pages@ == pages_at(
                    buf::unread(*old(buf)),
                    n as nat,
                ) && buf::unread(*final(buf)) == buf::unread(*old(buf)).skip(4 * n as int),
                Err(error) => buf::unread(*old(buf)).len() < 4 * n && error == short_page(
                    buf::unread(*old(buf)).len(),
                ) && buf::unread(*final(buf)) == left_unread(buf::unread(*old(buf)), error),
            },
    {
        let ghost s = buf::unread(*buf);
        let mut pages: Vec<Page> = Vec::new();
        let mut i: u32 = 0;
        proof {
            assert(s.skip(0) == s);
        }
        while i < n
            invariant
                i <= n,
                pages@.len() == i,
                s == buf::unread(*old(buf)),
                4 * i <= s.len(),
                buf::unread(*buf) == s.skip(4 * i as int),
                pages@ == pages_at(s, i as nat),
            decreases n - i,
        {
            match Relation::decode_page(buf) {
                Ok(page) => {
                    proof {
                        assert(s.skip(4 * i as int).subrange(0, 4) == s.subrange(
                            4 * i as int,
                            4 * i + 4,
                        ));
                        assert(s.skip(4 * i as int).skip(4) == s.skip(4 * (i + 1)));
                    }
                    pages.push(page);
                },
                Err(short) => {
                    return Err(RelationError::Page { decoded: pages.len(), short });
                },
            }
            i = i + 1;
        }
        Ok(pages)
    }

    fn decode_tuples(buf: &mut Bytes, n: u32) -> (r: Result<Vec<Tuple>, RelationError>)
        ensures
            match r {
                Ok(tuples) => buf::unread(*old(buf)).len() >= 6 * n && tuples@ == tuples_at(
                    buf::unread(*old(buf)),
                    n as nat,
                ) && buf::unread(*final(buf)) == buf::unread(*old(buf)).skip(6 * n as int),
                Err(error) => buf::unread(*old(buf)).len() < 6 * n && error == short_tuple(
                    buf::unread(*old(buf)).len(),
                ) && buf::unread(*final(buf)) == left_unread(buf::unread(*old(buf)), error),
            },
    {
        let ghost s = buf::unread(*buf);
        let mut tuples: Vec<Tuple> = Vec::new();
        let mut i: u32 = 0;
        proof {
            assert(s.skip(0) == s);
        }
        while i < n
            invariant
                i <= n,
                tuples@.len() == i,
                s == buf::unread(*old(buf)),
                6 * i <= s.len(),
                buf::unread(*buf) == s.skip(6 * i as int),
                tuples@ == tuples_at(s, i as nat),
            decreases n - i,
        {
            match Relation::decode_tuple(buf) {
                Ok(tuple) => {
                    proof {
                        assert(s.skip(6 * i as int).subrange(0, 4) == s.subrange(
                            6 * i as int,
                            6 * i + 4,
                        ));
                        assert(s.skip(6 * i as int).subrange(4, 6) == s.subrange(
                            6 * i + 4,
                            6 * i + 6,
                        ));
                        assert(s.skip(6 * i as int).skip(6) == s.skip(6 * (i + 1)));
                    }
                    tuples.push(tuple);
                },
                Err((field, short)) => {
                    return Err(RelationError::Tuple { decoded: tuples.len(), field, short });
                },
            }
            i = i + 1;
        }
        Ok(tuples)
    }

    fn decode_tuple(buf: &mut Bytes) -> (r: Result<Tuple, (TupleField, Short)>)
        ensures
            match r {
                Ok(tuple) => buf::unread(*old(buf)).len() >= 6 && tuple.blocknum == number_at(
                    buf::unread(*old(buf)),
                    0,
                    4,
                ) && tuple.offset == number_at(buf::unread(*old(buf)), 4, 2) && buf::unread(
                    *final(buf),
                ) == buf::unread(*old(buf)).skip(6),
                Err((TupleField::Blocknum, short)) => buf::unread(*old(buf)).len() < 4 && short
                    == (Short {
                    required: 4,
                    remaining: buf::unread(*old(buf)).len() as usize,
                }) && buf::unread(*final(buf)) == buf::unread(*old(buf)),
                Err((TupleField::Offset, short)) => 4 <= buf::unread(*old(buf)).len() < 6 && short
                    == (Short {
                    required: 2,
                    remaining: (buf::unread(*old(buf)).len() - 4) as usize,
                }) && buf::unread(*final(buf)) == buf::unread(*old(buf)).skip(4),
            },
    {
        let ghost s = buf::unread(*buf);
        let blocknum: u32 = match get_u32(buf) {
            Ok(v) => v,
            Err(short) => {
                return Err((TupleField::Blocknum, short));
            },
        };
        let offset: u16 = match get_u16(buf) {
            Ok(v) => v,
            Err(short) => {
                return Err((TupleField::Offset, short));
            },
        };
        proof {
            assert(s.skip(4).subrange(0, 2) == s.subrange(4, 6));
            assert(s.skip(4).skip(2) == s.skip(6));
        }
        Ok(Tuple { blocknum, offset })
    }

    fn decode_page(buf: &mut Bytes) -> (r: Result<Page, Short>)
        ensures
            match r {
                Ok(page) => buf::unread(*old(buf)).len() >= 4 && page.blocknum == number_at(
                    buf::unread(*old(buf)),
                    0,
                    4,
                ) && buf::unread(*final(buf)) == buf::unread(*old(buf)).skip(4),
                Err(short) => buf::unread(*old(buf)).len() < 4 && short == (Short {
                    required: 4,
                    remaining: buf::unread(*old(buf)).len() as usize,
                }) && buf::unread(*final(buf)) == buf::unread(*old(buf)),
            },
    {
        let blocknum: u32 = match get_u32(buf) {
            Ok(v) => v,
            Err(short) => {
                return Err(short);
            },
        };
        Ok(Page { blocknum })
    }
}

/// The header of a read/write set.
#[derive(Debug)]
pub struct RWSetHeader {
    pub dbid: Oid,
    pub participants: BitSet,
}

/// What an [`RWSetHeader`] holds.
#[verifier::ext_equal]
pub struct HeaderView {
    pub dbid: Oid,
    pub participants: Set<usize>,
}

impl View for RWSetHeader {
    type V = HeaderView;

    open spec fn view(&self) -> HeaderView {
        HeaderView { dbid: self.dbid, participants: node_set::members(self.participants) }
    }
}

/// The header at the front of `s`.
pub open spec fn header_at(s: Seq<u8>) -> Result<HeaderView, DecodeError> {
    if s.len() < 4 {
        Err(
            DecodeError::Header(
                HeaderField::Dbid,
                Short { required: 4, remaining: s.len() as usize },
            ),
        )
    } else if s.len() < 12 {
        Err(
            DecodeError::Header(
                HeaderField::RegionSet,
                Short { required: 8, remaining: (s.len() - 4) as usize },
            ),
        )
    } else {
        Ok(
            HeaderView {
                dbid: number_at(s, 0, 4) as u32,
                participants: regions(number_at(s, 4, 8) as u64),
            },
        )
    }
}

/// How many bytes are read in the attempt to decode the header at the front of `s`.
pub open spec fn header_read(s: Seq<u8>) -> int {
    if s.len() < 4 {
        0
    } else if s.len() < 12 {
        4
    } else {
        12
    }
}

impl Default for RWSetHeader {
    fn default() -> (header: Self)
        ensures
            header@ == (HeaderView { dbid: 0, participants: Set::<usize>::empty() }),
    {
        Self { dbid: 0, participants: node_set::empty() }
    }
}

impl RWSetHeader {
    /// Reads a header from the front of a buffer.
    pub fn decode(buf: &mut Bytes) -> (r: Result<RWSetHeader, DecodeError>)
        ensures
            match header_at(buf::unread(*old(buf))) {
                Ok(header) => r matches Ok(v) && v@ == header,
                Err(error) => r == Err::<RWSetHeader, DecodeError>(error),
            },
            buf::unread(*final(buf)) == buf::unread(*old(buf)).skip(
                header_read(buf::unread(*old(buf))),
            ),
    {
        let ghost s = buf::unread(*buf);
        let dbid: u32 = match get_u32(buf) {
            Ok(v) => v,
            Err(short) => {
                return Err(DecodeError::Header(HeaderField::Dbid, short));
            },
        };
        let region_set: u64 = match get_u64(buf) {
            Ok(v) => v,
            Err(short) => {
                return Err(DecodeError::Header(HeaderField::RegionSet, short));
            },
        };
        proof {
            assert(s.skip(4).subrange(0, 8) == s.subrange(4, 12));
            assert(s.skip(4).skip(8) == s.skip(12));
        }
        let mut participants = node_set::empty();
        let mut i: usize = 0;
        while i < 64
            invariant
                i <= 64,
                forall|j: usize| #[trigger]
                    node_set::members(participants).contains(j) <==> j < i && (region_set >> j) & 1
                        == 1,
            decreases 64 - i,
        {
            if (region_set >> i) & 1 == 1 {
                node_set::insert(&mut participants, i);
            }
            i = i + 1;
        }
        assert(node_set::members(participants) == regions(region_set));
        Ok(Self { dbid, participants })
    }
}

/// The read/write set of a transaction.
#[derive(Debug)]
pub struct RWSet {
    pub header: RWSetHeader,
    pub relations_len: usize,
    pub n_relations: u32,
    pub relations: Option<Vec<Relation>>,
    pub remainder: Bytes,
    pub decoded_all: bool,
}

/// What an [`RWSet`] holds.
#[verifier::ext_equal]
pub struct RWSetView {
    pub header: HeaderView,
    pub relations_len: usize,
    pub n_relations: u32,
    pub relations: Option<Seq<RelationView>>,
    pub remainder: Seq<u8>,
    pub decoded_all: bool,
}

impl View for RWSet {
    type V = RWSetView;

    open spec fn view(&self) -> RWSetView {
        RWSetView {
            header: self.header@,
            relations_len: self.relations_len,
            n_relations: self.n_relations,
            relations: match self.relations {
                Some(relations) => Some(relations_view(relations@)),
                None => None,
            },
            remainder: buf::unread(self.remainder),
            decoded_all: self.decoded_all,
        }
    }
}

/// The read/write set in `s`, with its relations left undecoded.
pub open spec fn decoded(s: Seq<u8>) -> Result<RWSetView, DecodeError> {
    match header_at(s) {
        Err(error) => Err(error),
        Ok(header) => {
            let rest = s.skip(16);
            let relations_len = number_at(s, 12, 4);
            if s.len() < 16 {
                Err(
                    DecodeError::Length(
                        Short { required: 4, remaining: (s.len() - 12) as usize },
                    ),
                )
            } else if rest.len() < relations_len {
                Err(
                    DecodeError::SectionTooShort {
                        expected: relations_len as usize,
                        remaining: rest.len() as usize,
                    },
                )
            } else if rest.len() < 4 {
                Err(
                    DecodeError::RelationCount(
                        Short { required: 4, remaining: rest.len() as usize },
                    ),
                )
            } else {
                Ok(
                    RWSetView {
                        header,
                        relations_len: relations_len as usize,
                        n_relations: number_at(s, 16, 4) as u32,
                        relations: None,
                        remainder: s.skip(20),
                        decoded_all: false,
                    },
                )
            }
        },
    }
}

impl Default for RWSet {
    fn default() -> (rwset: Self)
        ensures
            rwset@ == (RWSetView {
                header: HeaderView { dbid: 0, participants: Set::<usize>::empty() },
                relations_len: 0,
                n_relations: 0,
                relations: None,
                remainder: Seq::<u8>::empty(),
                decoded_all: false,
            }),
    {
        Self {
            header: RWSetHeader::default(),
            relations_len: 0,
            n_relations: 0,
            relations: None,
            remainder: buf::from_vec(Vec::new()),
            decoded_all: false,
        }
    }
}

impl RWSet {
    /// Reads everything but the relations.
    pub fn decode(buf: Bytes) -> (r: Result<RWSet, DecodeError>)
        ensures
            match decoded(buf::unread(buf)) {
                Ok(rwset) => r matches Ok(v) && v@ == rwset,
                Err(error) => r == Err::<RWSet, DecodeError>(error),
            },
    {
        let ghost s = buf::unread(buf);
        let mut buf = buf;
        let header = match RWSetHeader::decode(&mut buf) {
            Ok(header) => header,
            Err(error) => {
                return Err(error);
            },
        };
        let relations_len: usize = match get_u32(&mut buf) {
            Ok(v) => v as usize,
            Err(short) => {
                return Err(DecodeError::Length(short));
            },
        };
        proof {
            assert(s.skip(12).subrange(0, 4) == s.subrange(12, 16));
            assert(s.skip(12).skip(4) == s.skip(16));
        }
        let remaining: usize = buf::remaining(&buf);
        if remaining < relations_len {
            return Err(DecodeError::SectionTooShort { expected: relations_len, remaining });
        }
        let n_relations: u32 = match get_u32(&mut buf) {
            Ok(v) => v,
            Err(short) => {
                return Err(DecodeError::RelationCount(short));
            },
        };
        proof {
            assert(s.skip(16).subrange(0, 4) == s.subrange(16, 20));
            assert(s.skip(16).skip(4) == s.skip(20));
        }
        Ok(
            Self {
                header,
                relations_len,
                n_relations,
                relations: None,
                remainder: buf,
                decoded_all: false,
            },
        )
    }

    /// The nodes that take part in the transaction.
    pub fn participants(&self) -> (set: BitSet)
        ensures
            node_set::members(set) == self@.header.participants,
    {
        node_set::clone(&self.header.participants)
    }

    fn decode_relations(buf: &mut Bytes, relations_len: usize, n_relations: u32) -> (r: Result<
        Vec<Relation>,
        DecodeError,
    >)
        requires
            relations_len <= buf::unread(*old(buf)).len(),
        ensures
            buf::unread(*final(buf)) == buf::unread(*old(buf)).skip(relations_len as int),
            match section(buf::unread(*old(buf)).take(relations_len as int), n_relations) {
                Ok(relations) => r matches Ok(v) && relations_view(v@) == relations,
                Err(error) => r == Err::<Vec<Relation>, DecodeError>(error),
            },
    {
        let mut relations_buf = buf::split_to(buf, relations_len);
        let ghost s = buf::unread(relations_buf);
        let mut relations: Vec<Relation> = Vec::new();
        while buf::has_remaining(&relations_buf)
            invariant
                s == buf::unread(*old(buf)).take(relations_len as int),
                buf::unread(*buf) == buf::unread(*old(buf)).skip(relations_len as int),
                match relations_in(buf::unread(relations_buf), relations@.len()) {
                    Ok(rest) => relations_in(s, 0) == Ok::<Seq<RelationView>, DecodeError>(
                        relations_view(relations@) + rest,
                    ),
                    Err(error) => relations_in(s, 0) == Err::<Seq<RelationView>, DecodeError>(
                        error,
                    ),
                },
            decreases buf::unread(relations_buf).len(),
        {
            let ghost done = relations_view(relations@);
            match Relation::decode(&mut relations_buf) {
                Ok(relation) => {
                    relations.push(relation);
                    proof {
                        assert(relations_view(relations@) == done.push(relation@));
                        let rest = relations_in(
                            buf::unread(relations_buf),
                            relations@.len(),
                        );
                        if rest is Ok {
                            assert(done + (seq![relation@] + rest->Ok_0) == done.push(relation@)
                                + rest->Ok_0);
                        }
                    }
                },
                Err(error) => {
                    return Err(DecodeError::Relation { decoded: relations.len(), error });
                },
            }
        }
        let received: usize = relations.len();
        if n_relations != #[verifier::truncate]
        (received as u32) {
            return Err(DecodeError::WrongCount { expected: n_relations, received });
        }
        Ok(relations)
    }

    /// Decodes the relations, if that was not done yet.
    pub fn decode_rest(&mut self) -> (r: Result<&Self, DecodeError>)
        requires
            old(self)@.decoded_all || old(self)@.relations_len <= old(self)@.remainder.len(),
        ensures
            final(self)@ == after_decode_rest(old(self)@),
            match r {
                Ok(v) => v@ == final(self)@ && decode_rest_result(old(self)@) is Ok,
                Err(error) => decode_rest_result(old(self)@) == Err::<(), DecodeError>(error),
            },
    {
        if self.decoded_all {
            return Ok(self);
        }
        match Self::decode_relations(&mut self.remainder, self.relations_len, self.n_relations) {
            Ok(relations) => {
                self.relations = Some(relations);
            },
            Err(error) => {
                return Err(error);
            },
        }
        self.decoded_all = true;
        Ok(self)
    }
}

/// The read/write set after the attempt to decode its relations.
pub open spec fn after_decode_rest(s: RWSetView) -> RWSetView {
    if s.decoded_all {
        s
    } else {
        let rest = s.remainder.skip(s.relations_len as int);
        match section(s.remainder.take(s.relations_len as int), s.n_relations) {
            Ok(relations) => RWSetView {
                relations: Some(relations),
                remainder: rest,
                decoded_all: true,
                ..s
            },
            Err(_) => RWSetView { remainder: rest, ..s },
        }
    }
}

/// How the attempt to decode the relations ends.
pub open spec fn decode_rest_result(s: RWSetView) -> Result<(), DecodeError> {
    if s.decoded_all {
        Ok(())
    } else {
        match section(s.remainder.take(s.relations_len as int), s.n_relations) {
            Ok(_) => Ok(()),
            Err(error) => Err(error),
        }
    }
}

/// Relations are decoded once: a second attempt after the first succeeded succeeds too and changes
/// nothing.
pub proof fn law_decoded_once(s: RWSetView)
    requires
        decode_rest_result(s) is Ok,
    ensures
        after_decode_rest(s).decoded_all,
        decode_rest_result(after_decode_rest(s)) is Ok,
        after_decode_rest(after_decode_rest(s)) == after_decode_rest(s),
{
}

} // verus!
