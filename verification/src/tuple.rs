//! Tuples as a database lists them, without a header: a database id, a relation id and a block
//! number of four bytes each, and an offset of two, all of them signed and big-endian.
use crate::buf;
use bytes::Bytes;
use vstd::prelude::*;

verus! {

/// The number of bytes of a tuple.
pub open spec fn tuple_len() -> int {
    14
}

/// The tuple at the front of `s`.
pub open spec fn tuple_at(s: Seq<u8>) -> (int, int, int, int) {
    (
        buf::signed(buf::be_value(s.subrange(0, 4)), 0x8000_0000),
        buf::signed(buf::be_value(s.subrange(4, 8)), 0x8000_0000),
        buf::signed(buf::be_value(s.subrange(8, 12)), 0x8000_0000),
        buf::signed(buf::be_value(s.subrange(12, 14)), 0x8000),
    )
}

/// Takes the next tuple, if anything is left.
pub fn get_tuple(buf: &mut Bytes) -> (r: Option<(i32, i32, i32, i16)>)
    requires
        buf::unread(*old(buf)).len() == 0 || buf::unread(*old(buf)).len() >= tuple_len(),
    ensures
        match r {
            Some((dbid, rid, blockno, offset)) => {
                &&& buf::unread(*old(buf)).len() >= tuple_len()
                &&& (dbid as int, rid as int, blockno as int, offset as int) == tuple_at(
                    buf::unread(*old(buf)),
                )
                &&& buf::unread(*final(buf)) == buf::unread(*old(buf)).skip(tuple_len())
            },
            None => buf::unread(*old(buf)).len() == 0 && buf::unread(*final(buf)).len() == 0,
        },
{
    if buf::remaining(buf) == 0 {
        return None;
    }
    let ghost s = buf::unread(*buf);
    let dbid: i32 = buf::get_i32(buf);
    let rid: i32 = buf::get_i32(buf);
    let blockno: i32 = buf::get_i32(buf);
    let offset: i16 = buf::get_i16(buf);
    proof {
        assert(s.take(4) == s.subrange(0, 4));
        assert(s.skip(4).take(4) == s.subrange(4, 8));
        assert(s.skip(4).skip(4).take(4) == s.subrange(8, 12));
        assert(s.skip(4).skip(4).skip(4).take(2) == s.subrange(12, 14));
        assert(s.skip(4).skip(4).skip(4).skip(2) == s.skip(14));
    }
    Some((dbid, rid, blockno, offset))
}

/// All whole tuples in a buffer, and whether nothing but these is in it.
pub fn get_tuples(data: Bytes) -> (r: (Vec<(i32, i32, i32, i16)>, bool))
    ensures
        r.0@.len() == buf::unread(data).len() as int / tuple_len(),
        forall|i: int|
            0 <= i < r.0@.len() ==> ({
                let (dbid, rid, blockno, offset) = #[trigger] r.0@[i];
                (dbid as int, rid as int, blockno as int, offset as int) == tuple_at(
                    buf::unread(data).skip(tuple_len() * i),
                )
            }),
        r.1 == (buf::unread(data).len() as int % tuple_len() == 0),
{
    let ghost s = buf::unread(data);
    let mut data = data;
    let mut tuples: Vec<(i32, i32, i32, i16)> = Vec::new();
    proof {
        assert(s.skip(0) == s);
    }
    while buf::remaining(&data) >= 14
        invariant
            14 * tuples@.len() <= s.len(),
            buf::unread(data) == s.skip(14 * tuples@.len() as int),
            forall|i: int|
                0 <= i < tuples@.len() ==> ({
                    let (dbid, rid, blockno, offset) = #[trigger] tuples@[i];
                    (dbid as int, rid as int, blockno as int, offset as int) == tuple_at(
                        s.skip(14 * i),
                    )
                }),
        decreases buf::unread(data).len(),
    {
        let ghost n = tuples@.len() as int;
        if let Some(tuple) = get_tuple(&mut data) {
            tuples.push(tuple);
        }
        assert(s.skip(14 * n).skip(14) == s.skip(14 * (n + 1)));
    }
    let all: bool = buf::remaining(&data) == 0;
    (tuples, all)
}

} // verus!
