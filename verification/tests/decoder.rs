use bytes::{BufMut, Bytes, BytesMut};
use xactserver::decoder::{
    DecodeError, HeaderField, Page, RWSet, RWSetHeader, Relation, RelationError, RelationField,
    Short, Tuple, TupleField,
};

fn table(oid: u32, tuples: &[(u32, u16)]) -> Vec<u8> {
    let mut buf = vec![b'T'];
    buf.put_u32(oid);
    buf.put_u8(2);
    buf.put_u64(900);
    buf.put_u8(1);
    buf.put_u32(tuples.len() as u32);
    for (blocknum, offset) in tuples {
        buf.put_u32(*blocknum);
        buf.put_u16(*offset);
    }
    buf
}

fn index(oid: u32, pages: &[u32]) -> Vec<u8> {
    let mut buf = vec![b'I'];
    buf.put_u32(oid);
    buf.put_u8(3);
    buf.put_u64(901);
    buf.put_u8(1);
    buf.put_u32(pages.len() as u32);
    for blocknum in pages {
        buf.put_u32(*blocknum);
    }
    buf
}

fn rwset(region_set: u64, n_relations: u32, section: &[u8], behind: &[u8]) -> Bytes {
    let mut buf = BytesMut::new();
    buf.put_u32(10);
    buf.put_u64(region_set);
    buf.put_u32(section.len() as u32);
    buf.put_u32(n_relations);
    buf.put_slice(section);
    buf.put_slice(behind);
    buf.freeze()
}

fn decode_section(n_relations: u32, section: &[u8]) -> Result<Vec<Relation>, DecodeError> {
    let mut set = RWSet::decode(rwset(1, n_relations, section, b"")).unwrap();
    set.decode_rest()?;
    Ok(set.relations.unwrap())
}

#[test]
fn header_and_participants() {
    let set = RWSet::decode(rwset(0b1011, 0, b"", b"")).unwrap();
    assert_eq!(set.header.dbid, 10);
    assert_eq!(set.participants().iter().collect::<Vec<_>>(), [0, 1, 3]);
    assert_eq!(set.relations, None);
    assert!(!set.decoded_all);

    let set = RWSet::decode(rwset(1 << 63, 0, b"", b"")).unwrap();
    assert_eq!(set.participants().iter().collect::<Vec<_>>(), [63]);
    let set = RWSet::decode(rwset(0, 0, b"", b"")).unwrap();
    assert!(set.participants().is_empty());
    let set = RWSet::decode(rwset(u64::MAX, 0, b"", b"")).unwrap();
    assert_eq!(set.participants().len(), 64);
}

#[test]
fn relations_round_trip() {
    let section = [table(5, &[(1, 2), (70000, 65535)]), index(6, &[7, 8, 9]), table(7, &[])].concat();
    let mut set = RWSet::decode(rwset(3, 3, &section, b"rest")).unwrap();
    assert_eq!(set.relations_len, section.len());
    assert_eq!(set.n_relations, 3);
    set.decode_rest().unwrap();
    assert_eq!(
        set.relations.as_ref().unwrap(),
        &vec![
            Relation::Table {
                oid: 5,
                region: 2,
                csn: 900,
                is_table_scan: true,
                n_tuples: 2,
                tuples: vec![
                    Tuple { blocknum: 1, offset: 2 },
                    Tuple { blocknum: 70000, offset: 65535 }
                ],
            },
            Relation::Index {
                oid: 6,
                region: 3,
                csn: 901,
                n_pages: 3,
                pages: vec![Page { blocknum: 7 }, Page { blocknum: 8 }, Page { blocknum: 9 }],
            },
            Relation::Table {
                oid: 7,
                region: 2,
                csn: 900,
                is_table_scan: true,
                n_tuples: 0,
                tuples: vec![],
            },
        ]
    );
    assert!(set.decoded_all);
    assert_eq!(set.remainder, Bytes::from("rest"));

    // Decoding once more changes nothing.
    set.decode_rest().unwrap();
    assert_eq!(set.relations.unwrap().len(), 3);
    assert_eq!(set.remainder, Bytes::from("rest"));
}

#[test]
fn header_cut_short() {
    let all = rwset(1, 0, b"", b"");
    let header = |n: usize| RWSetHeader::decode(&mut all.slice(..n)).unwrap_err();
    assert_eq!(
        header(3),
        DecodeError::Header(HeaderField::Dbid, Short { required: 4, remaining: 3 })
    );
    assert_eq!(
        header(11),
        DecodeError::Header(HeaderField::RegionSet, Short { required: 8, remaining: 7 })
    );
    let whole = |n: usize| RWSet::decode(all.slice(..n)).unwrap_err();
    assert_eq!(
        whole(0),
        DecodeError::Header(HeaderField::Dbid, Short { required: 4, remaining: 0 })
    );
    assert_eq!(whole(12), DecodeError::Length(Short { required: 4, remaining: 0 }));
    assert_eq!(whole(19), DecodeError::RelationCount(Short { required: 4, remaining: 3 }));
    assert!(RWSet::decode(all.slice(..20)).is_ok());
}

#[test]
fn section_shorter_than_announced() {
    let mut buf = BytesMut::new();
    buf.put_u32(10);
    buf.put_u64(1);
    buf.put_u32(100);
    buf.put_u32(1);
    assert_eq!(
        RWSet::decode(buf.freeze()).unwrap_err(),
        DecodeError::SectionTooShort { expected: 100, remaining: 4 }
    );
}

#[test]
fn wrong_number_of_relations() {
    assert_eq!(
        decode_section(2, &table(1, &[])),
        Err(DecodeError::WrongCount { expected: 2, received: 1 })
    );
    assert_eq!(decode_section(0, b""), Ok(vec![]));
}

#[test]
fn relations_cut_short() {
    let relation =
        |decoded: usize, error: RelationError| Err(DecodeError::Relation { decoded, error });
    assert_eq!(decode_section(1, b"X"), relation(0, RelationError::InvalidType(b'X')));

    let fields = [
        (1, RelationField::Relid, 4, 0),
        (5, RelationField::Region, 1, 0),
        (6, RelationField::Csn, 8, 0),
        (13, RelationField::Csn, 8, 7),
        (14, RelationField::IsTableScan, 1, 0),
        (15, RelationField::NItems, 4, 0),
    ];
    for (n, field, required, remaining) in fields {
        let short = Short { required, remaining };
        assert_eq!(
            decode_section(1, &table(1, &[])[..n]),
            relation(0, RelationError::Field { is_index: false, field, short })
        );
        assert_eq!(
            decode_section(1, &index(1, &[])[..n]),
            relation(0, RelationError::Field { is_index: true, field, short })
        );
    }

    let two = table(1, &[(1, 1), (2, 2)]);
    assert_eq!(
        decode_section(1, &two[..19 + 6 + 2]),
        relation(
            0,
            RelationError::Tuple {
                decoded: 1,
                field: TupleField::Blocknum,
                short: Short { required: 4, remaining: 2 }
            }
        )
    );
    assert_eq!(
        decode_section(1, &two[..19 + 6 + 5]),
        relation(
            0,
            RelationError::Tuple {
                decoded: 1,
                field: TupleField::Offset,
                short: Short { required: 2, remaining: 1 }
            }
        )
    );
    let after = [table(1, &[]), index(2, &[3, 4])].concat();
    assert_eq!(
        decode_section(2, &after[..19 + 19 + 5]),
        relation(1, RelationError::Page { decoded: 1, short: Short { required: 4, remaining: 1 } })
    );
}

#[test]
fn empty_set_is_the_default() {
    let set = RWSet::default();
    assert_eq!(set.header.dbid, 0);
    assert!(set.participants().is_empty());
    assert!(set.remainder.is_empty());
}
