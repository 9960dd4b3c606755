use mononoke_core::changegroup::CgDeltaChunk;
use mononoke_core::delta::{Delta, DeltaOp};
use mononoke_core::hash::HgNodeHash;
use mononoke_core::changegroup::{ChunkDefect, DecodeError};
use mononoke_core::wire::{
    decode_changegroup, decode_changeset_section, decode_ops, encode_changeset_section, encode_ops,
    ChangegroupError,
};

fn h(b: u8) -> HgNodeHash {
    HgNodeHash::from_bytes(&[b; 20]).unwrap()
}

#[test]
fn op_stream_layout() {
    let ops = vec![DeltaOp::Copy { start: 1, end: 3 }, DeltaOp::Insert { data: b"xy".to_vec() }];
    let mut out = Vec::new();
    encode_ops(&mut out, &ops);
    let mut expected = vec![0, 0, 0, 0, 0, 0, 0, 0, 1, 0, 0, 0, 0, 0, 0, 0, 3];
    expected.extend_from_slice(&[1, 0, 0, 0, 0, 0, 0, 0, 2, b'x', b'y']);
    assert_eq!(out, expected);
    assert_eq!(decode_ops(&out, 0, out.len()), Some(ops));
    assert_eq!(decode_ops(&out, 0, out.len() - 1), None);
    assert_eq!(decode_ops(&[7], 0, 1), None);
}

#[test]
fn empty_section_is_one_zero_length() {
    let wire = encode_changeset_section(&vec![]);
    assert_eq!(wire, vec![0; 8]);
    assert_eq!(decode_changeset_section(&wire), Some(vec![]));
}

#[test]
fn section_round_trip_and_layout() {
    let chunk = CgDeltaChunk {
        node: h(1),
        p1: h(2),
        p2: HgNodeHash::null(),
        base: HgNodeHash::null(),
        linknode: h(1),
        delta: Delta::new_fulltext(b"abc".to_vec()),
    };
    let wire = encode_changeset_section(&vec![chunk.clone()]);
    // length (8) + five hashes (100) + insert op (9 + 3) + end marker (8)
    assert_eq!(wire.len(), 8 + 100 + 12 + 8);
    assert_eq!(&wire[..8], &[0, 0, 0, 0, 0, 0, 0, 112]);
    assert_eq!(&wire[8..28], &[1; 20]);
    assert_eq!(decode_changeset_section(&wire), Some(vec![chunk]));
}

#[test]
fn malformed_sections_are_rejected() {
    let chunk = CgDeltaChunk {
        node: h(1),
        p1: h(2),
        p2: h(3),
        base: h(4),
        linknode: h(5),
        delta: Delta { ops: vec![] },
    };
    let wire = encode_changeset_section(&vec![chunk]);
    // missing end marker
    assert_eq!(decode_changeset_section(&wire[..wire.len() - 8]), None);
    // trailing bytes
    let mut longer = wire.clone();
    longer.push(0);
    assert_eq!(decode_changeset_section(&longer), None);
    // a body too short for its hashes
    let mut short = vec![0, 0, 0, 0, 0, 0, 0, 50];
    short.extend_from_slice(&[0; 50]);
    short.extend_from_slice(&[0; 8]);
    assert_eq!(decode_changeset_section(&short), None);
}

#[test]
fn inbound_changegroup_decoding() {
    let good = CgDeltaChunk {
        node: h(1),
        p1: HgNodeHash::null(),
        p2: HgNodeHash::null(),
        base: HgNodeHash::null(),
        linknode: h(1),
        delta: Delta::new_fulltext(b"first".to_vec()),
    };
    let out = decode_changegroup(&encode_changeset_section(&vec![good.clone()])).unwrap();
    assert_eq!(out.len(), 1);
    assert_eq!(out[0].0, h(1));
    assert_eq!(out[0].1.p1, None);
    assert_eq!(out[0].1.content, b"first".to_vec());

    let bad = CgDeltaChunk { node: h(2), linknode: h(3), ..good.clone() };
    let r = decode_changegroup(&encode_changeset_section(&vec![good, bad]));
    assert_eq!(
        r.unwrap_err(),
        ChangegroupError::Chunk(DecodeError { index: 1, defect: ChunkDefect::NodeNotLinknode })
    );
    assert_eq!(decode_changegroup(&[1, 2, 3]).unwrap_err(), ChangegroupError::Malformed);
}
