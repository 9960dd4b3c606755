use mononoke_core::changegroup::{
    convert_to_revlog_changesets, convert_to_revlog_entries, CgDeltaChunk, ChangesetDeltaed,
    ChunkDefect, DecodeError,
};
use mononoke_core::delta::{Delta, DeltaError, DeltaOp};
use mononoke_core::hash::HgNodeHash;

fn h(b: u8) -> HgNodeHash {
    HgNodeHash::from_bytes(&[b; 20]).unwrap()
}

fn chunk(node: u8, p1: u8, p2: u8, base: u8, linknode: u8, delta: Delta) -> CgDeltaChunk {
    CgDeltaChunk { node: h(node), p1: h(p1), p2: h(p2), base: h(base), linknode: h(linknode), delta }
}

#[test]
fn changeset_chunk_is_decoded() {
    let c = chunk(5, 3, 0, 0, 5, Delta::new_fulltext(b"changeset text".to_vec()));
    let out = convert_to_revlog_changesets(&vec![ChangesetDeltaed { chunk: c }]).unwrap();
    assert_eq!(out.len(), 1);
    assert_eq!(out[0].0, h(5));
    assert_eq!(out[0].1.p1, Some(h(3)));
    assert_eq!(out[0].1.p2, None);
    assert_eq!(out[0].1.content, b"changeset text".to_vec());
}

#[test]
fn changeset_chunk_with_base_is_rejected() {
    let good = chunk(5, 0, 0, 0, 5, Delta::new_fulltext(b"a".to_vec()));
    let bad = chunk(6, 5, 0, 5, 6, Delta::new_fulltext(b"b".to_vec()));
    let r = convert_to_revlog_changesets(&vec![
        ChangesetDeltaed { chunk: good },
        ChangesetDeltaed { chunk: bad },
    ]);
    assert_eq!(r.unwrap_err(), DecodeError { index: 1, defect: ChunkDefect::BaseNotNull });
}

#[test]
fn changeset_chunk_with_other_linknode_is_rejected() {
    let bad = chunk(5, 0, 0, 0, 6, Delta::new_fulltext(b"a".to_vec()));
    let r = convert_to_revlog_changesets(&vec![ChangesetDeltaed { chunk: bad }]);
    assert_eq!(r.unwrap_err(), DecodeError { index: 0, defect: ChunkDefect::NodeNotLinknode });
}

#[test]
fn changeset_chunk_with_bad_delta_is_rejected() {
    let bad = chunk(5, 0, 0, 0, 5, Delta { ops: vec![DeltaOp::Copy { start: 0, end: 1 }] });
    let r = convert_to_revlog_changesets(&vec![ChangesetDeltaed { chunk: bad }]);
    assert_eq!(
        r.unwrap_err(),
        DecodeError { index: 0, defect: ChunkDefect::BadDelta(DeltaError { op_index: 0 }) }
    );
}

#[test]
fn entries_resolve_bases_within_stream() {
    let first = chunk(1, 0, 0, 0, 9, Delta::new_fulltext(b"hello world".to_vec()));
    let second = chunk(
        2,
        1,
        0,
        1,
        9,
        Delta {
            ops: vec![
                DeltaOp::Copy { start: 0, end: 5 },
                DeltaOp::Insert { data: b", there".to_vec() },
            ],
        },
    );
    let out = convert_to_revlog_entries(&vec![first, second]).unwrap();
    assert_eq!(out.len(), 2);
    assert_eq!(out[0].object.content, b"hello world".to_vec());
    assert_eq!(out[1].object.content, b"hello, there".to_vec());
    assert_eq!(out[1].node, h(2));
    assert_eq!(out[1].linknode, h(9));
    assert_eq!(out[1].object.p1, Some(h(1)));
    assert_eq!(out[1].object.p2, None);
}

#[test]
fn entries_with_unknown_base_are_rejected() {
    let first = chunk(1, 0, 0, 0, 9, Delta::new_fulltext(b"x".to_vec()));
    let second = chunk(2, 1, 0, 7, 9, Delta::new_fulltext(b"y".to_vec()));
    let r = convert_to_revlog_entries(&vec![first, second]);
    assert_eq!(r.unwrap_err(), DecodeError { index: 1, defect: ChunkDefect::UnknownBase });
}
