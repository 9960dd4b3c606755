use mononoke_core::delta::{apply, Delta, DeltaError, DeltaOp};

#[test]
fn fulltext_ignores_base() {
    let d = Delta::new_fulltext(b"hello".to_vec());
    assert_eq!(apply(b"", &d), Ok(b"hello".to_vec()));
    assert_eq!(apply(b"some other base", &d), Ok(b"hello".to_vec()));
}

#[test]
fn copy_and_insert() {
    let d = Delta {
        ops: vec![
            DeltaOp::Copy { start: 0, end: 3 },
            DeltaOp::Insert { data: b"-".to_vec() },
            DeltaOp::Copy { start: 4, end: 7 },
        ],
    };
    assert_eq!(apply(b"abc def", &d), Ok(b"abc-def".to_vec()));
}

#[test]
fn out_of_range_copy_is_an_error() {
    let d = Delta {
        ops: vec![
            DeltaOp::Insert { data: b"x".to_vec() },
            DeltaOp::Copy { start: 2, end: 9 },
            DeltaOp::Copy { start: 3, end: 1 },
        ],
    };
    assert_eq!(apply(b"abcd", &d), Err(DeltaError { op_index: 1 }));
}

#[test]
fn empty_delta_gives_empty() {
    let d = Delta { ops: vec![] };
    assert_eq!(apply(b"anything", &d), Ok(vec![]));
}
