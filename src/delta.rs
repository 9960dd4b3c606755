//! The delta engine: a delta is a list of operations, each copying a range
//! of the base or inserting literal bytes; applying it concatenates what
//! each operation yields.

use vstd::prelude::*;
use crate::byteseq::{append_bytes, append_range};

verus! {

/// One operation of a delta.
#[derive(Clone, Debug, PartialEq, Eq)]
pub enum DeltaOp {
    /// Copy `base[start..end]`.
    Copy { start: u64, end: u64 },
    /// Insert these bytes verbatim.
    Insert { data: Vec<u8> },
}

/// An incremental encoding of content against a base.
#[derive(Clone, Debug, PartialEq, Eq)]
pub struct Delta {
    pub ops: Vec<DeltaOp>,
}

/// Why a delta could not be applied: the operation at `op_index` copies a
/// range that is not inside the base.
#[derive(Clone, Copy, Debug, PartialEq, Eq)]
pub struct DeltaError {
    pub op_index: usize,
}

/// The operation can be applied against `base`.
pub open spec fn op_fits(base: Seq<u8>, op: DeltaOp) -> bool {
    match op {
        DeltaOp::Copy { start, end } => start <= end && end <= base.len(),
        DeltaOp::Insert { .. } => true,
    }
}

/// What the operation yields against `base`.
pub open spec fn op_output(base: Seq<u8>, op: DeltaOp) -> Seq<u8> {
    match op {
        DeltaOp::Copy { start, end } => base.subrange(start as int, end as int),
        DeltaOp::Insert { data } => data@,
    }
}

/// Every operation can be applied against `base`.
pub open spec fn delta_fits(base: Seq<u8>, ops: Seq<DeltaOp>) -> bool {
    forall|i: int| 0 <= i < ops.len() ==> op_fits(base, #[trigger] ops[i])
}

/// The content that `ops` rebuild from `base`.
pub open spec fn apply_ops(base: Seq<u8>, ops: Seq<DeltaOp>) -> Seq<u8>
    decreases ops.len(),
{
    if ops.len() == 0 {
        Seq::empty()
    } else {
        apply_ops(base, ops.drop_last()) + op_output(base, ops.last())
    }
}

/// Index of the first operation that does not fit `base`.
pub open spec fn first_misfit(base: Seq<u8>, ops: Seq<DeltaOp>, k: int) -> bool {
    0 <= k < ops.len() && !op_fits(base, ops[k]) && forall|j: int|
        0 <= j < k ==> op_fits(base, #[trigger] ops[j])
}

impl Delta {
    /// A delta that ignores its base and yields `data`.
    pub fn new_fulltext(data: Vec<u8>) -> (r: Delta)
        ensures
            r.ops@ == seq![DeltaOp::Insert { data }],
            forall|base: Seq<u8>|
                delta_fits(base, r.ops@) && #[trigger] apply_ops(base, r.ops@) == data@,
    {
        let ghost d = data;
        let mut ops: Vec<DeltaOp> = Vec::new();
        ops.push(DeltaOp::Insert { data });
        proof {
            assert forall|base: Seq<u8>| #[trigger] apply_ops(base, ops@) == d@ by {
                assert(ops@.drop_last() =~= Seq::<DeltaOp>::empty());
                assert(apply_ops(base, ops@.drop_last()) == Seq::<u8>::empty());
                assert(Seq::<u8>::empty() + d@ =~= d@);
            }
        }
        Delta { ops }
    }
}

/// Rebuilds content from `base` and `delta`; fails, naming the first
/// offending operation, where one copies outside the base.
pub fn apply(base: &[u8], delta: &Delta) -> (r: Result<Vec<u8>, DeltaError>)
    ensures
        r is Ok <==> delta_fits(base@, delta.ops@),
        r matches Ok(v) ==> v@ == apply_ops(base@, delta.ops@),
        r matches Err(e) ==> first_misfit(base@, delta.ops@, e.op_index as int),
{
    let ops = &delta.ops;
    let mut out: Vec<u8> = Vec::new();
    let mut i: usize = 0;
    while i < ops.len()
        invariant
            ops@ == delta.ops@,
            i <= ops@.len(),
            forall|j: int| 0 <= j < i ==> op_fits(base@, #[trigger] ops@[j]),
            out@ == apply_ops(base@, ops@.subrange(0, i as int)),
        decreases ops@.len() - i,
    {
        let ghost before = ops@.subrange(0, i as int);
        match &ops[i] {
            DeltaOp::Copy { start, end } => {
                if *start > *end || *end > base.len() as u64 {
                    assert(!op_fits(base@, ops@[i as int]));
                    return Err(DeltaError { op_index: i });
                }
                append_range(&mut out, base, *start as usize, *end as usize);
            },
            DeltaOp::Insert { data } => {
                append_bytes(&mut out, data.as_slice());
            },
        }
        assert(ops@.subrange(0, i + 1).drop_last() =~= before);
        i = i + 1;
    }
    assert(ops@.subrange(0, ops@.len() as int) =~= ops@);
    Ok(out)
}

/// Applying a fulltext delta yields its data, whatever the base.
pub proof fn lemma_fulltext_ignores_base(base: Seq<u8>, data: Vec<u8>)
    ensures
        apply_ops(base, seq![DeltaOp::Insert { data }]) == data@,
{
    let ops = seq![DeltaOp::Insert { data }];
    assert(ops.last() == DeltaOp::Insert { data });
    assert(ops.drop_last() =~= Seq::<DeltaOp>::empty());
    assert(apply_ops(base, ops.drop_last()) == Seq::<u8>::empty());
    assert(Seq::<u8>::empty() + data@ =~= data@);
}

} // verus!
