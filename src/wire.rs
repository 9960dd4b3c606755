//! The wire layout of a changegroup's changeset section.
//!
//! A delta is a stream of operations: a copy is the byte 0 followed by its
//! start and end, an insert is the byte 1 followed by the length of its
//! data and the data; integers are 8-byte big-endian. A chunk is the length
//! of its body, then a body of node, p1, p2, base and linknode (20 bytes
//! each) followed by its delta. A zero length ends the section.

use vstd::prelude::*;
use crate::byteseq::{append_bytes, append_range};
use crate::changegroup::{
    changeset_chunk_defect, changeset_chunk_object, decode_changeset_chunk, CgDeltaChunk,
    DecodeError, HgBlobNode,
};
use crate::delta::{apply_ops, delta_fits, op_fits, Delta, DeltaOp};
use crate::parts::{encodes_as, is_canonical, lemma_changegroup_chunk_round_trip};
use crate::hash::HgNodeHash;
use crate::envelope::{be64_at, be64_bytes, lemma_be64_round_trip, push_be64, read_be64};

verus! {

/// The mathematical content of a delta operation.
pub enum OpView {
    Copy { start: u64, end: u64 },
    Insert { data: Seq<u8> },
}

pub open spec fn op_view(op: DeltaOp) -> OpView {
    match op {
        DeltaOp::Copy { start, end } => OpView::Copy { start, end },
        DeltaOp::Insert { data } => OpView::Insert { data: data@ },
    }
}

pub open spec fn ops_view(ops: Seq<DeltaOp>) -> Seq<OpView> {
    Seq::new(ops.len(), |i: int| op_view(ops[i]))
}

/// The bytes of one operation.
pub open spec fn op_bytes(o: OpView) -> Seq<u8> {
    match o {
        OpView::Copy { start, end } => seq![0u8] + be64_bytes(start) + be64_bytes(end),
        OpView::Insert { data } => seq![1u8] + be64_bytes(data.len() as u64) + data,
    }
}

/// The bytes of a stream of operations.
pub open spec fn ops_bytes(os: Seq<OpView>) -> Seq<u8>
    decreases os.len(),
{
    if os.len() == 0 {
        Seq::empty()
    } else {
        op_bytes(os[0]) + ops_bytes(os.drop_first())
    }
}

/// Reads one operation at the start of `s`: it and its length in bytes.
pub open spec fn parse_op(s: Seq<u8>) -> Option<(OpView, int)> {
    if s.len() >= 17 && s[0] == 0 {
        Some((OpView::Copy { start: be64_at(s, 1), end: be64_at(s, 9) }, 17))
    } else if s.len() >= 9 && s[0] == 1 && 9 + be64_at(s, 1) <= s.len() {
        let n = be64_at(s, 1) as int;
        Some((OpView::Insert { data: s.subrange(9, 9 + n) }, 9 + n))
    } else {
        None
    }
}

/// Reads a whole stream of operations.
pub open spec fn parse_ops(s: Seq<u8>) -> Option<Seq<OpView>>
    decreases s.len(),
{
    if s.len() == 0 {
        Some(Seq::empty())
    } else {
        match parse_op(s) {
            None => None,
            Some((o, n)) => if 0 < n <= s.len() {
                match parse_ops(s.subrange(n, s.len() as int)) {
                    None => None,
                    Some(rest) => Some(seq![o] + rest),
                }
            } else {
                None
            },
        }
    }
}

proof fn lemma_be64_prefix(s: Seq<u8>, off: int, n: u64)
    requires
        0 <= off,
        off + 8 <= s.len(),
        s.subrange(off, off + 8) == be64_bytes(n),
    ensures
        be64_at(s, off) == n,
{
    lemma_be64_round_trip(n);
    let b = be64_bytes(n);
    assert forall|k: int| 0 <= k < 8 implies s[off + k] == #[trigger] b[k] by {
        assert(s.subrange(off, off + 8)[k] == s[off + k]);
    }
    assert(s[off] == b[0] && s[off + 1] == b[1] && s[off + 2] == b[2] && s[off + 3] == b[3]);
    assert(s[off + 4] == b[4] && s[off + 5] == b[5] && s[off + 6] == b[6] && s[off + 7] == b[7]);
}

/// Every insert's data length fits the 8-byte length field.
pub open spec fn op_encodable(o: OpView) -> bool {
    o matches OpView::Insert { data } ==> data.len() <= u64::MAX
}

proof fn lemma_parse_op(o: OpView, rest: Seq<u8>)
    requires
        op_encodable(o),
    ensures
        parse_op(op_bytes(o) + rest) == Some((o, op_bytes(o).len() as int)),
{
    let s = op_bytes(o) + rest;
    match o {
        OpView::Copy { start, end } => {
            assert(s.subrange(1, 9) =~= be64_bytes(start));
            assert(s.subrange(9, 17) =~= be64_bytes(end));
            lemma_be64_prefix(s, 1, start);
            lemma_be64_prefix(s, 9, end);
        },
        OpView::Insert { data } => {
            assert(s.subrange(1, 9) =~= be64_bytes(data.len() as u64));
            lemma_be64_prefix(s, 1, data.len() as u64);
            assert(s.subrange(9, 9 + data.len() as int) =~= data);
        },
    }
}

/// Every operation of the stream is encodable.
pub open spec fn ops_encodable(os: Seq<OpView>) -> bool {
    forall|i: int| 0 <= i < os.len() ==> op_encodable(#[trigger] os[i])
}

/// A stream of operations reads back as itself from its bytes.
pub proof fn lemma_ops_round_trip(os: Seq<OpView>)
    requires
        ops_encodable(os),
    ensures
        parse_ops(ops_bytes(os)) == Some(os),
    decreases os.len(),
{
    if os.len() > 0 {
        let s = ops_bytes(os);
        let rest = ops_bytes(os.drop_first());
        assert(op_encodable(os[0]));
        lemma_parse_op(os[0], rest);
        let n = op_bytes(os[0]).len() as int;
        assert(s.subrange(n, s.len() as int) =~= rest);
        assert(ops_encodable(os.drop_first())) by {
            assert forall|i: int| 0 <= i < os.drop_first().len() implies op_encodable(
                #[trigger] os.drop_first()[i],
            ) by {
                assert(os.drop_first()[i] == os[i + 1]);
            }
        }
        lemma_ops_round_trip(os.drop_first());
        assert(seq![os[0]] + os.drop_first() =~= os);
    }
}

/// Every delta operation held in memory is encodable.
pub proof fn lemma_ops_view_encodable(ops: Seq<DeltaOp>)
    requires
        forall|i: int|
            0 <= i < ops.len() ==> (#[trigger] ops[i] matches DeltaOp::Insert { data } ==> data@.len()
                <= usize::MAX),
    ensures
        ops_encodable(ops_view(ops)),
{
    assert forall|i: int| 0 <= i < ops_view(ops).len() implies op_encodable(
        #[trigger] ops_view(ops)[i],
    ) by {
        assert(ops[i] matches DeltaOp::Insert { data } ==> data@.len() <= usize::MAX);
    }
}

/// Appends the bytes of a stream of operations.
pub fn encode_ops(out: &mut Vec<u8>, ops: &Vec<DeltaOp>)
    ensures
        final(out)@ == old(out)@ + ops_bytes(ops_view(ops@)),
{
    let ghost v = ops_view(ops@);
    let ghost first = out@;
    let n = ops.len();
    let mut i: usize = 0;
    assert(v.subrange(0, n as int) =~= v);
    while i < n
        invariant
            n == ops@.len(),
            v == ops_view(ops@),
            i <= n,
            out@ + ops_bytes(v.subrange(i as int, n as int)) == first + ops_bytes(v),
        decreases n - i,
    {
        let ghost before = out@;
        let ghost tail = v.subrange(i as int, n as int);
        assert(tail[0] == op_view(ops@[i as int]));
        assert(tail.drop_first() =~= v.subrange(i + 1, n as int));
        match &ops[i] {
            DeltaOp::Copy { start, end } => {
                out.push(0u8);
                push_be64(out, *start);
                push_be64(out, *end);
            },
            DeltaOp::Insert { data } => {
                out.push(1u8);
                push_be64(out, data.len() as u64);
                append_bytes(out, data.as_slice());
            },
        }
        assert(out@ =~= before + op_bytes(op_view(ops@[i as int])));
        assert(out@ + ops_bytes(v.subrange(i + 1, n as int)) =~= before + ops_bytes(tail));
        i = i + 1;
    }
    assert(v.subrange(n as int, n as int) =~= Seq::<OpView>::empty());
    assert(out@ =~= first + ops_bytes(v));
}

/// Reads one operation at `s[off..end]`.
fn decode_op(s: &[u8], off: usize, end: usize) -> (r: Option<(DeltaOp, usize)>)
    requires
        off < end <= s@.len(),
    ensures
        match parse_op(s@.subrange(off as int, end as int)) {
            None => r is None,
            Some((o, n)) => r matches Some((op, p)) && op_view(op) == o && p == off + n,
        },
{
    let ghost t = s@.subrange(off as int, end as int);
    let avail = end - off;
    if s[off] == 0u8 {
        if avail < 17 {
            return None;
        }
        let start = read_be64(s, off + 1);
        let stop = read_be64(s, off + 9);
        proof {
            assert forall|k: int| 0 <= k < 17 implies t[k] == s@[off + k] by {}
            assert(be64_at(t, 1) == be64_at(s@, off + 1));
            assert(be64_at(t, 9) == be64_at(s@, off + 9));
        }
        Some((DeltaOp::Copy { start, end: stop }, off + 17))
    } else if s[off] == 1u8 {
        if avail < 9 {
            return None;
        }
        let n = read_be64(s, off + 1);
        proof {
            assert forall|k: int| 0 <= k < 9 implies t[k] == s@[off + k] by {}
            assert(be64_at(t, 1) == be64_at(s@, off + 1));
        }
        if n > (avail - 9) as u64 {
            return None;
        }
        let data_start = off + 9;
        let data_end = data_start + n as usize;
        let mut data: Vec<u8> = Vec::new();
        append_range(&mut data, s, data_start, data_end);
        proof {
            assert(data@ =~= t.subrange(9, 9 + n as int));
        }
        Some((DeltaOp::Insert { data }, data_end))
    } else {
        None
    }
}

/// Reads the stream of operations that fills `s[off..end]`.
pub fn decode_ops(s: &[u8], off: usize, end: usize) -> (r: Option<Vec<DeltaOp>>)
    requires
        off <= end <= s@.len(),
    ensures
        match parse_ops(s@.subrange(off as int, end as int)) {
            None => r is None,
            Some(v) => r matches Some(w) && ops_view(w@) == v,
        },
{
    let ghost whole = s@.subrange(off as int, end as int);
    let mut out: Vec<DeltaOp> = Vec::new();
    let mut pos: usize = off;
    assert(ops_view(out@) =~= Seq::<OpView>::empty());
    assert(s@.subrange(pos as int, end as int) == whole);
    while pos < end
        invariant
            off <= pos <= end,
            end <= s@.len(),
            whole == s@.subrange(off as int, end as int),
            match parse_ops(s@.subrange(pos as int, end as int)) {
                None => parse_ops(whole) is None,
                Some(rest) => parse_ops(whole) == Some(ops_view(out@) + rest),
            },
        decreases end - pos,
    {
        let ghost t = s@.subrange(pos as int, end as int);
        match decode_op(s, pos, end) {
            None => {
                return None;
            },
            Some((op, next)) => {
                let ghost before = out@;
                assert(t.subrange(next - pos, t.len() as int) =~= s@.subrange(next as int, end as int));
                out.push(op);
                proof {
                    assert(ops_view(out@) =~= ops_view(before).push(op_view(op)));
                    match parse_ops(s@.subrange(next as int, end as int)) {
                        None => {},
                        Some(rest) => {
                            assert(ops_view(before) + (seq![op_view(op)] + rest) =~= ops_view(out@)
                                + rest);
                        },
                    }
                }
                pos = next;
            },
        }
    }
    assert(s@.subrange(pos as int, end as int) =~= Seq::<u8>::empty());
    assert(ops_view(out@) + Seq::<OpView>::empty() =~= ops_view(out@));
    Some(out)
}

/// The mathematical content of a wire chunk.
pub struct ChunkView {
    pub node: Seq<u8>,
    pub p1: Seq<u8>,
    pub p2: Seq<u8>,
    pub base: Seq<u8>,
    pub linknode: Seq<u8>,
    pub ops: Seq<OpView>,
}

pub open spec fn chunk_view(c: CgDeltaChunk) -> ChunkView {
    ChunkView {
        node: c.node@,
        p1: c.p1@,
        p2: c.p2@,
        base: c.base@,
        linknode: c.linknode@,
        ops: ops_view(c.delta.ops@),
    }
}

pub open spec fn chunks_view(cs: Seq<CgDeltaChunk>) -> Seq<ChunkView> {
    Seq::new(cs.len(), |i: int| chunk_view(cs[i]))
}

/// The body of a chunk: its five hashes, then its delta.
pub open spec fn chunk_body(c: ChunkView) -> Seq<u8> {
    c.node + c.p1 + c.p2 + c.base + c.linknode + ops_bytes(c.ops)
}

/// The bytes of a chunk: the length of its body, then the body.
pub open spec fn chunk_bytes(c: ChunkView) -> Seq<u8> {
    be64_bytes(chunk_body(c).len() as u64) + chunk_body(c)
}

/// The bytes of a changeset section: its chunks, then a zero length.
pub open spec fn section_bytes(cs: Seq<ChunkView>) -> Seq<u8>
    decreases cs.len(),
{
    if cs.len() == 0 {
        be64_bytes(0)
    } else {
        chunk_bytes(cs[0]) + section_bytes(cs.drop_first())
    }
}

/// Reads one chunk at the start of `s`: it and its length in bytes.
#[verifier::opaque]
pub open spec fn parse_chunk(s: Seq<u8>) -> Option<(ChunkView, int)> {
    if s.len() >= 8 && 100 <= be64_at(s, 0) && 8 + be64_at(s, 0) <= s.len() {
        let n = be64_at(s, 0) as int;
        let b = s.subrange(8, 8 + n);
        match parse_ops(b.subrange(100, n)) {
            None => None,
            Some(ops) => Some(
                (
                    ChunkView {
                        node: b.subrange(0, 20),
                        p1: b.subrange(20, 40),
                        p2: b.subrange(40, 60),
                        base: b.subrange(60, 80),
                        linknode: b.subrange(80, 100),
                        ops,
                    },
                    8 + n,
                ),
            ),
        }
    } else {
        None
    }
}

/// Reads a whole changeset section, which must fill `s` exactly.
pub open spec fn parse_section(s: Seq<u8>) -> Option<Seq<ChunkView>>
    decreases s.len(),
{
    if s.len() >= 8 && be64_at(s, 0) == 0 {
        if s.len() == 8 {
            Some(Seq::empty())
        } else {
            None
        }
    } else {
        match parse_chunk(s) {
            None => None,
            Some((c, n)) => if 0 < n <= s.len() {
                match parse_section(s.subrange(n, s.len() as int)) {
                    None => None,
                    Some(rest) => Some(seq![c] + rest),
                }
            } else {
                None
            },
        }
    }
}

/// A chunk can be written: 20-byte hashes, encodable operations and a
/// body whose length fits its length field.
pub open spec fn chunk_encodable(c: ChunkView) -> bool {
    &&& c.node.len() == 20
    &&& c.p1.len() == 20
    &&& c.p2.len() == 20
    &&& c.base.len() == 20
    &&& c.linknode.len() == 20
    &&& ops_encodable(c.ops)
    &&& chunk_body(c).len() <= u64::MAX
}

proof fn lemma_parse_chunk_length(s: Seq<u8>)
    ensures
        parse_chunk(s) matches Some((c, n)) ==> s.len() >= 8 && be64_at(s, 0) >= 100 && n == 8
            + be64_at(s, 0) && n <= s.len(),
{
    reveal(parse_chunk);
}

proof fn lemma_parse_chunk(c: ChunkView, rest: Seq<u8>)
    requires
        chunk_encodable(c),
    ensures
        parse_chunk(chunk_bytes(c) + rest) == Some((c, chunk_bytes(c).len() as int)),
{
    reveal(parse_chunk);
    let body = chunk_body(c);
    let n = body.len() as int;
    let s = chunk_bytes(c) + rest;
    assert(s.subrange(0, 8) =~= be64_bytes(n as u64));
    lemma_be64_prefix(s, 0, n as u64);
    let b = s.subrange(8, 8 + n);
    assert(b =~= body);
    assert(b.subrange(0, 20) =~= c.node);
    assert(b.subrange(20, 40) =~= c.p1);
    assert(b.subrange(40, 60) =~= c.p2);
    assert(b.subrange(60, 80) =~= c.base);
    assert(b.subrange(80, 100) =~= c.linknode);
    assert(b.subrange(100, n) =~= ops_bytes(c.ops));
    lemma_ops_round_trip(c.ops);
}

/// A changeset section reads back as its chunks from its bytes.
pub proof fn lemma_section_round_trip(cs: Seq<ChunkView>)
    requires
        forall|i: int| 0 <= i < cs.len() ==> chunk_encodable(#[trigger] cs[i]),
    ensures
        parse_section(section_bytes(cs)) == Some(cs),
    decreases cs.len(),
{
    if cs.len() == 0 {
        lemma_be64_round_trip(0);
        let s = section_bytes(cs);
        assert(s.subrange(0, 8) =~= be64_bytes(0));
        lemma_be64_prefix(s, 0, 0);
    } else {
        let s = section_bytes(cs);
        let rest = section_bytes(cs.drop_first());
        assert(chunk_encodable(cs[0]));
        lemma_parse_chunk(cs[0], rest);
        let n = chunk_bytes(cs[0]).len() as int;
        assert(s == chunk_bytes(cs[0]) + rest);
        assert(parse_chunk(s) == Some((cs[0], n)));
        lemma_parse_chunk_length(s);
        assert(s.subrange(n, s.len() as int) =~= rest);
        assert forall|i: int| 0 <= i < cs.drop_first().len() implies chunk_encodable(
            #[trigger] cs.drop_first()[i],
        ) by {
            assert(cs.drop_first()[i] == cs[i + 1]);
        }
        lemma_section_round_trip(cs.drop_first());
        assert(seq![cs[0]] + cs.drop_first() =~= cs);
    }
}

/// The hash held in `s[off..off + 20]`.
fn hash_at(s: &[u8], off: usize) -> (r: HgNodeHash)
    requires
        off + 20 <= s@.len(),
    ensures
        r@ == s@.subrange(off as int, off + 20),
        r.wf(),
{
    let len = s.len();
    assert(off + 20 <= len);
    let mut v: Vec<u8> = Vec::new();
    append_range(&mut v, s, off, off + 20);
    assert(v@ =~= s@.subrange(off as int, off + 20));
    match HgNodeHash::from_bytes(v.as_slice()) {
        Some(h) => h,
        None => HgNodeHash::null(),
    }
}

/// The bytes of a changeset section holding `chunks`.
pub fn encode_changeset_section(chunks: &Vec<CgDeltaChunk>) -> (r: Vec<u8>)
    requires
        forall|i: int| 0 <= i < chunks@.len() ==> (#[trigger] chunks@[i]).wf(),
    ensures
        r@ == section_bytes(chunks_view(chunks@)),
{
    let ghost v = chunks_view(chunks@);
    let mut out: Vec<u8> = Vec::new();
    let n = chunks.len();
    let mut i: usize = 0;
    assert(v.subrange(0, n as int) =~= v);
    assert(out@ + section_bytes(v.subrange(0, n as int)) =~= section_bytes(v));
    while i < n
        invariant
            n == chunks@.len(),
            v == chunks_view(chunks@),
            i <= n,
            out@ + section_bytes(v.subrange(i as int, n as int)) == section_bytes(v),
        decreases n - i,
    {
        let c = &chunks[i];
        let ghost before = out@;
        let ghost tail = v.subrange(i as int, n as int);
        assert(tail[0] == chunk_view(*c));
        assert(tail.drop_first() =~= v.subrange(i + 1, n as int));
        let mut body: Vec<u8> = Vec::new();
        append_bytes(&mut body, c.node.as_bytes());
        append_bytes(&mut body, c.p1.as_bytes());
        append_bytes(&mut body, c.p2.as_bytes());
        append_bytes(&mut body, c.base.as_bytes());
        append_bytes(&mut body, c.linknode.as_bytes());
        encode_ops(&mut body, &c.delta.ops);
        assert(body@ =~= chunk_body(chunk_view(*c)));
        push_be64(&mut out, body.len() as u64);
        append_bytes(&mut out, body.as_slice());
        assert(out@ =~= before + chunk_bytes(chunk_view(*c)));
        assert(out@ + section_bytes(v.subrange(i + 1, n as int)) =~= before + section_bytes(tail));
        i = i + 1;
    }
    assert(v.subrange(n as int, n as int) =~= Seq::<ChunkView>::empty());
    push_be64(&mut out, 0);
    out
}

/// Reads one chunk at `s[pos..]`.
fn decode_chunk(s: &[u8], pos: usize) -> (r: Option<(CgDeltaChunk, usize)>)
    requires
        pos <= s@.len(),
    ensures
        match parse_chunk(s@.subrange(pos as int, s@.len() as int)) {
            None => r is None,
            Some((c, n)) => r matches Some((chunk, next)) && chunk_view(chunk) == c && next == pos + n
                && chunk.wf(),
        },
{
    reveal(parse_chunk);
    let end = s.len();
    let ghost t = s@.subrange(pos as int, end as int);
    if end - pos < 8 {
        return None;
    }
    let n = read_be64(s, pos);
    proof {
        assert forall|k: int| 0 <= k < 8 implies t[k] == s@[pos + k] by {}
        assert(be64_at(t, 0) == be64_at(s@, pos as int));
    }
    if n < 100 || n > (end - pos - 8) as u64 {
        return None;
    }
    let body_start = pos + 8;
    let body_end = body_start + n as usize;
    let b = Ghost(t.subrange(8, 8 + n as int));
    assert(b@.subrange(100, n as int) =~= s@.subrange(body_start + 100, body_end as int));
    let ops = match decode_ops(s, body_start + 100, body_end) {
        Some(ops) => ops,
        None => {
            return None;
        },
    };
    let chunk = CgDeltaChunk {
        node: hash_at(s, body_start),
        p1: hash_at(s, body_start + 20),
        p2: hash_at(s, body_start + 40),
        base: hash_at(s, body_start + 60),
        linknode: hash_at(s, body_start + 80),
        delta: Delta { ops },
    };
    proof {
        assert(b@.subrange(0, 20) =~= s@.subrange(body_start as int, body_start + 20));
        assert(b@.subrange(20, 40) =~= s@.subrange(body_start + 20, body_start + 40));
        assert(b@.subrange(40, 60) =~= s@.subrange(body_start + 40, body_start + 60));
        assert(b@.subrange(60, 80) =~= s@.subrange(body_start + 60, body_start + 80));
        assert(b@.subrange(80, 100) =~= s@.subrange(body_start + 80, body_start + 100));
    }
    Some((chunk, body_end))
}

/// Reads a changeset section that fills `s` exactly.
pub fn decode_changeset_section(s: &[u8]) -> (r: Option<Vec<CgDeltaChunk>>)
    ensures
        match parse_section(s@) {
            None => r is None,
            Some(v) => r matches Some(w) && chunks_view(w@) == v && forall|i: int|
                0 <= i < w@.len() ==> (#[trigger] w@[i]).wf(),
        },
{
    let end = s.len();
    let mut out: Vec<CgDeltaChunk> = Vec::new();
    let mut pos: usize = 0;
    assert(chunks_view(out@) =~= Seq::<ChunkView>::empty());
    assert(s@.subrange(0, end as int) =~= s@);
    loop
        invariant
            pos <= end,
            end == s@.len(),
            forall|i: int| 0 <= i < out@.len() ==> (#[trigger] out@[i]).wf(),
            match parse_section(s@.subrange(pos as int, end as int)) {
                None => parse_section(s@) is None,
                Some(rest) => parse_section(s@) == Some(chunks_view(out@) + rest),
            },
        decreases end - pos,
    {
        let ghost t = s@.subrange(pos as int, end as int);
        if end - pos >= 8 {
            let n = read_be64(s, pos);
            proof {
                assert forall|k: int| 0 <= k < 8 implies t[k] == s@[pos + k] by {}
                assert(be64_at(t, 0) == be64_at(s@, pos as int));
            }
            if n == 0 {
                if end - pos == 8 {
                    assert(chunks_view(out@) + Seq::<ChunkView>::empty() =~= chunks_view(out@));
                    return Some(out);
                }
                return None;
            }
        }
        proof {
            lemma_parse_chunk_length(t);
        }
        match decode_chunk(s, pos) {
            None => {
                return None;
            },
            Some((chunk, next)) => {
                proof {
                    assert(t.subrange(next - pos, t.len() as int) =~= s@.subrange(next as int, end as int));
                }
                let ghost before = out@;
                out.push(chunk);
                proof {
                    assert(chunks_view(out@) =~= chunks_view(before).push(chunk_view(chunk)));
                    match parse_section(s@.subrange(next as int, end as int)) {
                        None => {},
                        Some(rest) => {
                            assert(chunks_view(before) + (seq![chunk_view(chunk)] + rest)
                                =~= chunks_view(out@) + rest);
                        },
                    }
                }
                pos = next;
            },
        }
    }
}

proof fn lemma_same_ops_view(base: Seq<u8>, a: Seq<DeltaOp>, b: Seq<DeltaOp>)
    requires
        ops_view(a) == ops_view(b),
    ensures
        delta_fits(base, a) == delta_fits(base, b),
        apply_ops(base, a) == apply_ops(base, b),
    decreases a.len(),
{
    assert(a.len() == ops_view(a).len() && b.len() == ops_view(b).len());
    assert forall|i: int| 0 <= i < a.len() implies op_view(#[trigger] a[i]) == op_view(b[i]) by {
        assert(op_view(a[i]) == ops_view(a)[i]);
        assert(op_view(b[i]) == ops_view(b)[i]);
    }
    if a.len() > 0 {
        assert(ops_view(a.drop_last()) =~= ops_view(b.drop_last())) by {
            assert forall|i: int| 0 <= i < a.len() - 1 implies ops_view(a.drop_last())[i] == ops_view(
                b.drop_last(),
            )[i] by {
                assert(ops_view(a)[i] == ops_view(b)[i]);
            }
        }
        lemma_same_ops_view(base, a.drop_last(), b.drop_last());
        assert(op_view(a.last()) == ops_view(a)[a.len() - 1]);
        assert(op_view(b.last()) == ops_view(b)[b.len() - 1]);
        assert(delta_fits(base, a) == delta_fits(base, b)) by {
            if delta_fits(base, a) {
                assert forall|i: int| 0 <= i < b.len() implies op_fits(base, #[trigger] b[i]) by {
                    assert(op_fits(base, a[i]));
                }
            }
            if delta_fits(base, b) {
                assert forall|i: int| 0 <= i < a.len() implies op_fits(base, #[trigger] a[i]) by {
                    assert(op_fits(base, b[i]));
                }
            }
        }
    }
}

/// Chunks with the same wire content decode alike.
proof fn lemma_same_view_same_decoding(c1: CgDeltaChunk, c2: CgDeltaChunk)
    requires
        chunk_view(c1) == chunk_view(c2),
    ensures
        changeset_chunk_defect(c1) == changeset_chunk_defect(c2),
        changeset_chunk_object(c1) == changeset_chunk_object(c2),
{
    lemma_same_ops_view(Seq::empty(), c1.delta.ops@, c2.delta.ops@);
}

/// Objects sent as a changegroup's changeset section and read back from
/// its bytes decode to the same objects under the same nodes, in order:
/// `sent` are the chunks that the changegroup encoder wrote for `entries`,
/// and `received` what reading the section's bytes gives.
pub proof fn lemma_wire_round_trip(
    entries: Seq<(HgNodeHash, HgBlobNode)>,
    sent: Seq<CgDeltaChunk>,
    received: Seq<CgDeltaChunk>,
)
    requires
        sent.len() == entries.len(),
        forall|i: int|
            0 <= i < entries.len() ==> is_canonical(#[trigger] entries[i].1) && encodes_as(
                entries[i].0,
                entries[i].1,
                sent[i],
            ) && chunk_encodable(chunk_view(sent[i])),
        parse_section(section_bytes(chunks_view(sent))) == Some(chunks_view(received)),
    ensures
        received.len() == entries.len(),
        forall|i: int|
            0 <= i < received.len() ==> (#[trigger] changeset_chunk_defect(received[i])) is None
                && received[i].node@ == entries[i].0@ && changeset_chunk_object(received[i])
                == entries[i].1@,
{
    let v = chunks_view(sent);
    assert forall|i: int| 0 <= i < v.len() implies chunk_encodable(#[trigger] v[i]) by {
        assert(is_canonical(entries[i].1));
    }
    lemma_section_round_trip(v);
    assert(chunks_view(received) == v);
    assert(received.len() == chunks_view(received).len());
    assert forall|i: int| 0 <= i < received.len() implies (#[trigger] changeset_chunk_defect(
        received[i],
    )) is None && received[i].node@ == entries[i].0@ && changeset_chunk_object(received[i])
        == entries[i].1@ by {
        assert(chunks_view(received)[i] == v[i]);
        assert(is_canonical(entries[i].1));
        lemma_changegroup_chunk_round_trip(entries[i].0, entries[i].1, sent[i]);
        lemma_same_view_same_decoding(received[i], sent[i]);
    }
}

/// Why an inbound changeset section was refused.
#[derive(Clone, Copy, Debug, PartialEq, Eq)]
pub enum ChangegroupError {
    /// The bytes are not a changeset section.
    Malformed,
    /// A chunk breaks the rules of the changeset section.
    Chunk(DecodeError),
}

/// `r` is what decoding the changeset chunks `chunks` gives: the node and
/// object of each, in order, or the first refused chunk and why.
pub open spec fn decodes_to(
    chunks: Seq<CgDeltaChunk>,
    r: Result<Vec<(HgNodeHash, HgBlobNode)>, ChangegroupError>,
) -> bool {
    &&& (r is Ok <==> forall|i: int|
        0 <= i < chunks.len() ==> (#[trigger] changeset_chunk_defect(chunks[i])) is None)
    &&& (r matches Ok(v) ==> v@.len() == chunks.len() && forall|i: int|
        0 <= i < v@.len() ==> (#[trigger] v@[i]).0@ == chunks[i].node@ && v@[i].1@
            == changeset_chunk_object(chunks[i]) && v@[i].1.wf())
    &&& (r matches Err(ChangegroupError::Chunk(e)) ==> 0 <= e.index < chunks.len()
        && changeset_chunk_defect(chunks[e.index as int]) is Some && forall|j: int|
        0 <= j < e.index ==> (#[trigger] changeset_chunk_defect(chunks[j])) is None)
    &&& !(r matches Err(ChangegroupError::Malformed))
}

proof fn lemma_decodes_to_by_view(a: Seq<CgDeltaChunk>, b: Seq<CgDeltaChunk>, r: Result<Vec<(HgNodeHash, HgBlobNode)>, ChangegroupError>)
    requires
        chunks_view(a) == chunks_view(b),
        decodes_to(a, r),
    ensures
        decodes_to(b, r),
{
    assert(a.len() == chunks_view(a).len() && b.len() == chunks_view(b).len());
    assert forall|i: int| 0 <= i < a.len() implies changeset_chunk_defect(#[trigger] a[i])
        == changeset_chunk_defect(b[i]) && changeset_chunk_object(a[i]) == changeset_chunk_object(
        b[i],
    ) && a[i].node@ == b[i].node@ by {
        assert(chunks_view(a)[i] == chunk_view(a[i]));
        assert(chunks_view(b)[i] == chunk_view(b[i]));
        lemma_same_view_same_decoding(a[i], b[i]);
    }
    if r is Ok {
        assert forall|i: int| 0 <= i < b.len() implies (#[trigger] changeset_chunk_defect(b[i])) is None by {
            assert(changeset_chunk_defect(a[i]) is None);
        }
    } else {
        let k = choose|k: int| 0 <= k < a.len() && (#[trigger] changeset_chunk_defect(a[k])) is Some;
        assert(changeset_chunk_defect(b[k]) is Some);
    }
    if let Err(ChangegroupError::Chunk(e)) = r {
        assert forall|j: int| 0 <= j < e.index implies (#[trigger] changeset_chunk_defect(b[j])) is None by {
            assert(changeset_chunk_defect(a[j]) is None);
        }
    }
}

/// Decodes an inbound changeset section: refuses bytes that are not one,
/// then decodes its chunks as the changeset section requires, aborting at
/// the first refused chunk. Decoding depends on the chunks' wire content
/// alone, so the result is stated for every chunk sequence with the
/// content that the bytes hold.
pub fn decode_changegroup(s: &[u8]) -> (r: Result<Vec<(HgNodeHash, HgBlobNode)>, ChangegroupError>)
    ensures
        parse_section(s@) is None <==> r matches Err(ChangegroupError::Malformed),
        parse_section(s@) matches Some(cs) ==> forall|chunks: Seq<CgDeltaChunk>|
            #[trigger] chunks_view(chunks) == cs ==> decodes_to(chunks, r),
{
    let received = match decode_changeset_section(s) {
        None => {
            return Err(ChangegroupError::Malformed);
        },
        Some(v) => v,
    };
    let mut out: Vec<(HgNodeHash, HgBlobNode)> = Vec::new();
    let mut i: usize = 0;
    while i < received.len()
        invariant
            i <= received@.len(),
            parse_section(s@) == Some(chunks_view(received@)),
            forall|j: int| 0 <= j < received@.len() ==> (#[trigger] received@[j]).wf(),
            forall|j: int| 0 <= j < i ==> (#[trigger] changeset_chunk_defect(received@[j])) is None,
            out@.len() == i,
            forall|j: int|
                0 <= j < i ==> (#[trigger] out@[j]).0@ == received@[j].node@ && out@[j].1@
                    == changeset_chunk_object(received@[j]) && out@[j].1.wf(),
        decreases received@.len() - i,
    {
        match decode_changeset_chunk(&received[i]) {
            Ok(pair) => {
                out.push(pair);
            },
            Err(defect) => {
                let r = Err(ChangegroupError::Chunk(DecodeError { index: i, defect }));
                proof {
                    assert(decodes_to(received@, r));
                    assert forall|chunks: Seq<CgDeltaChunk>|
                        #[trigger] chunks_view(chunks) == chunks_view(received@) implies decodes_to(
                        chunks,
                        r,
                    ) by {
                        lemma_decodes_to_by_view(received@, chunks, r);
                    }
                }
                return r;
            },
        }
        i = i + 1;
    }
    let r = Ok(out);
    proof {
        assert(decodes_to(received@, r));
        assert forall|chunks: Seq<CgDeltaChunk>|
            #[trigger] chunks_view(chunks) == chunks_view(received@) implies decodes_to(chunks, r) by {
            lemma_decodes_to_by_view(received@, chunks, r);
        }
    }
    r
}

} // verus!
