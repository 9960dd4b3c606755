//! Wire delta chunks and the decoder that turns a stream of them into
//! canonical objects.

use vstd::prelude::*;
use crate::byteseq::copy_bytes;
use crate::delta::{apply, apply_ops, delta_fits, first_misfit, Delta, DeltaError};
use crate::hash::{compute_node_hash, null_hash, node_hash_of, HgNodeHash};

verus! {

/// One wire unit: a revision encoded as a delta against `base`.
#[derive(Clone, Debug, PartialEq, Eq)]
pub struct CgDeltaChunk {
    pub node: HgNodeHash,
    pub p1: HgNodeHash,
    pub p2: HgNodeHash,
    pub base: HgNodeHash,
    pub linknode: HgNodeHash,
    pub delta: Delta,
}

impl CgDeltaChunk {
    /// Every hash of the chunk is 20 bytes long.
    pub open spec fn wf(&self) -> bool {
        self.node.wf() && self.p1.wf() && self.p2.wf() && self.base.wf() && self.linknode.wf()
    }
}

/// A changeset chunk of the changeset section.
#[derive(Clone, Debug, PartialEq, Eq)]
pub struct ChangesetDeltaed {
    pub chunk: CgDeltaChunk,
}

/// A canonical object: parents (absent rather than null) and raw content.
#[derive(Clone, Debug)]
pub struct HgBlobNode {
    pub p1: Option<HgNodeHash>,
    pub p2: Option<HgNodeHash>,
    pub content: Vec<u8>,
}

/// The mathematical content of a canonical object.
pub struct BlobNodeView {
    pub p1: Option<Seq<u8>>,
    pub p2: Option<Seq<u8>>,
    pub content: Seq<u8>,
}

pub open spec fn opt_view(h: Option<HgNodeHash>) -> Option<Seq<u8>> {
    match h {
        Some(x) => Some(x@),
        None => None,
    }
}

impl View for HgBlobNode {
    type V = BlobNodeView;

    open spec fn view(&self) -> BlobNodeView {
        BlobNodeView { p1: opt_view(self.p1), p2: opt_view(self.p2), content: self.content@ }
    }
}

impl HgBlobNode {
    /// Every parent present is a 20-byte hash.
    pub open spec fn wf(&self) -> bool {
        (self.p1 matches Some(h) ==> h.wf()) && (self.p2 matches Some(h) ==> h.wf())
    }

    /// The node hash of this object.
    pub fn node_id(&self) -> (r: HgNodeHash)
        requires
            self.wf(),
        ensures
            r@ == node_hash_of(self.p1, self.p2, self.content@),
            r.wf(),
    {
        compute_node_hash(&self.p1, &self.p2, self.content.as_slice())
    }
}

/// A copy of an optional hash.
pub fn copy_opt_hash(h: &Option<HgNodeHash>) -> (r: Option<HgNodeHash>)
    ensures
        opt_view(r) == opt_view(*h),
        (h matches Some(x) ==> x.wf()) ==> (r matches Some(y) ==> y.wf()),
{
    match h {
        Some(x) => Some(x.copied()),
        None => None,
    }
}

/// A wire parent as a canonical parent: the null sentinel means none.
pub open spec fn parent_of_wire(h: Seq<u8>) -> Option<Seq<u8>> {
    if h == null_hash() {
        None
    } else {
        Some(h)
    }
}

/// Why a chunk was refused.
#[derive(Clone, Copy, Debug, PartialEq, Eq)]
pub enum ChunkDefect {
    /// A changeset chunk whose base is not the null sentinel.
    BaseNotNull,
    /// A changeset chunk whose node differs from its linknode.
    NodeNotLinknode,
    /// A base that is neither null nor a revision decoded earlier in the stream.
    UnknownBase,
    /// The delta copies outside its base.
    BadDelta(DeltaError),
}

/// A refused chunk: its position in the stream and why.
#[derive(Clone, Copy, Debug, PartialEq, Eq)]
pub struct DecodeError {
    pub index: usize,
    pub defect: ChunkDefect,
}

/// The defect of a changeset chunk, if any, checked in this order: base,
/// linknode, delta against the empty base.
pub open spec fn changeset_chunk_defect(c: CgDeltaChunk) -> Option<ChunkDefect> {
    if c.base@ != null_hash() {
        Some(ChunkDefect::BaseNotNull)
    } else if c.node@ != c.linknode@ {
        Some(ChunkDefect::NodeNotLinknode)
    } else if !delta_fits(Seq::empty(), c.delta.ops@) {
        Some(ChunkDefect::BadDelta(arbitrary()))
    } else {
        None
    }
}

/// The canonical object a valid changeset chunk decodes to.
pub open spec fn changeset_chunk_object(c: CgDeltaChunk) -> BlobNodeView {
    BlobNodeView {
        p1: parent_of_wire(c.p1@),
        p2: parent_of_wire(c.p2@),
        content: apply_ops(Seq::empty(), c.delta.ops@),
    }
}

/// Where a chunk of a decoded stream failed: `k` is the first chunk with a defect.
pub open spec fn first_bad_changeset(chunks: Seq<ChangesetDeltaed>, k: int) -> bool {
    0 <= k < chunks.len() && changeset_chunk_defect(chunks[k].chunk) is Some && forall|j: int|
        0 <= j < k ==> (#[trigger] changeset_chunk_defect(chunks[j].chunk)) is None
}

/// A chunk's wire parent as a canonical parent.
fn wire_parent(h: &HgNodeHash) -> (r: Option<HgNodeHash>)
    requires
        h.wf(),
    ensures
        opt_view(r) == parent_of_wire(h@),
        r matches Some(x) ==> x.wf(),
{
    if h.is_null() {
        None
    } else {
        Some(h.copied())
    }
}

/// Decodes one changeset chunk.
pub fn decode_changeset_chunk(c: &CgDeltaChunk) -> (r: Result<(HgNodeHash, HgBlobNode), ChunkDefect>)
    requires
        c.wf(),
    ensures
        r is Ok <==> changeset_chunk_defect(*c) is None,
        r matches Ok((n, o)) ==> n@ == c.node@ && o@ == changeset_chunk_object(*c) && o.wf(),
        r matches Err(d) ==> match changeset_chunk_defect(*c) {
            Some(ChunkDefect::BadDelta(_)) => d matches ChunkDefect::BadDelta(e) && first_misfit(
                Seq::empty(),
                c.delta.ops@,
                e.op_index as int,
            ),
            Some(e) => d == e,
            None => false,
        },
{
    if !c.base.is_null() {
        return Err(ChunkDefect::BaseNotNull);
    }
    if !(c.node == c.linknode) {
        return Err(ChunkDefect::NodeNotLinknode);
    }
    let empty: Vec<u8> = Vec::new();
    let content = match apply(empty.as_slice(), &c.delta) {
        Ok(v) => v,
        Err(e) => {
            return Err(ChunkDefect::BadDelta(e));
        },
    };
    Ok((c.node.copied(), HgBlobNode { p1: wire_parent(&c.p1), p2: wire_parent(&c.p2), content }))
}

/// Decodes the changeset section of a changegroup: each chunk must have a
/// null base and equal node and linknode; the first chunk that breaks this,
/// or whose delta does not apply, aborts the whole stream.
pub fn convert_to_revlog_changesets(deltaed: &Vec<ChangesetDeltaed>) -> (r: Result<
    Vec<(HgNodeHash, HgBlobNode)>,
    DecodeError,
>)
    requires
        forall|i: int| 0 <= i < deltaed@.len() ==> (#[trigger] deltaed@[i]).chunk.wf(),
    ensures
        r is Ok <==> forall|i: int|
            0 <= i < deltaed@.len() ==> (#[trigger] changeset_chunk_defect(deltaed@[i].chunk)) is None,
        r matches Ok(v) ==> v@.len() == deltaed@.len() && forall|i: int|
            0 <= i < v@.len() ==> (#[trigger] v@[i]).0@ == deltaed@[i].chunk.node@ && v@[i].1@
                == changeset_chunk_object(deltaed@[i].chunk) && v@[i].1.wf(),
        r matches Err(e) ==> first_bad_changeset(deltaed@, e.index as int),
{
    let mut out: Vec<(HgNodeHash, HgBlobNode)> = Vec::new();
    let mut i: usize = 0;
    while i < deltaed.len()
        invariant
            i <= deltaed@.len(),
            forall|j: int| 0 <= j < deltaed@.len() ==> (#[trigger] deltaed@[j]).chunk.wf(),
            forall|j: int| 0 <= j < i ==> (#[trigger] changeset_chunk_defect(deltaed@[j].chunk)) is None,
            out@.len() == i,
            forall|j: int|
                0 <= j < i ==> (#[trigger] out@[j]).0@ == deltaed@[j].chunk.node@ && out@[j].1@
                    == changeset_chunk_object(deltaed@[j].chunk) && out@[j].1.wf(),
        decreases deltaed@.len() - i,
    {
        match decode_changeset_chunk(&deltaed[i].chunk) {
            Ok(pair) => {
                out.push(pair);
            },
            Err(defect) => {
                return Err(DecodeError { index: i, defect });
            },
        }
        i = i + 1;
    }
    Ok(out)
}

/// A section of a changegroup.
#[derive(Clone, Copy, Debug, PartialEq, Eq, Structural)]
pub enum Section {
    Changeset,
    Manifest,
}

/// One element of a changegroup stream.
#[derive(Clone, Debug, PartialEq, Eq)]
pub enum Part {
    CgChunk(Section, CgDeltaChunk),
    SectionEnd(Section),
    End,
}

/// A decoded manifest or file revision.
#[derive(Clone, Debug)]
pub struct DecodedEntry {
    pub node: HgNodeHash,
    pub linknode: HgNodeHash,
    pub object: HgBlobNode,
}

/// The (node, content) pairs of decoded revisions, in stream order.
pub open spec fn decoded_contents(out: Seq<DecodedEntry>) -> Seq<(Seq<u8>, Seq<u8>)> {
    Seq::new(out.len(), |i: int| (out[i].node@, out[i].object.content@))
}

/// The content of the most recent revision decoded as `base`, if any.
pub open spec fn lookup_base(done: Seq<(Seq<u8>, Seq<u8>)>, base: Seq<u8>) -> Option<Seq<u8>>
    decreases done.len(),
{
    if done.len() == 0 {
        None
    } else if done.last().0 == base {
        Some(done.last().1)
    } else {
        lookup_base(done.drop_last(), base)
    }
}

/// The content a chunk's delta applies to: empty for a null base, else the
/// revision decoded earlier under that hash.
pub open spec fn base_content(done: Seq<(Seq<u8>, Seq<u8>)>, c: CgDeltaChunk) -> Option<Seq<u8>> {
    if c.base@ == null_hash() {
        Some(Seq::empty())
    } else {
        lookup_base(done, c.base@)
    }
}

/// Decodes a stream of manifest or file chunks: the (node, content) pairs,
/// or the index of the first refused chunk and whether its base was unknown
/// (rather than its delta not fitting).
pub open spec fn decode_entries(chunks: Seq<CgDeltaChunk>) -> Result<
    Seq<(Seq<u8>, Seq<u8>)>,
    (int, bool),
>
    decreases chunks.len(),
{
    if chunks.len() == 0 {
        Ok(Seq::empty())
    } else {
        match decode_entries(chunks.drop_last()) {
            Err(e) => Err(e),
            Ok(done) => {
                let c = chunks.last();
                match base_content(done, c) {
                    None => Err((chunks.len() - 1, true)),
                    Some(b) => if delta_fits(b, c.delta.ops@) {
                        Ok(done.push((c.node@, apply_ops(b, c.delta.ops@))))
                    } else {
                        Err((chunks.len() - 1, false))
                    },
                }
            },
        }
    }
}

/// A refusal in a prefix of the stream is the refusal of the whole stream.
proof fn lemma_decode_error_extends(chunks: Seq<CgDeltaChunk>, k: int)
    requires
        0 <= k <= chunks.len(),
        decode_entries(chunks.subrange(0, k)) is Err,
    ensures
        decode_entries(chunks) == decode_entries(chunks.subrange(0, k)),
    decreases chunks.len() - k,
{
    if k < chunks.len() {
        let next = chunks.subrange(0, k + 1);
        assert(next.drop_last() =~= chunks.subrange(0, k));
        lemma_decode_error_extends(chunks, k + 1);
    } else {
        assert(chunks.subrange(0, k) =~= chunks);
    }
}

/// The position of the most recent decoded revision named `base`.
fn find_base(out: &Vec<DecodedEntry>, base: &HgNodeHash) -> (r: Option<usize>)
    ensures
        match r {
            Some(j) => j < out@.len() && lookup_base(decoded_contents(out@), base@) == Some(
                out@[j as int].object.content@,
            ),
            None => lookup_base(decoded_contents(out@), base@) is None,
        },
{
    let ghost dv = decoded_contents(out@);
    let mut j: usize = out.len();
    assert(dv.subrange(0, j as int) =~= dv);
    while j > 0
        invariant
            j <= out@.len(),
            dv == decoded_contents(out@),
            lookup_base(dv, base@) == lookup_base(dv.subrange(0, j as int), base@),
        decreases j,
    {
        let ghost pre = dv.subrange(0, j as int);
        assert(pre.last() == dv[j - 1]);
        if out[j - 1].node == *base {
            return Some(j - 1);
        }
        assert(pre.drop_last() =~= dv.subrange(0, j - 1));
        j = j - 1;
    }
    None
}

/// Decodes the manifest or file section of a changegroup. A chunk with a
/// null base is a fulltext; any other base must name a revision decoded
/// earlier in the same stream. The first chunk whose base is unknown, or
/// whose delta does not fit its base, aborts the whole stream.
pub fn convert_to_revlog_entries(chunks: &Vec<CgDeltaChunk>) -> (r: Result<
    Vec<DecodedEntry>,
    DecodeError,
>)
    requires
        forall|i: int| 0 <= i < chunks@.len() ==> (#[trigger] chunks@[i]).wf(),
    ensures
        r is Ok <==> decode_entries(chunks@) is Ok,
        r matches Ok(v) ==> v@.len() == chunks@.len() && decode_entries(chunks@) == Ok::<
            Seq<(Seq<u8>, Seq<u8>)>,
            (int, bool),
        >(decoded_contents(v@)) && forall|i: int|
            0 <= i < v@.len() ==> (#[trigger] v@[i]).linknode@ == chunks@[i].linknode@
                && v@[i].object.p1.is_some() == (chunks@[i].p1@ != null_hash())
                && opt_view(v@[i].object.p1) == parent_of_wire(chunks@[i].p1@)
                && opt_view(v@[i].object.p2) == parent_of_wire(chunks@[i].p2@),
        r matches Err(e) ==> decode_entries(chunks@) == Err::<Seq<(Seq<u8>, Seq<u8>)>, (int, bool)>(
            (e.index as int, e.defect is UnknownBase),
        ),
{
    let mut out: Vec<DecodedEntry> = Vec::new();
    let mut i: usize = 0;
    assert(chunks@.subrange(0, 0) =~= Seq::<CgDeltaChunk>::empty());
    assert(decoded_contents(out@) =~= Seq::<(Seq<u8>, Seq<u8>)>::empty());
    while i < chunks.len()
        invariant
            i <= chunks@.len(),
            forall|j: int| 0 <= j < chunks@.len() ==> (#[trigger] chunks@[j]).wf(),
            out@.len() == i,
            decode_entries(chunks@.subrange(0, i as int)) == Ok::<
                Seq<(Seq<u8>, Seq<u8>)>,
                (int, bool),
            >(decoded_contents(out@)),
            forall|j: int|
                0 <= j < i ==> (#[trigger] out@[j]).linknode@ == chunks@[j].linknode@
                    && out@[j].object.p1.is_some() == (chunks@[j].p1@ != null_hash())
                    && opt_view(out@[j].object.p1) == parent_of_wire(chunks@[j].p1@)
                    && opt_view(out@[j].object.p2) == parent_of_wire(chunks@[j].p2@),
        decreases chunks@.len() - i,
    {
        let c = &chunks[i];
        let ghost pre = chunks@.subrange(0, i as int);
        let ghost next = chunks@.subrange(0, i + 1);
        assert(next.drop_last() =~= pre);
        assert(next.last() == *c);
        let applied = if c.base.is_null() {
            let empty: Vec<u8> = Vec::new();
            apply(empty.as_slice(), &c.delta)
        } else {
            match find_base(&out, &c.base) {
                None => {
                    proof {
                        lemma_decode_error_extends(chunks@, i + 1);
                    }
                    return Err(DecodeError { index: i, defect: ChunkDefect::UnknownBase });
                },
                Some(j) => apply(out[j].object.content.as_slice(), &c.delta),
            }
        };
        let content = match applied {
            Ok(v) => v,
            Err(e) => {
                proof {
                    lemma_decode_error_extends(chunks@, i + 1);
                }
                return Err(DecodeError { index: i, defect: ChunkDefect::BadDelta(e) });
            },
        };
        let ghost before = out@;
        out.push(
            DecodedEntry {
                node: c.node.copied(),
                linknode: c.linknode.copied(),
                object: HgBlobNode { p1: wire_parent(&c.p1), p2: wire_parent(&c.p2), content },
            },
        );
        assert(decoded_contents(out@) =~= decoded_contents(before).push(
            (c.node@, out@[i as int].object.content@),
        ));
        i = i + 1;
    }
    assert(chunks@.subrange(0, chunks@.len() as int) =~= chunks@);
    Ok(out)
}

/// A chunk whose base is null, whose node is its linknode and whose delta
/// applies against the empty base is accepted, and decodes to the content
/// that its delta rebuilds from nothing; one with a non-null base, or with a
/// node other than its linknode, is refused.
pub proof fn lemma_changeset_chunk_rules(c: CgDeltaChunk)
    ensures
        c.base@ != null_hash() ==> changeset_chunk_defect(c) == Some(ChunkDefect::BaseNotNull),
        c.base@ == null_hash() && c.node@ != c.linknode@ ==> changeset_chunk_defect(c) == Some(
            ChunkDefect::NodeNotLinknode,
        ),
        c.base@ == null_hash() && c.node@ == c.linknode@ && delta_fits(Seq::empty(), c.delta.ops@)
            ==> changeset_chunk_defect(c) is None && changeset_chunk_object(c).content == apply_ops(
            Seq::empty(),
            c.delta.ops@,
        ),
{
}

} // verus!
