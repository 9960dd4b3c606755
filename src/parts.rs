//! The bundle part encoder: key listings, changegroups, tree packs and
//! replies, each built as a part header with parameters and a payload.

use vstd::prelude::*;
use crate::byteseq::{append_bytes, copy_bytes};
use crate::changegroup::{
    changeset_chunk_defect, changeset_chunk_object, opt_view, parent_of_wire, CgDeltaChunk,
    ChangesetDeltaed, HgBlobNode, Part, Section,
};
use crate::delta::{apply_ops, delta_fits, lemma_fulltext_ignores_base, Delta, DeltaOp};
use crate::hash::{null_hash, parent_or_null, HgNodeHash};
use crate::path::{join_element_opt, joined_names, MPath, MPathElement, RepoPath};

verus! {

/// The kind of a bundle part.
#[derive(Clone, Copy, Debug, PartialEq, Eq, Structural)]
pub enum PartHeaderType {
    Listkeys,
    Changegroup,
    B2xTreegroup2,
    ReplyChangegroup,
    ReplyPushkey,
}

/// The name of a part parameter.
#[derive(Clone, Copy, Debug, PartialEq, Eq, Structural)]
pub enum PartParam {
    Namespace,
    Version,
    Cache,
    Category,
    Return,
    InReplyTo,
}

/// What a part carries after its header.
#[derive(Clone, Debug)]
pub enum PartData {
    /// No payload.
    Empty,
    /// Raw payload bytes.
    Payload(Vec<u8>),
    /// A changegroup stream.
    Changegroup(Vec<Part>),
    /// A tree pack stream.
    Treepack(Vec<WirepackPart>),
}

/// The history record of one tree revision.
#[derive(Clone, Debug, PartialEq, Eq)]
pub struct HistoryEntry {
    pub node: HgNodeHash,
    pub p1: HgNodeHash,
    pub p2: HgNodeHash,
    pub linknode: HgNodeHash,
    pub copy_from: Option<MPath>,
}

/// The data record of one tree revision.
#[derive(Clone, Debug, PartialEq, Eq)]
pub struct DataEntry {
    pub node: HgNodeHash,
    pub delta_base: HgNodeHash,
    pub delta: Delta,
}

/// One element of a tree pack stream.
#[derive(Clone, Debug, PartialEq, Eq)]
pub enum WirepackPart {
    HistoryMeta { path: RepoPath, entry_count: u32 },
    History(HistoryEntry),
    DataMeta { path: RepoPath, entry_count: u32 },
    Data(DataEntry),
    End,
}

/// One tree revision to send in a tree pack.
#[derive(Clone, Debug)]
pub struct TreepackPartInput {
    pub node: HgNodeHash,
    pub p1: Option<HgNodeHash>,
    pub p2: Option<HgNodeHash>,
    pub content: Vec<u8>,
    pub name: Option<MPathElement>,
    pub linknode: HgNodeHash,
    pub basepath: Option<MPath>,
}

/// A part under construction: header type, whether the peer must
/// understand it, mandatory parameters in order, and its data.
#[derive(Clone, Debug)]
pub struct PartEncodeBuilder {
    pub part_type: PartHeaderType,
    pub mandatory: bool,
    pub mparams: Vec<(PartParam, Vec<u8>)>,
    pub data: PartData,
}

/// The parameters of a part as (name, value) pairs.
pub open spec fn params_view(ps: Seq<(PartParam, Vec<u8>)>) -> Seq<(PartParam, Seq<u8>)> {
    Seq::new(ps.len(), |i: int| (ps[i].0, ps[i].1@))
}

impl PartEncodeBuilder {
    /// A mandatory part of the given type, with no parameters and no data.
    pub fn mandatory(part_type: PartHeaderType) -> (r: PartEncodeBuilder)
        ensures
            r.part_type == part_type,
            r.mandatory,
            r.mparams@.len() == 0,
            r.data is Empty,
    {
        PartEncodeBuilder { part_type, mandatory: true, mparams: Vec::new(), data: PartData::Empty }
    }

    /// Adds a mandatory parameter after those already there.
    pub fn add_mparam(&mut self, key: PartParam, value: Vec<u8>)
        ensures
            final(self).part_type == old(self).part_type,
            final(self).mandatory == old(self).mandatory,
            final(self).data == old(self).data,
            params_view(final(self).mparams@) == params_view(old(self).mparams@).push((key, value@)),
    {
        let ghost before = self.mparams@;
        let ghost v = value@;
        self.mparams.push((key, value));
        assert(params_view(self.mparams@) =~= params_view(before).push((key, v)));
    }
}

/// The ASCII decimal digits of `n`.
pub open spec fn digits_of(n: nat) -> Seq<u8>
    decreases n,
{
    if n < 10 {
        seq![(48 + n) as u8]
    } else {
        digits_of(n / 10).push((48 + n % 10) as u8)
    }
}

/// The ASCII decimal text of `n`, with a leading `-` when negative.
pub open spec fn decimal_of(n: int) -> Seq<u8> {
    if n < 0 {
        seq![45u8] + digits_of((-n) as nat)
    } else {
        digits_of(n as nat)
    }
}

fn push_digits(out: &mut Vec<u8>, n: u64)
    ensures
        final(out)@ == old(out)@ + digits_of(n as nat),
    decreases n,
{
    let ghost start = out@;
    if n >= 10 {
        push_digits(out, n / 10);
    }
    out.push(48u8 + (n % 10) as u8);
    assert(out@ =~= start + digits_of(n as nat));
}

/// The ASCII decimal text of `n`.
pub fn decimal_u64(n: u64) -> (r: Vec<u8>)
    ensures
        r@ == decimal_of(n as int),
{
    let mut out: Vec<u8> = Vec::new();
    push_digits(&mut out, n);
    assert(out@ =~= digits_of(n as nat));
    out
}

/// The outcome of applying a pushed changegroup.
#[derive(Clone, Copy, Debug, PartialEq, Eq, Structural)]
pub enum ChangegroupApplyResult {
    Success { heads_num_diff: i64 },
    Error,
}

/// The status integer of an outcome: 0 for an error; for success,
/// `1 + diff` when the head count grew or stayed, `-1 + diff` when it fell.
pub open spec fn apply_status(r: ChangegroupApplyResult) -> int {
    match r {
        ChangegroupApplyResult::Success { heads_num_diff } => if heads_num_diff >= 0 {
            1 + heads_num_diff
        } else {
            -1 + heads_num_diff
        },
        ChangegroupApplyResult::Error => 0,
    }
}

impl ChangegroupApplyResult {
    /// The status integer as sent on the wire, in ASCII decimal.
    pub fn to_status_text(&self) -> (r: Vec<u8>)
        ensures
            r@ == decimal_of(apply_status(*self)),
    {
        match self {
            ChangegroupApplyResult::Success { heads_num_diff } => {
                let d = *heads_num_diff;
                if d >= 0 {
                    decimal_u64(d as u64 + 1)
                } else {
                    let magnitude: u64 = (-(d as i128)) as u64 + 1;
                    let mut out: Vec<u8> = Vec::new();
                    out.push(45u8);
                    push_digits(&mut out, magnitude);
                    assert(out@ =~= seq![45u8] + digits_of(magnitude as nat));
                    out
                }
            },
            ChangegroupApplyResult::Error => decimal_u64(0),
        }
    }
}

/// The reply to a pushed changegroup: its status and the request it answers.
pub fn replychangegroup_part(res: ChangegroupApplyResult, in_reply_to: u32) -> (r: PartEncodeBuilder)
    ensures
        r.part_type == PartHeaderType::ReplyChangegroup,
        r.mandatory,
        r.data is Empty,
        params_view(r.mparams@) == seq![
            (PartParam::Return, decimal_of(apply_status(res))),
            (PartParam::InReplyTo, decimal_of(in_reply_to as int)),
        ],
{
    let mut builder = PartEncodeBuilder::mandatory(PartHeaderType::ReplyChangegroup);
    assert(params_view(builder.mparams@) =~= Seq::<(PartParam, Seq<u8>)>::empty());
    builder.add_mparam(PartParam::Return, res.to_status_text());
    builder.add_mparam(PartParam::InReplyTo, decimal_u64(in_reply_to as u64));
    assert(params_view(builder.mparams@) =~= seq![
        (PartParam::Return, decimal_of(apply_status(res))),
        (PartParam::InReplyTo, decimal_of(in_reply_to as int)),
    ]);
    builder
}

/// The reply to a pushkey request: "1" on success, "0" otherwise, and the
/// request it answers.
pub fn replypushkey_part(res: bool, in_reply_to: u32) -> (r: PartEncodeBuilder)
    ensures
        r.part_type == PartHeaderType::ReplyPushkey,
        r.mandatory,
        r.data is Empty,
        params_view(r.mparams@) == seq![
            (PartParam::Return, if res { seq![49u8] } else { seq![48u8] }),
            (PartParam::InReplyTo, decimal_of(in_reply_to as int)),
        ],
{
    let mut builder = PartEncodeBuilder::mandatory(PartHeaderType::ReplyPushkey);
    assert(params_view(builder.mparams@) =~= Seq::<(PartParam, Seq<u8>)>::empty());
    let mut value: Vec<u8> = Vec::new();
    if res {
        value.push(49u8);
    } else {
        value.push(48u8);
    }
    builder.add_mparam(PartParam::Return, value);
    builder.add_mparam(PartParam::InReplyTo, decimal_u64(in_reply_to as u64));
    assert(params_view(builder.mparams@) =~= seq![
        (PartParam::Return, if res { seq![49u8] } else { seq![48u8] }),
        (PartParam::InReplyTo, decimal_of(in_reply_to as int)),
    ]);
    builder
}

/// The payload of a key listing: each key, a tab, its value, a newline.
pub open spec fn listkey_payload(items: Seq<(Seq<u8>, Seq<u8>)>) -> Seq<u8>
    decreases items.len(),
{
    if items.len() == 0 {
        Seq::empty()
    } else {
        listkey_payload(items.drop_last()) + items.last().0 + seq![9u8] + items.last().1 + seq![10u8]
    }
}

pub open spec fn pairs_view(items: Seq<(Vec<u8>, Vec<u8>)>) -> Seq<(Seq<u8>, Seq<u8>)> {
    Seq::new(items.len(), |i: int| (items[i].0@, items[i].1@))
}

/// A key listing under `namespace`.
pub fn listkey_part(namespace: Vec<u8>, items: &Vec<(Vec<u8>, Vec<u8>)>) -> (r: PartEncodeBuilder)
    ensures
        r.part_type == PartHeaderType::Listkeys,
        r.mandatory,
        params_view(r.mparams@) == seq![(PartParam::Namespace, namespace@)],
        r.data matches PartData::Payload(p) && p@ == listkey_payload(pairs_view(items@)),
{
    let mut builder = PartEncodeBuilder::mandatory(PartHeaderType::Listkeys);
    assert(params_view(builder.mparams@) =~= Seq::<(PartParam, Seq<u8>)>::empty());
    let ghost ns = namespace@;
    builder.add_mparam(PartParam::Namespace, namespace);
    assert(params_view(builder.mparams@) =~= seq![(PartParam::Namespace, ns)]);
    let mut payload: Vec<u8> = Vec::new();
    let mut i: usize = 0;
    assert(pairs_view(items@).subrange(0, 0) =~= Seq::<(Seq<u8>, Seq<u8>)>::empty());
    while i < items.len()
        invariant
            i <= items@.len(),
            payload@ == listkey_payload(pairs_view(items@).subrange(0, i as int)),
        decreases items@.len() - i,
    {
        let ghost before = payload@;
        append_bytes(&mut payload, items[i].0.as_slice());
        payload.push(9u8);
        append_bytes(&mut payload, items[i].1.as_slice());
        payload.push(10u8);
        let ghost next = pairs_view(items@).subrange(0, i + 1);
        assert(next.drop_last() =~= pairs_view(items@).subrange(0, i as int));
        assert(payload@ =~= before + items@[i as int].0@ + seq![9u8] + items@[i as int].1@ + seq![10u8]);
        i = i + 1;
    }
    assert(pairs_view(items@).subrange(0, items@.len() as int) =~= pairs_view(items@));
    builder.data = PartData::Payload(payload);
    builder
}

/// `d` is a fulltext delta of `content`.
pub open spec fn is_fulltext_of(d: Delta, content: Seq<u8>) -> bool {
    d.ops@.len() == 1 && match d.ops@[0] {
        DeltaOp::Insert { data } => data@ == content,
        DeltaOp::Copy { .. } => false,
    }
}

/// `p` is a changeset chunk that sends `obj` under `node`.
pub open spec fn part_encodes(p: Part, node: HgNodeHash, obj: HgBlobNode) -> bool {
    match p {
        Part::CgChunk(Section::Changeset, c) => encodes_as(node, obj, c),
        _ => false,
    }
}

/// `c` is the wire chunk that sends `obj` under `node`: parents as on the
/// object (null for an absent one), a null base, `node` as its own linknode
/// and a fulltext delta of the content.
pub open spec fn encodes_as(node: HgNodeHash, obj: HgBlobNode, c: CgDeltaChunk) -> bool {
    c.wf() && c.node@ == node@ && c.linknode@ == node@ && c.base@ == null_hash() && c.p1@
        == parent_or_null(obj.p1) && c.p2@ == parent_or_null(obj.p2) && is_fulltext_of(
        c.delta,
        obj.content@,
    )
}

/// A canonical object with no null parent.
pub open spec fn is_canonical(obj: HgBlobNode) -> bool {
    obj.wf() && (obj.p1 matches Some(h) ==> h@ != null_hash()) && (obj.p2 matches Some(h) ==> h@
        != null_hash())
}

fn parent_hash(p: &Option<HgNodeHash>) -> (r: HgNodeHash)
    requires
        p matches Some(h) ==> h.wf(),
    ensures
        r@ == parent_or_null(*p),
        r.wf(),
{
    match p {
        Some(h) => h.copied(),
        None => HgNodeHash::null(),
    }
}

fn fulltext_chunk(node: &HgNodeHash, obj: &HgBlobNode) -> (r: CgDeltaChunk)
    requires
        node.wf(),
        obj.wf(),
    ensures
        encodes_as(*node, *obj, r),
{
    CgDeltaChunk {
        node: node.copied(),
        p1: parent_hash(&obj.p1),
        p2: parent_hash(&obj.p2),
        base: HgNodeHash::null(),
        linknode: node.copied(),
        delta: Delta::new_fulltext(copy_bytes(obj.content.as_slice())),
    }
}

/// A changegroup carrying `changelogentries` as fulltext changeset chunks,
/// followed by the end of the changeset section, an empty manifest section
/// (receivers expect one) and the end of the stream.
pub fn changegroup_part(changelogentries: &Vec<(HgNodeHash, HgBlobNode)>) -> (r: PartEncodeBuilder)
    requires
        forall|i: int|
            0 <= i < changelogentries@.len() ==> (#[trigger] changelogentries@[i]).0.wf()
                && changelogentries@[i].1.wf(),
    ensures
        r.part_type == PartHeaderType::Changegroup,
        r.mandatory,
        params_view(r.mparams@) == seq![(PartParam::Version, seq![48u8, 50u8])],
        r.data matches PartData::Changegroup(ps) && ps@.len() == changelogentries@.len() + 3
            && (forall|i: int|
            0 <= i < changelogentries@.len() ==> part_encodes(
                #[trigger] ps@[i],
                changelogentries@[i].0,
                changelogentries@[i].1,
            )) && ps@[ps@.len()
            - 3] == Part::SectionEnd(Section::Changeset) && ps@[ps@.len() - 2] == Part::SectionEnd(
            Section::Manifest,
        ) && ps@[ps@.len() - 1] == Part::End,
{
    let mut builder = PartEncodeBuilder::mandatory(PartHeaderType::Changegroup);
    assert(params_view(builder.mparams@) =~= Seq::<(PartParam, Seq<u8>)>::empty());
    let mut version: Vec<u8> = Vec::new();
    version.push(48u8);
    version.push(50u8);
    assert(version@ =~= seq![48u8, 50u8]);
    builder.add_mparam(PartParam::Version, version);
    assert(params_view(builder.mparams@) =~= seq![(PartParam::Version, seq![48u8, 50u8])]);
    let mut ps: Vec<Part> = Vec::new();
    let mut i: usize = 0;
    while i < changelogentries.len()
        invariant
            i <= changelogentries@.len(),
            forall|j: int|
                0 <= j < changelogentries@.len() ==> (#[trigger] changelogentries@[j]).0.wf()
                    && changelogentries@[j].1.wf(),
            ps@.len() == i,
            forall|j: int|
                0 <= j < i ==> part_encodes(
                    #[trigger] ps@[j],
                    changelogentries@[j].0,
                    changelogentries@[j].1,
                ),
        decreases changelogentries@.len() - i,
    {
        let entry = &changelogentries[i];
        ps.push(Part::CgChunk(Section::Changeset, fulltext_chunk(&entry.0, &entry.1)));
        i = i + 1;
    }
    ps.push(Part::SectionEnd(Section::Changeset));
    ps.push(Part::SectionEnd(Section::Manifest));
    ps.push(Part::End);
    builder.data = PartData::Changegroup(ps);
    builder
}

/// A chunk that the changegroup encoder wrote for a canonical object decodes
/// back to that object under the same node.
pub proof fn lemma_changegroup_chunk_round_trip(node: HgNodeHash, obj: HgBlobNode, c: CgDeltaChunk)
    requires
        encodes_as(node, obj, c),
        is_canonical(obj),
    ensures
        changeset_chunk_defect(c) is None,
        c.node@ == node@,
        changeset_chunk_object(c) == obj@,
{
    let data = match c.delta.ops@[0] {
        DeltaOp::Insert { data } => data,
        DeltaOp::Copy { .. } => c.delta.ops@[0]->Insert_data,
    };
    assert(c.delta.ops@ =~= seq![DeltaOp::Insert { data }]);
    lemma_fulltext_ignores_base(Seq::empty(), data);
    assert(delta_fits(Seq::empty(), c.delta.ops@));
    assert(opt_view(obj.p1) == parent_of_wire(c.p1@));
    assert(opt_view(obj.p2) == parent_of_wire(c.p2@));
}

/// Decoding the changeset chunks that the changegroup encoder wrote for a
/// sequence of canonical objects accepts every chunk and gives back each
/// object under its node, in order.
pub proof fn lemma_changegroup_round_trip(
    entries: Seq<(HgNodeHash, HgBlobNode)>,
    chunks: Seq<ChangesetDeltaed>,
)
    requires
        chunks.len() == entries.len(),
        forall|i: int| 0 <= i < entries.len() ==> is_canonical(#[trigger] entries[i].1),
        forall|i: int|
            0 <= i < entries.len() ==> encodes_as(entries[i].0, entries[i].1, #[trigger] chunks[i].chunk),
    ensures
        forall|i: int|
            0 <= i < chunks.len() ==> (#[trigger] changeset_chunk_defect(chunks[i].chunk)) is None
                && chunks[i].chunk.node@ == entries[i].0@ && changeset_chunk_object(chunks[i].chunk)
                == entries[i].1@,
{
    assert forall|i: int| 0 <= i < chunks.len() implies (#[trigger] changeset_chunk_defect(
        chunks[i].chunk,
    )) is None && chunks[i].chunk.node@ == entries[i].0@ && changeset_chunk_object(chunks[i].chunk)
        == entries[i].1@ by {
        lemma_changegroup_chunk_round_trip(entries[i].0, entries[i].1, chunks[i].chunk);
    }
}

/// `path` is where a tree pack entry for `inp` lives: the root when its
/// base path and name join to nothing, else that directory.
pub open spec fn tree_path_matches(path: RepoPath, inp: TreepackPartInput) -> bool {
    let names = joined_names(inp.basepath, inp.name);
    match path {
        RepoPath::RootPath => names.len() == 0,
        RepoPath::DirectoryPath(p) => names.len() > 0 && p.names() == names,
        RepoPath::FilePath(_) => false,
    }
}

/// `ps[k..k + 4]` are the history meta, history, data meta and data records
/// of `inp`.
pub open spec fn treepack_group(ps: Seq<WirepackPart>, k: int, inp: TreepackPartInput) -> bool {
    &&& match ps[k] {
        WirepackPart::HistoryMeta { path, entry_count } => entry_count == 1 && tree_path_matches(
            path,
            inp,
        ),
        _ => false,
    }
    &&& match ps[k + 1] {
        WirepackPart::History(h) => h.node@ == inp.node@ && h.p1@ == parent_or_null(inp.p1) && h.p2@
            == parent_or_null(inp.p2) && h.linknode@ == inp.linknode@ && h.copy_from is None,
        _ => false,
    }
    &&& match ps[k + 2] {
        WirepackPart::DataMeta { path, entry_count } => entry_count == 1 && tree_path_matches(
            path,
            inp,
        ),
        _ => false,
    }
    &&& match ps[k + 3] {
        WirepackPart::Data(d) => d.node@ == inp.node@ && d.delta_base@ == null_hash()
            && is_fulltext_of(d.delta, inp.content@),
        _ => false,
    }
}

fn tree_path(inp: &TreepackPartInput) -> (r: RepoPath)
    ensures
        tree_path_matches(r, *inp),
{
    match join_element_opt(inp.basepath.as_ref(), inp.name.as_ref()) {
        Some(p) => RepoPath::DirectoryPath(p),
        None => RepoPath::RootPath,
    }
}

/// A tree pack: for each input, in order, its history meta, history, data
/// meta and fulltext data records, then the end marker.
pub fn treepack_part(entries: &Vec<TreepackPartInput>) -> (r: PartEncodeBuilder)
    requires
        forall|i: int|
            0 <= i < entries@.len() ==> (#[trigger] entries@[i]).node.wf() && entries@[i].linknode.wf()
                && (entries@[i].p1 matches Some(h) ==> h.wf()) && (entries@[i].p2 matches Some(h)
                ==> h.wf()),
        4 * entries@.len() + 1 <= usize::MAX,
    ensures
        r.part_type == PartHeaderType::B2xTreegroup2,
        r.mandatory,
        params_view(r.mparams@) == seq![
            (PartParam::Version, seq![49u8]),
            (PartParam::Cache, seq![84u8, 114u8, 117u8, 101u8]),
            (PartParam::Category, seq![109u8, 97u8, 110u8, 105u8, 102u8, 101u8, 115u8, 116u8, 115u8]),
        ],
        r.data matches PartData::Treepack(ps) && ps@.len() == 4 * entries@.len() + 1 && (forall|i: int|
            0 <= i < entries@.len() ==> treepack_group(ps@, 4 * i, #[trigger] entries@[i]))
            && ps@[ps@.len() - 1] == WirepackPart::End,
{
    let mut builder = PartEncodeBuilder::mandatory(PartHeaderType::B2xTreegroup2);
    assert(params_view(builder.mparams@) =~= Seq::<(PartParam, Seq<u8>)>::empty());
    let mut version: Vec<u8> = Vec::new();
    version.push(49u8);
    let mut cache: Vec<u8> = Vec::new();
    cache.push(84u8);
    cache.push(114u8);
    cache.push(117u8);
    cache.push(101u8);
    let mut category: Vec<u8> = Vec::new();
    category.push(109u8);
    category.push(97u8);
    category.push(110u8);
    category.push(105u8);
    category.push(102u8);
    category.push(101u8);
    category.push(115u8);
    category.push(116u8);
    category.push(115u8);
    assert(version@ =~= seq![49u8]);
    assert(cache@ =~= seq![84u8, 114u8, 117u8, 101u8]);
    assert(category@ =~= seq![109u8, 97u8, 110u8, 105u8, 102u8, 101u8, 115u8, 116u8, 115u8]);
    builder.add_mparam(PartParam::Version, version);
    builder.add_mparam(PartParam::Cache, cache);
    builder.add_mparam(PartParam::Category, category);
    assert(params_view(builder.mparams@) =~= seq![
        (PartParam::Version, seq![49u8]),
        (PartParam::Cache, seq![84u8, 114u8, 117u8, 101u8]),
        (PartParam::Category, seq![109u8, 97u8, 110u8, 105u8, 102u8, 101u8, 115u8, 116u8, 115u8]),
    ]);
    let mut ps: Vec<WirepackPart> = Vec::new();
    let mut i: usize = 0;
    while i < entries.len()
        invariant
            i <= entries@.len(),
            4 * entries@.len() + 1 <= usize::MAX,
            forall|j: int|
                0 <= j < entries@.len() ==> (#[trigger] entries@[j]).node.wf()
                    && entries@[j].linknode.wf() && (entries@[j].p1 matches Some(h) ==> h.wf()) && (
                entries@[j].p2 matches Some(h) ==> h.wf()),
            ps@.len() == 4 * i,
            forall|j: int| 0 <= j < i ==> treepack_group(ps@, 4 * j, #[trigger] entries@[j]),
        decreases entries@.len() - i,
    {
        let inp = &entries[i];
        let ghost before = ps@;
        ps.push(WirepackPart::HistoryMeta { path: tree_path(inp), entry_count: 1 });
        ps.push(
            WirepackPart::History(
                HistoryEntry {
                    node: inp.node.copied(),
                    p1: parent_hash(&inp.p1),
                    p2: parent_hash(&inp.p2),
                    linknode: inp.linknode.copied(),
                    copy_from: None,
                },
            ),
        );
        ps.push(WirepackPart::DataMeta { path: tree_path(inp), entry_count: 1 });
        ps.push(
            WirepackPart::Data(
                DataEntry {
                    node: inp.node.copied(),
                    delta_base: HgNodeHash::null(),
                    delta: Delta::new_fulltext(copy_bytes(inp.content.as_slice())),
                },
            ),
        );
        assert forall|j: int| 0 <= j < i + 1 implies treepack_group(ps@, 4 * j, #[trigger] entries@[j]) by {
            if j < i {
                assert(treepack_group(before, 4 * j, entries@[j]));
                assert(ps@[4 * j] == before[4 * j]);
                assert(ps@[4 * j + 1] == before[4 * j + 1]);
                assert(ps@[4 * j + 2] == before[4 * j + 2]);
                assert(ps@[4 * j + 3] == before[4 * j + 3]);
            }
        }
        i = i + 1;
    }
    ps.push(WirepackPart::End);
    builder.data = PartData::Treepack(ps);
    builder
}

} // verus!
