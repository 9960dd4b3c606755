//! Stored envelopes of manifest nodes: the validated envelope, the plain
//! record it is stored as, and the byte layout of that record.
//!
//! Layout of a record: `node_id`, `p1`, `p2`, `computed_node_id`, `contents`,
//! in that order. A plain field is an 8-byte big-endian length followed by
//! that many bytes; an optional field is a tag byte, 0 for absent or 1 for
//! present, the latter followed by a plain field. Nothing may follow.

use vstd::prelude::*;
use crate::byteseq::{append_bytes, append_range, copy_bytes};
use crate::hash::HgNodeHash;

verus! {

/// A hash field of the envelope.
#[derive(Clone, Copy, Debug, PartialEq, Eq, Structural)]
pub enum HashField {
    NodeId,
    P1,
    P2,
    ComputedNodeId,
}

/// What makes a record an invalid envelope.
#[derive(Clone, Copy, Debug, PartialEq, Eq, Structural)]
pub enum EnvelopeDefect {
    /// A hash field is not 20 bytes long.
    WrongHashLength(HashField),
    /// The contents field is absent.
    MissingContents,
}

/// Failure to read an envelope.
#[derive(Clone, Copy, Debug, PartialEq, Eq, Structural)]
pub enum ErrorKind {
    /// The bytes are not a record (truncated, a bad tag, trailing bytes).
    BlobDeserializeError,
    /// The record is not a valid manifest envelope.
    InvalidEnvelope(EnvelopeDefect),
}

/// A mutable representation of a manifest node.
#[derive(Clone, Debug)]
pub struct HgManifestEnvelopeMut {
    pub node_id: HgNodeHash,
    pub p1: Option<HgNodeHash>,
    pub p2: Option<HgNodeHash>,
    pub computed_node_id: HgNodeHash,
    pub contents: Vec<u8>,
}

/// The mathematical content of an envelope.
pub struct EnvelopeView {
    pub node_id: Seq<u8>,
    pub p1: Option<Seq<u8>>,
    pub p2: Option<Seq<u8>>,
    pub computed_node_id: Seq<u8>,
    pub contents: Seq<u8>,
}

/// The mathematical content of a record, before validation.
pub struct RecordView {
    pub node_id: Seq<u8>,
    pub p1: Option<Seq<u8>>,
    pub p2: Option<Seq<u8>>,
    pub computed_node_id: Seq<u8>,
    pub contents: Option<Seq<u8>>,
}

pub open spec fn opt_hash_view(h: Option<HgNodeHash>) -> Option<Seq<u8>> {
    match h {
        Some(x) => Some(x@),
        None => None,
    }
}

pub open spec fn opt_bytes_view(b: Option<Vec<u8>>) -> Option<Seq<u8>> {
    match b {
        Some(x) => Some(x@),
        None => None,
    }
}

impl View for HgManifestEnvelopeMut {
    type V = EnvelopeView;

    open spec fn view(&self) -> EnvelopeView {
        EnvelopeView {
            node_id: self.node_id@,
            p1: opt_hash_view(self.p1),
            p2: opt_hash_view(self.p2),
            computed_node_id: self.computed_node_id@,
            contents: self.contents@,
        }
    }
}

pub open spec fn opt_is_hash(h: Option<Seq<u8>>) -> bool {
    h matches Some(x) ==> x.len() == 20
}

impl EnvelopeView {
    /// Every hash is 20 bytes long.
    pub open spec fn wf(self) -> bool {
        self.node_id.len() == 20 && opt_is_hash(self.p1) && opt_is_hash(self.p2)
            && self.computed_node_id.len() == 20
    }
}

/// The record an envelope is stored as.
pub open spec fn record_of(e: EnvelopeView) -> RecordView {
    RecordView {
        node_id: e.node_id,
        p1: e.p1,
        p2: e.p2,
        computed_node_id: e.computed_node_id,
        contents: Some(e.contents),
    }
}

/// The first defect of a record, in field order, if any.
pub open spec fn record_defect(r: RecordView) -> Option<EnvelopeDefect> {
    if r.node_id.len() != 20 {
        Some(EnvelopeDefect::WrongHashLength(HashField::NodeId))
    } else if !opt_is_hash(r.p1) {
        Some(EnvelopeDefect::WrongHashLength(HashField::P1))
    } else if !opt_is_hash(r.p2) {
        Some(EnvelopeDefect::WrongHashLength(HashField::P2))
    } else if r.computed_node_id.len() != 20 {
        Some(EnvelopeDefect::WrongHashLength(HashField::ComputedNodeId))
    } else if r.contents is None {
        Some(EnvelopeDefect::MissingContents)
    } else {
        None
    }
}

/// The envelope a valid record holds.
pub open spec fn envelope_of(r: RecordView) -> EnvelopeView {
    EnvelopeView {
        node_id: r.node_id,
        p1: r.p1,
        p2: r.p2,
        computed_node_id: r.computed_node_id,
        contents: r.contents.unwrap(),
    }
}

/// A manifest envelope as read from or written to the blob store.
#[derive(Clone, Debug)]
pub struct HgManifestEnvelope {
    inner: HgManifestEnvelopeMut,
}

impl View for HgManifestEnvelope {
    type V = EnvelopeView;

    closed spec fn view(&self) -> EnvelopeView {
        self.inner@
    }
}

/// A stored record of a manifest envelope, not yet validated.
#[derive(Clone, Debug, PartialEq, Eq)]
pub struct ManifestEnvelopeRecord {
    pub node_id: Vec<u8>,
    pub p1: Option<Vec<u8>>,
    pub p2: Option<Vec<u8>>,
    pub computed_node_id: Vec<u8>,
    pub contents: Option<Vec<u8>>,
}

impl View for ManifestEnvelopeRecord {
    type V = RecordView;

    open spec fn view(&self) -> RecordView {
        RecordView {
            node_id: self.node_id@,
            p1: opt_bytes_view(self.p1),
            p2: opt_bytes_view(self.p2),
            computed_node_id: self.computed_node_id@,
            contents: opt_bytes_view(self.contents),
        }
    }
}

/// The bytes an envelope is stored as.
#[derive(Clone, Debug, PartialEq, Eq)]
pub struct HgEnvelopeBlob(pub Vec<u8>);

fn opt_hash_from(b: &Option<Vec<u8>>) -> (r: Result<Option<HgNodeHash>, ()>)
    ensures
        r is Ok <==> opt_is_hash(opt_bytes_view(*b)),
        r matches Ok(h) ==> opt_hash_view(h) == opt_bytes_view(*b) && (h matches Some(x) ==> x.wf()),
{
    match b {
        None => Ok(None),
        Some(v) => match HgNodeHash::from_bytes(v.as_slice()) {
            Some(h) => Ok(Some(h)),
            None => Err(()),
        },
    }
}

fn opt_hash_bytes(h: &Option<HgNodeHash>) -> (r: Option<Vec<u8>>)
    ensures
        opt_bytes_view(r) == opt_hash_view(*h),
{
    match h {
        None => None,
        Some(x) => Some(copy_bytes(x.as_bytes())),
    }
}

impl HgManifestEnvelopeMut {
    /// Freezes into an envelope; every hash must be 20 bytes long.
    pub fn freeze(self) -> (r: HgManifestEnvelope)
        requires
            self@.wf(),
        ensures
            r@ == self@,
    {
        HgManifestEnvelope { inner: self }
    }
}

impl HgManifestEnvelope {
    /// Validates a record: fails with its first defect, in field order.
    pub fn from_record(rec: ManifestEnvelopeRecord) -> (r: Result<HgManifestEnvelope, ErrorKind>)
        ensures
            r is Ok <==> record_defect(rec@) is None,
            r matches Ok(e) ==> e@ == envelope_of(rec@) && e@.wf(),
            r matches Err(k) ==> k == ErrorKind::InvalidEnvelope(record_defect(rec@).unwrap()),
    {
        let node_id = match HgNodeHash::from_bytes(rec.node_id.as_slice()) {
            Some(h) => h,
            None => {
                return Err(ErrorKind::InvalidEnvelope(EnvelopeDefect::WrongHashLength(HashField::NodeId)));
            },
        };
        let p1 = match opt_hash_from(&rec.p1) {
            Ok(h) => h,
            Err(()) => {
                return Err(ErrorKind::InvalidEnvelope(EnvelopeDefect::WrongHashLength(HashField::P1)));
            },
        };
        let p2 = match opt_hash_from(&rec.p2) {
            Ok(h) => h,
            Err(()) => {
                return Err(ErrorKind::InvalidEnvelope(EnvelopeDefect::WrongHashLength(HashField::P2)));
            },
        };
        let computed_node_id = match HgNodeHash::from_bytes(rec.computed_node_id.as_slice()) {
            Some(h) => h,
            None => {
                return Err(
                    ErrorKind::InvalidEnvelope(EnvelopeDefect::WrongHashLength(HashField::ComputedNodeId)),
                );
            },
        };
        let contents = match rec.contents {
            Some(c) => c,
            None => {
                return Err(ErrorKind::InvalidEnvelope(EnvelopeDefect::MissingContents));
            },
        };
        Ok(HgManifestEnvelope {
            inner: HgManifestEnvelopeMut { node_id, p1, p2, computed_node_id, contents },
        })
    }

    /// The record this envelope is stored as.
    pub fn into_record(self) -> (r: ManifestEnvelopeRecord)
        ensures
            r@ == record_of(self@),
    {
        let inner = self.inner;
        ManifestEnvelopeRecord {
            node_id: copy_bytes(inner.node_id.as_bytes()),
            p1: opt_hash_bytes(&inner.p1),
            p2: opt_hash_bytes(&inner.p2),
            computed_node_id: copy_bytes(inner.computed_node_id.as_bytes()),
            contents: Some(inner.contents),
        }
    }

    /// The ID for this manifest, as recorded by the origin system. It may
    /// differ from the hash computed from the contents.
    pub fn node_id(&self) -> (r: &HgNodeHash)
        ensures
            r@ == self@.node_id,
    {
        &self.inner.node_id
    }

    /// The parent hashes, in order.
    pub fn parents(&self) -> (r: (Option<&HgNodeHash>, Option<&HgNodeHash>))
        ensures
            r.0 matches Some(h) ==> self@.p1 == Some(h@),
            r.0 is None ==> self@.p1 is None,
            r.1 matches Some(h) ==> self@.p2 == Some(h@),
            r.1 is None ==> self@.p2 is None,
    {
        (self.inner.p1.as_ref(), self.inner.p2.as_ref())
    }

    /// The ID computed from the contents and parents, for consistency checks.
    pub fn computed_node_id(&self) -> (r: &HgNodeHash)
        ensures
            r@ == self@.computed_node_id,
    {
        &self.inner.computed_node_id
    }

    /// The manifest contents as raw bytes.
    pub fn contents(&self) -> (r: &Vec<u8>)
        ensures
            r@ == self@.contents,
    {
        &self.inner.contents
    }

    /// Reads an envelope from the bytes it is stored as.
    pub fn from_blob(blob: HgEnvelopeBlob) -> (r: Result<HgManifestEnvelope, ErrorKind>)
        ensures
            r is Ok <==> decode_envelope(blob.0@) is Ok,
            r matches Ok(e) ==> decode_envelope(blob.0@) == Ok::<EnvelopeView, ErrorKind>(e@) && e@.wf(),
            r matches Err(k) ==> decode_envelope(blob.0@) == Err::<EnvelopeView, ErrorKind>(k),
    {
        match deserialize_record(blob.0.as_slice()) {
            None => Err(ErrorKind::BlobDeserializeError),
            Some(rec) => HgManifestEnvelope::from_record(rec),
        }
    }

    /// The bytes this envelope is stored as.
    pub fn into_blob(self) -> (r: HgEnvelopeBlob)
        ensures
            r.0@ == encode_record(record_of(self@)),
    {
        let rec = self.into_record();
        HgEnvelopeBlob(serialize_record(&rec))
    }

    /// Converts into the mutable representation.
    pub fn into_mut(self) -> (r: HgManifestEnvelopeMut)
        ensures
            r@ == self@,
    {
        self.inner
    }
}

/// The eight big-endian bytes of `n`.
pub open spec fn be64_bytes(n: u64) -> Seq<u8> {
    seq![
        (n >> 56u64) as u8,
        (n >> 48u64) as u8,
        (n >> 40u64) as u8,
        (n >> 32u64) as u8,
        (n >> 24u64) as u8,
        (n >> 16u64) as u8,
        (n >> 8u64) as u8,
        n as u8,
    ]
}

pub open spec fn be64_value(b0: u8, b1: u8, b2: u8, b3: u8, b4: u8, b5: u8, b6: u8, b7: u8) -> u64 {
    ((b0 as u64) << 56u64) | ((b1 as u64) << 48u64) | ((b2 as u64) << 40u64) | ((b3 as u64) << 32u64)
        | ((b4 as u64) << 24u64) | ((b5 as u64) << 16u64) | ((b6 as u64) << 8u64) | (b7 as u64)
}

/// The big-endian integer in `s[off..off + 8]`.
pub open spec fn be64_at(s: Seq<u8>, off: int) -> u64 {
    be64_value(s[off], s[off + 1], s[off + 2], s[off + 3], s[off + 4], s[off + 5], s[off + 6], s[off + 7])
}

/// A plain field: its length, then its bytes.
pub open spec fn field_bytes(v: Seq<u8>) -> Seq<u8> {
    be64_bytes(v.len() as u64) + v
}

/// An optional field: a tag, then the plain field if present.
pub open spec fn opt_field_bytes(v: Option<Seq<u8>>) -> Seq<u8> {
    match v {
        None => seq![0u8],
        Some(x) => seq![1u8] + field_bytes(x),
    }
}

/// The bytes a record is stored as.
pub open spec fn encode_record(r: RecordView) -> Seq<u8> {
    field_bytes(r.node_id) + opt_field_bytes(r.p1) + opt_field_bytes(r.p2) + field_bytes(
        r.computed_node_id,
    ) + opt_field_bytes(r.contents)
}

/// Reads a plain field at `off`: its bytes and the offset after it.
pub open spec fn parse_field(s: Seq<u8>, off: int) -> Option<(Seq<u8>, int)> {
    if 0 <= off && off + 8 <= s.len() {
        let n = be64_at(s, off) as int;
        if off + 8 + n <= s.len() {
            Some((s.subrange(off + 8, off + 8 + n), off + 8 + n))
        } else {
            None
        }
    } else {
        None
    }
}

/// Reads an optional field at `off`.
pub open spec fn parse_opt_field(s: Seq<u8>, off: int) -> Option<(Option<Seq<u8>>, int)> {
    if 0 <= off < s.len() {
        if s[off] == 0 {
            Some((None, off + 1))
        } else if s[off] == 1 {
            match parse_field(s, off + 1) {
                Some((v, o)) => Some((Some(v), o)),
                None => None,
            }
        } else {
            None
        }
    } else {
        None
    }
}

/// Reads a whole record; `None` where the bytes are not exactly one record.
pub open spec fn parse_record(s: Seq<u8>) -> Option<RecordView> {
    match parse_field(s, 0) {
        None => None,
        Some((node_id, o1)) => match parse_opt_field(s, o1) {
            None => None,
            Some((p1, o2)) => match parse_opt_field(s, o2) {
                None => None,
                Some((p2, o3)) => match parse_field(s, o3) {
                    None => None,
                    Some((computed_node_id, o4)) => match parse_opt_field(s, o4) {
                        None => None,
                        Some((contents, o5)) => if o5 == s.len() {
                            Some(RecordView { node_id, p1, p2, computed_node_id, contents })
                        } else {
                            None
                        },
                    },
                },
            },
        },
    }
}

/// What reading an envelope from `s` yields.
pub open spec fn decode_envelope(s: Seq<u8>) -> Result<EnvelopeView, ErrorKind> {
    match parse_record(s) {
        None => Err(ErrorKind::BlobDeserializeError),
        Some(r) => match record_defect(r) {
            Some(d) => Err(ErrorKind::InvalidEnvelope(d)),
            None => Ok(envelope_of(r)),
        },
    }
}

/// Reading back the eight big-endian bytes of `n` gives `n`.
pub proof fn lemma_be64_round_trip(n: u64)
    ensures
        be64_value(
            (n >> 56u64) as u8,
            (n >> 48u64) as u8,
            (n >> 40u64) as u8,
            (n >> 32u64) as u8,
            (n >> 24u64) as u8,
            (n >> 16u64) as u8,
            (n >> 8u64) as u8,
            n as u8,
        ) == n,
{
    assert(((((n >> 56u64) as u8) as u64) << 56u64) | ((((n >> 48u64) as u8) as u64) << 48u64) | ((((n
        >> 40u64) as u8) as u64) << 40u64) | ((((n >> 32u64) as u8) as u64) << 32u64) | ((((n >> 24u64)
        as u8) as u64) << 24u64) | ((((n >> 16u64) as u8) as u64) << 16u64) | ((((n >> 8u64) as u8)
        as u64) << 8u64) | ((n as u8) as u64) == n) by (bit_vector);
}

proof fn lemma_parse_field(s: Seq<u8>, off: int, v: Seq<u8>)
    requires
        0 <= off,
        v.len() <= u64::MAX,
        off + 8 + v.len() <= s.len(),
        s.subrange(off, off + 8 + v.len()) == field_bytes(v),
    ensures
        parse_field(s, off) == Some((v, off + 8 + v.len())),
{
    let n = v.len() as u64;
    lemma_be64_round_trip(n);
    let f = field_bytes(v);
    assert forall|k: int| 0 <= k < 8 + v.len() implies s[off + k] == #[trigger] f[k] by {
        assert(s.subrange(off, off + 8 + v.len())[k] == s[off + k]);
    }
    assert(s[off] == f[0]);
    assert(s[off + 1] == f[1]);
    assert(s[off + 2] == f[2]);
    assert(s[off + 3] == f[3]);
    assert(s[off + 4] == f[4]);
    assert(s[off + 5] == f[5]);
    assert(s[off + 6] == f[6]);
    assert(s[off + 7] == f[7]);
    assert(be64_at(s, off) == n);
    assert(s.subrange(off + 8, off + 8 + v.len()) =~= v) by {
        assert forall|k: int| 0 <= k < v.len() implies s.subrange(off + 8, off + 8 + v.len())[k]
            == v[k] by {
            assert(s[off + 8 + k] == f[8 + k]);
        }
    }
}

proof fn lemma_parse_opt_field(s: Seq<u8>, off: int, v: Option<Seq<u8>>)
    requires
        0 <= off,
        v matches Some(x) ==> x.len() <= u64::MAX,
        off + opt_field_bytes(v).len() <= s.len(),
        s.subrange(off, off + opt_field_bytes(v).len()) == opt_field_bytes(v),
    ensures
        parse_opt_field(s, off) == Some((v, off + opt_field_bytes(v).len())),
{
    let f = opt_field_bytes(v);
    assert(s[off] == s.subrange(off, off + f.len())[0]);
    match v {
        None => {},
        Some(x) => {
            assert(s.subrange(off + 1, off + 1 + 8 + x.len()) =~= s.subrange(off, off + f.len()).subrange(
                1,
                f.len() as int,
            ));
            assert(f.subrange(1, f.len() as int) =~= field_bytes(x));
            lemma_parse_field(s, off + 1, x);
        },
    }
}

/// Every well-formed envelope reads back as itself from the bytes it is
/// stored as.
pub proof fn lemma_envelope_round_trip(e: EnvelopeView)
    requires
        e.wf(),
        e.contents.len() <= u64::MAX,
    ensures
        decode_envelope(encode_record(record_of(e))) == Ok::<EnvelopeView, ErrorKind>(e),
{
    let r = record_of(e);
    let a = field_bytes(r.node_id);
    let b = opt_field_bytes(r.p1);
    let c = opt_field_bytes(r.p2);
    let d = field_bytes(r.computed_node_id);
    let g = opt_field_bytes(r.contents);
    let s = encode_record(r);
    let o1 = a.len() as int;
    let o2 = o1 + b.len();
    let o3 = o2 + c.len();
    let o4 = o3 + d.len();
    let o5 = o4 + g.len();
    assert(s =~= a + b + c + d + g);
    assert(s.len() == o5);
    assert(s.subrange(0, o1) =~= a);
    assert(s.subrange(o1, o2) =~= b);
    assert(s.subrange(o2, o3) =~= c);
    assert(s.subrange(o3, o4) =~= d);
    assert(s.subrange(o4, o5) =~= g);
    lemma_parse_field(s, 0, r.node_id);
    lemma_parse_opt_field(s, o1, r.p1);
    lemma_parse_opt_field(s, o2, r.p2);
    lemma_parse_field(s, o3, r.computed_node_id);
    lemma_parse_opt_field(s, o4, r.contents);
    assert(parse_record(s) == Some(r));
    assert(envelope_of(r) =~= e);
}

/// Appends the eight big-endian bytes of `n`.
pub(crate) fn push_be64(out: &mut Vec<u8>, n: u64)
    ensures
        final(out)@ == old(out)@ + be64_bytes(n),
{
    let ghost start = out@;
    out.push((n >> 56u64) as u8);
    out.push((n >> 48u64) as u8);
    out.push((n >> 40u64) as u8);
    out.push((n >> 32u64) as u8);
    out.push((n >> 24u64) as u8);
    out.push((n >> 16u64) as u8);
    out.push((n >> 8u64) as u8);
    out.push(n as u8);
    assert(out@ =~= start + be64_bytes(n));
}

fn push_field(out: &mut Vec<u8>, v: &[u8])
    ensures
        final(out)@ == old(out)@ + field_bytes(v@),
{
    let ghost start = out@;
    push_be64(out, v.len() as u64);
    append_bytes(out, v);
    assert(out@ =~= start + field_bytes(v@));
}

fn push_opt_field(out: &mut Vec<u8>, v: &Option<Vec<u8>>)
    ensures
        final(out)@ == old(out)@ + opt_field_bytes(opt_bytes_view(*v)),
{
    let ghost start = out@;
    match v {
        None => {
            out.push(0u8);
            assert(out@ =~= start + seq![0u8]);
        },
        Some(x) => {
            out.push(1u8);
            push_field(out, x.as_slice());
            assert(out@ =~= start + (seq![1u8] + field_bytes(x@)));
        },
    }
}

/// The bytes a record is stored as.
pub fn serialize_record(rec: &ManifestEnvelopeRecord) -> (r: Vec<u8>)
    ensures
        r@ == encode_record(rec@),
{
    let mut out: Vec<u8> = Vec::new();
    push_field(&mut out, rec.node_id.as_slice());
    push_opt_field(&mut out, &rec.p1);
    push_opt_field(&mut out, &rec.p2);
    push_field(&mut out, rec.computed_node_id.as_slice());
    push_opt_field(&mut out, &rec.contents);
    assert(out@ =~= encode_record(rec@));
    out
}

pub(crate) fn read_be64(s: &[u8], off: usize) -> (r: u64)
    requires
        off + 8 <= s@.len(),
    ensures
        r == be64_at(s@, off as int),
{
    ((s[off] as u64) << 56u64) | ((s[off + 1] as u64) << 48u64) | ((s[off + 2] as u64) << 40u64) | ((
    s[off + 3] as u64) << 32u64) | ((s[off + 4] as u64) << 24u64) | ((s[off + 5] as u64) << 16u64) | ((
    s[off + 6] as u64) << 8u64) | (s[off + 7] as u64)
}

fn read_field(s: &[u8], off: usize) -> (r: Option<(Vec<u8>, usize)>)
    ensures
        match parse_field(s@, off as int) {
            None => r is None,
            Some((v, o)) => r matches Some((w, p)) && w@ == v && p == o,
        },
{
    if s.len() < 8 || off > s.len() - 8 {
        return None;
    }
    let n = read_be64(s, off);
    let avail = s.len() - off - 8;
    if n > avail as u64 {
        return None;
    }
    let start = off + 8;
    let end = start + n as usize;
    let mut v: Vec<u8> = Vec::new();
    append_range(&mut v, s, start, end);
    assert(v@ =~= Seq::<u8>::empty() + s@.subrange(start as int, end as int));
    Some((v, end))
}

fn read_opt_field(s: &[u8], off: usize) -> (r: Option<(Option<Vec<u8>>, usize)>)
    ensures
        match parse_opt_field(s@, off as int) {
            None => r is None,
            Some((v, o)) => r matches Some((w, p)) && opt_bytes_view(w) == v && p == o,
        },
{
    if off >= s.len() {
        return None;
    }
    if s[off] == 0 {
        Some((None, off + 1))
    } else if s[off] == 1 {
        match read_field(s, off + 1) {
            Some((v, o)) => Some((Some(v), o)),
            None => None,
        }
    } else {
        None
    }
}

/// Reads a record from bytes that hold exactly one.
pub fn deserialize_record(s: &[u8]) -> (r: Option<ManifestEnvelopeRecord>)
    ensures
        match parse_record(s@) {
            None => r is None,
            Some(v) => r matches Some(w) && w@ == v,
        },
{
    let (node_id, o1) = match read_field(s, 0) {
        Some(x) => x,
        None => {
            return None;
        },
    };
    let (p1, o2) = match read_opt_field(s, o1) {
        Some(x) => x,
        None => {
            return None;
        },
    };
    let (p2, o3) = match read_opt_field(s, o2) {
        Some(x) => x,
        None => {
            return None;
        },
    };
    let (computed_node_id, o4) = match read_field(s, o3) {
        Some(x) => x,
        None => {
            return None;
        },
    };
    let (contents, o5) = match read_opt_field(s, o4) {
        Some(x) => x,
        None => {
            return None;
        },
    };
    if o5 != s.len() {
        return None;
    }
    Some(ManifestEnvelopeRecord { node_id, p1, p2, computed_node_id, contents })
}

} // verus!
