//! Node identities: fixed-length digests over parents and content.

use vstd::prelude::*;
use sha1::Digest;
use crate::byteseq::{append_bytes, bytes_equal, copy_bytes};

verus! {

/// Length in bytes of a node hash.
pub const HASH_LEN: usize = 20;

/// What SHA-1 yields for a byte sequence.
pub uninterp spec fn sha1_of(data: Seq<u8>) -> Seq<u8>;

/// Relies on sha1::Sha1 (through `Digest::digest`): the SHA-1 digest of `data`,
/// which is 20 bytes long.
#[verifier::external_body]
fn sha1_digest(data: &[u8]) -> (r: Vec<u8>)
    ensures
        r@ == sha1_of(data@),
        r@.len() == 20,
{
    sha1::Sha1::digest(data).to_vec()
}

/// The null sentinel: twenty zero bytes.
pub open spec fn null_hash() -> Seq<u8> {
    Seq::new(20, |i: int| 0u8)
}

/// `a` sorts strictly before `b` (equal lengths, lexicographic byte order).
pub open spec fn lex_lt(a: Seq<u8>, b: Seq<u8>) -> bool {
    exists|i: int|
        0 <= i < a.len() && i < b.len() && a.subrange(0, i) == b.subrange(0, i) && #[trigger] a[i]
            < b[i]
}

/// The bytes that a node hash is computed over: the two parents (the null
/// sentinel standing for an absent one), smaller first, then the content.
pub open spec fn hash_input(p1: Seq<u8>, p2: Seq<u8>, content: Seq<u8>) -> Seq<u8> {
    if lex_lt(p2, p1) {
        p2 + p1 + content
    } else {
        p1 + p2 + content
    }
}

/// A parent's hash as it enters the node hash: the null sentinel when absent.
pub open spec fn parent_or_null(p: Option<HgNodeHash>) -> Seq<u8> {
    match p {
        Some(h) => h@,
        None => null_hash(),
    }
}

/// The node hash of an object with these parents and this content.
pub open spec fn node_hash_of(p1: Option<HgNodeHash>, p2: Option<HgNodeHash>, content: Seq<u8>) -> Seq<
    u8,
> {
    sha1_of(hash_input(parent_or_null(p1), parent_or_null(p2), content))
}

/// The value of one ASCII hexadecimal digit, if it is one (either case).
pub open spec fn hex_value(c: u8) -> Option<u8> {
    if 48 <= c <= 57 {
        Some((c - 48) as u8)
    } else if 97 <= c <= 102 {
        Some((c - 87) as u8)
    } else if 65 <= c <= 70 {
        Some((c - 55) as u8)
    } else {
        None
    }
}

/// `text` is 40 hexadecimal digits.
pub open spec fn is_hex_hash(text: Seq<u8>) -> bool {
    text.len() == 40 && forall|i: int| 0 <= i < 40 ==> (#[trigger] hex_value(text[i])).is_some()
}

/// The 20 bytes that 40 hexadecimal digits spell, two digits to a byte.
pub open spec fn bytes_of_hex(text: Seq<u8>) -> Seq<u8> {
    Seq::new(
        20,
        |i: int| (hex_value(text[2 * i]).unwrap() * 16 + hex_value(text[2 * i + 1]).unwrap()) as u8,
    )
}

/// A 20-byte node hash.
#[derive(Clone, Debug)]
pub struct HgNodeHash {
    bytes: Vec<u8>,
}

impl View for HgNodeHash {
    type V = Seq<u8>;

    closed spec fn view(&self) -> Seq<u8> {
        self.bytes@
    }
}

impl PartialEq for HgNodeHash {
    fn eq(&self, o: &HgNodeHash) -> (r: bool) {
        bytes_equal(self.bytes.as_slice(), o.bytes.as_slice())
    }
}

impl vstd::std_specs::cmp::PartialEqSpecImpl for HgNodeHash {
    open spec fn obeys_eq_spec() -> bool {
        true
    }

    open spec fn eq_spec(&self, o: &HgNodeHash) -> bool {
        self@ == o@
    }
}

impl Eq for HgNodeHash {}

impl HgNodeHash {
    /// A well-formed hash is 20 bytes long.
    pub open spec fn wf(&self) -> bool {
        self@.len() == 20
    }

    /// The hash made of these bytes, if there are exactly 20 of them.
    pub fn from_bytes(b: &[u8]) -> (r: Option<HgNodeHash>)
        ensures
            r.is_some() <==> b@.len() == 20,
            r matches Some(h) ==> h@ == b@ && h.wf(),
    {
        if b.len() == HASH_LEN {
            Some(HgNodeHash { bytes: copy_bytes(b) })
        } else {
            None
        }
    }

    /// The null sentinel, which stands for "no parent".
    pub fn null() -> (r: HgNodeHash)
        ensures
            r@ == null_hash(),
            r.wf(),
    {
        let mut v: Vec<u8> = Vec::new();
        let mut i: usize = 0;
        while i < HASH_LEN
            invariant
                i <= 20,
                v@ == Seq::new(i as nat, |k: int| 0u8),
            decreases 20 - i,
        {
            v.push(0u8);
            i = i + 1;
            assert(v@ =~= Seq::new(i as nat, |k: int| 0u8));
        }
        HgNodeHash { bytes: v }
    }

    /// Whether this is the null sentinel.
    pub fn is_null(&self) -> (r: bool)
        ensures
            r == (self@ == null_hash()),
    {
        let n = HgNodeHash::null();
        bytes_equal(self.bytes.as_slice(), n.bytes.as_slice())
    }

    /// The hash's bytes.
    pub fn as_bytes(&self) -> (r: &[u8])
        ensures
            r@ == self@,
    {
        self.bytes.as_slice()
    }

    /// A copy of this hash.
    pub fn copied(&self) -> (r: HgNodeHash)
        ensures
            r@ == self@,
    {
        HgNodeHash { bytes: copy_bytes(self.bytes.as_slice()) }
    }

    /// The hash that 40 hexadecimal digits spell, if `text` is that.
    pub fn from_ascii_hex(text: &[u8]) -> (r: Option<HgNodeHash>)
        ensures
            r.is_some() <==> is_hex_hash(text@),
            r matches Some(h) ==> h@ == bytes_of_hex(text@) && h.wf(),
    {
        if text.len() != 40 {
            return None;
        }
        let mut v: Vec<u8> = Vec::new();
        let mut i: usize = 0;
        while i < HASH_LEN
            invariant
                i <= 20,
                text@.len() == 40,
                v@.len() == i,
                forall|k: int| 0 <= k < 2 * i ==> (#[trigger] hex_value(text@[k])).is_some(),
                forall|k: int| 0 <= k < i ==> v@[k] == bytes_of_hex(text@)[k],
            decreases 20 - i,
        {
            let hi = match hex_digit(text[2 * i]) {
                Some(d) => d,
                None => {
                    return None;
                },
            };
            let lo = match hex_digit(text[2 * i + 1]) {
                Some(d) => d,
                None => {
                    return None;
                },
            };
            v.push(hi * 16 + lo);
            i = i + 1;
        }
        assert(v@ =~= bytes_of_hex(text@));
        Some(HgNodeHash { bytes: v })
    }
}

/// The value of one hexadecimal digit.
pub fn hex_digit(c: u8) -> (r: Option<u8>)
    ensures
        r == hex_value(c),
        r matches Some(d) ==> d < 16,
{
    if 48 <= c && c <= 57 {
        Some(c - 48)
    } else if 97 <= c && c <= 102 {
        Some(c - 87)
    } else if 65 <= c && c <= 70 {
        Some(c - 55)
    } else {
        None
    }
}

/// Whether `a` sorts strictly before `b`; both are 20 bytes long.
pub fn hash_lt(a: &HgNodeHash, b: &HgNodeHash) -> (r: bool)
    requires
        a.wf(),
        b.wf(),
    ensures
        r == lex_lt(a@, b@),
{
    let x = a.as_bytes();
    let y = b.as_bytes();
    let mut i: usize = 0;
    while i < HASH_LEN
        invariant
            x@ == a@,
            y@ == b@,
            x@.len() == 20,
            y@.len() == 20,
            i <= 20,
            x@.subrange(0, i as int) == y@.subrange(0, i as int),
        decreases 20 - i,
    {
        if x[i] != y[i] {
            let r = x[i] < y[i];
            proof {
                if r {
                    assert(lex_lt(a@, b@));
                } else {
                    assert forall|j: int|
                        0 <= j < a@.len() && j < b@.len() && a@.subrange(0, j) == b@.subrange(0, j)
                            implies !(#[trigger] a@[j] < b@[j]) by {
                        if j < i {
                            assert(a@[j] == a@.subrange(0, i as int)[j]);
                            assert(b@[j] == b@.subrange(0, i as int)[j]);
                        } else if j > i {
                            assert(a@[i as int] == a@.subrange(0, j)[i as int]);
                            assert(b@[i as int] == b@.subrange(0, j)[i as int]);
                        }
                    }
                }
            }
            return r;
        }
        assert(x@.subrange(0, i + 1) =~= x@.subrange(0, i as int).push(x@[i as int]));
        assert(y@.subrange(0, i + 1) =~= y@.subrange(0, i as int).push(y@[i as int]));
        i = i + 1;
    }
    assert(x@ =~= y@) by {
        assert(x@ == x@.subrange(0, 20));
        assert(y@ == y@.subrange(0, 20));
    }
    false
}

/// The bytes that the node hash of (`p1`, `p2`, `content`) is computed over.
pub fn node_hash_input(p1: &HgNodeHash, p2: &HgNodeHash, content: &[u8]) -> (r: Vec<u8>)
    requires
        p1.wf(),
        p2.wf(),
    ensures
        r@ == hash_input(p1@, p2@, content@),
{
    let mut r: Vec<u8> = Vec::new();
    if hash_lt(p2, p1) {
        append_bytes(&mut r, p2.as_bytes());
        append_bytes(&mut r, p1.as_bytes());
    } else {
        append_bytes(&mut r, p1.as_bytes());
        append_bytes(&mut r, p2.as_bytes());
    }
    append_bytes(&mut r, content);
    r
}

/// The node hash of an object: SHA-1 over its sorted parents (null for an
/// absent one) followed by its content.
pub fn compute_node_hash(p1: &Option<HgNodeHash>, p2: &Option<HgNodeHash>, content: &[u8]) -> (r:
    HgNodeHash)
    requires
        p1 matches Some(h) ==> h.wf(),
        p2 matches Some(h) ==> h.wf(),
    ensures
        r@ == node_hash_of(*p1, *p2, content@),
        r.wf(),
{
    let a = match p1 {
        Some(h) => h.copied(),
        None => HgNodeHash::null(),
    };
    let b = match p2 {
        Some(h) => h.copied(),
        None => HgNodeHash::null(),
    };
    let input = node_hash_input(&a, &b, content);
    HgNodeHash { bytes: sha1_digest(input.as_slice()) }
}

/// Storing the same parents and content twice yields the same node hash.
pub proof fn lemma_node_hash_dedup(
    p1: Option<HgNodeHash>,
    p2: Option<HgNodeHash>,
    content: Seq<u8>,
    q1: Option<HgNodeHash>,
    q2: Option<HgNodeHash>,
    other: Seq<u8>,
)
    requires
        parent_or_null(p1) == parent_or_null(q1),
        parent_or_null(p2) == parent_or_null(q2),
        content == other,
    ensures
        node_hash_of(p1, p2, content) == node_hash_of(q1, q2, other),
{
}

} // verus!
