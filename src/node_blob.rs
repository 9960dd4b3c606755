//! Node blobs of the blob store: a node's parents and the hash of its
//! content blob. Their byte encoding is done by the host.

use vstd::prelude::*;
use crate::changegroup::{copy_opt_hash, opt_view};
use crate::hash::HgNodeHash;

verus! {

/// Up to two parents, in order; a lone parent is recorded as one
/// whichever position it held.
#[derive(Clone, Debug)]
pub enum HgParents {
    Empty,
    One(HgNodeHash),
    Two(HgNodeHash, HgNodeHash),
}

/// A node's parents and the hash of its content blob.
#[derive(Clone, Debug)]
pub struct RawNodeBlob {
    pub parents: HgParents,
    pub blob: HgNodeHash,
}

/// The bytes a node blob is stored as.
#[derive(Clone, Debug, PartialEq, Eq)]
pub struct EnvelopeBlob(pub Vec<u8>);

/// The parents an optional first and second parent are recorded as.
pub open spec fn parents_of(p1: Option<Seq<u8>>, p2: Option<Seq<u8>>) -> (Option<Seq<u8>>, Option<
    Seq<u8>,
>) {
    match (p1, p2) {
        (Some(a), None) => (Some(a), None),
        (None, Some(b)) => (Some(b), None),
        _ => (p1, p2),
    }
}

impl HgParents {
    /// The first and second parent recorded.
    pub open spec fn nodes(&self) -> (Option<Seq<u8>>, Option<Seq<u8>>) {
        match self {
            HgParents::Empty => (None, None),
            HgParents::One(a) => (Some(a@), None),
            HgParents::Two(a, b) => (Some(a@), Some(b@)),
        }
    }

    /// Records an optional first and second parent.
    pub fn new(p1: Option<&HgNodeHash>, p2: Option<&HgNodeHash>) -> (r: HgParents)
        ensures
            r.nodes() == parents_of(
                match p1 {
                    Some(h) => Some(h@),
                    None => None,
                },
                match p2 {
                    Some(h) => Some(h@),
                    None => None,
                },
            ),
    {
        match (p1, p2) {
            (None, None) => HgParents::Empty,
            (Some(a), None) => HgParents::One(a.copied()),
            (None, Some(b)) => HgParents::One(b.copied()),
            (Some(a), Some(b)) => HgParents::Two(a.copied(), b.copied()),
        }
    }

    /// The first and second parent recorded.
    pub fn get_nodes(&self) -> (r: (Option<HgNodeHash>, Option<HgNodeHash>))
        ensures
            (opt_view(r.0), opt_view(r.1)) == self.nodes(),
    {
        match self {
            HgParents::Empty => (None, None),
            HgParents::One(a) => (Some(a.copied()), None),
            HgParents::Two(a, b) => (Some(a.copied()), Some(b.copied())),
        }
    }
}

} // verus!
