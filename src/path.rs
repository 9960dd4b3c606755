//! Repository paths as sequences of non-empty elements.

use vstd::prelude::*;
use crate::byteseq::{bytes_equal, copy_bytes};

verus! {

/// One path element: a file or directory name.
#[derive(Clone, Debug, PartialEq, Eq)]
pub struct MPathElement(pub Vec<u8>);

/// A non-root path: one or more elements.
#[derive(Clone, Debug, PartialEq, Eq)]
pub struct MPath {
    pub elements: Vec<MPathElement>,
}

/// Where an object lives in the repository.
#[derive(Clone, Debug, PartialEq, Eq)]
pub enum RepoPath {
    RootPath,
    DirectoryPath(MPath),
    FilePath(MPath),
}

/// The names of a path's elements.
pub open spec fn elements_view(els: Seq<MPathElement>) -> Seq<Seq<u8>> {
    Seq::new(els.len(), |i: int| els[i].0@)
}

impl MPath {
    pub open spec fn names(&self) -> Seq<Seq<u8>> {
        elements_view(self.elements@)
    }

    /// A path has at least one element.
    pub open spec fn wf(&self) -> bool {
        self.elements@.len() > 0
    }
}

/// The names that joining `base` and `elem` gives (either may be absent).
pub open spec fn joined_names(base: Option<MPath>, elem: Option<MPathElement>) -> Seq<Seq<u8>> {
    let b = match base {
        Some(p) => p.names(),
        None => Seq::empty(),
    };
    match elem {
        Some(e) => b.push(e.0@),
        None => b,
    }
}

/// Appends a copy of `el` to `out`.
fn push_element_copy(out: &mut Vec<MPathElement>, el: &MPathElement)
    ensures
        elements_view(final(out)@) == elements_view(old(out)@).push(el.0@),
{
    let ghost before = out@;
    out.push(MPathElement(copy_bytes(el.0.as_slice())));
    assert(elements_view(out@) =~= elements_view(before).push(el.0@));
}

/// Joins an optional path and an optional element; `None` when both are
/// absent, which is the root.
pub fn join_element_opt(base: Option<&MPath>, elem: Option<&MPathElement>) -> (r: Option<MPath>)
    ensures
        r is None <==> (base is None || base.unwrap().elements@.len() == 0) && elem is None,
        r matches Some(p) ==> p.names() == joined_names(
            match base {
                Some(b) => Some(*b),
                None => None,
            },
            match elem {
                Some(e) => Some(*e),
                None => None,
            },
        ) && p.wf(),
{
    let mut out: Vec<MPathElement> = Vec::new();
    match base {
        Some(b) => {
            let mut i: usize = 0;
            while i < b.elements.len()
                invariant
                    i <= b.elements@.len(),
                    elements_view(out@) == elements_view(b.elements@.subrange(0, i as int)),
                decreases b.elements@.len() - i,
            {
                push_element_copy(&mut out, &b.elements[i]);
                assert(elements_view(b.elements@.subrange(0, i + 1)) =~= elements_view(
                    b.elements@.subrange(0, i as int),
                ).push(b.elements@[i as int].0@));
                i = i + 1;
            }
            assert(b.elements@.subrange(0, b.elements@.len() as int) =~= b.elements@);
        },
        None => {
            assert(elements_view(out@) =~= Seq::<Seq<u8>>::empty());
        },
    }
    match elem {
        Some(e) => {
            push_element_copy(&mut out, e);
        },
        None => {},
    }
    assert(elements_view(out@).len() == out@.len());
    assert(base matches Some(b) ==> elements_view(b.elements@).len() == b.elements@.len());
    if out.len() == 0 {
        None
    } else {
        Some(MPath { elements: out })
    }
}

/// The names of an optional path.
pub open spec fn opt_path_names(p: Option<MPath>) -> Option<Seq<Seq<u8>>> {
    match p {
        Some(x) => Some(x.names()),
        None => None,
    }
}

/// The name of an optional element.
pub open spec fn opt_element_name(e: Option<MPathElement>) -> Option<Seq<u8>> {
    match e {
        Some(x) => Some(x.0@),
        None => None,
    }
}

/// Whether two paths have the same elements.
pub fn path_eq(a: &MPath, b: &MPath) -> (r: bool)
    ensures
        r == (a.names() == b.names()),
{
    if a.elements.len() != b.elements.len() {
        assert(a.names().len() != b.names().len());
        return false;
    }
    let mut i: usize = 0;
    while i < a.elements.len()
        invariant
            a.elements@.len() == b.elements@.len(),
            i <= a.elements@.len(),
            forall|j: int| 0 <= j < i ==> a.names()[j] == b.names()[j],
        decreases a.elements@.len() - i,
    {
        if !bytes_equal(a.elements[i].0.as_slice(), b.elements[i].0.as_slice()) {
            assert(a.names()[i as int] != b.names()[i as int]);
            return false;
        }
        i = i + 1;
    }
    assert(a.names() =~= b.names());
    true
}

/// Whether two optional paths are both absent or have the same elements.
pub fn opt_path_eq(a: &Option<MPath>, b: &Option<MPath>) -> (r: bool)
    ensures
        r == (opt_path_names(*a) == opt_path_names(*b)),
{
    match (a, b) {
        (Some(x), Some(y)) => path_eq(x, y),
        (None, None) => true,
        _ => false,
    }
}

/// Whether two optional elements are both absent or have the same name.
pub fn opt_element_eq(a: &Option<MPathElement>, b: &Option<MPathElement>) -> (r: bool)
    ensures
        r == (opt_element_name(*a) == opt_element_name(*b)),
{
    match (a, b) {
        (Some(x), Some(y)) => bytes_equal(x.0.as_slice(), y.0.as_slice()),
        (None, None) => true,
        _ => false,
    }
}

} // verus!
