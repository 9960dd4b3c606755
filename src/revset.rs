//! Errors of revision set streams.

use vstd::prelude::*;
use crate::hash::HgNodeHash;

verus! {

/// Why a revision set stream failed.
#[derive(Clone, Debug)]
pub enum RevsetError {
    /// A node the set refers to does not exist.
    NoSuchNode(HgNodeHash),
    /// The generation number of a node could not be fetched.
    GenerationFetchFailed,
}

} // verus!
