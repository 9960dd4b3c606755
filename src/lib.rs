//! History-exchange core of a content-addressed source-control backend:
//! node identities, the delta engine, the stored envelope codec, the
//! changegroup decoder and its wire layout, the import planner and the
//! bundle part encoder.

pub mod byteseq;
pub mod changegroup;
pub mod delta;
pub mod envelope;
pub mod hash;
pub mod import;
pub mod node_blob;
pub mod parts;
pub mod path;
pub mod revset;
pub mod wire;
