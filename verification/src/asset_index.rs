//! The asset index: object names mapped to content-addressed digests.

use vstd::prelude::*;

verus! {

/// The decoded asset index: object name and descriptor pairs, in document
/// order.
#[derive(Debug)]
pub struct AssetIndex {
    pub objects: Vec<(String, Asset)>,
}

/// One asset object, addressed by its digest.
#[derive(Debug, Clone, Copy)]
pub struct Asset {
    pub hash: [u8; 20],
    pub size: usize,
}

} // verus!
