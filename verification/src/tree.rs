pub mod mixer;
pub mod mmtree;

use vstd::prelude::*;

verus! {

/// Why a tree mutation failed.
#[derive(Debug, Clone, Copy, PartialEq, Eq)]
pub enum TreeError {
    /// The named parent mixer is nowhere in the tree.
    NoSuchMixer,
    /// The named bus channel has never been subscribed to.
    NoSuchChannel,
}

} // verus!
