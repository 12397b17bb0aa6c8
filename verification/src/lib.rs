//! MooMooT is a modular sound synthesis engine.
//!
//! Sound is produced by a tree of mixers whose leaves are unit
//! synthesisers; effects are applied on the way down the tree.  Each
//! unit's parameters can be changed while it plays through an internal
//! parameter bus system.
//!
//! Every scalar carried by the engine is abstract: the tree, the buses
//! and the effects are generic over an [`traits::Amplitude`], so the
//! engine's algebra is verified once for every scalar a client picks.

pub mod bus;
pub mod calc;
pub mod efx;
pub mod params;
pub mod pbus;
pub mod ringbuffer;
pub mod synth;
pub mod tree;
pub mod traits;

pub use traits::SoundSample;
