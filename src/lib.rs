use vstd::prelude::*;

pub mod emitter;
pub mod frame;
pub mod geometry;
pub mod library;
pub mod listener;
pub mod sound;
pub mod system;

verus! {

/// Outcome codes reported by engine callbacks.
#[derive(Debug, Clone, Copy, PartialEq, Eq, Structural)]
pub enum Rcode {
    Fail,
    Success,
    NoFile,
}

/// Marker for the data a game keeps between engine callbacks.
pub trait OGData {}

} // verus!
