use vstd::prelude::*;

verus! {

/// A packed record or file did not have the one length that its layout fixes.
#[derive(Copy, Clone, PartialEq, Eq, Structural, Debug)]
pub struct DecodeError {
    pub expected: usize,
    pub actual: usize,
}

/// The compressed tile stream could not be unpacked into the full set of tiles.
#[derive(Copy, Clone, PartialEq, Eq, Structural, Debug)]
pub struct CorruptStreamError;

} // verus!
