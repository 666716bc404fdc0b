//! A verified codec for a game-engine binary container of particle-effect
//! definitions: an offset-table-driven layout with 32-byte alignment
//! padding, nested variable-length sections, and endianness-parameterized
//! scalar encoding. Loading resolves the eleven-slot top-level offset table
//! and walks the sub-records each section announces at self-described byte
//! displacements; compiling writes the sections back consecutively,
//! recomputes every offset, zero-fills every gap, and backfills the header.
//! Every decode and encode is specified exactly, down to the byte, and the
//! binary round trip is lossless: reserved and unresearched fields travel
//! verbatim, and fields that are IEEE-754 floats on the wire are carried as
//! `u32` bit patterns so that no numeric transform ever touches them.

use vstd::prelude::*;

pub mod compile;
pub mod container;
pub mod curve;
pub mod effect;
pub mod group;
pub mod load;
pub mod lossless;
pub mod records;
pub mod scalar;

verus! {

/// The failures of the binary codec.
///
/// `Truncated`: the stream ended before a read completed. `InvalidOffset`: a
/// declared offset points outside the stream, or a position could not be
/// computed without arithmetic overflow. `CastFailure`: a value does not fit
/// the fixed-width field that carries it on the wire.
#[derive(Clone, Copy, PartialEq, Eq, Structural, Debug)]
pub enum EffError {
    Truncated,
    InvalidOffset,
    CastFailure,
}

/// Byte order used to interpret the raw bytes of every scalar in the
/// container format. It is passed explicitly to every codec call; the
/// library keeps no ambient endianness state.
#[derive(Clone, Copy, PartialEq, Eq, Structural, Debug)]
pub enum ByteOrder {
    Little,
    Big,
}

} // verus!
