//! Failures of the spectrogram pipeline.

use vstd::prelude::*;

verus! {

/// Why a picture's dimensions and its pixel buffer do not go together.
#[derive(Clone, Copy, Debug, PartialEq, Eq, Structural)]
pub enum ImageError {
    /// The buffer should hold the first number of bytes and holds the second.
    LengthMismatch(u128, usize),
    /// A dimension does not fit in 32 bits.
    TooLarge,
}

/// Why the engine produced no picture.
#[derive(Clone, Copy, Debug, PartialEq, Eq, Structural)]
pub enum PipelineError {
    /// The samples do not fill one window.
    InsufficientData,
    /// The loudest magnitude is too small to show.
    Silence,
}

} // verus!
