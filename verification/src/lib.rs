//! Spectrogram engine: turns decoded audio samples into a picture in which
//! one axis is time, the other frequency, and colour shows spectral energy.
//!
//! The engine cuts the samples into windows, takes the lower half of each
//! window's magnitude spectrum, scales all magnitudes by the largest, and
//! paints groups of bins through a palette. Every function carries a
//! machine-checked contract. Arithmetic on single samples and magnitudes
//! is handed in by the caller, so the engine works for any sample type.

pub mod decimal;
pub mod config;
pub mod error;
pub mod pcm;
pub mod spectrum;
pub mod raster;
pub mod pipeline;
pub mod palette;
pub mod normalise;
