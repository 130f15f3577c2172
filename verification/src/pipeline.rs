//! The engine from samples to picture: spectra, then normalisation, then
//! the raster.

use vstd::prelude::*;
use crate::error::PipelineError;
use crate::normalise::{flat, is_peak, is_scaled, is_scaled_row, peak_of, settle};
use crate::raster::{is_picture, raster_width_spec, rasterize, Raster, Rgb};
use crate::spectrum::{
    extract,
    is_spectrum_row,
    nyquist_bins_spec,
    rectangular,
    window_count_spec,
    window_of,
};

verus! {

/// Whether `matrix` holds the spectra of the complete windows of `samples`.
pub open spec fn is_spectrogram<T, M, F: Fn(&[T]) -> Vec<M>>(
    transform: F,
    samples: Seq<T>,
    w: nat,
    matrix: Seq<Vec<M>>,
) -> bool {
    &&& matrix.len() > 0
    &&& matrix.len() == window_count_spec(samples.len(), w)
    &&& rectangular(matrix, nyquist_bins_spec(w))
    &&& forall|i: int|
        0 <= i < matrix.len() ==> is_spectrum_row(
            transform,
            window_of(samples, w as int, i),
            (#[trigger] matrix[i])@,
        )
}

/// The last stage: no picture of silence, else the picture of the
/// normalised matrix.
pub fn paint<M: Copy, C: Fn(&[M]) -> Rgb>(normalised: Option<Vec<Vec<M>>>, d: usize, colour: C) -> (r:
    Result<Raster, PipelineError>)
    requires
        d > 0,
        normalised is Some ==> normalised->0@.len() > 0 && rectangular(
            normalised->0@,
            normalised->0@[0]@.len(),
        ),
        forall|g: &[M]| 0 < g@.len() <= d ==> call_requires(colour, (g,)),
    ensures
        normalised is None ==> r == Err::<Raster, PipelineError>(PipelineError::Silence),
        normalised is Some ==> r is Ok && is_picture(colour, normalised->0@, d as int, r->Ok_0),
{
    match normalised {
        None => Err(PipelineError::Silence),
        Some(matrix) => Ok(rasterize(&matrix, d, colour)),
    }
}

/// Makes the picture of `samples`: their spectra, scaled by the largest
/// magnitude, painted group by group. `transform` gives the magnitudes of
/// one window; `larger`, `silent` and `scaled` are the arithmetic of the
/// normalisation, which starts from `floor`; `colour` gives the pixel for
/// one group of bins. Too few samples for one window fail before anything
/// is normalised, and silence fails before anything is painted.
pub fn render<
    T,
    M: Copy,
    F: Fn(&[T]) -> Vec<M>,
    L: Fn(M, M) -> M,
    S: Fn(M) -> bool,
    Q: Fn(M, M) -> M,
    C: Fn(&[M]) -> Rgb,
>(
    samples: &[T],
    w: usize,
    d: usize,
    transform: F,
    floor: M,
    larger: L,
    silent: S,
    scaled: Q,
    colour: C,
) -> (r: Result<Raster, PipelineError>)
    requires
        w > 0,
        d > 0,
        forall|win: &[T]| win@.len() == w ==> call_requires(transform, (win,)),
        forall|win: &[T], full: Vec<M>|
            win@.len() == w && #[trigger] call_ensures(transform, (win,), full) ==> full@.len()
                == w,
        forall|a: M, b: M| call_requires(larger, (a, b)),
        forall|a: M| call_requires(silent, (a,)),
        forall|a: M, b: M| call_requires(scaled, (a, b)),
        forall|g: &[M]| 0 < g@.len() <= d ==> call_requires(colour, (g,)),
    ensures
        samples@.len() < w <==> r == Err::<Raster, PipelineError>(PipelineError::InsufficientData),
        samples@.len() >= w ==> exists|matrix: Vec<Vec<M>>, peak: M, quiet: bool|
            #![trigger is_peak(larger, floor, flat(matrix@), peak), call_ensures(silent, (peak,), quiet)]
            {
                &&& is_spectrogram(transform, samples@, w as nat, matrix@)
                &&& is_peak(larger, floor, flat(matrix@), peak)
                &&& call_ensures(silent, (peak,), quiet)
                &&& quiet ==> r == Err::<Raster, PipelineError>(PipelineError::Silence)
                &&& !quiet ==> r is Ok && exists|normalised: Vec<Vec<M>>|
                    #[trigger] is_scaled(scaled, peak, matrix@, normalised@) && is_picture(
                        colour,
                        normalised@,
                        d as int,
                        r->Ok_0,
                    )
            },
        r is Ok ==> {
            &&& r->Ok_0.well_formed()
            &&& r->Ok_0.height == window_count_spec(samples@.len(), w as nat)
            &&& r->Ok_0.width == raster_width_spec(nyquist_bins_spec(w as nat) as int, d as int)
        },
{
    let matrix = match extract(samples, w, transform) {
        Ok(matrix) => matrix,
        Err(e) => {
            return Err(e);
        },
    };
    let peak = peak_of(&matrix, floor, &larger);
    let quiet = silent(peak);
    let outcome = settle(&matrix, peak, quiet, &scaled);
    proof {
        assert(is_spectrogram(transform, samples@, w as nat, matrix@));
        assert(call_ensures(silent, (peak,), quiet));
        if !quiet {
            let normalised = outcome->0;
            assert(is_scaled(scaled, peak, matrix@, normalised@));
            assert forall|i: int| 0 <= i < normalised@.len() implies (#[trigger] normalised@[i])@.len()
                == nyquist_bins_spec(w as nat) by {
                assert(is_scaled_row(scaled, peak, matrix@[i]@, normalised@[i]@));
            }
        }
    }
    paint(outcome, d, colour)
}

} // verus!
