//! Cutting a sample sequence into windows and keeping the lower half of
//! each window's spectrum.

use vstd::prelude::*;
use vstd::slice::{slice_subrange, slice_to_vec};
use crate::error::PipelineError;

verus! {

/// The number of samples in a window.
pub open spec fn window_width_spec(sample_rate: nat, divisor: nat) -> nat {
    sample_rate / divisor
}

/// The number of spectrum bins kept of a window of `w` samples: the lower
/// half, or the whole where the half would be empty.
pub open spec fn nyquist_bins_spec(w: nat) -> nat {
    if w / 2 == 0 {
        w
    } else {
        w / 2
    }
}

/// The number of complete windows in `n` samples.
pub open spec fn window_count_spec(n: nat, w: nat) -> nat {
    n / w
}

/// The samples of window `i`: those from `i * w` up to `(i + 1) * w`.
pub open spec fn window_of<T>(samples: Seq<T>, w: int, i: int) -> Seq<T> {
    samples.subrange(i * w, (i + 1) * w)
}

/// Every row of the matrix holds `bins` values.
pub open spec fn rectangular<M>(matrix: Seq<Vec<M>>, bins: nat) -> bool {
    forall|i: int| 0 <= i < matrix.len() ==> (#[trigger] matrix[i])@.len() == bins
}

/// Whether `row` is what `transform` made of `window`, cut to the bins kept.
pub open spec fn is_spectrum_row<T, M, F: Fn(&[T]) -> Vec<M>>(
    transform: F,
    window: Seq<T>,
    row: Seq<M>,
) -> bool {
    exists|win: &[T], full: Vec<M>|
        win@ == window && #[trigger] call_ensures(transform, (win,), full) && row == full@.take(
            nyquist_bins_spec(window.len()) as int,
        )
}

/// Window `i` lies inside the samples when `i` counts a complete window.
pub proof fn lemma_window_in_bounds(n: int, w: int, i: int)
    requires
        w > 0,
        0 <= i < n / w,
    ensures
        0 <= i * w,
        (i + 1) * w <= n,
        (i + 1) * w == i * w + w,
{
    assert((i + 1) * w <= (n / w) * w) by (nonlinear_arith)
        requires
            i + 1 <= n / w,
            w > 0,
    ;
    assert((n / w) * w <= n) by (nonlinear_arith)
        requires
            w > 0,
    ;
    assert((i + 1) * w == i * w + w) by (nonlinear_arith);
    assert(0 <= i * w) by (nonlinear_arith)
        requires
            0 <= i,
            0 < w,
    ;
}

/// A window of more than one sample keeps half as many bins as it has
/// samples, rounded down; a window of one sample keeps its one bin.
pub proof fn lemma_bins_kept(w: nat)
    ensures
        w > 1 ==> nyquist_bins_spec(w) == w / 2,
        w == 1 ==> nyquist_bins_spec(w) == 1,
        nyquist_bins_spec(w) <= w,
        w > 0 ==> nyquist_bins_spec(w) > 0,
{
}

/// The complete windows use the samples before `n - n % w` and no others:
/// what lies behind them is shorter than a window, and two sample
/// sequences that agree up to there have the same windows.
pub proof fn lemma_trailing_samples_unused<T>(a: Seq<T>, b: Seq<T>, w: nat)
    requires
        w > 0,
        a.len() / w == b.len() / w,
        forall|k: int| 0 <= k < a.len() - a.len() % w ==> a[k] == b[k],
    ensures
        window_count_spec(a.len(), w) * w == a.len() - a.len() % w,
        a.len() % w < w,
        forall|i: int|
            0 <= i < window_count_spec(a.len(), w) ==> #[trigger] window_of(a, w as int, i)
                == window_of(b, w as int, i),
{
    let n = a.len() as int;
    let m = b.len() as int;
    let width = w as int;
    assert((n / width) * width == n - n % width && 0 <= n % width < width) by (nonlinear_arith)
        requires
            width > 0,
            n >= 0,
    ;
    assert forall|i: int| 0 <= i < window_count_spec(a.len(), w) implies #[trigger] window_of(
        a,
        w as int,
        i,
    ) == window_of(b, w as int, i) by {
        lemma_window_in_bounds(n, width, i);
        lemma_window_in_bounds(m, width, i);
        assert((i + 1) * width <= (n / width) * width) by (nonlinear_arith)
            requires
                i + 1 <= n / width,
                width > 0,
        ;
        assert(window_of(a, width, i) =~= window_of(b, width, i));
    }
}

/// The window length for a sample rate and a frame-size divisor.
pub fn window_width(sample_rate: usize, divisor: usize) -> (w: usize)
    requires
        divisor > 0,
    ensures
        w == window_width_spec(sample_rate as nat, divisor as nat),
        w > 0 <==> divisor <= sample_rate,
{
    let w = sample_rate / divisor;
    assert(sample_rate / divisor > 0 <==> divisor <= sample_rate) by (nonlinear_arith)
        requires
            divisor > 0,
            sample_rate >= 0,
    ;
    w
}

/// The number of bins kept of a window of `w` samples.
pub fn nyquist_bins(w: usize) -> (bins: usize)
    ensures
        bins == nyquist_bins_spec(w as nat),
        w > 1 ==> bins == w / 2,
        w == 1 ==> bins == 1,
        bins <= w,
{
    let half = w / 2;
    if half == 0 {
        w
    } else {
        half
    }
}

/// The number of complete windows of `w` samples in `n` samples.
pub fn window_count(n: usize, w: usize) -> (count: usize)
    requires
        w > 0,
    ensures
        count == window_count_spec(n as nat, w as nat),
        count * w <= n < (count + 1) * w,
        count == 0 <==> n < w,
{
    let count = n / w;
    assert(count * w <= n < (count + 1) * w && (count == 0 <==> n < w)) by (nonlinear_arith)
        requires
            w > 0,
            n >= 0,
            count == n / w,
    ;
    count
}

/// Keeps the lower half of a spectrum: bins `0` up to the number kept.
pub fn lower_half<M: Copy>(spectrum: &[M]) -> (kept: Vec<M>)
    ensures
        kept@ == spectrum@.take(nyquist_bins_spec(spectrum@.len()) as int),
        kept@.len() == nyquist_bins_spec(spectrum@.len()),
{
    let bins = nyquist_bins(spectrum.len());
    slice_to_vec(slice_subrange(spectrum, 0, bins))
}

/// The magnitude spectra of the complete windows of `samples`, in time
/// order. `transform` turns the `w` samples of one window into the `w`
/// magnitudes of its spectrum. Samples that fill no window are refused.
pub fn extract<T, M: Copy, F: Fn(&[T]) -> Vec<M>>(samples: &[T], w: usize, transform: F) -> (r:
    Result<Vec<Vec<M>>, PipelineError>)
    requires
        w > 0,
        forall|win: &[T]| win@.len() == w ==> call_requires(transform, (win,)),
        forall|win: &[T], full: Vec<M>|
            win@.len() == w && #[trigger] call_ensures(transform, (win,), full) ==> full@.len()
                == w,
    ensures
        samples@.len() < w <==> r is Err,
        r is Err ==> r == Err::<Vec<Vec<M>>, PipelineError>(PipelineError::InsufficientData),
        r is Ok ==> {
            let matrix = r->Ok_0@;
            &&& matrix.len() > 0
            &&& matrix.len() == window_count_spec(samples@.len(), w as nat)
            &&& rectangular(matrix, nyquist_bins_spec(w as nat))
            &&& forall|i: int|
                0 <= i < matrix.len() ==> is_spectrum_row(
                    transform,
                    window_of(samples@, w as int, i),
                    (#[trigger] matrix[i])@,
                )
        },
{
    let n = samples.len();
    let count = window_count(n, w);
    if count == 0 {
        return Err(PipelineError::InsufficientData);
    }
    let mut matrix: Vec<Vec<M>> = Vec::with_capacity(count);
    let mut i: usize = 0;
    while i < count
        invariant
            w > 0,
            i <= count,
            n == samples@.len(),
            count == n / w,
            matrix@.len() == i,
            forall|win: &[T]| win@.len() == w ==> call_requires(transform, (win,)),
            forall|win: &[T], full: Vec<M>|
                win@.len() == w && #[trigger] call_ensures(transform, (win,), full)
                    ==> full@.len() == w,
            rectangular(matrix@, nyquist_bins_spec(w as nat)),
            forall|k: int|
                0 <= k < i ==> is_spectrum_row(
                    transform,
                    window_of(samples@, w as int, k),
                    (#[trigger] matrix@[k])@,
                ),
        decreases count - i,
    {
        proof {
            lemma_window_in_bounds(n as int, w as int, i as int);
        }
        let start = i * w;
        let window = slice_subrange(samples, start, start + w);
        let full = transform(window);
        let kept = lower_half(full.as_slice());
        assert(is_spectrum_row(transform, window_of(samples@, w as int, i as int), kept@));
        matrix.push(kept);
        i += 1;
    }
    Ok(matrix)
}

} // verus!
