//! Scaling a matrix by its largest value. The arithmetic on single values
//! (the larger of two, the test for silence, the quotient) is handed in;
//! the passes over the matrix are made here.

use vstd::prelude::*;

verus! {

/// All values of the matrix, row after row.
pub open spec fn flat<M>(matrix: Seq<Vec<M>>) -> Seq<M>
    decreases matrix.len(),
{
    if matrix.len() == 0 {
        Seq::empty()
    } else {
        flat(matrix.drop_last()) + matrix.last()@
    }
}

/// Whether `peak` is what comes of `floor` when `larger` takes in the
/// values one after the other.
pub open spec fn is_peak<M, L: Fn(M, M) -> M>(larger: L, floor: M, values: Seq<M>, peak: M) -> bool
    decreases values.len(),
{
    if values.len() == 0 {
        peak == floor
    } else {
        exists|before: M|
            is_peak(larger, floor, values.drop_last(), before) && #[trigger] call_ensures(
                larger,
                (before, values.last()),
                peak,
            )
    }
}

/// Whether `out` holds, value for value, what `scaled` makes of `row` and `peak`.
pub open spec fn is_scaled_row<M, Q: Fn(M, M) -> M>(
    scaled: Q,
    peak: M,
    row: Seq<M>,
    out: Seq<M>,
) -> bool {
    &&& out.len() == row.len()
    &&& forall|j: int| 0 <= j < row.len() ==> call_ensures(scaled, (row[j], peak), #[trigger] out[j])
}

/// Whether `out` holds, row for row, what `scaled` makes of `matrix` and `peak`.
pub open spec fn is_scaled<M, Q: Fn(M, M) -> M>(
    scaled: Q,
    peak: M,
    matrix: Seq<Vec<M>>,
    out: Seq<Vec<M>>,
) -> bool {
    &&& out.len() == matrix.len()
    &&& forall|i: int|
        0 <= i < matrix.len() ==> is_scaled_row(scaled, peak, matrix[i]@, (#[trigger] out[i])@)
}

/// With no value taken in, the peak is the floor.
pub proof fn lemma_peak_of_nothing<M, L: Fn(M, M) -> M>(larger: L, floor: M, values: Seq<M>, peak: M)
    requires
        values.len() == 0,
        is_peak(larger, floor, values, peak),
    ensures
        peak == floor,
{
}

/// The peak comes of the peak of all values but the last by one call of
/// `larger` with the last value.
pub proof fn lemma_peak_of_last<M, L: Fn(M, M) -> M>(larger: L, floor: M, values: Seq<M>, peak: M)
    requires
        values.len() > 0,
        is_peak(larger, floor, values, peak),
    ensures
        exists|before: M|
            is_peak(larger, floor, values.drop_last(), before) && #[trigger] call_ensures(
                larger,
                (before, values.last()),
                peak,
            ),
{
}

/// Where `larger` always gives one of its two arguments, the peak is the
/// floor or one of the values.
pub proof fn lemma_peak_is_attained<M, L: Fn(M, M) -> M>(
    larger: L,
    floor: M,
    values: Seq<M>,
    peak: M,
)
    requires
        forall|a: M, b: M, c: M| #[trigger] call_ensures(larger, (a, b), c) ==> c == a || c == b,
        is_peak(larger, floor, values, peak),
    ensures
        peak == floor || values.contains(peak),
    decreases values.len(),
{
    if values.len() > 0 {
        let before = choose|before: M|
            is_peak(larger, floor, values.drop_last(), before) && #[trigger] call_ensures(
                larger,
                (before, values.last()),
                peak,
            );
        lemma_peak_is_attained(larger, floor, values.drop_last(), before);
        if peak == before {
            if values.drop_last().contains(before) {
                let k = choose|k: int| 0 <= k < values.drop_last().len() && values.drop_last()[k] == before;
                assert(values[k] == peak);
            }
        } else {
            assert(values[values.len() - 1] == peak);
        }
    }
}

/// Taking in one more value moves the peak by one call of `larger`.
pub proof fn lemma_peak_step<M, L: Fn(M, M) -> M>(
    larger: L,
    floor: M,
    values: Seq<M>,
    before: M,
    value: M,
    peak: M,
)
    requires
        is_peak(larger, floor, values, before),
        call_ensures(larger, (before, value), peak),
    ensures
        is_peak(larger, floor, values.push(value), peak),
{
    let longer = values.push(value);
    assert(longer.drop_last() =~= values);
    assert(longer.last() == value);
}

/// The values of the first `i + 1` rows are those of the first `i` rows and
/// then those of row `i`.
pub proof fn lemma_flat_step<M>(matrix: Seq<Vec<M>>, i: int)
    requires
        0 <= i < matrix.len(),
    ensures
        flat(matrix.take(i + 1)) == flat(matrix.take(i)) + matrix[i]@,
{
    let longer = matrix.take(i + 1);
    assert(longer.drop_last() =~= matrix.take(i));
    assert(longer.last() == matrix[i]);
}

/// The first pass: the largest value of the matrix, starting from `floor`.
pub fn peak_of<M: Copy, L: Fn(M, M) -> M>(matrix: &Vec<Vec<M>>, floor: M, larger: &L) -> (peak: M)
    requires
        forall|a: M, b: M| call_requires(*larger, (a, b)),
    ensures
        is_peak(*larger, floor, flat(matrix@), peak),
{
    let mut acc = floor;
    let mut i: usize = 0;
    assert(flat(matrix@.take(0)) =~= Seq::<M>::empty());
    while i < matrix.len()
        invariant
            i <= matrix@.len(),
            forall|a: M, b: M| call_requires(*larger, (a, b)),
            is_peak(*larger, floor, flat(matrix@.take(i as int)), acc),
        decreases matrix@.len() - i,
    {
        let row = &matrix[i];
        let ghost done = flat(matrix@.take(i as int));
        let mut j: usize = 0;
        assert(done + row@.take(0) =~= done);
        while j < row.len()
            invariant
                j <= row@.len(),
                forall|a: M, b: M| call_requires(*larger, (a, b)),
                is_peak(*larger, floor, done + row@.take(j as int), acc),
            decreases row@.len() - j,
        {
            let ghost before = acc;
            acc = larger(acc, row[j]);
            proof {
                lemma_peak_step(
                    *larger,
                    floor,
                    done + row@.take(j as int),
                    before,
                    row@[j as int],
                    acc,
                );
                assert((done + row@.take(j as int)).push(row@[j as int]) =~= done + row@.take(
                    j + 1,
                ));
            }
            j += 1;
        }
        proof {
            assert(row@.take(row@.len() as int) =~= row@);
            lemma_flat_step(matrix@, i as int);
        }
        i += 1;
    }
    assert(matrix@.take(matrix@.len() as int) =~= matrix@);
    acc
}

/// The second pass: every value of the matrix scaled by `peak`.
pub fn scale_by<M: Copy, Q: Fn(M, M) -> M>(matrix: &Vec<Vec<M>>, peak: M, scaled: &Q) -> (out: Vec<
    Vec<M>,
>)
    requires
        forall|a: M, b: M| call_requires(*scaled, (a, b)),
    ensures
        is_scaled(*scaled, peak, matrix@, out@),
{
    let mut out: Vec<Vec<M>> = Vec::with_capacity(matrix.len());
    let mut i: usize = 0;
    while i < matrix.len()
        invariant
            i <= matrix@.len(),
            out@.len() == i,
            forall|a: M, b: M| call_requires(*scaled, (a, b)),
            forall|k: int|
                0 <= k < i ==> is_scaled_row(*scaled, peak, matrix@[k]@, (#[trigger] out@[k])@),
        decreases matrix@.len() - i,
    {
        let row = &matrix[i];
        let mut line: Vec<M> = Vec::with_capacity(row.len());
        let mut j: usize = 0;
        while j < row.len()
            invariant
                j <= row@.len(),
                line@.len() == j,
                forall|a: M, b: M| call_requires(*scaled, (a, b)),
                forall|k: int|
                    0 <= k < j ==> call_ensures(*scaled, (row@[k], peak), #[trigger] line@[k]),
            decreases row@.len() - j,
        {
            line.push(scaled(row[j], peak));
            j += 1;
        }
        out.push(line);
        i += 1;
    }
    out
}

/// What becomes of a matrix once its peak is known and tested: nothing
/// where the peak is silence, else the matrix scaled by the peak.
pub fn settle<M: Copy, Q: Fn(M, M) -> M>(matrix: &Vec<Vec<M>>, peak: M, quiet: bool, scaled: &Q) -> (r:
    Option<Vec<Vec<M>>>)
    requires
        forall|a: M, b: M| call_requires(*scaled, (a, b)),
    ensures
        quiet ==> r is None,
        !quiet ==> r is Some && is_scaled(*scaled, peak, matrix@, r->0@),
{
    if quiet {
        None
    } else {
        Some(scale_by(matrix, peak, scaled))
    }
}

/// Scales the matrix by its largest value. `larger` gives the larger of
/// two values and takes in all of them, starting from `floor`; `silent`
/// says whether the peak is too small to divide by; `scaled` divides a
/// value by the peak. A silent matrix gives nothing.
pub fn normalise<M: Copy, L: Fn(M, M) -> M, S: Fn(M) -> bool, Q: Fn(M, M) -> M>(
    matrix: Vec<Vec<M>>,
    floor: M,
    larger: L,
    silent: S,
    scaled: Q,
) -> (r: Option<Vec<Vec<M>>>)
    requires
        forall|a: M, b: M| call_requires(larger, (a, b)),
        forall|a: M| call_requires(silent, (a,)),
        forall|a: M, b: M| call_requires(scaled, (a, b)),
    ensures
        exists|peak: M, quiet: bool|
            {
                &&& is_peak(larger, floor, flat(matrix@), peak)
                &&& #[trigger] call_ensures(silent, (peak,), quiet)
                &&& quiet ==> r is None
                &&& !quiet ==> r is Some && is_scaled(scaled, peak, matrix@, r->0@)
            },
{
    let peak = peak_of(&matrix, floor, &larger);
    let quiet = silent(peak);
    let r = settle(&matrix, peak, quiet, &scaled);
    assert(call_ensures(silent, (peak,), quiet));
    r
}

} // verus!
