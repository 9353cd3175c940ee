use vstd::prelude::*;

verus! {

/// Number of samples taken along a curve for a preview strip.
pub const SAMPLES: usize = 400;

/// Position of sample `i` out of `n` along a curve parameterised over
/// `[0, 1]`, as a fraction `(numerator, denominator)`: a single sample sits
/// in the middle, otherwise the samples are evenly spaced from 0 to 1.
pub open spec fn sample_position(n: usize, i: int) -> (usize, usize) {
    if n == 1 {
        (1usize, 2usize)
    } else {
        (i as usize, (n - 1) as usize)
    }
}

/// Evaluates a curve at `n` positions: none for `n == 0`, the middle for
/// `n == 1`, and `i / (n - 1)` for each `i < n` otherwise. The curve is given
/// as a function of a position written as a fraction.
pub fn sample<T, F: Fn(usize, usize) -> T>(n: usize, at: F) -> (r: Vec<T>)
    requires
        forall|i: int| 0 <= i < n ==> call_requires(at, #[trigger] sample_position(n, i)),
    ensures
        r.len() == n,
        forall|i: int| 0 <= i < n ==> call_ensures(at, #[trigger] sample_position(n, i), r[i]),
{
    let mut r: Vec<T> = Vec::new();
    if n == 0 {
        return r;
    }
    if n == 1 {
        assert(sample_position(n, 0) == (1usize, 2usize));
        let v = at(1, 2);
        r.push(v);
        return r;
    }
    let den: usize = n - 1;
    let mut i: usize = 0;
    while i < n
        invariant
            n >= 2,
            den == n - 1,
            i <= n,
            r.len() == i,
            forall|k: int| 0 <= k < n ==> call_requires(at, #[trigger] sample_position(n, k)),
            forall|k: int| 0 <= k < i ==> call_ensures(at, #[trigger] sample_position(n, k), r[k]),
        decreases n - i,
    {
        assert(sample_position(n, i as int) == (i, den));
        let v = at(i, den);
        r.push(v);
        i = i + 1;
    }
    r
}

/// The colours of a preview strip: the curve sampled at `SAMPLES` evenly
/// spaced positions `i / (SAMPLES - 1)` (see `sample_position`), each
/// written as text by `at`.
pub fn sample_steps<F: Fn(usize, usize) -> String>(at: F) -> (r: Vec<String>)
    requires
        forall|i: int| 0 <= i < SAMPLES ==> call_requires(at, #[trigger] sample_position(SAMPLES, i)),
    ensures
        r.len() == SAMPLES,
        forall|i: int|
            0 <= i < SAMPLES ==> call_ensures(at, #[trigger] sample_position(SAMPLES, i), r[i]),
{
    sample(SAMPLES, at)
}

/// Sample positions are proper fractions in `[0, 1]`, strictly increasing,
/// starting at 0 and ending at 1 when there are at least two samples.
pub proof fn lemma_positions_span(n: usize, i: int, j: int)
    requires
        n >= 2,
        0 <= i < j < n,
    ensures
        sample_position(n, i).1 > 0,
        sample_position(n, i).0 <= sample_position(n, i).1,
        sample_position(n, j).0 <= sample_position(n, j).1,
        sample_position(n, i).0 * sample_position(n, j).1 < sample_position(n, j).0
            * sample_position(n, i).1,
        sample_position(n, 0).0 == 0,
        sample_position(n, n - 1).0 == sample_position(n, n - 1).1,
{
    let d = (n - 1) as int;
    assert(i * d < j * d) by (nonlinear_arith)
        requires
            i < j,
            d > 0,
    ;
}

/// With an odd number of samples the middle one lies exactly at one half,
/// where a three-anchor curve passes through its base anchor.
pub proof fn lemma_middle_sample_is_half(n: usize)
    requires
        n % 2 == 1,
    ensures
        2 * sample_position(n, (n - 1) / 2).0 == sample_position(n, (n - 1) / 2).1,
{
}

} // verus!
