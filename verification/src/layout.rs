//! How a flat feature buffer divides into samples, and where each entry of the
//! lower triangle of the pairwise matrix lies in the flat score buffer.

use vstd::prelude::*;

verus! {

/// The number of whole feature vectors of `feature_length` elements in a
/// buffer of `len` elements. Elements past the last whole vector do not count.
pub open spec fn sample_count(len: nat, feature_length: nat) -> nat
    recommends
        feature_length > 0,
{
    len / feature_length
}

/// The `i`-th feature vector of a buffer: the `feature_length` elements that
/// start at offset `i * feature_length`.
pub open spec fn feature_vector<T>(features: Seq<T>, feature_length: nat, i: nat) -> Seq<T>
    recommends
        feature_length > 0,
        i < sample_count(features.len(), feature_length),
{
    features.subrange((i * feature_length) as int, (i * feature_length + feature_length) as int)
}

/// The number of entries in the lower triangle, diagonal included, of a square
/// matrix with `n` rows.
pub open spec fn triangle(n: nat) -> nat {
    n * (n + 1) / 2
}

/// The position of entry (`row`, `col`) of the lower triangle in the flat
/// buffer: rows follow one another, and within a row the columns ascend.
pub open spec fn flat_index(row: nat, col: nat) -> nat
    recommends
        col <= row,
{
    triangle(row) + col
}

/// Every sample lies wholly inside the buffer.
pub proof fn lemma_feature_vector_in_bounds(len: nat, feature_length: nat, i: nat)
    requires
        feature_length > 0,
        i < sample_count(len, feature_length),
    ensures
        i * feature_length + feature_length <= len,
{
    let samples = len / feature_length;
    assert(i * feature_length + feature_length <= len) by (nonlinear_arith)
        requires
            feature_length > 0,
            samples == len / feature_length,
            i + 1 <= samples,
    ;
}

/// Adding row `n` to a triangle of `n` rows adds `n + 1` entries.
pub proof fn lemma_triangle_step(n: nat)
    ensures
        triangle(n + 1) == triangle(n) + n + 1,
{
    assert((n + 1) * (n + 2) == n * (n + 1) + 2 * (n + 1)) by (nonlinear_arith);
}

/// A triangle with more rows has at least as many entries.
pub proof fn lemma_triangle_monotonic(m: nat, n: nat)
    requires
        m <= n,
    ensures
        triangle(m) <= triangle(n),
{
    assert(m * (m + 1) <= n * (n + 1)) by (nonlinear_arith)
        requires
            m <= n,
    ;
}

/// The entries of a triangle with `n` rows lie at positions below
/// `triangle(n)`.
pub proof fn lemma_flat_index_in_range(row: nat, col: nat, n: nat)
    requires
        col <= row < n,
    ensures
        flat_index(row, col) < triangle(n),
{
    lemma_triangle_step(row);
    lemma_triangle_monotonic(row + 1, n);
}

/// No two entries of the lower triangle share a position.
pub proof fn lemma_flat_index_injective(row1: nat, col1: nat, row2: nat, col2: nat)
    requires
        col1 <= row1,
        col2 <= row2,
        flat_index(row1, col1) == flat_index(row2, col2),
    ensures
        row1 == row2,
        col1 == col2,
{
    if row1 < row2 {
        lemma_flat_index_in_range(row1, col1, row2);
    } else if row2 < row1 {
        lemma_flat_index_in_range(row2, col2, row1);
    }
}

/// Every position below `triangle(n)` holds an entry of the triangle with `n`
/// rows; the entry is returned as (row, column).
pub proof fn lemma_flat_index_surjective(n: nat, k: nat) -> (entry: (nat, nat))
    requires
        k < triangle(n),
    ensures
        entry.1 <= entry.0 < n,
        flat_index(entry.0, entry.1) == k,
    decreases n,
{
    if n == 0 {
        (0, 0)
    } else {
        let last = (n - 1) as nat;
        lemma_triangle_step(last);
        if k >= triangle(last) {
            (last, (k - triangle(last)) as nat)
        } else {
            lemma_flat_index_surjective(last, k)
        }
    }
}

} // verus!
