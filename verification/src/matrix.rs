//! Building the lower triangle of a self-similarity matrix.

use vstd::prelude::*;
use vstd::slice::slice_subrange;
use crate::layout::{
    feature_vector, flat_index, lemma_feature_vector_in_bounds, lemma_flat_index_in_range,
    lemma_triangle_step, sample_count, triangle,
};

verus! {

/// Why a matrix could not be built.
#[derive(Clone, Copy, Debug, PartialEq, Eq, Structural)]
pub enum SsmError {
    /// The feature length was zero, so the buffer has no division into samples.
    InvalidArgument,
}

/// `similarity` may be called on the feature vectors `a` and `b`, however
/// they are held in memory.
pub open spec fn accepts<T, S, F: Fn(&[T], &[T]) -> S>(similarity: F, a: Seq<T>, b: Seq<T>) -> bool {
    forall|x: &[T], y: &[T]| x@ == a && y@ == b ==> #[trigger] similarity.requires((x, y))
}

/// `score` is a result of calling `similarity` on the feature vectors `a` and
/// `b`.
pub open spec fn scores<T, S, F: Fn(&[T], &[T]) -> S>(
    similarity: F,
    a: Seq<T>,
    b: Seq<T>,
    score: S,
) -> bool {
    exists|x: &[T], y: &[T]| x@ == a && y@ == b && #[trigger] similarity.ensures((x, y), score)
}

/// `similarity` may be called on every pair of samples of the buffer that the
/// lower triangle holds.
pub open spec fn accepts_all_pairs<T, S, F: Fn(&[T], &[T]) -> S>(
    similarity: F,
    features: Seq<T>,
    feature_length: nat,
) -> bool {
    forall|row: nat, col: nat|
        col <= row < sample_count(features.len(), feature_length) ==> accepts(
            similarity,
            #[trigger] feature_vector(features, feature_length, row),
            #[trigger] feature_vector(features, feature_length, col),
        )
}

/// `out` is the self-similarity matrix of the buffer under `similarity`: the
/// lower triangle, diagonal included, over all whole samples. The entry for
/// (`row`, `col`) is a result of `similarity` on samples `row` and `col`, and
/// lies at `flat_index(row, col)`.
pub open spec fn is_similarity_matrix<T, S, F: Fn(&[T], &[T]) -> S>(
    similarity: F,
    features: Seq<T>,
    feature_length: nat,
    out: Seq<S>,
) -> bool {
    let samples = sample_count(features.len(), feature_length);
    &&& out.len() == triangle(samples)
    &&& forall|row: nat, col: nat|
        col <= row < samples ==> scores(
            similarity,
            feature_vector(features, feature_length, row),
            feature_vector(features, feature_length, col),
            out[#[trigger] flat_index(row, col) as int],
        )
}

/// `out` is the matrix as far as it has been built: all of the first `rows`
/// rows, then the first `cols` entries of row `rows`.
pub open spec fn is_partial_matrix<T, S, F: Fn(&[T], &[T]) -> S>(
    similarity: F,
    features: Seq<T>,
    feature_length: nat,
    rows: nat,
    cols: nat,
    out: Seq<S>,
) -> bool {
    &&& out.len() == triangle(rows) + cols
    &&& forall|row: nat, col: nat|
        (col <= row < rows || (row == rows && col < cols)) ==> scores(
            similarity,
            feature_vector(features, feature_length, row),
            feature_vector(features, feature_length, col),
            out[#[trigger] flat_index(row, col) as int],
        )
}

/// Counts the whole feature vectors in a buffer of `len` elements. A trailing
/// part that does not fill a vector is left out of the count.
pub fn count_samples(len: usize, feature_length: usize) -> (r: Result<usize, SsmError>)
    ensures
        feature_length == 0 ==> r == Err::<usize, SsmError>(SsmError::InvalidArgument),
        feature_length > 0 ==> r is Ok && r->Ok_0 == sample_count(
            len as nat,
            feature_length as nat,
        ),
{
    if feature_length == 0 {
        Err(SsmError::InvalidArgument)
    } else {
        Ok(len / feature_length)
    }
}

/// Borrows sample `i` of the buffer.
fn sample<T>(features: &[T], feature_length: usize, i: usize) -> (r: &[T])
    requires
        feature_length > 0,
        i < sample_count(features@.len(), feature_length as nat),
    ensures
        r@ == feature_vector(features@, feature_length as nat, i as nat),
{
    proof {
        lemma_feature_vector_in_bounds(features@.len(), feature_length as nat, i as nat);
        assert(features@.len() == features.len());
    }
    let start: usize = i * feature_length;
    slice_subrange(features, start, start + feature_length)
}

/// Computes the self-similarity matrix of `features`, read as consecutive
/// samples of `feature_length` elements each, under `similarity`.
///
/// Only the lower triangle is produced: for each row in ascending order, the
/// scores against columns `0..=row` in ascending order. Elements after the
/// last whole sample are ignored. A zero `feature_length` is an error.
pub fn calculate_ssm<T, S, F>(feature_length: usize, features: &[T], similarity: F) -> (r: Result<
    Vec<S>,
    SsmError,
>) where F: Fn(&[T], &[T]) -> S
    requires
        feature_length > 0 ==> accepts_all_pairs(similarity, features@, feature_length as nat),
    ensures
        feature_length == 0 ==> r == Err::<Vec<S>, SsmError>(SsmError::InvalidArgument),
        feature_length > 0 ==> r is Ok && is_similarity_matrix(
            similarity,
            features@,
            feature_length as nat,
            r->Ok_0@,
        ),
        feature_length > 0 ==> r is Ok && r->Ok_0@.len() == triangle(
            sample_count(features@.len(), feature_length as nat),
        ),
{
    let samples: usize = match count_samples(features.len(), feature_length) {
        Ok(n) => n,
        Err(e) => {
            return Err(e);
        },
    };
    let ghost fl = feature_length as nat;
    let mut data: Vec<S> = Vec::new();
    let mut i: usize = 0;
    while i < samples
        invariant
            feature_length > 0,
            fl == feature_length,
            samples == sample_count(features@.len(), fl),
            accepts_all_pairs(similarity, features@, fl),
            i <= samples,
            is_partial_matrix(similarity, features@, fl, i as nat, 0, data@),
        decreases samples - i,
    {
        let row = sample(features, feature_length, i);
        let mut j: usize = 0;
        while j <= i
            invariant
                feature_length > 0,
                fl == feature_length,
                samples == sample_count(features@.len(), fl),
                accepts_all_pairs(similarity, features@, fl),
                i < samples,
                j <= i + 1,
                row@ == feature_vector(features@, fl, i as nat),
                is_partial_matrix(similarity, features@, fl, i as nat, j as nat, data@),
            decreases i + 1 - j,
        {
            let col = sample(features, feature_length, j);
            let ghost before = data@;
            let score = similarity(row, col);
            data.push(score);
            proof {
                assert forall|r: nat, c: nat|
                    (c <= r < i || (r == i && c < j + 1)) implies scores(
                        similarity,
                        feature_vector(features@, fl, r),
                        feature_vector(features@, fl, c),
                        data@[#[trigger] flat_index(r, c) as int],
                    ) by {
                    if r == i && c == j {
                        assert(data@[flat_index(r, c) as int] == score);
                    } else {
                        if r < i {
                            lemma_flat_index_in_range(r, c, i as nat);
                        }
                        assert(data@[flat_index(r, c) as int] == before[flat_index(r, c) as int]);
                    }
                }
            }
            j += 1;
        }
        proof {
            lemma_triangle_step(i as nat);
        }
        i += 1;
    }
    Ok(data)
}

} // verus!
