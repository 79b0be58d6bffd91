//! The clustering run from start to finish: sample initial centroids, then
//! alternate centroid update and pixel assignment until the labels repeat
//! exactly or an iteration cap is reached, and reconstruct the output buffer
//! from the final palette.

use vstd::prelude::*;

use crate::assign::{cluster_pixels, compare_clustered_pixels};
use crate::model::{channel, mean_channel, pixel_at, pixel_count, spec_assign, QuantizeError, Rgb};
use crate::reconstruct::reconstruct_image;
use crate::sampler::get_random_centroids;
use crate::update::update_centroids;

verus! {

/// The terminal state of a clustering run: the reconstructed pixel buffer,
/// the final centroid set and label assignment, and whether the stopping
/// criterion — a label assignment exactly equal to the previous round's —
/// was reached within the iteration cap.
#[derive(Debug)]
pub struct Quantized {
    pub pixels: Vec<u8>,
    pub centroids: Vec<Rgb>,
    pub labels: Vec<u8>,
    pub converged: bool,
}

/// Runs the whole pipeline on a flat RGB buffer: draw `k` random initial
/// centroids, assign labels, then repeat update and reassignment until the
/// labels are exactly those of the previous round, at most `max_iters`
/// times. The exact-equality test alone cannot bound the number of rounds
/// (label cycles are possible in principle), so the cap makes termination
/// unconditional; `converged` reports whether the criterion was met.
///
/// Whatever initial centroids the random source yields, the returned labels
/// are exactly the nearest-centroid assignment of the returned centroid set,
/// so a further assignment against them would reproduce them unchanged, and
/// every output pixel is exactly the centroid its label points at. When the
/// run converged, the returned state is moreover a fixed point: the returned
/// centroids are exactly the truncated cluster means of the returned labels.
pub fn quantize(pixels: &Vec<u8>, k: u8, max_iters: usize) -> (result: Result<
    Quantized,
    QuantizeError,
>)
    requires
        pixels@.len() % 3 == 0,
        pixel_count(pixels@) * 255 <= usize::MAX,
    ensures
        result is Ok <==> 1 <= k as int <= pixel_count(pixels@),
        result matches Err(e) ==> e == QuantizeError::InvalidRange,
        result matches Ok(q) ==> {
            &&& q.centroids@.len() == k as int
            &&& q.labels@ == spec_assign(pixels@, q.centroids@)
            &&& q.labels@.len() == pixel_count(pixels@)
            &&& q.pixels@.len() == pixels@.len()
            &&& forall|i: int| 0 <= i < q.labels@.len() ==> #[trigger] q.labels@[i] < k
            &&& forall|i: int| 0 <= i < q.labels@.len() ==> pixel_at(q.pixels@, i)
                == #[trigger] q.centroids@[q.labels@[i] as int]
            &&& q.converged ==> (forall|j: int, ch: int|
                0 <= j < k as int && 0 <= ch < 3 ==> channel(q.centroids@[j], ch)
                    == #[trigger] mean_channel(pixels@, q.labels@, j, ch))
        },
{
    let mut centroids = match get_random_centroids(pixels, k) {
        Ok(c) => c,
        Err(e) => {
            return Err(e);
        },
    };
    let mut labels = cluster_pixels(pixels, &centroids);
    let mut converged = false;
    let mut it: usize = 0;
    while it < max_iters && !converged
        invariant
            pixels@.len() % 3 == 0,
            pixels@.len() <= usize::MAX,
            pixel_count(pixels@) * 255 <= usize::MAX,
            1 <= k as int <= pixel_count(pixels@),
            centroids@.len() == k as int,
            labels@ == spec_assign(pixels@, centroids@),
            labels@.len() == pixel_count(pixels@),
            forall|i: int| 0 <= i < labels@.len() ==> #[trigger] labels@[i] < k,
            converged ==> (forall|j: int, ch: int|
                0 <= j < k as int && 0 <= ch < 3 ==> channel(centroids@[j], ch)
                    == #[trigger] mean_channel(pixels@, labels@, j, ch)),
            it <= max_iters,
        decreases max_iters - it,
    {
        let ghost prev = labels@;
        centroids = update_centroids(pixels, &labels, k);
        let new_labels = cluster_pixels(pixels, &centroids);
        converged = compare_clustered_pixels(&new_labels, &labels);
        labels = new_labels;
        proof {
            if converged {
                assert(labels@ == prev);
                assert forall|j: int, ch: int|
                    0 <= j < k as int && 0 <= ch < 3 implies channel(centroids@[j], ch)
                    == #[trigger] mean_channel(pixels@, labels@, j, ch) by {
                    assert(centroids@[j].r as int == mean_channel(pixels@, prev, j, 0));
                    assert(centroids@[j].g as int == mean_channel(pixels@, prev, j, 1));
                    assert(centroids@[j].b as int == mean_channel(pixels@, prev, j, 2));
                }
            }
        }
        it += 1;
    }
    let out = reconstruct_image(pixels, &labels, &centroids);
    Ok(Quantized { pixels: out, centroids, labels, converged })
}

} // verus!
