//! Pixel-to-centroid assignment and the convergence check: each pixel is
//! labeled with the index of the centroid nearest to it by squared Euclidean
//! distance, the lowest index winning ties, and two label assignments are
//! compared for exact equality.

use vstd::prelude::*;

use crate::model::{dist2, nearest, nearest_upto, pixel_at, pixel_count, spec_assign, sq, Rgb};

verus! {

proof fn lemma_sq_bound(x: int)
    requires
        -255 <= x <= 255,
    ensures
        0 <= sq(x) <= 65025,
{
    assert(0 <= x * x <= 65025) by (nonlinear_arith)
        requires
            -255 <= x <= 255,
    ;
}

/// Squared Euclidean distance from the `i`-th pixel of the buffer to a
/// centroid, accumulated in 32-bit arithmetic: each channel difference lies
/// in -255..=255, so the sum of the three squares is at most 195075.
fn dist_to(pixels: &Vec<u8>, i: usize, c: &Rgb) -> (d: u32)
    requires
        3 * i + 2 < pixels@.len() <= usize::MAX,
    ensures
        d as int == dist2(pixel_at(pixels@, i as int), *c),
        d <= 195075,
{
    let dr: i32 = pixels[3 * i] as i32 - c.r as i32;
    let dg: i32 = pixels[3 * i + 1] as i32 - c.g as i32;
    let db: i32 = pixels[3 * i + 2] as i32 - c.b as i32;
    proof {
        lemma_sq_bound(dr as int);
        lemma_sq_bound(dg as int);
        lemma_sq_bound(db as int);
    }
    (dr * dr + dg * dg + db * db) as u32
}

/// Labels every pixel of the buffer with the index of its nearest centroid;
/// when several centroids are equidistant from a pixel, the lowest index is
/// chosen. The result is exactly the mathematical assignment, so repeated
/// calls on the same inputs agree.
pub fn cluster_pixels(pixels: &Vec<u8>, centroids: &Vec<Rgb>) -> (labels: Vec<u8>)
    requires
        pixels@.len() % 3 == 0,
        1 <= centroids@.len() <= 255,
    ensures
        labels@ == spec_assign(pixels@, centroids@),
        labels@.len() == pixel_count(pixels@),
        forall|i: int| 0 <= i < labels@.len() ==> #[trigger] labels@[i] < centroids@.len(),
{
    let pix_count = pixels.len() / 3;
    let mut labels: Vec<u8> = Vec::new();
    let mut i: usize = 0;
    while i < pix_count
        invariant
            pixels@.len() % 3 == 0,
            pixels@.len() <= usize::MAX,
            1 <= centroids@.len() <= 255,
            pix_count == pixel_count(pixels@),
            i <= pix_count,
            labels@.len() == i,
            forall|q: int| 0 <= q < i ==> #[trigger] labels@[q] as int == nearest(
                pixel_at(pixels@, q),
                centroids@,
            ),
        decreases pix_count - i,
    {
        let mut best: u8 = 0;
        let mut best_dist: u32 = dist_to(pixels, i, &centroids[0]);
        let mut j: usize = 1;
        while j < centroids.len()
            invariant
                pixels@.len() % 3 == 0,
                pixels@.len() <= usize::MAX,
                1 <= centroids@.len() <= 255,
                i < pixel_count(pixels@),
                1 <= j <= centroids@.len(),
                best as int == nearest_upto(pixel_at(pixels@, i as int), centroids@, j as int),
                best < j,
                best_dist as int == dist2(
                    pixel_at(pixels@, i as int),
                    centroids@[best as int],
                ),
            decreases centroids@.len() - j,
        {
            let d = dist_to(pixels, i, &centroids[j]);
            if d < best_dist {
                best_dist = d;
                best = j as u8;
            }
            j += 1;
        }
        labels.push(best);
        proof {
            crate::model::lemma_nearest_upto_bound(
                pixel_at(pixels@, i as int),
                centroids@,
                centroids@.len() as int,
            );
        }
        i += 1;
    }
    proof {
        crate::model::lemma_spec_assign_props(pixels@, centroids@);
        assert(labels@ =~= spec_assign(pixels@, centroids@));
    }
    labels
}

/// Convergence check: true exactly when the two label assignments have the
/// same length and agree at every index.
pub fn compare_clustered_pixels(
    clustered_pixels_1: &Vec<u8>,
    clustered_pixels_2: &Vec<u8>,
) -> (equal: bool)
    ensures
        equal <==> clustered_pixels_1@ == clustered_pixels_2@,
{
    if clustered_pixels_1.len() != clustered_pixels_2.len() {
        return false;
    }
    let mut i: usize = 0;
    while i < clustered_pixels_1.len()
        invariant
            clustered_pixels_1@.len() == clustered_pixels_2@.len(),
            i <= clustered_pixels_1@.len(),
            forall|q: int| 0 <= q < i ==> clustered_pixels_1@[q] == clustered_pixels_2@[q],
        decreases clustered_pixels_1@.len() - i,
    {
        if clustered_pixels_1[i] != clustered_pixels_2[i] {
            return false;
        }
        i += 1;
    }
    proof {
        assert(clustered_pixels_1@ =~= clustered_pixels_2@);
    }
    true
}

} // verus!
