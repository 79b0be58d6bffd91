//! Centroid update: each cluster's new centroid is the truncated per-channel
//! mean of the pixels that carry its label, and a cluster that owns no pixel
//! gets the all-zero centroid.

use vstd::arithmetic::div_mod::{lemma_div_by_multiple, lemma_div_is_ordered};
use vstd::prelude::*;

use crate::model::{
    cluster_count, cluster_sum, count_upto, lemma_sum_count_bounds, mean_channel, pixel_count,
    sum_upto, Rgb,
};

verus! {

/// Recomputes the `n` centroids from the current label assignment: centroid
/// `j` becomes the floor of the mean of each RGB channel over the pixels
/// labeled `j`, and `(0, 0, 0)` when no pixel is labeled `j`.
pub fn update_centroids(pixels: &Vec<u8>, clustered_pixels: &Vec<u8>, n: u8) -> (centroids: Vec<
    Rgb,
>)
    requires
        pixels@.len() % 3 == 0,
        pixels@.len() <= usize::MAX,
        clustered_pixels@.len() == pixel_count(pixels@),
        n >= 1,
        forall|i: int| 0 <= i < clustered_pixels@.len() ==> #[trigger] clustered_pixels@[i] < n,
        clustered_pixels@.len() * 255 <= usize::MAX,
    ensures
        centroids@.len() == n as int,
        forall|j: int| 0 <= j < n as int ==> #[trigger] centroids@[j].r as int == mean_channel(
            pixels@,
            clustered_pixels@,
            j,
            0,
        ),
        forall|j: int| 0 <= j < n as int ==> #[trigger] centroids@[j].g as int == mean_channel(
            pixels@,
            clustered_pixels@,
            j,
            1,
        ),
        forall|j: int| 0 <= j < n as int ==> #[trigger] centroids@[j].b as int == mean_channel(
            pixels@,
            clustered_pixels@,
            j,
            2,
        ),
        forall|j: int|
            0 <= j < n as int && cluster_count(clustered_pixels@, j) == 0
                ==> #[trigger] centroids@[j] == (Rgb { r: 0, g: 0, b: 0 }),
{
    let pix_count = clustered_pixels.len();
    let clusters = n as usize;

    let mut rsum: Vec<usize> = Vec::new();
    let mut gsum: Vec<usize> = Vec::new();
    let mut bsum: Vec<usize> = Vec::new();
    let mut cnt: Vec<usize> = Vec::new();
    let mut k: usize = 0;
    while k < clusters
        invariant
            k <= clusters,
            rsum@.len() == k,
            gsum@.len() == k,
            bsum@.len() == k,
            cnt@.len() == k,
            forall|j: int| 0 <= j < k ==> #[trigger] rsum@[j] == 0,
            forall|j: int| 0 <= j < k ==> #[trigger] gsum@[j] == 0,
            forall|j: int| 0 <= j < k ==> #[trigger] bsum@[j] == 0,
            forall|j: int| 0 <= j < k ==> #[trigger] cnt@[j] == 0,
        decreases clusters - k,
    {
        rsum.push(0);
        gsum.push(0);
        bsum.push(0);
        cnt.push(0);
        k += 1;
    }

    let mut p: usize = 0;
    while p < pix_count
        invariant
            pixels@.len() % 3 == 0,
            pixels@.len() <= usize::MAX,
            clustered_pixels@.len() == pixel_count(pixels@),
            clustered_pixels@.len() * 255 <= usize::MAX,
            forall|i: int| 0 <= i < clustered_pixels@.len() ==> #[trigger] clustered_pixels@[i]
                < n,
            pix_count == clustered_pixels@.len(),
            clusters == n as int,
            p <= pix_count,
            rsum@.len() == clusters,
            gsum@.len() == clusters,
            bsum@.len() == clusters,
            cnt@.len() == clusters,
            forall|j: int| 0 <= j < clusters ==> #[trigger] cnt@[j] == count_upto(
                clustered_pixels@,
                j,
                p as int,
            ),
            forall|j: int| 0 <= j < clusters ==> #[trigger] rsum@[j] == sum_upto(
                pixels@,
                clustered_pixels@,
                j,
                0,
                p as int,
            ),
            forall|j: int| 0 <= j < clusters ==> #[trigger] gsum@[j] == sum_upto(
                pixels@,
                clustered_pixels@,
                j,
                1,
                p as int,
            ),
            forall|j: int| 0 <= j < clusters ==> #[trigger] bsum@[j] == sum_upto(
                pixels@,
                clustered_pixels@,
                j,
                2,
                p as int,
            ),
        decreases pix_count - p,
    {
        let label = clustered_pixels[p] as usize;
        proof {
            lemma_sum_count_bounds(pixels@, clustered_pixels@, label as int, 0, p as int);
            lemma_sum_count_bounds(pixels@, clustered_pixels@, label as int, 1, p as int);
            lemma_sum_count_bounds(pixels@, clustered_pixels@, label as int, 2, p as int);
            assert(255 * count_upto(clustered_pixels@, label as int, p as int) <= 255 * (
            p as int)) by (nonlinear_arith)
                requires
                    count_upto(clustered_pixels@, label as int, p as int) <= p as int,
            ;
        }
        let pixel_start = p * 3;
        rsum[label] = rsum[label] + pixels[pixel_start] as usize;
        gsum[label] = gsum[label] + pixels[pixel_start + 1] as usize;
        bsum[label] = bsum[label] + pixels[pixel_start + 2] as usize;
        cnt[label] = cnt[label] + 1;
        p += 1;
    }

    let mut centroids: Vec<Rgb> = Vec::new();
    let mut j: usize = 0;
    while j < clusters
        invariant
            clusters == n as int,
            clustered_pixels@.len() * 255 <= usize::MAX,
            rsum@.len() == clusters,
            gsum@.len() == clusters,
            bsum@.len() == clusters,
            cnt@.len() == clusters,
            forall|q: int| 0 <= q < clusters ==> #[trigger] cnt@[q] == cluster_count(
                clustered_pixels@,
                q,
            ),
            forall|q: int| 0 <= q < clusters ==> #[trigger] rsum@[q] == cluster_sum(
                pixels@,
                clustered_pixels@,
                q,
                0,
            ),
            forall|q: int| 0 <= q < clusters ==> #[trigger] gsum@[q] == cluster_sum(
                pixels@,
                clustered_pixels@,
                q,
                1,
            ),
            forall|q: int| 0 <= q < clusters ==> #[trigger] bsum@[q] == cluster_sum(
                pixels@,
                clustered_pixels@,
                q,
                2,
            ),
            j <= clusters,
            centroids@.len() == j,
            forall|q: int| 0 <= q < j ==> #[trigger] centroids@[q].r as int == mean_channel(
                pixels@,
                clustered_pixels@,
                q,
                0,
            ),
            forall|q: int| 0 <= q < j ==> #[trigger] centroids@[q].g as int == mean_channel(
                pixels@,
                clustered_pixels@,
                q,
                1,
            ),
            forall|q: int| 0 <= q < j ==> #[trigger] centroids@[q].b as int == mean_channel(
                pixels@,
                clustered_pixels@,
                q,
                2,
            ),
            forall|q: int|
                0 <= q < j && cluster_count(clustered_pixels@, q) == 0
                    ==> #[trigger] centroids@[q] == (Rgb { r: 0, g: 0, b: 0 }),
        decreases clusters - j,
    {
        let c = cnt[j];
        if c > 0 {
            proof {
                lemma_mean_fits(pixels@, clustered_pixels@, j as int, 0);
                lemma_mean_fits(pixels@, clustered_pixels@, j as int, 1);
                lemma_mean_fits(pixels@, clustered_pixels@, j as int, 2);
            }
            let r = rsum[j] / c;
            let g = gsum[j] / c;
            let b = bsum[j] / c;
            centroids.push(Rgb { r: r as u8, g: g as u8, b: b as u8 });
        } else {
            centroids.push(Rgb { r: 0, g: 0, b: 0 });
        }
        j += 1;
    }
    centroids
}

/// A truncated cluster mean fits an 8-bit channel: the channel sum is at
/// most 255 per owned pixel, so its floor division by the owned count is at
/// most 255.
proof fn lemma_mean_fits(pixels: Seq<u8>, labels: Seq<u8>, j: int, ch: int)
    requires
        cluster_count(labels, j) > 0,
    ensures
        0 <= mean_channel(pixels, labels, j, ch) <= 255,
{
    let count = cluster_count(labels, j);
    let sum = cluster_sum(pixels, labels, j, ch);
    lemma_sum_count_bounds(pixels, labels, j, ch, labels.len() as int);
    lemma_div_is_ordered(sum, 255 * count, count);
    lemma_div_by_multiple(255, count);
    lemma_div_is_ordered(0, sum, count);
}

} // verus!
