//! Reconstruction of the output buffer: every pixel is replaced by the RGB
//! value of the centroid its label points at; the original pixel values are
//! discarded.

use vstd::prelude::*;

use crate::model::{pixel_at, pixel_count, QuantizeError, Rgb};

verus! {

/// Emits, for each pixel index `i`, the RGB triple of `centroids[labels[i]]`.
/// The output buffer has exactly the length of the input buffer. Callers
/// must guard the labels: every label has to point inside the centroid set.
pub fn reconstruct_image(
    pixels: &Vec<u8>,
    clustered_pixels: &Vec<u8>,
    centroids: &Vec<Rgb>,
) -> (out: Vec<u8>)
    requires
        pixels@.len() % 3 == 0,
        pixels@.len() <= usize::MAX,
        clustered_pixels@.len() == pixel_count(pixels@),
        forall|i: int| 0 <= i < clustered_pixels@.len() ==> #[trigger] clustered_pixels@[i]
            < centroids@.len(),
    ensures
        out@.len() == pixels@.len(),
        forall|i: int| 0 <= i < clustered_pixels@.len() ==> pixel_at(out@, i)
            == #[trigger] centroids@[clustered_pixels@[i] as int],
{
    let pix_count = clustered_pixels.len();
    let mut out: Vec<u8> = Vec::new();
    let mut i: usize = 0;
    while i < pix_count
        invariant
            pixels@.len() % 3 == 0,
            pixels@.len() <= usize::MAX,
            clustered_pixels@.len() == pixel_count(pixels@),
            pix_count == clustered_pixels@.len(),
            forall|q: int| 0 <= q < clustered_pixels@.len() ==> #[trigger] clustered_pixels@[q]
                < centroids@.len(),
            i <= pix_count,
            out@.len() == 3 * i,
            forall|q: int| 0 <= q < i ==> pixel_at(out@, q) == #[trigger] centroids@[
                clustered_pixels@[q] as int],
        decreases pix_count - i,
    {
        let centroid = centroids[clustered_pixels[i] as usize];
        out.push(centroid.r);
        out.push(centroid.g);
        out.push(centroid.b);
        i += 1;
    }
    out
}

/// Reconstruction with the invariant check at run time: a label assignment
/// of the wrong length or with a label outside the centroid set is an
/// internal inconsistency and is answered with `InvariantViolation` instead
/// of a panic.
pub fn reconstruct_image_checked(
    pixels: &Vec<u8>,
    clustered_pixels: &Vec<u8>,
    centroids: &Vec<Rgb>,
) -> (result: Result<Vec<u8>, QuantizeError>)
    requires
        pixels@.len() % 3 == 0,
    ensures
        result is Ok <==> clustered_pixels@.len() == pixel_count(pixels@) && (forall|i: int|
            0 <= i < clustered_pixels@.len() ==> #[trigger] clustered_pixels@[i]
                < centroids@.len()),
        result matches Err(e) ==> e == QuantizeError::InvariantViolation,
        result matches Ok(out) ==> out@.len() == pixels@.len() && (forall|i: int|
            0 <= i < clustered_pixels@.len() ==> pixel_at(out@, i) == #[trigger] centroids@[
                clustered_pixels@[i] as int]),
{
    if clustered_pixels.len() != pixels.len() / 3 {
        return Err(QuantizeError::InvariantViolation);
    }
    let mut i: usize = 0;
    while i < clustered_pixels.len()
        invariant
            i <= clustered_pixels@.len(),
            forall|q: int| 0 <= q < i ==> #[trigger] clustered_pixels@[q] < centroids@.len(),
        decreases clustered_pixels@.len() - i,
    {
        if clustered_pixels[i] as usize >= centroids.len() {
            return Err(QuantizeError::InvariantViolation);
        }
        i += 1;
    }
    Ok(reconstruct_image(pixels, clustered_pixels, centroids))
}

} // verus!
