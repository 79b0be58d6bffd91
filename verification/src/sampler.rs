//! Centroid initialization: `k` pixels are drawn independently and uniformly
//! at random, with replacement, so duplicate initial centroids are possible
//! and deliberately not corrected. An empty pixel domain or an out-of-bounds
//! cluster count is rejected with `InvalidRange` before any drawing.

use vstd::prelude::*;

use crate::model::{pixel_at, pixel_count, QuantizeError, Rgb};

verus! {

/// True when `c` is the value of some pixel of the buffer.
pub open spec fn is_pixel_of(c: Rgb, pixels: Seq<u8>) -> bool {
    exists|p: int| 0 <= p < pixel_count(pixels) && c == #[trigger] pixel_at(pixels, p)
}

/// Relies on rand::random_range: a value drawn uniformly at random from the
/// given range; it panics only on an empty range, which the precondition
/// rules out, and otherwise returns a value within the range.
#[verifier::external_body]
fn random_index(bound: usize) -> (r: usize)
    requires
        bound >= 1,
    ensures
        r < bound,
{
    rand::random_range(0..bound)
}

/// Draws `n` initial centroids by sampling `n` pixel positions uniformly at
/// random with replacement. Succeeds exactly when `1 <= n <= pixel_count`;
/// a cluster count of zero, one exceeding the pixel count, and in particular
/// an empty buffer are rejected with `InvalidRange`. Every returned centroid
/// is the value of some pixel of the buffer.
pub fn get_random_centroids(pixels: &Vec<u8>, n: u8) -> (result: Result<Vec<Rgb>, QuantizeError>)
    requires
        pixels@.len() % 3 == 0,
    ensures
        result is Ok <==> 1 <= n as int <= pixel_count(pixels@),
        result matches Err(e) ==> e == QuantizeError::InvalidRange,
        result matches Ok(centroids) ==> centroids@.len() == n as int && (forall|i: int|
            0 <= i < n as int ==> is_pixel_of(#[trigger] centroids@[i], pixels@)),
{
    let pix_count = pixels.len() / 3;
    if n == 0 || (n as usize) > pix_count {
        return Err(QuantizeError::InvalidRange);
    }
    let mut centroids: Vec<Rgb> = Vec::new();
    let mut drawn: usize = 0;
    while drawn < n as usize
        invariant
            pixels@.len() % 3 == 0,
            pixels@.len() <= usize::MAX,
            pix_count == pixel_count(pixels@),
            1 <= n as int <= pix_count,
            drawn <= n as usize,
            centroids@.len() == drawn,
            forall|i: int| 0 <= i < drawn ==> is_pixel_of(#[trigger] centroids@[i], pixels@),
        decreases n as usize - drawn,
    {
        let pos = random_index(pix_count);
        let centroid = Rgb {
            r: pixels[pos * 3],
            g: pixels[pos * 3 + 1],
            b: pixels[pos * 3 + 2],
        };
        centroids.push(centroid);
        proof {
            assert(centroid == pixel_at(pixels@, pos as int));
        }
        drawn += 1;
    }
    Ok(centroids)
}

} // verus!
