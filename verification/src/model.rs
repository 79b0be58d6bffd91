//! Data model of the clustering core: colors, errors, and the mathematical
//! description of pixel buffers, nearest-centroid assignment, and cluster
//! means that the executable functions are specified against.

use vstd::prelude::*;

verus! {

/// A color with one unsigned 8-bit value per RGB channel. It stands both for
/// a pixel read from the input buffer and for a cluster centroid.
#[derive(Clone, Copy, PartialEq, Eq, Structural, Debug)]
pub struct Rgb {
    pub r: u8,
    pub g: u8,
    pub b: u8,
}

/// The closed set of error kinds of the quantization pipeline. The clustering
/// core itself produces only `InvalidRange` (bad cluster count or empty pixel
/// domain) and `InvariantViolation` (an internal inconsistency such as an
/// out-of-range label); `IoError` and `DecodeError` are for the callers at
/// the file boundary.
#[derive(Clone, Copy, PartialEq, Eq, Structural, Debug)]
pub enum QuantizeError {
    IoError,
    DecodeError,
    InvalidRange,
    InvariantViolation,
}

/// Number of whole RGB triples held by a flat byte buffer.
pub open spec fn pixel_count(pixels: Seq<u8>) -> int {
    pixels.len() as int / 3
}

/// The `i`-th RGB triple of a flat byte buffer.
pub open spec fn pixel_at(pixels: Seq<u8>, i: int) -> Rgb {
    Rgb { r: pixels[3 * i], g: pixels[3 * i + 1], b: pixels[3 * i + 2] }
}

pub open spec fn sq(x: int) -> int {
    x * x
}

/// Squared Euclidean distance between two colors in RGB space.
pub open spec fn dist2(p: Rgb, c: Rgb) -> int {
    sq(p.r - c.r) + sq(p.g - c.g) + sq(p.b - c.b)
}

/// Index of the centroid among `cents[0..j]` nearest to `p`, ties resolved
/// toward the lower index: a later centroid replaces the best seen so far
/// only when strictly nearer.
pub open spec fn nearest_upto(p: Rgb, cents: Seq<Rgb>, j: int) -> int
    decreases j,
{
    if j <= 1 {
        0
    } else {
        let best = nearest_upto(p, cents, j - 1);
        if dist2(p, cents[j - 1]) < dist2(p, cents[best]) {
            j - 1
        } else {
            best
        }
    }
}

/// Index of the centroid nearest to `p`, lowest index winning ties.
pub open spec fn nearest(p: Rgb, cents: Seq<Rgb>) -> int {
    nearest_upto(p, cents, cents.len() as int)
}

/// The label assignment for a pixel buffer: one nearest-centroid index per
/// pixel.
pub open spec fn spec_assign(pixels: Seq<u8>, cents: Seq<Rgb>) -> Seq<u8> {
    Seq::new((pixels.len() / 3) as nat, |i: int| nearest(pixel_at(pixels, i), cents) as u8)
}

/// Number of entries of `labels[0..n]` equal to `j`.
pub open spec fn count_upto(labels: Seq<u8>, j: int, n: int) -> int
    decreases n,
{
    if n <= 0 {
        0
    } else {
        count_upto(labels, j, n - 1) + if labels[n - 1] as int == j {
            1int
        } else {
            0int
        }
    }
}

/// Size of cluster `j`: how many pixels carry label `j`.
pub open spec fn cluster_count(labels: Seq<u8>, j: int) -> int {
    count_upto(labels, j, labels.len() as int)
}

/// Channel `ch` of a color: 0 is red, 1 is green, anything else blue.
pub open spec fn channel(c: Rgb, ch: int) -> int {
    if ch == 0 {
        c.r as int
    } else if ch == 1 {
        c.g as int
    } else {
        c.b as int
    }
}

/// Sum of channel `ch` over the pixels among the first `n` whose label is `j`.
pub open spec fn sum_upto(pixels: Seq<u8>, labels: Seq<u8>, j: int, ch: int, n: int) -> int
    decreases n,
{
    if n <= 0 {
        0
    } else {
        sum_upto(pixels, labels, j, ch, n - 1) + if labels[n - 1] as int == j {
            channel(pixel_at(pixels, n - 1), ch)
        } else {
            0int
        }
    }
}

/// Sum of channel `ch` over all pixels of cluster `j`.
pub open spec fn cluster_sum(pixels: Seq<u8>, labels: Seq<u8>, j: int, ch: int) -> int {
    sum_upto(pixels, labels, j, ch, labels.len() as int)
}

/// Truncated mean of channel `ch` over cluster `j`, and 0 for an empty
/// cluster: the updated centroid of a cluster that owns no pixel is all-zero
/// rather than a carry-over of its previous value.
pub open spec fn mean_channel(pixels: Seq<u8>, labels: Seq<u8>, j: int, ch: int) -> int {
    if cluster_count(labels, j) == 0 {
        0
    } else {
        cluster_sum(pixels, labels, j, ch) / cluster_count(labels, j)
    }
}

/// A cluster's channel sum is at most 255 per owned pixel, and a cluster
/// within the first `n` pixels owns at most `n` of them.
pub proof fn lemma_sum_count_bounds(pixels: Seq<u8>, labels: Seq<u8>, j: int, ch: int, n: int)
    ensures
        0 <= count_upto(labels, j, n) <= if n <= 0 { 0int } else { n },
        0 <= sum_upto(pixels, labels, j, ch, n) <= 255 * count_upto(labels, j, n),
    decreases n,
{
    if n > 0 {
        lemma_sum_count_bounds(pixels, labels, j, ch, n - 1);
    }
}

pub proof fn lemma_nearest_upto_bound(p: Rgb, cents: Seq<Rgb>, j: int)
    requires
        1 <= j,
    ensures
        0 <= nearest_upto(p, cents, j) < j,
    decreases j,
{
    if j > 1 {
        lemma_nearest_upto_bound(p, cents, j - 1);
    }
}

pub proof fn lemma_nearest_upto_min(p: Rgb, cents: Seq<Rgb>, j: int)
    requires
        1 <= j <= cents.len(),
    ensures
        forall|l: int| 0 <= l < j ==> dist2(p, cents[nearest_upto(p, cents, j)]) <= dist2(
            p,
            #[trigger] cents[l],
        ),
        forall|l: int| 0 <= l < nearest_upto(p, cents, j) ==> dist2(p, #[trigger] cents[l])
            > dist2(p, cents[nearest_upto(p, cents, j)]),
    decreases j,
{
    if j > 1 {
        lemma_nearest_upto_min(p, cents, j - 1);
        lemma_nearest_upto_bound(p, cents, j - 1);
    }
}

/// Tie-break law of the assignment: the chosen index is in range, no centroid
/// is strictly nearer than the chosen one, and every strictly lower index is
/// strictly farther, so the lowest index wins among equidistant centroids.
pub proof fn lemma_nearest_tie_break(p: Rgb, cents: Seq<Rgb>)
    requires
        cents.len() >= 1,
    ensures
        0 <= nearest(p, cents) < cents.len(),
        forall|l: int| 0 <= l < cents.len() ==> dist2(p, cents[nearest(p, cents)]) <= dist2(
            p,
            #[trigger] cents[l],
        ),
        forall|l: int| 0 <= l < nearest(p, cents) ==> dist2(p, #[trigger] cents[l]) > dist2(
            p,
            cents[nearest(p, cents)],
        ),
{
    lemma_nearest_upto_bound(p, cents, cents.len() as int);
    lemma_nearest_upto_min(p, cents, cents.len() as int);
}

/// Shape of a label assignment: it has one entry per pixel, and each entry,
/// read back as an integer, is the nearest-centroid index of its pixel and
/// lies below the number of centroids.
pub proof fn lemma_spec_assign_props(pixels: Seq<u8>, cents: Seq<Rgb>)
    requires
        1 <= cents.len() <= 255,
    ensures
        spec_assign(pixels, cents).len() == pixel_count(pixels),
        forall|i: int| 0 <= i < pixel_count(pixels) ==> #[trigger] spec_assign(pixels, cents)[i]
            as int == nearest(pixel_at(pixels, i), cents),
        forall|i: int| 0 <= i < pixel_count(pixels) ==> #[trigger] spec_assign(pixels, cents)[i]
            < cents.len(),
{
    assert forall|i: int| 0 <= i < pixel_count(pixels) implies #[trigger] spec_assign(
        pixels,
        cents,
    )[i] as int == nearest(pixel_at(pixels, i), cents) && spec_assign(pixels, cents)[i]
        < cents.len() by {
        lemma_nearest_upto_bound(pixel_at(pixels, i), cents, cents.len() as int);
    }
}

/// Determinism of assignment: the nearest-centroid labels of a pixel buffer
/// are uniquely determined by the buffer and the centroid set. Any label
/// sequence in which every entry minimizes the squared distance of its pixel
/// and every strictly lower index is strictly farther equals the assignment.
pub proof fn lemma_assign_deterministic(pixels: Seq<u8>, cents: Seq<Rgb>, labels: Seq<u8>)
    requires
        1 <= cents.len() <= 255,
        labels.len() == pixel_count(pixels),
        forall|i: int| 0 <= i < labels.len() ==> #[trigger] labels[i] < cents.len(),
        forall|i: int, l: int|
            0 <= i < labels.len() && 0 <= l < cents.len() ==> dist2(
                pixel_at(pixels, i),
                cents[#[trigger] labels[i] as int],
            ) <= dist2(pixel_at(pixels, i), #[trigger] cents[l]),
        forall|i: int, l: int|
            0 <= i < labels.len() && 0 <= l < labels[i] as int ==> dist2(
                pixel_at(pixels, i),
                #[trigger] cents[l],
            ) > dist2(pixel_at(pixels, i), cents[#[trigger] labels[i] as int]),
    ensures
        labels == spec_assign(pixels, cents),
{
    lemma_spec_assign_props(pixels, cents);
    assert forall|i: int| 0 <= i < labels.len() implies labels[i] == spec_assign(pixels, cents)[i] by {
        let p = pixel_at(pixels, i);
        lemma_nearest_tie_break(p, cents);
        let n = nearest(p, cents);
        if (labels[i] as int) < n {
            assert(dist2(p, cents[labels[i] as int]) > dist2(p, cents[n]));
            assert(dist2(p, cents[labels[i] as int]) <= dist2(p, cents[n]));
        } else if n < labels[i] as int {
            assert(dist2(p, cents[n]) > dist2(p, cents[labels[i] as int]));
            assert(dist2(p, cents[n]) <= dist2(p, cents[labels[i] as int]));
        }
    }
    assert(labels =~= spec_assign(pixels, cents));
}

/// Convergence on a one-pixel image with a single centroid: the pixel is
/// always labeled 0, the updated centroid's channels are exactly the pixel's
/// channel values, and assignment against any single centroid labels the
/// pixel 0 again — so the very first convergence check after one update
/// succeeds and reconstruction reproduces the original pixel.
pub proof fn lemma_one_pixel_converges(pixels: Seq<u8>, cents: Seq<Rgb>)
    requires
        pixels.len() == 3,
        cents.len() == 1,
    ensures
        spec_assign(pixels, cents) == seq![0u8],
        cluster_count(seq![0u8], 0) == 1,
        mean_channel(pixels, seq![0u8], 0, 0) == pixel_at(pixels, 0).r as int,
        mean_channel(pixels, seq![0u8], 0, 1) == pixel_at(pixels, 0).g as int,
        mean_channel(pixels, seq![0u8], 0, 2) == pixel_at(pixels, 0).b as int,
{
    let labels = seq![0u8];
    assert(spec_assign(pixels, cents) =~= labels);
    assert(labels[0] == 0u8);
    assert(count_upto(labels, 0, 0) == 0);
    assert(count_upto(labels, 0, 1) == 1);
    assert forall|ch: int| 0 <= ch < 3 implies mean_channel(pixels, labels, 0, ch) == channel(
        pixel_at(pixels, 0),
        ch,
    ) by {
        assert(sum_upto(pixels, labels, 0, ch, 0) == 0);
        assert(sum_upto(pixels, labels, 0, ch, 1) == channel(pixel_at(pixels, 0), ch));
        vstd::arithmetic::div_mod::lemma_div_by_multiple(channel(pixel_at(pixels, 0), ch), 1);
    }
}

} // verus!
