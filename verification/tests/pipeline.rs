use kquant::assign::cluster_pixels;
use kquant::driver::quantize;
use kquant::model::{QuantizeError, Rgb};
use kquant::sampler::get_random_centroids;
use kquant::update::update_centroids;

fn rgb(r: u8, g: u8, b: u8) -> Rgb {
    Rgb { r, g, b }
}

#[test]
fn sampler_rejects_empty_domain() {
    let pixels: Vec<u8> = vec![];
    let result = get_random_centroids(&pixels, 1);
    assert_eq!(result, Err(QuantizeError::InvalidRange));
}

#[test]
fn sampler_rejects_zero_clusters() {
    let pixels: Vec<u8> = vec![1, 2, 3];
    let result = get_random_centroids(&pixels, 0);
    assert_eq!(result, Err(QuantizeError::InvalidRange));
}

#[test]
fn sampler_rejects_more_clusters_than_pixels() {
    let pixels: Vec<u8> = vec![1, 2, 3, 4, 5, 6];
    let result = get_random_centroids(&pixels, 3);
    assert_eq!(result, Err(QuantizeError::InvalidRange));
}

#[test]
fn sampler_draws_pixels_of_the_buffer() {
    // With a single pixel every draw must return exactly that pixel.
    let pixels: Vec<u8> = vec![9, 8, 7];
    let centroids = get_random_centroids(&pixels, 1).unwrap();
    assert_eq!(centroids, vec![rgb(9, 8, 7)]);

    // With several identical pixels every centroid is still that color.
    let pixels: Vec<u8> = vec![5, 6, 7, 5, 6, 7, 5, 6, 7];
    let centroids = get_random_centroids(&pixels, 3).unwrap();
    assert_eq!(centroids, vec![rgb(5, 6, 7), rgb(5, 6, 7), rgb(5, 6, 7)]);
}

#[test]
fn quantize_rejects_bad_cluster_counts() {
    let pixels: Vec<u8> = vec![1, 2, 3];
    assert_eq!(quantize(&pixels, 0, 10).unwrap_err(), QuantizeError::InvalidRange);
    assert_eq!(quantize(&pixels, 2, 10).unwrap_err(), QuantizeError::InvalidRange);
    let empty: Vec<u8> = vec![];
    assert_eq!(quantize(&empty, 1, 10).unwrap_err(), QuantizeError::InvalidRange);
}

#[test]
fn one_pixel_image_converges_in_one_round() {
    // A single pixel with k = 1: the first update already reproduces the
    // pixel's color, so one round reaches the stopping criterion.
    let pixels: Vec<u8> = vec![7, 8, 9];
    let result = quantize(&pixels, 1, 1).unwrap();
    assert!(result.converged);
    assert_eq!(result.centroids, vec![rgb(7, 8, 9)]);
    assert_eq!(result.labels, vec![0]);
    assert_eq!(result.pixels, pixels);
}

#[test]
fn converged_labels_are_idempotent() {
    let pixels: Vec<u8> = vec![
        0, 0, 0, 1, 1, 1, 250, 250, 250, 254, 254, 254, 3, 3, 3, 200, 200, 200,
    ];
    let result = quantize(&pixels, 2, 1000).unwrap();
    assert!(result.converged);
    // Assigning again with the centroids produced at convergence must give
    // back exactly the labels that produced them.
    let again = cluster_pixels(&pixels, &result.centroids);
    assert_eq!(again, result.labels);
    // And the converged state is a fixed point: updating from the returned
    // labels reproduces the returned centroids.
    let updated = update_centroids(&pixels, &result.labels, 2);
    assert_eq!(updated, result.centroids);
}

#[test]
fn two_cluster_scenario_splits_dark_and_light() {
    let pixels: Vec<u8> = vec![0, 0, 0, 1, 1, 1, 250, 250, 250, 254, 254, 254];
    let result = quantize(&pixels, 2, 1000).unwrap();
    assert!(result.converged);

    // The output image holds exactly two distinct colors: the truncated
    // averages of the dark pair and of the light pair.
    let mut seen: Vec<[u8; 3]> = Vec::new();
    for chunk in result.pixels.chunks(3) {
        let color = [chunk[0], chunk[1], chunk[2]];
        if !seen.contains(&color) {
            seen.push(color);
        }
    }
    seen.sort();
    assert_eq!(seen, vec![[0, 0, 0], [252, 252, 252]]);

    // The dark pixels share one label, the light pixels the other.
    assert_eq!(result.labels[0], result.labels[1]);
    assert_eq!(result.labels[2], result.labels[3]);
    assert_ne!(result.labels[0], result.labels[2]);
}
