use kquant::assign::{cluster_pixels, compare_clustered_pixels};
use kquant::model::{QuantizeError, Rgb};
use kquant::reconstruct::{reconstruct_image, reconstruct_image_checked};
use kquant::update::update_centroids;

fn rgb(r: u8, g: u8, b: u8) -> Rgb {
    Rgb { r, g, b }
}

#[test]
fn assign_is_deterministic() {
    let pixels: Vec<u8> = vec![3, 1, 4, 1, 5, 9, 2, 6, 5, 3, 5, 8];
    let centroids = vec![rgb(0, 0, 0), rgb(10, 10, 10), rgb(2, 6, 5)];
    let first = cluster_pixels(&pixels, &centroids);
    let second = cluster_pixels(&pixels, &centroids);
    assert_eq!(first, second);
}

#[test]
fn tie_break_picks_lower_index() {
    // (10,10,10) is at squared distance 300 from both centroids.
    let pixels: Vec<u8> = vec![10, 10, 10];
    let centroids = vec![rgb(0, 0, 0), rgb(20, 20, 20)];
    let labels = cluster_pixels(&pixels, &centroids);
    assert_eq!(labels, vec![0]);
}

#[test]
fn assign_picks_nearest() {
    let pixels: Vec<u8> = vec![0, 0, 0, 9, 9, 9, 200, 200, 200];
    let centroids = vec![rgb(10, 10, 10), rgb(190, 190, 190)];
    let labels = cluster_pixels(&pixels, &centroids);
    assert_eq!(labels, vec![0, 0, 1]);
}

#[test]
fn update_means_are_truncated() {
    let pixels: Vec<u8> = vec![0, 0, 0, 10, 0, 0, 100, 100, 100];
    let labels: Vec<u8> = vec![0, 0, 1];
    let centroids = update_centroids(&pixels, &labels, 2);
    assert_eq!(centroids.len(), 2);
    assert_eq!(centroids[0], rgb(5, 0, 0));
    assert_eq!(centroids[1], rgb(100, 100, 100));
}

#[test]
fn update_zero_fills_empty_cluster() {
    let pixels: Vec<u8> = vec![10, 20, 30, 40, 50, 60];
    let labels: Vec<u8> = vec![0, 1];
    let centroids = update_centroids(&pixels, &labels, 3);
    assert_eq!(centroids.len(), 3);
    assert_eq!(centroids[0], rgb(10, 20, 30));
    assert_eq!(centroids[1], rgb(40, 50, 60));
    assert_eq!(centroids[2], rgb(0, 0, 0));
}

#[test]
fn update_on_empty_buffer_zero_fills_all() {
    let pixels: Vec<u8> = vec![];
    let labels: Vec<u8> = vec![];
    let centroids = update_centroids(&pixels, &labels, 2);
    assert_eq!(centroids, vec![rgb(0, 0, 0), rgb(0, 0, 0)]);
}

#[test]
fn compare_equal_assignments() {
    assert!(compare_clustered_pixels(&vec![0, 1, 2], &vec![0, 1, 2]));
    assert!(compare_clustered_pixels(&vec![], &vec![]));
}

#[test]
fn compare_detects_difference() {
    assert!(!compare_clustered_pixels(&vec![0, 1, 2], &vec![0, 1, 3]));
    assert!(!compare_clustered_pixels(&vec![0, 1], &vec![0, 1, 1]));
}

#[test]
fn reconstruction_round_trip() {
    // Every output pixel must be exactly the centroid its label points at.
    let pixels: Vec<u8> = vec![11, 12, 13, 14, 15, 16];
    let labels: Vec<u8> = vec![1, 0];
    let centroids = vec![rgb(1, 2, 3), rgb(4, 5, 6)];
    let out = reconstruct_image(&pixels, &labels, &centroids);
    assert_eq!(out, vec![4, 5, 6, 1, 2, 3]);
}

#[test]
fn reconstruction_checked_accepts_valid_labels() {
    let pixels: Vec<u8> = vec![11, 12, 13, 14, 15, 16];
    let labels: Vec<u8> = vec![1, 1];
    let centroids = vec![rgb(1, 2, 3), rgb(4, 5, 6)];
    let out = reconstruct_image_checked(&pixels, &labels, &centroids).unwrap();
    assert_eq!(out, vec![4, 5, 6, 4, 5, 6]);
}

#[test]
fn reconstruction_checked_rejects_short_assignment() {
    let pixels: Vec<u8> = vec![11, 12, 13, 14, 15, 16];
    let labels: Vec<u8> = vec![0];
    let centroids = vec![rgb(1, 2, 3)];
    let result = reconstruct_image_checked(&pixels, &labels, &centroids);
    assert_eq!(result, Err(QuantizeError::InvariantViolation));
}

#[test]
fn reconstruction_checked_rejects_out_of_range_label() {
    let pixels: Vec<u8> = vec![11, 12, 13, 14, 15, 16];
    let labels: Vec<u8> = vec![0, 2];
    let centroids = vec![rgb(1, 2, 3), rgb(4, 5, 6)];
    let result = reconstruct_image_checked(&pixels, &labels, &centroids);
    assert_eq!(result, Err(QuantizeError::InvariantViolation));
}
