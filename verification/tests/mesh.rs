//! The segments of a stroked polyline.

use vellum_app::mesh::{ribbon, ribbon_indices};
use vellum_app::scalar::Scalar;

fn scalar(value: f32) -> Scalar {
    Scalar { bits: f64::from(value).to_bits() }
}

fn segments(points: &[[f32; 2]], width: f32) -> Vec<usize> {
    let lengths: Vec<Scalar> = points
        .windows(2)
        .map(|pair| scalar((pair[1][0] - pair[0][0]).hypot(pair[1][1] - pair[0][1])))
        .collect();
    ribbon(&lengths, scalar(width))
}

#[test]
fn a_polyline_becomes_a_ribbon_of_the_right_width() {
    let drawn = segments(&[[0.0, 0.0], [100.0, 0.0]], 4.0);
    assert_eq!(drawn, vec![0]);
    let indices = ribbon_indices(drawn.len() as u32);
    assert_eq!(indices.len() / 3, 2, "one segment is two triangles");
    assert_eq!(indices, vec![0, 1, 2, 1, 3, 2]);
}

#[test]
fn degenerate_input_produces_nothing_rather_than_nans() {
    assert_eq!(segments(&[[5.0, 5.0], [5.0, 5.0]], 4.0).len(), 0);
    assert_eq!(segments(&[], 4.0).len(), 0);
    assert_eq!(segments(&[[0.0, 0.0]], 4.0).len(), 0);
    assert_eq!(segments(&[[0.0, 0.0], [10.0, 0.0]], 0.0).len(), 0);
    assert_eq!(segments(&[[0.0, 0.0], [10.0, 0.0]], f32::NAN).len(), 0);
    assert_eq!(segments(&[[0.0, 0.0], [10.0, 0.0]], f32::INFINITY).len(), 0);
    assert_eq!(segments(&[[0.0, 0.0], [10.0, 0.0]], -1.0).len(), 0);
}

#[test]
fn a_corner_is_two_segments() {
    let drawn = segments(&[[0.0, 0.0], [50.0, 0.0], [50.0, 50.0]], 3.0);
    assert_eq!(drawn.len() * 2, 4);
    assert_eq!(drawn.len() * 4, 8);
    let indices = ribbon_indices(2);
    assert_eq!(indices, vec![0, 1, 2, 1, 3, 2, 4, 5, 6, 5, 7, 6]);
}

#[test]
fn a_repeated_point_is_passed_over() {
    let points = [[0.0, 0.0], [10.0, 0.0], [10.0, 0.0], [20.0, 0.0]];
    assert_eq!(segments(&points, 2.0), vec![0, 2]);
    // The single-precision epsilon itself is still too short.
    assert_eq!(ribbon(&vec![scalar(f32::EPSILON)], scalar(1.0)).len(), 0);
    assert_eq!(ribbon(&vec![scalar(f32::EPSILON * 2.0)], scalar(1.0)).len(), 1);
}
