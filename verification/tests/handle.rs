//! Which handle a press lands on, and what each one moves.

use vellum_app::handle::{group_hit, hit, nearest, Handle, ALL, GROUP_HANDLES};
use vellum_app::scalar::Scalar;

fn scalar(value: f64) -> Scalar {
    Scalar { bits: value.to_bits() }
}

/// The nine handles of a hundred-unit square about the origin, turned by nothing.
fn square_distances(at: (f64, f64), zoom: f64) -> [Scalar; 9] {
    let mut out = [scalar(0.0); 9];
    for (slot, handle) in ALL.iter().enumerate() {
        let (hx, hy) = handle.anchor_halves();
        let mut point = (f64::from(hx) * 50.0 - 50.0, f64::from(hy) * 50.0 - 50.0);
        if handle.is_rotate() {
            point.1 -= 24.0 / zoom;
        }
        out[slot] = scalar((point.0 - at.0).hypot(point.1 - at.1));
    }
    out
}

fn radius(zoom: f64) -> Scalar {
    scalar((8.0 / 2.0 + 5.0) / zoom)
}

#[test]
fn a_press_on_a_corner_grabs_the_corner_not_an_edge() {
    assert_eq!(hit(&square_distances((50.0, 50.0), 1.0), radius(1.0)), Some(Handle::BottomRight));
}

#[test]
fn a_press_in_open_space_grabs_no_handle() {
    assert_eq!(hit(&square_distances((0.0, 0.0), 1.0), radius(1.0)), None);
    assert_eq!(hit(&square_distances((400.0, 400.0), 1.0), radius(1.0)), None);
}

#[test]
fn handles_stay_the_same_size_to_aim_at_however_far_out_the_board_is() {
    let near = (50.0 + 200.0, 50.0);
    assert_eq!(hit(&square_distances(near, 1.0), radius(1.0)), None);
    assert_eq!(
        hit(&square_distances(near, 0.04), radius(0.04)),
        Some(Handle::BottomRight),
        "…but should at 4%"
    );
}

#[test]
fn a_group_offers_no_edge_handles() {
    assert_eq!(GROUP_HANDLES.len(), 5);
    for edge in [Handle::Top, Handle::Right, Handle::Bottom, Handle::Left] {
        assert!(!GROUP_HANDLES.contains(&edge), "{edge:?} would shear a rotated member");
    }
    // A box of 200 by 100 about the origin, pressed at its right edge's midpoint.
    let at = (100.0_f64, 0.0_f64);
    let mut distances = [scalar(0.0); 5];
    for (slot, handle) in GROUP_HANDLES.iter().enumerate() {
        let (hx, hy) = handle.anchor_halves();
        let mut point = (f64::from(hx) * 100.0 - 100.0, f64::from(hy) * 50.0 - 50.0);
        if handle.is_rotate() {
            point.1 -= 24.0;
        }
        distances[slot] = scalar((point.0 - at.0).hypot(point.1 - at.1));
    }
    assert_ne!(group_hit(&distances, radius(1.0)), Some(Handle::Right));
}

#[test]
fn a_press_takes_the_nearest_port() {
    // Four ports 40 screen pixels outside a 40-unit square, at a zoom where every one of
    // them is within every other's reach.
    let zoom = 0.05;
    let out = 20.0 + 40.0 / zoom;
    let ports = [(0.0, -out), (out, 0.0), (0.0, out), (-out, 0.0)];
    let reach = scalar((4.0 + 6.0) / zoom);
    let from = |at: (f64, f64)| -> Vec<Scalar> {
        ports.iter().map(|p: &(f64, f64)| scalar((p.0 - at.0).hypot(p.1 - at.1))).collect()
    };
    for (index, port) in ports.iter().enumerate() {
        assert_eq!(nearest(&from(*port), reach), Some(index));
    }
    assert_eq!(nearest(&from((9_000.0, 9_000.0)), scalar(10.0)), None);
}

#[test]
fn an_exact_tie_goes_to_the_first() {
    let four = scalar(4.0);
    assert_eq!(nearest(&vec![scalar(9.0), four, four], scalar(5.0)), Some(1));
    // A distance that is not a number is within nothing.
    assert_eq!(nearest(&vec![scalar(f64::NAN), four], scalar(5.0)), Some(1));
    assert_eq!(nearest(&vec![scalar(5.0)], scalar(5.0)), Some(0));
    assert_eq!(nearest(&vec![], scalar(5.0)), None);
    // A corner that is as near as an edge wins.
    let mut distances = [scalar(9.0); 9];
    distances[2] = scalar(1.0);
    distances[5] = scalar(1.0);
    assert_eq!(hit(&distances, scalar(2.0)), Some(Handle::BottomRight));
}

#[test]
fn each_handle_moves_its_own_edges() {
    assert_eq!(Handle::TopLeft.axes(), (-1, -1));
    assert_eq!(Handle::Right.axes(), (1, 0));
    assert_eq!(Handle::Rotate.axes(), (0, 0));
    assert_eq!(Handle::TopLeft.moving_edges(), [(true, false), (true, false)]);
    assert_eq!(Handle::Bottom.moving_edges(), [(false, false), (false, true)]);
    assert_eq!(Handle::Rotate.moving_edges(), [(false, false), (false, false)]);
    assert!(Handle::BottomLeft.is_corner() && !Handle::Bottom.is_corner());
    assert!(Handle::Rotate.is_rotate() && !Handle::Rotate.is_corner());
}
