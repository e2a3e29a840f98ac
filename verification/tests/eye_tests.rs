use nalgebra as na;
use neuroevo::eye::{Eye, FoodReading};

fn default_eye() -> Eye {
    Eye::default()
}

fn reading(distance: f32, angle: f32) -> FoodReading {
    FoodReading { distance: distance.to_bits(), angle: angle.to_bits() }
}

fn vision(eye: &Eye, rotation: f32, readings: &[FoodReading]) -> Vec<f32> {
    eye.process_vision(rotation.to_bits(), &readings.to_vec())
        .iter()
        .map(|b| f32::from_bits(*b))
        .collect()
}

/// The same histogram computed directly on hardware floats from a
/// precomputed distance and bearing, used as a reference.
fn reference_vision(
    fov_range: f32,
    fov_angle: f32,
    cells: usize,
    rotation: f32,
    readings: &[(f32, f32)],
) -> Vec<f32> {
    let mut out = vec![0.0f32; cells];
    for &(dist, raw_angle) in readings {
        if dist >= fov_range {
            continue;
        }
        let mut angle = raw_angle - rotation;
        angle = na::wrap(angle, -std::f32::consts::PI, std::f32::consts::PI);
        if angle < -fov_angle / 2.0 || angle > fov_angle / 2.0 {
            continue;
        }
        let angle = angle + fov_angle / 2.0;
        let cell = angle / fov_angle;
        let cell = cell * (cells as f32);
        let cell = (cell as usize).min(cells - 1);
        let energy = (fov_range - dist) / fov_range;
        out[cell] += energy;
    }
    out
}

#[test]
fn food_at_agent_position_contributes_full_energy() {
    let eye = default_eye();
    let cells = vision(&eye, 0.0, &[reading(0.0, 0.0)]);

    assert_eq!(cells.len(), 9);
    // A dead-ahead food maps to the middle cell with unit energy.
    assert_eq!(cells[4], 1.0);
    for (i, c) in cells.iter().enumerate() {
        if i != 4 {
            assert_eq!(*c, 0.0);
        }
    }
}

#[test]
fn food_at_or_beyond_range_contributes_nothing() {
    let eye = default_eye();
    let cells = vision(&eye, 0.0, &[reading(0.25, 0.0), reading(0.3, 0.0)]);
    assert!(cells.iter().all(|c| *c == 0.0));
}

#[test]
fn food_outside_cone_contributes_nothing() {
    let eye = default_eye();
    // Straight behind: pi radians off a zero heading is outside the cone.
    let cells = vision(&eye, 0.0, &[reading(0.1, std::f32::consts::PI)]);
    assert!(cells.iter().all(|c| *c == 0.0));
}

#[test]
fn histogram_matches_hardware_reference() {
    let eye = default_eye();
    let fov_range = 0.25f32;
    let fov_angle = std::f32::consts::PI + std::f32::consts::FRAC_PI_4;

    let mut cases: Vec<(f32, f32)> = Vec::new();
    let mut d = 0.01f32;
    while d < 0.4 {
        let mut a = -3.1f32;
        while a < 3.1 {
            cases.push((d, a));
            a += 0.37;
        }
        d += 0.03;
    }

    for rotation in [0.0f32, 0.5, -1.2, 3.0] {
        let readings: Vec<FoodReading> =
            cases.iter().map(|&(d, a)| reading(d, a)).collect();
        let got = vision(&eye, rotation, &readings);
        let want = reference_vision(fov_range, fov_angle, 9, rotation, &cases);
        assert_eq!(
            got.iter().map(|v| v.to_bits()).collect::<Vec<u32>>(),
            want.iter().map(|v| v.to_bits()).collect::<Vec<u32>>(),
        );
    }
}
