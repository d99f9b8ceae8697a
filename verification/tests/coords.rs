//! Exercises the fixed-point coordinate core: exact integer scenarios for
//! the conversion, offset and translation operations, and floating-point
//! round trips through the spherical convention the library documents.

use galactic_coords::vec3::isqrt;
use galactic_coords::GalacticCoords;
use galactic_coords::Vec3;
use galactic_coords::SCALE;

/// Builds the scaled unit direction of the angles, the way a caller is
/// expected to: `(cos theta * sin phi, sin theta * sin phi, cos phi)`,
/// each component times `SCALE`, rounded to the nearest grid point.
fn unit_dir(theta: f64, phi: f64) -> Vec3 {
    let s: f64 = SCALE as f64;
    Vec3 {
        x: (theta.cos() * phi.sin() * s).round() as i64,
        y: (theta.sin() * phi.sin() * s).round() as i64,
        z: (phi.cos() * s).round() as i64,
    }
}

fn to_fixed(v: f64) -> i64 {
    (v * SCALE as f64).round() as i64
}

fn from_fixed(v: i64) -> f64 {
    v as f64 / SCALE as f64
}

#[test]
fn new_is_field_passthrough() {
    let c = GalacticCoords::new(-7, 13, 42);
    assert_eq!(c.phi, -7);
    assert_eq!(c.theta, 13);
    assert_eq!(c.distance, 42);
}

#[test]
fn distance_zero_converts_to_origin() {
    // Whatever the angles, a zero radius collapses to the exact origin.
    let angles: [(f64, f64); 4] = [(0.0, 0.0), (1.234, -0.567), (-9.9, 33.3), (2.72, 3.14)];
    for (theta, phi) in angles {
        let c = GalacticCoords::new(to_fixed(phi), to_fixed(theta), 0);
        let v = c.get_global_car(unit_dir(theta, phi));
        assert_eq!(v, Vec3 { x: 0, y: 0, z: 0 });
    }
}

#[test]
fn polar_axis_at_distance_ten() {
    // Both angles zero: the position lies on the polar axis, exactly.
    let c = GalacticCoords::new(0, 0, 10 * SCALE);
    let dir = unit_dir(0.0, 0.0);
    assert_eq!(dir, Vec3 { x: 0, y: 0, z: SCALE });
    let v = c.get_global_car(dir);
    assert_eq!(v, Vec3 { x: 0, y: 0, z: 10 * SCALE });
}

#[test]
fn polar_translation_reaches_fifteen() {
    // From (0,0,10), a displacement of (0,0,5) lands on (0,0,15) exactly,
    // and the stored distance becomes exactly 15.
    let mut c = GalacticCoords::new(0, 0, 10 * SCALE);
    let dir = unit_dir(0.0, 0.0);
    let delta = Vec3 { x: 0, y: 0, z: 5 * SCALE };
    let v = c.translated_cartesian(dir, delta);
    assert_eq!(v, Vec3 { x: 0, y: 0, z: 15 * SCALE });
    c.translate_from_local_delta(dir, delta, 0, 0);
    assert_eq!(c.distance, 15 * SCALE);
    assert_eq!(c.theta, 0);
    assert_eq!(c.phi, 0);
}

#[test]
fn self_offset_is_exact_zero() {
    let c = GalacticCoords::new(to_fixed(1.1), to_fixed(0.7), to_fixed(123.456));
    let dir = unit_dir(0.7, 1.1);
    let v = c.get_local_from_element(dir, &c, dir);
    assert_eq!(v, Vec3 { x: 0, y: 0, z: 0 });
}

#[test]
fn offsets_are_additive() {
    let a = GalacticCoords::new(to_fixed(0.4), to_fixed(2.0), to_fixed(31.0));
    let b = GalacticCoords::new(to_fixed(1.9), to_fixed(-0.8), to_fixed(7.25));
    let c = GalacticCoords::new(to_fixed(2.6), to_fixed(0.1), to_fixed(450.5));
    let da = unit_dir(2.0, 0.4);
    let db = unit_dir(-0.8, 1.9);
    let dc = unit_dir(0.1, 2.6);
    let ac = a.get_local_from_element(da, &c, dc);
    let ab = a.get_local_from_element(da, &b, db);
    let bc = b.get_local_from_element(db, &c, dc);
    assert_eq!(ac, ab.add(bc));
}

#[test]
fn zero_delta_keeps_cartesian_position() {
    let c = GalacticCoords::new(to_fixed(0.9), to_fixed(0.3), to_fixed(50.0));
    let dir = unit_dir(0.3, 0.9);
    let v = c.translated_cartesian(dir, Vec3 { x: 0, y: 0, z: 0 });
    assert_eq!(v, c.get_global_car(dir));
}

#[test]
fn zero_delta_keeps_distance_within_grid_rounding() {
    // The re-derived radial distance may move only by the rounding of the
    // direction components on the fixed-point grid.
    let mut c = GalacticCoords::new(to_fixed(0.9), to_fixed(0.3), to_fixed(10.0));
    let old_distance: i64 = c.distance;
    let dir = unit_dir(0.3, 0.9);
    c.translate_from_local_delta(dir, Vec3 { x: 0, y: 0, z: 0 }, c.theta, c.phi);
    assert!((c.distance - old_distance).abs() <= 100);
}

#[test]
fn round_trip_recovers_spherical_form() {
    // Forward through the library, back through the inverse trigonometric
    // functions: the spherical triple comes back within tolerance.
    let theta: f64 = 0.7;
    let phi: f64 = 1.1;
    let distance: f64 = 123.456;
    let c = GalacticCoords::new(to_fixed(phi), to_fixed(theta), to_fixed(distance));
    let v = c.get_global_car(unit_dir(theta, phi));
    let (x, y, z) = (from_fixed(v.x), from_fixed(v.y), from_fixed(v.z));
    let r: f64 = (x * x + y * y + z * z).sqrt();
    let theta_back: f64 = y.atan2(x);
    let phi_back: f64 = (z / r).acos();
    assert!((r - distance).abs() < 1e-4);
    assert!((theta_back - theta).abs() < 1e-4);
    assert!((phi_back - phi).abs() < 1e-4);
}

#[test]
fn distance_survives_conversion_within_six_grid_units() {
    // A direction exactly on the grid's unit sphere, off the axes:
    // (0.6, 0.8, 0). Re-measuring the converted position recovers the
    // stored distance to within six grid units.
    let dir = Vec3 { x: 600_000, y: 800_000, z: 0 };
    let distances: [i64; 4] = [0, 1, 987_654_321, 10 * SCALE];
    for d in distances {
        let c = GalacticCoords::new(to_fixed(0.5), to_fixed(0.9), d);
        let r: i64 = c.get_global_car(dir).magnitude();
        assert!(d - 6 <= r && r <= d);
    }
}

#[test]
fn magnitude_of_pythagorean_triple() {
    let v = Vec3 { x: 3 * SCALE, y: 4 * SCALE, z: 0 };
    assert_eq!(v.magnitude(), 5 * SCALE);
    let w = Vec3 { x: 0, y: 0, z: 0 };
    assert_eq!(w.magnitude(), 0);
    let u = Vec3 { x: 1, y: 1, z: 1 };
    assert_eq!(u.magnitude(), 1);
    let n = Vec3 { x: -3 * SCALE, y: 0, z: 4 * SCALE };
    assert_eq!(n.magnitude(), 5 * SCALE);
}

#[test]
fn integer_square_root_rounds_down() {
    assert_eq!(isqrt(0), 0);
    assert_eq!(isqrt(1), 1);
    assert_eq!(isqrt(3), 1);
    assert_eq!(isqrt(4), 2);
    assert_eq!(isqrt(99), 9);
    assert_eq!(isqrt(100), 10);
    assert_eq!(isqrt(u128::MAX), u64::MAX);
}

#[test]
fn vector_sum_and_difference_are_componentwise() {
    let a = Vec3 { x: 5, y: -7, z: 11 };
    let b = Vec3 { x: -2, y: 3, z: 4 };
    assert_eq!(a.add(b), Vec3 { x: 3, y: -4, z: 15 });
    assert_eq!(a.sub(b), Vec3 { x: 7, y: -10, z: 7 });
    assert_eq!(Vec3::zero(), Vec3 { x: 0, y: 0, z: 0 });
}

#[test]
fn global_car_matches_spec_components() {
    // The executable conversion agrees with a by-hand evaluation of the
    // rescaled products for a direction off every axis.
    let c = GalacticCoords::new(to_fixed(0.5), to_fixed(0.25), 2_500_000);
    let dir = unit_dir(0.25, 0.5);
    let v = c.get_global_car(dir);
    // Rust's i128 division truncates toward zero, exactly as the library's
    // rescaled product does.
    let expect = |comp: i64| -> i64 { ((2_500_000i128 * comp as i128) / SCALE as i128) as i64 };
    assert_eq!(v.x, expect(dir.x));
    assert_eq!(v.y, expect(dir.y));
    assert_eq!(v.z, expect(dir.z));
}
