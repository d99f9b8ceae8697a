//! The galaxy-centered coordinate value type and its transformations.
//!
//! A position is stored spherically: azimuth `theta`, inclination `phi` and
//! radial `distance`, all fixed-point (real value times `SCALE`), the angles
//! in radians. Its global Cartesian form is `distance` times the unit
//! direction `(cos theta * sin phi, sin theta * sin phi, cos phi)`. The
//! trigonometric evaluation of that unit direction is floating-point work
//! that the caller supplies as a `Vec3` scaled by `SCALE`; everything from
//! there on is exact integer arithmetic and is specified below.

use crate::vec3::norm_sq;
use crate::vec3::Vec3;
use crate::vec3::MAX_COORD;
use crate::vec3::SCALE;
use vstd::arithmetic::div_mod::lemma_div_is_ordered;
use vstd::arithmetic::div_mod::lemma_div_multiples_vanish;
use vstd::arithmetic::div_mod::lemma_div_pos_is_pos;
use vstd::arithmetic::div_mod::lemma_fundamental_div_mod;
use vstd::arithmetic::div_mod::lemma_mod_bound;
use vstd::arithmetic::mul::lemma_mul_inequality;
use vstd::arithmetic::mul::lemma_mul_upper_bound;
use vstd::math::abs;
use vstd::prelude::*;

verus! {

/// A fixed-point angle in radians (real angle times `SCALE`).
pub type Angle = i64;

/// A fixed-point distance (real distance times `SCALE`).
pub type Distance = i64;

/// The product of a non-negative distance with a direction component,
/// brought back to the common scale: `r * c / SCALE`, rounded toward zero.
pub open spec fn scale_prod(r: int, c: int) -> int {
    if c >= 0 {
        (r * c) / (SCALE as int)
    } else {
        -((r * (-c)) / (SCALE as int))
    }
}

/// A direction vector whose components were scaled from the range
/// [-1, 1]: each lies within [-SCALE, SCALE].
pub open spec fn is_unit_scaled(d: Vec3) -> bool {
    &&& -SCALE <= d.x <= SCALE
    &&& -SCALE <= d.y <= SCALE
    &&& -SCALE <= d.z <= SCALE
}

/// The x component of the global Cartesian position of `c`, whose unit
/// direction is `dir`.
pub open spec fn global_x(c: GalacticCoords, dir: Vec3) -> int {
    scale_prod(c.distance as int, dir.x as int)
}

/// The y component of the global Cartesian position.
pub open spec fn global_y(c: GalacticCoords, dir: Vec3) -> int {
    scale_prod(c.distance as int, dir.y as int)
}

/// The z component of the global Cartesian position.
pub open spec fn global_z(c: GalacticCoords, dir: Vec3) -> int {
    scale_prod(c.distance as int, dir.z as int)
}

/// The x component of the position of `a` relative to a frame centered on
/// `b`: the difference of the two global Cartesian positions.
pub open spec fn offset_x(a: GalacticCoords, da: Vec3, b: GalacticCoords, db: Vec3) -> int {
    global_x(a, da) - global_x(b, db)
}

/// The y component of the relative position.
pub open spec fn offset_y(a: GalacticCoords, da: Vec3, b: GalacticCoords, db: Vec3) -> int {
    global_y(a, da) - global_y(b, db)
}

/// The z component of the relative position.
pub open spec fn offset_z(a: GalacticCoords, da: Vec3, b: GalacticCoords, db: Vec3) -> int {
    global_z(a, da) - global_z(b, db)
}

/// The x component of the global Cartesian position after the displacement
/// `delta` is applied.
pub open spec fn translated_x(c: GalacticCoords, dir: Vec3, delta: Vec3) -> int {
    global_x(c, dir) + delta.x
}

/// The y component of the displaced position.
pub open spec fn translated_y(c: GalacticCoords, dir: Vec3, delta: Vec3) -> int {
    global_y(c, dir) + delta.y
}

/// The z component of the displaced position.
pub open spec fn translated_z(c: GalacticCoords, dir: Vec3, delta: Vec3) -> int {
    global_z(c, dir) + delta.z
}

/// The squared Euclidean norm of the global Cartesian position.
pub open spec fn global_norm_sq(c: GalacticCoords, dir: Vec3) -> int {
    let x = global_x(c, dir);
    let y = global_y(c, dir);
    let z = global_z(c, dir);
    x * x + y * y + z * z
}

/// The squared Euclidean norm of the displaced position: the square of its
/// exact new radial distance.
pub open spec fn translated_norm_sq(c: GalacticCoords, dir: Vec3, delta: Vec3) -> int {
    let x = translated_x(c, dir, delta);
    let y = translated_y(c, dir, delta);
    let z = translated_z(c, dir, delta);
    x * x + y * y + z * z
}

/// The absolute position of an entity, galaxy-centered: azimuth `theta`,
/// inclination `phi` measured from the polar axis, and the radial
/// `distance` from the universe origin. The angles carry no range
/// invariant; the distance is never negative.
#[derive(Clone, Copy, Debug, Default, PartialEq, Eq, Structural)]
pub struct GalacticCoords {
    pub theta: Angle,
    pub phi: Angle,
    pub distance: Distance,
}

impl GalacticCoords {
    /// The one invariant of the representation: a non-negative distance.
    pub open spec fn well_formed(self) -> bool {
        self.distance >= 0
    }

    /// Builds a value from the three scalars, field for field, with no
    /// normalization of the angles.
    pub fn new(phi: Angle, theta: Angle, distance: Distance) -> (c: GalacticCoords)
        requires
            distance >= 0,
        ensures
            c.phi == phi,
            c.theta == theta,
            c.distance == distance,
            c.well_formed(),
    {
        GalacticCoords { theta, phi, distance }
    }

    /// The global Cartesian position: `distance` times the unit direction
    /// `dir` of the stored angles, component by component. At distance
    /// zero the result is the origin whatever the direction.
    pub fn get_global_car(&self, dir: Vec3) -> (v: Vec3)
        requires
            self.well_formed(),
            is_unit_scaled(dir),
        ensures
            v.x as int == global_x(*self, dir),
            v.y as int == global_y(*self, dir),
            v.z as int == global_z(*self, dir),
            -self.distance <= v.x <= self.distance,
            -self.distance <= v.y <= self.distance,
            -self.distance <= v.z <= self.distance,
            self.distance == 0 ==> v == (Vec3 { x: 0, y: 0, z: 0 }),
    {
        let v = Vec3 {
            x: scale_mul(self.distance, dir.x),
            y: scale_mul(self.distance, dir.y),
            z: scale_mul(self.distance, dir.z),
        };
        v
    }

    /// The position of `self` expressed in a frame centered on the entity
    /// whose coordinates are `element`: the difference of the two global
    /// Cartesian positions. The offset of a coordinate from itself is the
    /// exact zero vector.
    pub fn get_local_from_element(
        &self,
        self_dir: Vec3,
        element: &GalacticCoords,
        element_dir: Vec3,
    ) -> (v: Vec3)
        requires
            self.well_formed(),
            element.well_formed(),
            is_unit_scaled(self_dir),
            is_unit_scaled(element_dir),
            self.distance + element.distance <= i64::MAX,
        ensures
            v.x as int == offset_x(*self, self_dir, *element, element_dir),
            v.y as int == offset_y(*self, self_dir, *element, element_dir),
            v.z as int == offset_z(*self, self_dir, *element, element_dir),
            *self == *element && self_dir == element_dir ==> v == (Vec3 { x: 0, y: 0, z: 0 }),
    {
        let a = self.get_global_car(self_dir);
        let b = element.get_global_car(element_dir);
        a.sub(b)
    }

    /// The global Cartesian position after the displacement `delta` is
    /// applied: the current position plus `delta`, component by component.
    /// A zero displacement returns the current position exactly.
    pub fn translated_cartesian(&self, dir: Vec3, delta: Vec3) -> (v: Vec3)
        requires
            self.well_formed(),
            is_unit_scaled(dir),
            self.distance <= MAX_COORD,
            -MAX_COORD <= delta.x <= MAX_COORD,
            -MAX_COORD <= delta.y <= MAX_COORD,
            -MAX_COORD <= delta.z <= MAX_COORD,
        ensures
            v.x as int == translated_x(*self, dir, delta),
            v.y as int == translated_y(*self, dir, delta),
            v.z as int == translated_z(*self, dir, delta),
            -(2 * MAX_COORD) <= v.x <= 2 * MAX_COORD,
            -(2 * MAX_COORD) <= v.y <= 2 * MAX_COORD,
            -(2 * MAX_COORD) <= v.z <= 2 * MAX_COORD,
            delta == (Vec3 { x: 0, y: 0, z: 0 }) ==> v.x as int == global_x(*self, dir)
                && v.y as int == global_y(*self, dir) && v.z as int == global_z(*self, dir),
    {
        let car = self.get_global_car(dir);
        car.add(delta)
    }

    /// Applies a displacement expressed in the universe's Cartesian frame
    /// to the position, in place: the stored distance becomes the radial
    /// distance of the displaced Cartesian position (its Euclidean norm,
    /// rounded down to the fixed-point grid), and the stored angles become
    /// the two given ones, which the caller reads off the same displaced
    /// position. The value stays well formed.
    pub fn translate_from_local_delta(
        &mut self,
        dir: Vec3,
        delta: Vec3,
        new_theta: Angle,
        new_phi: Angle,
    )
        requires
            old(self).well_formed(),
            is_unit_scaled(dir),
            old(self).distance <= MAX_COORD,
            -MAX_COORD <= delta.x <= MAX_COORD,
            -MAX_COORD <= delta.y <= MAX_COORD,
            -MAX_COORD <= delta.z <= MAX_COORD,
        ensures
            final(self).theta == new_theta,
            final(self).phi == new_phi,
            final(self).well_formed(),
            (final(self).distance as int) * (final(self).distance as int) <= translated_norm_sq(
                *old(self),
                dir,
                delta,
            ),
            translated_norm_sq(*old(self), dir, delta) < ((final(self).distance as int) + 1) * ((
            final(self).distance as int) + 1),
    {
        let car = self.translated_cartesian(dir, delta);
        let r = car.magnitude();
        self.distance = r;
        self.theta = new_theta;
        self.phi = new_phi;
    }
}

/// Multiplies a non-negative fixed-point scalar by a direction component
/// and rescales the product, rounding toward zero. The result never
/// exceeds `r` in magnitude, since `|c| <= SCALE`.
fn scale_mul(r: i64, c: i64) -> (res: i64)
    requires
        0 <= r,
        -SCALE <= c <= SCALE,
    ensures
        res as int == scale_prod(r as int, c as int),
        -r <= res <= r,
{
    let neg: bool = c < 0;
    let ca: u64 = if neg {
        (-c) as u64
    } else {
        c as u64
    };
    proof {
        lemma_mul_upper_bound(r as int, 9_223_372_036_854_775_807, ca as int, 1_000_000);
    }
    let mag: u128 = (r as u128) * (ca as u128);
    let q: u128 = mag / (SCALE as u128);
    proof {
        lemma_mul_inequality(ca as int, SCALE as int, r as int);
        assert((r as int) * (ca as int) <= (r as int) * (SCALE as int)) by (nonlinear_arith)
            requires
                0 <= r,
                ca as int <= SCALE as int,
        ;
        lemma_div_is_ordered((r as int) * (ca as int), (r as int) * (SCALE as int), SCALE as int);
        lemma_div_multiples_vanish(r as int, SCALE as int);
        lemma_div_pos_is_pos((r as int) * (ca as int), SCALE as int);
    }
    let qi: i64 = q as i64;
    if neg {
        -qi
    } else {
        qi
    }
}

/// Law: the local offset of a coordinate from itself is the exact zero
/// vector.
pub proof fn lemma_self_offset_is_zero(c: GalacticCoords, dir: Vec3)
    ensures
        offset_x(c, dir, c, dir) == 0,
        offset_y(c, dir, c, dir) == 0,
        offset_z(c, dir, c, dir) == 0,
{
}

/// Law: offsets are additive: the offset of `a` from `c` is the offset of
/// `a` from `b` plus the offset of `b` from `c`, component by component.
pub proof fn lemma_offset_additivity(
    a: GalacticCoords,
    da: Vec3,
    b: GalacticCoords,
    db: Vec3,
    c: GalacticCoords,
    dc: Vec3,
)
    ensures
        offset_x(a, da, c, dc) == offset_x(a, da, b, db) + offset_x(b, db, c, dc),
        offset_y(a, da, c, dc) == offset_y(a, da, b, db) + offset_y(b, db, c, dc),
        offset_z(a, da, c, dc) == offset_z(a, da, b, db) + offset_z(b, db, c, dc),
{
}

/// Law: a zero displacement leaves the global Cartesian position
/// unchanged.
pub proof fn lemma_zero_delta_is_identity(c: GalacticCoords, dir: Vec3, delta: Vec3)
    requires
        delta.x == 0,
        delta.y == 0,
        delta.z == 0,
    ensures
        translated_x(c, dir, delta) == global_x(c, dir),
        translated_y(c, dir, delta) == global_y(c, dir),
        translated_z(c, dir, delta) == global_z(c, dir),
{
}

/// Law: at distance zero the Cartesian position is exactly the origin,
/// whatever the angles and hence whatever the direction vector.
pub proof fn lemma_degenerate_origin(c: GalacticCoords, dir: Vec3)
    requires
        c.distance == 0,
    ensures
        global_x(c, dir) == 0,
        global_y(c, dir) == 0,
        global_z(c, dir) == 0,
{
    lemma_scale_prod_zero(dir.x as int);
    lemma_scale_prod_zero(dir.y as int);
    lemma_scale_prod_zero(dir.z as int);
}

/// Law: a direction along the reference polar axis yields the Cartesian
/// point (0, 0, distance) exactly; so a coordinate with both angles zero
/// lies on that axis at its stored distance.
pub proof fn lemma_polar_axis(c: GalacticCoords, dir: Vec3)
    requires
        c.well_formed(),
        dir.x == 0,
        dir.y == 0,
        dir.z == SCALE,
    ensures
        global_x(c, dir) == 0,
        global_y(c, dir) == 0,
        global_z(c, dir) == c.distance,
{
    lemma_div_multiples_vanish(c.distance as int, SCALE as int);
}

/// Law (the radial part of the round trip): with a direction lying exactly
/// on the unit sphere of the fixed-point grid, the squared norm of the
/// global Cartesian position never exceeds the squared stored distance and
/// undershoots it by at most six times that distance.
pub proof fn lemma_distance_round_trip(c: GalacticCoords, dir: Vec3)
    requires
        c.well_formed(),
        is_unit_scaled(dir),
        norm_sq(dir) == (SCALE as int) * (SCALE as int),
    ensures
        global_norm_sq(c, dir) <= (c.distance as int) * (c.distance as int),
        (c.distance as int) * (c.distance as int) - 6 * (c.distance as int) <= global_norm_sq(
            c,
            dir,
        ),
{
    let d = c.distance as int;
    let ux = dir.x as int;
    let uy = dir.y as int;
    let uz = dir.z as int;
    lemma_scale_prod_sq_bounds(d, ux);
    lemma_scale_prod_sq_bounds(d, uy);
    lemma_scale_prod_sq_bounds(d, uz);
    assert((d * ux) * (d * ux) + (d * uy) * (d * uy) + (d * uz) * (d * uz) == d * d * (ux * ux + uy
        * uy + uz * uz)) by (nonlinear_arith);
    let ax = abs(d * ux) as int;
    let ay = abs(d * uy) as int;
    let az = abs(d * uz) as int;
    assert(ax <= d * 1_000_000) by (nonlinear_arith)
        requires
            d >= 0,
            -1_000_000 <= ux <= 1_000_000,
            ax == d * ux || ax == -(d * ux),
    ;
    assert(ay <= d * 1_000_000) by (nonlinear_arith)
        requires
            d >= 0,
            -1_000_000 <= uy <= 1_000_000,
            ay == d * uy || ay == -(d * uy),
    ;
    assert(az <= d * 1_000_000) by (nonlinear_arith)
        requires
            d >= 0,
            -1_000_000 <= uz <= 1_000_000,
            az == d * uz || az == -(d * uz),
    ;
}

/// Law: any integer square root of that norm — in particular the distance
/// that the translation operation stores — recovers the stored distance to
/// within six grid units, six millionths of a real unit.
pub proof fn lemma_round_trip_distance_close(c: GalacticCoords, dir: Vec3, r: int)
    requires
        c.well_formed(),
        is_unit_scaled(dir),
        norm_sq(dir) == (SCALE as int) * (SCALE as int),
        0 <= r,
        r * r <= global_norm_sq(c, dir),
        global_norm_sq(c, dir) < (r + 1) * (r + 1),
    ensures
        c.distance - 6 <= r <= c.distance,
{
    lemma_distance_round_trip(c, dir);
    let d = c.distance as int;
    assert(r <= d) by (nonlinear_arith)
        requires
            r >= 0,
            d >= 0,
            r * r <= d * d,
    ;
    assert(d - 6 <= r) by (nonlinear_arith)
        requires
            r >= 0,
            d >= 0,
            d * d - 6 * d < (r + 1) * (r + 1),
    ;
}

/// Law (zero-delta translation): a translation by the zero displacement,
/// with a direction exactly on the grid's unit sphere, stores back a
/// distance within six grid units of the old one — the premises on `r`
/// are what the translation operation guarantees of the distance it
/// stores.
pub proof fn lemma_zero_delta_translation_distance(
    c: GalacticCoords,
    dir: Vec3,
    delta: Vec3,
    r: int,
)
    requires
        c.well_formed(),
        is_unit_scaled(dir),
        norm_sq(dir) == (SCALE as int) * (SCALE as int),
        delta.x == 0,
        delta.y == 0,
        delta.z == 0,
        0 <= r,
        r * r <= translated_norm_sq(c, dir, delta),
        translated_norm_sq(c, dir, delta) < (r + 1) * (r + 1),
    ensures
        c.distance - 6 <= r <= c.distance,
{
    lemma_zero_delta_is_identity(c, dir, delta);
    assert(translated_norm_sq(c, dir, delta) == global_norm_sq(c, dir));
    lemma_round_trip_distance_close(c, dir, r);
}

/// Squared-size bounds of one rescaled product: the square of
/// `scale_prod(d, c)`, brought back up by `SCALE` squared, stays within
/// `2 * SCALE * |d * c|` below the exact product's square.
proof fn lemma_scale_prod_sq_bounds(d: int, c: int)
    requires
        d >= 0,
    ensures
        scale_prod(d, c) * scale_prod(d, c) * 1_000_000_000_000 <= (d * c) * (d * c),
        (d * c) * (d * c) - 2_000_000 * abs(d * c) <= scale_prod(d, c) * scale_prod(d, c)
            * 1_000_000_000_000,
{
    let t = d * c;
    let a = abs(t) as int;
    let q = a / (SCALE as int);
    let m = a % (SCALE as int);
    let g = scale_prod(d, c);
    if c >= 0 {
        assert(t >= 0) by (nonlinear_arith)
            requires
                d >= 0,
                c >= 0,
                t == d * c,
        ;
    } else {
        assert(t <= 0 && d * (-c) == -t) by (nonlinear_arith)
            requires
                d >= 0,
                c < 0,
                t == d * c,
        ;
    }
    assert(g == q || g == -q);
    lemma_fundamental_div_mod(a, SCALE as int);
    lemma_mod_bound(a, SCALE as int);
    lemma_div_pos_is_pos(a, SCALE as int);
    assert(g * g == q * q) by (nonlinear_arith)
        requires
            g == q || g == -q,
    ;
    assert(a * a == t * t) by (nonlinear_arith)
        requires
            a == t || a == -t,
    ;
    assert(q * q * 1_000_000_000_000 <= a * a && a * a - 2_000_000 * a <= q * q
        * 1_000_000_000_000) by (nonlinear_arith)
        requires
            a == 1_000_000 * q + m,
            0 <= m < 1_000_000,
            q >= 0,
    ;
}

/// The rescaled product with a zero distance is zero.
proof fn lemma_scale_prod_zero(c: int)
    ensures
        scale_prod(0, c) == 0,
{
    if c >= 0 {
        lemma_div_multiples_vanish(0, SCALE as int);
        assert(0 * (SCALE as int) == 0) by (nonlinear_arith);
        assert(0 * c == 0) by (nonlinear_arith);
    } else {
        lemma_div_multiples_vanish(0, SCALE as int);
        assert(0 * (SCALE as int) == 0) by (nonlinear_arith);
        assert(0 * (-c) == 0) by (nonlinear_arith);
    }
}

} // verus!
