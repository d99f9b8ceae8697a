//! Galaxy-centered coordinates for entities in a simulated three-dimensional
//! universe, with conversion between a spherical form (two angles plus a
//! radial distance) and the universe's fixed Cartesian frame, offsets
//! relative to another entity's position, and in-place translation.
//!
//! All scalars are fixed-point: a stored value is the real quantity times
//! `SCALE`. Angles are radians throughout; `theta` is the azimuth and `phi`
//! the inclination from the polar axis, so the unit direction of a position
//! is `(cos theta * sin phi, sin theta * sin phi, cos phi)`. The
//! trigonometric evaluation of that direction is left to the caller; every
//! function here works on the resulting plain scaled integers.

pub mod coords;
pub mod vec3;

pub use coords::GalacticCoords;
pub use vec3::Vec3;
pub use vec3::MAX_COORD;
pub use vec3::SCALE;
