//! Isometric (diamond-tile) projection between integer world-grid
//! positions and screen coordinates.
//!
//! The projection and its inverse are carried out in exact integer
//! arithmetic: screen coordinates are held in half-pixel units, the
//! finest lattice the forward projection of an integer grid position can
//! produce, so the forward map, the inverse map, and the round-trip law
//! between them are established exactly rather than within a
//! floating-point tolerance.

pub mod projection;
pub mod rounding;

pub use projection::GridPos;
pub use projection::IsometricProjection;
pub use projection::ProjectionError;
pub use projection::ScreenPos;
pub use projection::SCREEN_HALF_LIMIT;
