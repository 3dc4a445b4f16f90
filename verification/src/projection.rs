//! The isometric projection: an immutable value built from two positive
//! half-tile dimensions, mapping integer world-grid positions to screen
//! coordinates and screen coordinates back to the nearest grid cell.
//!
//! Screen coordinates are held exactly, in *half-pixel units*: a
//! [`ScreenPos`] with fields `(x, y, z)` denotes the screen point
//! `(x / 2, y / 2, z / 2)` in pixels.  On that lattice every entry of
//! the forward matrix is an integer — its columns are `(2·HW, HH)` and
//! `(−2·HW, HH)` where the pixel-unit columns are `(HW, HH/2)` and
//! `(−HW, HH/2)` — so the forward map is exact, and the inverse map is
//! the exact rational inverse (the adjugate over the determinant
//! `4·HW·HH`) followed by rounding to the nearest integer with ties
//! away from zero.

use crate::rounding::round_half_from_zero;
use crate::rounding::round_half_from_zero_i128;
use crate::rounding::lemma_round_exact;
use crate::rounding::lemma_round_near;
use vstd::prelude::*;

verus! {

/// A position on the integer world grid.
#[derive(Clone, Copy, Debug, PartialEq, Eq, Structural)]
pub struct GridPos {
    pub x: i32,
    pub y: i32,
    pub z: i32,
}

/// A screen position in half-pixel units: the screen point in pixels is
/// `(x / 2, y / 2, z / 2)`.  Half pixels are the finest lattice the
/// forward projection of a grid position can land on, so every such
/// projection is held exactly.
#[derive(Clone, Copy, Debug, PartialEq, Eq, Structural)]
pub struct ScreenPos {
    pub x: i128,
    pub y: i128,
    pub z: i128,
}

/// Largest half-pixel coordinate magnitude accepted by
/// [`IsometricProjection::screen_to_world`]; equal to `2^88`, far beyond
/// any screen but small enough that the inverse transform cannot
/// overflow its `i128` arithmetic.
pub const SCREEN_HALF_LIMIT: i128 = 0x100_0000_0000_0000_0000_0000;

impl ScreenPos {
    /// All three coordinates within [`SCREEN_HALF_LIMIT`].
    pub open spec fn in_range(self) -> bool {
        &&& -SCREEN_HALF_LIMIT <= self.x <= SCREEN_HALF_LIMIT
        &&& -SCREEN_HALF_LIMIT <= self.y <= SCREEN_HALF_LIMIT
        &&& -SCREEN_HALF_LIMIT <= self.z <= SCREEN_HALF_LIMIT
    }

    /// Builds the screen position for whole-pixel coordinates, such as a
    /// pointer location.
    pub fn from_pixels(x: i64, y: i64, z: i64) -> (s: ScreenPos)
        ensures
            s.x == 2 * x,
            s.y == 2 * y,
            s.z == 2 * z,
            s.in_range(),
    {
        ScreenPos { x: 2 * (x as i128), y: 2 * (y as i128), z: 2 * (z as i128) }
    }
}

/// Rejected construction: a half-tile dimension of zero would make the
/// projection matrix singular, so no projection is produced for it.
#[derive(Clone, Copy, Debug, PartialEq, Eq, Structural)]
pub enum ProjectionError {
    DegenerateGeometry,
}

/// An isometric projection bound to one tile geometry.  The value is
/// immutable after construction: the half-tile dimensions fix the
/// forward matrix, its exact inverse, and the z scale for the lifetime
/// of the value.
#[derive(Clone, Copy, Debug)]
pub struct IsometricProjection {
    /// Half the width of a tile in screen pixels; at least 1.
    half_width: u32,
    /// Half the height of a tile in screen pixels; at least 1.
    half_height: u32,
}

impl IsometricProjection {
    /// Half tile width in pixels.
    pub closed spec fn hw(self) -> int {
        self.half_width as int
    }

    /// Half tile height in pixels; also the z scale: one world z unit is
    /// `hh` screen pixels of depth.
    pub closed spec fn hh(self) -> int {
        self.half_height as int
    }

    /// Both half-tile dimensions strictly positive, so the forward
    /// matrix is invertible.  Every constructed projection satisfies
    /// this.
    #[verifier::type_invariant]
    pub open spec fn wf(self) -> bool {
        1 <= self.hw() && 1 <= self.hh()
    }

    /// Determinant of the half-pixel-unit forward matrix, whose columns
    /// are `(2·hw, hh)` and `(−2·hw, hh)`; the denominator of the exact
    /// inverse.
    pub open spec fn det(self) -> int {
        4 * self.hw() * self.hh()
    }

    /// Screen x, in half-pixel units, of the grid position `(x, y)`:
    /// one step along world x moves right by `hw` pixels, one step along
    /// world y moves left by `hw` pixels.
    pub open spec fn screen_x_at(self, x: int, y: int) -> int {
        2 * self.hw() * (x - y)
    }

    /// Screen y, in half-pixel units, of the grid position `(x, y)`:
    /// each step along world x or world y moves down by `hh / 2` pixels.
    pub open spec fn screen_y_at(self, x: int, y: int) -> int {
        self.hh() * (x + y)
    }

    /// Screen z (depth), in half-pixel units, of world z: one world z
    /// unit is `hh` pixels.
    pub open spec fn screen_z_at(self, z: int) -> int {
        2 * self.hh() * z
    }

    /// World x nearest to the screen point `(sx, sy)` (half-pixel
    /// units): the first row `(hh, 2·hw)` of the adjugate applied to the
    /// point, over the determinant, rounded to the nearest integer.
    pub open spec fn world_x_at(self, sx: int, sy: int) -> int {
        round_half_from_zero(self.hh() * sx + 2 * self.hw() * sy, self.det())
    }

    /// World y nearest to the screen point `(sx, sy)` (half-pixel
    /// units): the second row `(−hh, 2·hw)` of the adjugate applied to
    /// the point, over the determinant, rounded to the nearest integer.
    pub open spec fn world_y_at(self, sx: int, sy: int) -> int {
        round_half_from_zero(2 * self.hw() * sy - self.hh() * sx, self.det())
    }

    /// World z nearest to the screen depth `sz` (half-pixel units).
    pub open spec fn world_z_at(self, sz: int) -> int {
        round_half_from_zero(sz, 2 * self.hh())
    }

    /// Builds the projection for the given half-tile dimensions in
    /// screen pixels.  Construction succeeds exactly when both
    /// dimensions are positive; a zero dimension is degenerate geometry
    /// and is rejected.
    pub fn new(half_tile_width: u32, half_tile_height: u32) -> (r: Result<
        IsometricProjection,
        ProjectionError,
    >)
        ensures
            r is Ok <==> (half_tile_width >= 1 && half_tile_height >= 1),
            r matches Ok(p) ==> p.hw() == half_tile_width && p.hh() == half_tile_height,
            r matches Err(e) ==> e == ProjectionError::DegenerateGeometry,
    {
        if half_tile_width == 0 || half_tile_height == 0 {
            Err(ProjectionError::DegenerateGeometry)
        } else {
            Ok(IsometricProjection { half_width: half_tile_width, half_height: half_tile_height })
        }
    }

    /// Projects a world-grid position to its screen position, exactly:
    /// the result is the forward matrix applied to `(x, y)` together
    /// with the scaled depth `z·hh`, in half-pixel units.
    pub fn world_to_screen(&self, world_pos: GridPos) -> (r: ScreenPos)
        ensures
            r.x == self.screen_x_at(world_pos.x as int, world_pos.y as int),
            r.y == self.screen_y_at(world_pos.x as int, world_pos.y as int),
            r.z == self.screen_z_at(world_pos.z as int),
            r.in_range(),
    {
        let hw: i128 = self.half_width as i128;
        let hh: i128 = self.half_height as i128;
        let xi: i128 = world_pos.x as i128;
        let yi: i128 = world_pos.y as i128;
        let zi: i128 = world_pos.z as i128;
        assert(-0x2_0000_0000_0000_0000 <= 2 * hw * (xi - yi) <= 0x2_0000_0000_0000_0000)
            by (nonlinear_arith)
            requires
                0 <= hw < 0x1_0000_0000,
                -0x1_0000_0000 <= xi - yi <= 0x1_0000_0000,
        ;
        assert(-0x1_0000_0000_0000_0000 <= hh * (xi + yi) <= 0x1_0000_0000_0000_0000)
            by (nonlinear_arith)
            requires
                0 <= hh < 0x1_0000_0000,
                -0x1_0000_0000 <= xi + yi <= 0x1_0000_0000,
        ;
        assert(-0x1_0000_0000_0000_0000 <= 2 * hh * zi <= 0x1_0000_0000_0000_0000)
            by (nonlinear_arith)
            requires
                0 <= hh < 0x1_0000_0000,
                -0x8000_0000 <= zi <= 0x8000_0000,
        ;
        ScreenPos { x: 2 * hw * (xi - yi), y: hh * (xi + yi), z: 2 * hh * zi }
    }

    /// Maps a screen position to the nearest world-grid cell: the exact
    /// inverse transform recovers a rational world-plane position, each
    /// component is rounded to the nearest integer (ties away from
    /// zero), and components beyond the `i32` range are saturated to it.
    pub fn screen_to_world(&self, screen_pos: ScreenPos) -> (r: GridPos)
        requires
            screen_pos.in_range(),
        ensures
            r.x == clamp_i32(self.world_x_at(screen_pos.x as int, screen_pos.y as int)),
            r.y == clamp_i32(self.world_y_at(screen_pos.x as int, screen_pos.y as int)),
            r.z == clamp_i32(self.world_z_at(screen_pos.z as int)),
    {
        proof {
            use_type_invariant(&*self);
        }
        let hw: i128 = self.half_width as i128;
        let hh: i128 = self.half_height as i128;
        let sx: i128 = screen_pos.x;
        let sy: i128 = screen_pos.y;
        let sz: i128 = screen_pos.z;
        assert(-0x100_0000_0000_0000_0000_0000_0000_0000 <= hh * sx
            <= 0x100_0000_0000_0000_0000_0000_0000_0000) by (nonlinear_arith)
            requires
                0 <= hh < 0x1_0000_0000,
                -0x100_0000_0000_0000_0000_0000 <= sx <= 0x100_0000_0000_0000_0000_0000,
        ;
        assert(-0x200_0000_0000_0000_0000_0000_0000_0000 <= 2 * hw * sy
            <= 0x200_0000_0000_0000_0000_0000_0000_0000) by (nonlinear_arith)
            requires
                0 <= hw < 0x1_0000_0000,
                -0x100_0000_0000_0000_0000_0000 <= sy <= 0x100_0000_0000_0000_0000_0000,
        ;
        assert(4 <= 4 * hw * hh <= 0x4_0000_0000_0000_0000) by (nonlinear_arith)
            requires
                1 <= hw < 0x1_0000_0000,
                1 <= hh < 0x1_0000_0000,
        ;
        let num_x: i128 = hh * sx + 2 * hw * sy;
        let num_y: i128 = 2 * hw * sy - hh * sx;
        let den: i128 = 4 * hw * hh;
        let wx: i128 = round_half_from_zero_i128(num_x, den);
        let wy: i128 = round_half_from_zero_i128(num_y, den);
        let wz: i128 = round_half_from_zero_i128(sz, 2 * hh);
        GridPos { x: clamp_to_i32(wx), y: clamp_to_i32(wy), z: clamp_to_i32(wz) }
    }
}

/// `v` pulled into the `i32` range: values beyond an end of the range
/// saturate to that end.
pub open spec fn clamp_i32(v: int) -> int {
    if v > i32::MAX {
        i32::MAX as int
    } else if v < i32::MIN {
        i32::MIN as int
    } else {
        v
    }
}

/// Executable form of [`clamp_i32`].
fn clamp_to_i32(v: i128) -> (r: i32)
    ensures
        r == clamp_i32(v as int),
{
    if v > i32::MAX as i128 {
        i32::MAX
    } else if v < i32::MIN as i128 {
        i32::MIN
    } else {
        v as i32
    }
}

/// The stored inverse is the exact mathematical inverse of the forward
/// matrix: applying the adjugate rows to the forward image of any world
/// point `(x, y)` returns the point scaled by the determinant, with no
/// error term.  (Equivalently, adjugate · matrix == det · identity.)
pub proof fn lemma_inverse_consistency(proj: IsometricProjection, x: int, y: int)
    requires
        proj.wf(),
    ensures
        proj.hh() * proj.screen_x_at(x, y) + 2 * proj.hw() * proj.screen_y_at(x, y) == proj.det()
            * x,
        2 * proj.hw() * proj.screen_y_at(x, y) - proj.hh() * proj.screen_x_at(x, y) == proj.det()
            * y,
{
    let hw = proj.hw();
    let hh = proj.hh();
    assert(hh * (2 * hw * (x - y)) + 2 * hw * (hh * (x + y)) == 4 * hw * hh * x)
        by (nonlinear_arith);
    assert(2 * hw * (hh * (x + y)) - hh * (2 * hw * (x - y)) == 4 * hw * hh * y)
        by (nonlinear_arith);
}

/// Round-trip law on coordinates: for any integers `(x, y, z)` and any
/// valid projection, the inverse transform applied to the exact forward
/// image recovers `(x, y, z)` exactly.
pub proof fn lemma_round_trip_coords(proj: IsometricProjection, x: int, y: int, z: int)
    requires
        proj.wf(),
    ensures
        proj.world_x_at(proj.screen_x_at(x, y), proj.screen_y_at(x, y)) == x,
        proj.world_y_at(proj.screen_x_at(x, y), proj.screen_y_at(x, y)) == y,
        proj.world_z_at(proj.screen_z_at(z)) == z,
{
    let hw = proj.hw();
    let hh = proj.hh();
    lemma_inverse_consistency(proj, x, y);
    assert(4 * hw * hh >= 4) by (nonlinear_arith)
        requires
            hw >= 1,
            hh >= 1,
    ;
    assert(x * (4 * hw * hh) == 4 * hw * hh * x) by (nonlinear_arith);
    assert(y * (4 * hw * hh) == 4 * hw * hh * y) by (nonlinear_arith);
    assert(z * (2 * hh) == 2 * hh * z) by (nonlinear_arith);
    lemma_round_exact(x, proj.det());
    lemma_round_exact(y, proj.det());
    lemma_round_exact(z, 2 * hh);
}

/// Round-trip law: for every grid position `p` and every valid
/// projection, mapping `p` to the screen and back returns `p` exactly
/// (the saturation to `i32` never engages, because the recovered
/// coordinates are those of `p` itself).
pub proof fn lemma_round_trip(proj: IsometricProjection, p: GridPos)
    requires
        proj.wf(),
    ensures
        clamp_i32(proj.world_x_at(proj.screen_x_at(p.x as int, p.y as int), proj.screen_y_at(p.x as int, p.y as int))) == p.x,
        clamp_i32(proj.world_y_at(proj.screen_x_at(p.x as int, p.y as int), proj.screen_y_at(p.x as int, p.y as int))) == p.y,
        clamp_i32(proj.world_z_at(proj.screen_z_at(p.z as int))) == p.z,
{
    lemma_round_trip_coords(proj, p.x as int, p.y as int, p.z as int);
}

/// Linearity of the forward map: the screen image of a sum of grid
/// offsets is the sum of the images less the image of the origin (which
/// is the origin itself), and depth is strictly linear in world z with
/// scale `hh` pixels (`2·hh` half-pixel units) per world unit.
pub proof fn lemma_linearity(
    proj: IsometricProjection,
    xa: int,
    ya: int,
    za: int,
    xb: int,
    yb: int,
    zb: int,
)
    ensures
        proj.screen_x_at(xa + xb, ya + yb) == proj.screen_x_at(xa, ya) + proj.screen_x_at(xb, yb)
            - proj.screen_x_at(0, 0),
        proj.screen_y_at(xa + xb, ya + yb) == proj.screen_y_at(xa, ya) + proj.screen_y_at(xb, yb)
            - proj.screen_y_at(0, 0),
        proj.screen_z_at(za + zb) == proj.screen_z_at(za) + proj.screen_z_at(zb)
            - proj.screen_z_at(0),
        proj.screen_z_at(za) == 2 * proj.hh() * za,
{
    let hw = proj.hw();
    let hh = proj.hh();
    assert(2 * hw * ((xa + xb) - (ya + yb)) == 2 * hw * (xa - ya) + 2 * hw * (xb - yb) - 2 * hw * (
    0 - 0)) by (nonlinear_arith);
    assert(hh * ((xa + xb) + (ya + yb)) == hh * (xa + ya) + hh * (xb + yb) - hh * (0 + 0))
        by (nonlinear_arith);
    assert(2 * hh * (za + zb) == 2 * hh * za + 2 * hh * zb - 2 * hh * 0) by (nonlinear_arith);
}

/// Nearest-cell behaviour: perturbing the exact screen image of the
/// grid cell `(x, y, z)` by any offset `(dx, dy, dz)` (half-pixel
/// units) that stays strictly within half a cell of it — measured
/// through the inverse transform, as the `requires` states — still
/// recovers the same cell.
pub proof fn lemma_nearest_cell(
    proj: IsometricProjection,
    x: int,
    y: int,
    z: int,
    dx: int,
    dy: int,
    dz: int,
)
    requires
        proj.wf(),
        -proj.det() < 2 * (proj.hh() * dx + 2 * proj.hw() * dy) < proj.det(),
        -proj.det() < 2 * (2 * proj.hw() * dy - proj.hh() * dx) < proj.det(),
        -proj.hh() < dz < proj.hh(),
    ensures
        proj.world_x_at(proj.screen_x_at(x, y) + dx, proj.screen_y_at(x, y) + dy) == x,
        proj.world_y_at(proj.screen_x_at(x, y) + dx, proj.screen_y_at(x, y) + dy) == y,
        proj.world_z_at(proj.screen_z_at(z) + dz) == z,
{
    let hw = proj.hw();
    let hh = proj.hh();
    let sx = proj.screen_x_at(x, y);
    let sy = proj.screen_y_at(x, y);
    lemma_inverse_consistency(proj, x, y);
    assert(4 * hw * hh >= 4) by (nonlinear_arith)
        requires
            hw >= 1,
            hh >= 1,
    ;
    assert(hh * (sx + dx) + 2 * hw * (sy + dy) == (hh * sx + 2 * hw * sy) + (hh * dx + 2 * hw
        * dy)) by (nonlinear_arith);
    assert(2 * hw * (sy + dy) - hh * (sx + dx) == (2 * hw * sy - hh * sx) + (2 * hw * dy - hh
        * dx)) by (nonlinear_arith);
    assert(x * (4 * hw * hh) == 4 * hw * hh * x) by (nonlinear_arith);
    assert(y * (4 * hw * hh) == 4 * hw * hh * y) by (nonlinear_arith);
    assert(z * (2 * hh) == 2 * hh * z) by (nonlinear_arith);
    lemma_round_near(hh * (sx + dx) + 2 * hw * (sy + dy), proj.det(), x);
    lemma_round_near(2 * hw * (sy + dy) - hh * (sx + dx), proj.det(), y);
    lemma_round_near(proj.screen_z_at(z) + dz, 2 * hh, z);
}

} // verus!
