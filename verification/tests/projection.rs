use isometric_projection::GridPos;
use isometric_projection::IsometricProjection;
use isometric_projection::ProjectionError;
use isometric_projection::ScreenPos;
use isometric_projection::SCREEN_HALF_LIMIT;

fn proj(hw: u32, hh: u32) -> IsometricProjection {
    IsometricProjection::new(hw, hh).unwrap()
}

#[test]
fn new_rejects_zero_half_width() {
    assert!(IsometricProjection::new(0, 14).is_err());
}

#[test]
fn new_rejects_zero_half_height() {
    assert!(IsometricProjection::new(14, 0).is_err());
}

#[test]
fn new_rejects_zero_both() {
    assert_eq!(
        IsometricProjection::new(0, 0).err(),
        Some(ProjectionError::DegenerateGeometry)
    );
}

#[test]
fn new_accepts_positive_dimensions() {
    assert!(IsometricProjection::new(14, 14).is_ok());
    assert!(IsometricProjection::new(1, 1).is_ok());
    assert!(IsometricProjection::new(u32::MAX, u32::MAX).is_ok());
}

#[test]
fn world_to_screen_concrete() {
    // sx = 14*10 - 14*20 = -140 px, sy = 7*10 + 7*20 = 210 px, sz = 14*30 = 420 px,
    // which in half-pixel units is (-280, 420, 840).
    let p = proj(14, 14);
    let s = p.world_to_screen(GridPos { x: 10, y: 20, z: 30 });
    assert_eq!(s, ScreenPos { x: -280, y: 420, z: 840 });
    assert_eq!(s.x as f64 / 2.0, -140.0);
    assert_eq!(s.y as f64 / 2.0, 210.0);
    assert_eq!(s.z as f64 / 2.0, 420.0);
}

#[test]
fn screen_to_world_concrete() {
    let p = proj(14, 14);
    let s = ScreenPos::from_pixels(-140, 210, 420);
    assert_eq!(p.screen_to_world(s), GridPos { x: 10, y: 20, z: 30 });
}

#[test]
fn round_trip_exact() {
    let geometries = [(14u32, 14u32), (1, 1), (32, 8), (3, 7), (u32::MAX, u32::MAX)];
    let positions = [
        GridPos { x: 0, y: 0, z: 0 },
        GridPos { x: 10, y: 20, z: 30 },
        GridPos { x: -5, y: 13, z: -2 },
        GridPos { x: 1, y: -1, z: 1 },
        GridPos { x: i32::MAX, y: i32::MIN, z: i32::MAX },
        GridPos { x: i32::MIN, y: i32::MAX, z: i32::MIN },
    ];
    for (hw, hh) in geometries {
        let p = proj(hw, hh);
        for pos in positions {
            assert_eq!(p.screen_to_world(p.world_to_screen(pos)), pos);
        }
    }
}

#[test]
fn linearity_of_the_plane_map() {
    let p = proj(5, 3);
    let a = GridPos { x: 3, y: -4, z: 5 };
    let b = GridPos { x: -7, y: 2, z: -9 };
    let sum = GridPos { x: a.x + b.x, y: a.y + b.y, z: a.z + b.z };
    let sa = p.world_to_screen(a);
    let sb = p.world_to_screen(b);
    let origin = p.world_to_screen(GridPos { x: 0, y: 0, z: 0 });
    assert_eq!(origin, ScreenPos { x: 0, y: 0, z: 0 });
    let ssum = p.world_to_screen(sum);
    assert_eq!(ssum.x, sa.x + sb.x - origin.x);
    assert_eq!(ssum.y, sa.y + sb.y - origin.y);
    assert_eq!(ssum.z, sa.z + sb.z - origin.z);
}

#[test]
fn depth_is_strictly_linear() {
    let p = proj(14, 9);
    for z in [-100, -1, 0, 1, 2, 77] {
        let s = p.world_to_screen(GridPos { x: 4, y: -6, z });
        // screen z in pixels is hh * z, so in half-pixel units 2 * hh * z.
        assert_eq!(s.z, 2 * 9 * z as i128);
    }
}

#[test]
fn nearest_cell_survives_sub_pixel_perturbation() {
    let p = proj(14, 14);
    let s = p.world_to_screen(GridPos { x: 10, y: 20, z: 30 });
    // Nudge by 1.5 px right, 1.5 px up, 2.5 px in depth: still well within
    // half a cell for 14-pixel half-tiles.
    let nudged = ScreenPos { x: s.x + 3, y: s.y - 3, z: s.z + 5 };
    assert_eq!(p.screen_to_world(nudged), GridPos { x: 10, y: 20, z: 30 });
}

#[test]
fn half_cell_ties_round_away_from_zero() {
    // With 1-pixel half-tiles the inverse denominators are 4 (plane) and
    // 2 (depth); a screen point landing exactly halfway between cells
    // rounds away from zero.
    let p = proj(1, 1);
    assert_eq!(
        p.screen_to_world(ScreenPos { x: 2, y: 0, z: 1 }),
        GridPos { x: 1, y: -1, z: 1 }
    );
    assert_eq!(
        p.screen_to_world(ScreenPos { x: -2, y: 0, z: -1 }),
        GridPos { x: -1, y: 1, z: -1 }
    );
}

#[test]
fn far_away_screen_points_saturate_to_i32() {
    let p = proj(1, 1);
    let s = ScreenPos { x: SCREEN_HALF_LIMIT, y: 0, z: 0 };
    assert_eq!(
        p.screen_to_world(s),
        GridPos { x: i32::MAX, y: i32::MIN, z: 0 }
    );
}

#[test]
fn from_pixels_doubles_into_half_units() {
    let s = ScreenPos::from_pixels(3, -4, 5);
    assert_eq!(s, ScreenPos { x: 6, y: -8, z: 10 });
}
