//! Opaque-pixel collision: overlapping rectangles collide only when
//! opaque pixels actually coincide in world space.

use dino_runner::collision::{check_masks_collide, PixelMask};

#[test]
fn solid_masks_collide_when_overlapping() {
    let a = PixelMask::solid(2, 2, true);
    let b = PixelMask::solid(2, 2, true);
    assert!(check_masks_collide(&a, 0, 0, &b, 1, 1));
}

#[test]
fn solid_masks_touching_edges_do_not_collide() {
    let a = PixelMask::solid(2, 2, true);
    let b = PixelMask::solid(2, 2, true);
    assert!(!check_masks_collide(&a, 0, 0, &b, 2, 0));
}

#[test]
fn separate_masks_do_not_collide() {
    let a = PixelMask::solid(2, 2, true);
    let b = PixelMask::solid(2, 2, true);
    assert!(!check_masks_collide(&a, 0, 0, &b, 5, 5));
}

#[test]
fn transparent_mask_never_collides() {
    let a = PixelMask::solid(4, 4, true);
    let b = PixelMask::solid(4, 4, false);
    assert!(!check_masks_collide(&a, 0, 0, &b, 0, 0));
}

#[test]
fn overlapping_rects_without_coinciding_pixels_do_not_collide() {
    // Each mask has a single opaque pixel in an opposite corner: the
    // 2x2 rectangles coincide fully, the opaque pixels never do.
    let a = PixelMask::from_rows(vec![vec![true, false], vec![false, false]], 2, 2);
    let b = PixelMask::from_rows(vec![vec![false, false], vec![false, true]], 2, 2);
    assert!(!check_masks_collide(&a, 0, 0, &b, 0, 0));
    // Shift b up-left by one pixel and the two opaque pixels coincide.
    assert!(check_masks_collide(&a, 0, 0, &b, -1, -1));
}

#[test]
fn collision_works_at_negative_world_coordinates() {
    let a = PixelMask::solid(3, 3, true);
    let b = PixelMask::solid(3, 3, true);
    assert!(check_masks_collide(&a, -2, -2, &b, 0, 0));
    assert!(!check_masks_collide(&a, -6, -6, &b, 0, 0));
}

#[test]
fn duplicate_preserves_pixels() {
    let a = PixelMask::from_rows(vec![vec![true, false], vec![false, true]], 2, 2);
    let d = a.duplicate();
    let probe = PixelMask::solid(1, 1, true);
    // The copy behaves identically: opaque at (0,0) and (1,1) only.
    assert!(check_masks_collide(&d, 0, 0, &probe, 0, 0));
    assert!(!check_masks_collide(&d, 0, 0, &probe, 1, 0));
    assert!(!check_masks_collide(&d, 0, 0, &probe, 0, 1));
    assert!(check_masks_collide(&d, 0, 0, &probe, 1, 1));
}
