//! Opaque-pixel collision: sprites collide only when a non-transparent
//! pixel of one coincides, in world space, with a non-transparent pixel
//! of the other. This avoids false positives from the transparent
//! padding around irregularly shaped art.
//!
//! A [`PixelMask`] is the opacity grid of one sprite's bitmap at sprite
//! scale: `rows[y][x]` is true where the pixel is opaque. The scan is
//! narrowed to the overlap of the two sprites' pixel rectangles, never
//! the full product of both bitmaps.

use vstd::prelude::*;

verus! {

/// The opacity grid of one sprite's bitmap.
pub struct PixelMask {
    pub width: usize,
    pub height: usize,
    pub rows: Vec<Vec<bool>>,
}

/// Mathematical view of a [`PixelMask`]: its dimensions and the grid as
/// a sequence of rows.
pub struct MaskView {
    pub width: int,
    pub height: int,
    pub rows: Seq<Seq<bool>>,
}

impl View for PixelMask {
    type V = MaskView;

    open spec fn view(&self) -> MaskView {
        MaskView {
            width: self.width as int,
            height: self.height as int,
            rows: self.rows@.map_values(|r: Vec<bool>| r@),
        }
    }
}

/// The grid is rectangular: `height` rows of exactly `width` pixels.
pub open spec fn mask_wf(m: MaskView) -> bool {
    &&& m.rows.len() == m.height
    &&& 0 <= m.width
    &&& forall|i: int| 0 <= i < m.height ==> (#[trigger] m.rows[i]).len() == m.width
}

/// The pixel at local coordinates `(x, y)` exists and is opaque.
pub open spec fn mask_opaque(m: MaskView, x: int, y: int) -> bool {
    &&& 0 <= x < m.width
    &&& 0 <= y < m.height
    &&& m.rows[y][x]
}

/// An opaque pixel of `a` at local `(ix, iy)` coincides with an opaque
/// pixel of `b`, where `(dx, dy)` is the offset of `a`'s origin from
/// `b`'s origin in pixels (`dx = ax - bx`, `dy = ay - by`).
pub open spec fn hit_at(a: MaskView, b: MaskView, dx: int, dy: int, ix: int, iy: int) -> bool {
    mask_opaque(a, ix, iy) && mask_opaque(b, ix + dx, iy + dy)
}

/// Two placed masks collide: some world pixel is opaque in both.
/// `(ax, ay)` and `(bx, by)` are the masks' top-left corners in world
/// pixels.
pub open spec fn masks_collide(
    a: MaskView,
    ax: int,
    ay: int,
    b: MaskView,
    bx: int,
    by: int,
) -> bool {
    exists|ix: int, iy: int| #[trigger] hit_at(a, b, ax - bx, ay - by, ix, iy)
}

impl PixelMask {
    /// Build a mask from explicit rows.
    pub fn from_rows(rows: Vec<Vec<bool>>, width: usize, height: usize) -> (m: PixelMask)
        requires
            rows@.len() == height,
            forall|i: int| 0 <= i < height ==> (#[trigger] rows@[i])@.len() == width,
        ensures
            mask_wf(m@),
            m@.width == width,
            m@.height == height,
            forall|i: int| 0 <= i < height ==> #[trigger] m@.rows[i] == rows@[i]@,
    {
        let m = PixelMask { width, height, rows };
        proof {
            assert(forall|i: int| 0 <= i < height ==> #[trigger] m@.rows[i] == m.rows@[i]@);
        }
        m
    }

    /// Build a `width` by `height` mask with every pixel set to `value`.
    pub fn solid(width: usize, height: usize, value: bool) -> (m: PixelMask)
        ensures
            mask_wf(m@),
            m@.width == width,
            m@.height == height,
            forall|x: int, y: int|
                0 <= x < width && 0 <= y < height ==> mask_opaque(m@, x, y) == value,
    {
        let mut rows: Vec<Vec<bool>> = Vec::new();
        let mut i: usize = 0;
        while i < height
            invariant
                i <= height,
                rows@.len() == i,
                forall|k: int| 0 <= k < i ==> (#[trigger] rows@[k])@.len() == width,
                forall|k: int, x: int|
                    0 <= k < i && 0 <= x < width ==> #[trigger] rows@[k]@[x] == value,
            decreases height - i,
        {
            let mut row: Vec<bool> = Vec::new();
            let mut j: usize = 0;
            while j < width
                invariant
                    j <= width,
                    row@.len() == j,
                    forall|x: int| 0 <= x < j ==> row@[x] == value,
                decreases width - j,
            {
                row.push(value);
                j = j + 1;
            }
            rows.push(row);
            i = i + 1;
        }
        let m = PixelMask { width, height, rows };
        proof {
            assert(forall|y: int| 0 <= y < height ==> #[trigger] m@.rows[y] == m.rows@[y]@);
        }
        m
    }

    /// An exact copy of this mask.
    pub fn duplicate(&self) -> (m: PixelMask)
        requires
            mask_wf(self@),
        ensures
            m@ == self@,
            mask_wf(m@),
    {
        let mut rows: Vec<Vec<bool>> = Vec::new();
        let mut i: usize = 0;
        while i < self.height
            invariant
                mask_wf(self@),
                self.height == self@.height,
                i <= self.height,
                rows@.len() == i,
                forall|k: int| 0 <= k < i ==> #[trigger] rows@[k]@ == self@.rows[k],
            decreases self.height - i,
        {
            let src: &Vec<bool> = &self.rows[i];
            proof {
                assert(self@.rows[i as int] == src@);
            }
            let mut row: Vec<bool> = Vec::new();
            let mut j: usize = 0;
            while j < src.len()
                invariant
                    j <= src@.len(),
                    row@.len() == j,
                    forall|x: int| 0 <= x < j ==> row@[x] == src@[x],
                decreases src@.len() - j,
            {
                row.push(src[j]);
                j = j + 1;
            }
            proof {
                assert(row@ =~= src@);
            }
            rows.push(row);
            i = i + 1;
        }
        let m = PixelMask { width: self.width, height: self.height, rows };
        proof {
            assert(forall|k: int| 0 <= k < m@.height ==> #[trigger] m@.rows[k] == m.rows@[k]@);
            assert(m@.rows =~= self@.rows);
        }
        m
    }
}

/// Scan the overlap of two placed masks for a world pixel that is opaque
/// in both. `(ax, ay)` and `(bx, by)` are the masks' top-left corners in
/// world pixels.
pub fn check_masks_collide(
    a: &PixelMask,
    ax: i64,
    ay: i64,
    b: &PixelMask,
    bx: i64,
    by: i64,
) -> (r: bool)
    requires
        mask_wf(a@),
        mask_wf(b@),
    ensures
        r == masks_collide(a@, ax as int, ay as int, b@, bx as int, by as int),
{
    let ghost dx: int = ax - bx;
    let ghost dy: int = ay - by;
    // Local (to `a`) coordinate range of the overlap of the two pixel
    // rectangles; every coinciding opaque pair must lie inside it.
    let off_x: i128 = bx as i128 - ax as i128;
    let off_y: i128 = by as i128 - ay as i128;
    let b_right: i128 = off_x + b.width as i128;
    let b_bottom: i128 = off_y + b.height as i128;
    let a_w: i128 = a.width as i128;
    let a_h: i128 = a.height as i128;
    let ix0: i128 = if off_x > 0 { off_x } else { 0 };
    let ix1: i128 = if b_right < a_w { b_right } else { a_w };
    let iy0: i128 = if off_y > 0 { off_y } else { 0 };
    let iy1: i128 = if b_bottom < a_h { b_bottom } else { a_h };
    let mut iy: i128 = iy0;
    while iy < iy1
        invariant
            mask_wf(a@),
            mask_wf(b@),
            dx == ax - bx,
            dy == ay - by,
            ix0 == vstd::math::max(-dx, 0),
            ix1 == vstd::math::min(b@.width - dx, a@.width),
            iy0 == vstd::math::max(-dy, 0),
            iy1 == vstd::math::min(b@.height - dy, a@.height),
            iy0 <= iy,
            iy1 <= a@.height,
            forall|jx: int, jy: int|
                iy0 <= jy < iy && ix0 <= jx < ix1 ==> !hit_at(a@, b@, dx, dy, jx, jy),
        decreases iy1 - iy,
    {
        let mut ix: i128 = ix0;
        while ix < ix1
            invariant
                mask_wf(a@),
                mask_wf(b@),
                dx == ax - bx,
                dy == ay - by,
                ix0 == vstd::math::max(-dx, 0),
                ix1 == vstd::math::min(b@.width - dx, a@.width),
                iy0 == vstd::math::max(-dy, 0),
                iy1 == vstd::math::min(b@.height - dy, a@.height),
                iy0 <= iy < iy1,
                iy1 <= a@.height,
                ix0 <= ix,
                ix1 <= a@.width,
                forall|jx: int, jy: int|
                    iy0 <= jy < iy && ix0 <= jx < ix1 ==> !hit_at(a@, b@, dx, dy, jx, jy),
                forall|jx: int| ix0 <= jx < ix ==> !hit_at(a@, b@, dx, dy, jx, iy as int),
            decreases ix1 - ix,
        {
            proof {
                assert(a.rows@.len() == a@.rows.len());
                assert(0 <= iy < a@.height);
                assert(0 <= ix < a@.width);
                assert(a@.rows[iy as int] == a.rows@[iy as int]@);
                assert(a.rows@[iy as int]@.len() == a@.width);
            }
            let a_opaque: bool = a.rows[iy as usize][ix as usize];
            proof {
                assert(a_opaque == mask_opaque(a@, ix as int, iy as int));
            }
            let bxi: i128 = ix + (ax as i128 - bx as i128);
            let byi: i128 = iy + (ay as i128 - by as i128);
            proof {
                assert(bxi == ix + dx);
                assert(byi == iy + dy);
                assert(0 <= bxi < b@.width);
                assert(0 <= byi < b@.height);
                assert(b.rows@.len() == b@.rows.len());
                assert(b@.rows[byi as int] == b.rows@[byi as int]@);
                assert(b.rows@[byi as int]@.len() == b@.width);
            }
            let b_opaque: bool = b.rows[byi as usize][bxi as usize];
            proof {
                assert(b_opaque == mask_opaque(b@, ix as int + dx, iy as int + dy));
            }
            if a_opaque && b_opaque {
                proof {
                    assert(hit_at(a@, b@, dx, dy, ix as int, iy as int));
                }
                return true;
            }
            ix = ix + 1;
        }
        iy = iy + 1;
    }
    proof {
        assert forall|ix: int, iy: int| !hit_at(a@, b@, dx, dy, ix, iy) by {
            if hit_at(a@, b@, dx, dy, ix, iy) {
                assert(0 <= ix < a@.width);
                assert(0 <= iy < a@.height);
                assert(0 <= ix + dx < b@.width);
                assert(0 <= iy + dy < b@.height);
                assert(ix0 <= ix < ix1);
                assert(iy0 <= iy < iy1);
            }
        }
    }
    false
}

} // verus!
