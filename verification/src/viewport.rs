//! The pure mapping from the logical grid onto the physical drawing
//! surface.
//!
//! A [`Viewport`] is derived entirely from the physical surface size and
//! the logical grid size: square cells scaled by the tighter axis, and a
//! centered square playfield box. It is recomputed on every resize and
//! holds no other state.

use vstd::prelude::*;

use crate::game::Cell;
use crate::game::MAX_SIDE;

verus! {

/// Largest accepted physical surface side, in pixels. Keeps every pixel
/// coordinate the mapping produces inside `u32`.
pub const MAX_PIXELS: u32 = 0x4000_0000;

/// An axis-aligned pixel rectangle: top-left corner, then width and
/// height.
#[derive(Clone, Copy, Debug, PartialEq, Eq, Structural)]
pub struct Rect {
    pub x: u32,
    pub y: u32,
    pub w: u32,
    pub h: u32,
}

/// The coordinate mapping between a logical grid and a physical
/// drawing surface, with the derived scale and centering offsets.
pub struct Viewport {
    pub physical_width: u32,
    pub physical_height: u32,
    pub logical_width: u32,
    pub logical_height: u32,
    pub cell_pixel_size: u32,
    pub playfield_side: u32,
    pub offset_x: u32,
    pub offset_y: u32,
}

/// The side of one square cell: the floor of the tighter of the two
/// pixels-per-cell ratios. Zero when the surface is too small for the
/// grid, which degrades drawing to zero-size rectangles but stays sound.
pub open spec fn spec_cell_size(pw: u32, ph: u32, lw: u32, lh: u32) -> int {
    let sx = (pw as int) / (lw as int);
    let sy = (ph as int) / (lh as int);
    if sx <= sy {
        sx
    } else {
        sy
    }
}

/// The side of the largest centered square that fits the surface.
pub open spec fn spec_playfield_side(pw: u32, ph: u32) -> int {
    if pw <= ph {
        pw as int
    } else {
        ph as int
    }
}

impl Viewport {
    /// Well-formedness: validated inputs and derived fields that match
    /// the mapping formulas.
    pub open spec fn wf(self) -> bool {
        &&& 0 < self.logical_width <= MAX_SIDE
        &&& 0 < self.logical_height <= MAX_SIDE
        &&& self.physical_width <= MAX_PIXELS
        &&& self.physical_height <= MAX_PIXELS
        &&& self.cell_pixel_size == spec_cell_size(
            self.physical_width,
            self.physical_height,
            self.logical_width,
            self.logical_height,
        )
        &&& self.playfield_side == spec_playfield_side(self.physical_width, self.physical_height)
        &&& self.offset_x == (self.physical_width - self.playfield_side) / 2
        &&& self.offset_y == (self.physical_height - self.playfield_side) / 2
    }

    /// The pixel x of the left edge of a cell's rectangle.
    pub open spec fn spec_px_x(self, c: Cell) -> int {
        c.col * self.cell_pixel_size + self.offset_x
    }

    /// The pixel y of the top edge of a cell's rectangle.
    pub open spec fn spec_px_y(self, c: Cell) -> int {
        c.row * self.cell_pixel_size + self.offset_y
    }

    /// A viewport for a `pw` by `ph` pixel surface showing an `lw` by
    /// `lh` cell grid. Grid dimensions must be validated non-zero; the
    /// derived scale and offsets follow the mapping formulas.
    pub fn new(pw: u32, ph: u32, lw: u32, lh: u32) -> (vp: Viewport)
        requires
            0 < lw <= MAX_SIDE,
            0 < lh <= MAX_SIDE,
            pw <= MAX_PIXELS,
            ph <= MAX_PIXELS,
        ensures
            vp.wf(),
            vp.physical_width == pw,
            vp.physical_height == ph,
            vp.logical_width == lw,
            vp.logical_height == lh,
    {
        let sx = pw / lw;
        let sy = ph / lh;
        let cell = if sx <= sy {
            sx
        } else {
            sy
        };
        let side = if pw <= ph {
            pw
        } else {
            ph
        };
        Viewport {
            physical_width: pw,
            physical_height: ph,
            logical_width: lw,
            logical_height: lh,
            cell_pixel_size: cell,
            playfield_side: side,
            offset_x: (pw - side) / 2,
            offset_y: (ph - side) / 2,
        }
    }

    /// Recomputes the mapping for a resized surface, keeping the logical
    /// grid.
    pub fn resize(&mut self, pw: u32, ph: u32)
        requires
            old(self).wf(),
            pw <= MAX_PIXELS,
            ph <= MAX_PIXELS,
        ensures
            final(self).wf(),
            final(self).physical_width == pw,
            final(self).physical_height == ph,
            final(self).logical_width == old(self).logical_width,
            final(self).logical_height == old(self).logical_height,
    {
        *self = Viewport::new(pw, ph, self.logical_width, self.logical_height);
    }
}

/// The scale times a full grid axis never exceeds the matching surface
/// axis, so every mapped rectangle stays on the surface.
pub proof fn lemma_grid_fits(vp: Viewport)
    requires
        vp.wf(),
    ensures
        vp.logical_width * vp.cell_pixel_size <= vp.physical_width,
        vp.logical_height * vp.cell_pixel_size <= vp.physical_height,
{
    let pw = vp.physical_width as int;
    let ph = vp.physical_height as int;
    let lw = vp.logical_width as int;
    let lh = vp.logical_height as int;
    let cell = vp.cell_pixel_size as int;
    assert(cell <= pw / lw && cell <= ph / lh);
    assert(lw * (pw / lw) <= pw) by (nonlinear_arith)
        requires
            0 < lw,
            0 <= pw,
    ;
    assert(lh * (ph / lh) <= ph) by (nonlinear_arith)
        requires
            0 < lh,
            0 <= ph,
    ;
    assert(lw * cell <= lw * (pw / lw)) by (nonlinear_arith)
        requires
            0 < lw,
            cell <= pw / lw,
    ;
    assert(lh * cell <= lh * (ph / lh)) by (nonlinear_arith)
        requires
            0 < lh,
            cell <= ph / lh,
    ;
}

impl Viewport {
    /// The pixel rectangle of one grid cell: the sole coordinate-space
    /// contract between logical cells and physical pixels. The corner is
    /// the cell scaled by the square cell size plus the centering offset.
    pub fn map_cell_to_pixel_rect(&self, c: Cell) -> (r: Rect)
        requires
            self.wf(),
            c.col < self.logical_width,
            c.row < self.logical_height,
        ensures
            r.x == self.spec_px_x(c),
            r.y == self.spec_px_y(c),
            r.w == self.cell_pixel_size,
            r.h == self.cell_pixel_size,
    {
        proof {
            lemma_grid_fits(*self);
            assert((c.col as int) * (self.cell_pixel_size as int) <= (self.logical_width as int)
                * (self.cell_pixel_size as int)) by (nonlinear_arith)
                requires
                    c.col < self.logical_width,
                    0 <= self.cell_pixel_size,
            ;
            assert((c.row as int) * (self.cell_pixel_size as int) <= (self.logical_height as int)
                * (self.cell_pixel_size as int)) by (nonlinear_arith)
                requires
                    c.row < self.logical_height,
                    0 <= self.cell_pixel_size,
            ;
        }
        Rect {
            x: c.col * self.cell_pixel_size + self.offset_x,
            y: c.row * self.cell_pixel_size + self.offset_y,
            w: self.cell_pixel_size,
            h: self.cell_pixel_size,
        }
    }
}

/// Distinct cells map to disjoint pixel rectangles whenever the cell
/// size is positive: the mapping is injective, and no two cells overlap
/// by even one pixel.
pub proof fn lemma_map_injective(vp: Viewport, a: Cell, b: Cell)
    requires
        vp.wf(),
        vp.cell_pixel_size > 0,
        a != b,
        a.col < vp.logical_width,
        a.row < vp.logical_height,
        b.col < vp.logical_width,
        b.row < vp.logical_height,
    ensures
        vp.spec_px_x(a) != vp.spec_px_x(b) || vp.spec_px_y(a) != vp.spec_px_y(b),
        vp.spec_px_x(a) + vp.cell_pixel_size <= vp.spec_px_x(b) || vp.spec_px_x(b)
            + vp.cell_pixel_size <= vp.spec_px_x(a) || vp.spec_px_y(a) + vp.cell_pixel_size
            <= vp.spec_px_y(b) || vp.spec_px_y(b) + vp.cell_pixel_size <= vp.spec_px_y(a),
{
    let cell = vp.cell_pixel_size as int;
    if a.col != b.col {
        let lo: int = if a.col < b.col {
            a.col as int
        } else {
            b.col as int
        };
        let hi: int = if a.col < b.col {
            b.col as int
        } else {
            a.col as int
        };
        assert(lo + 1 <= hi);
        assert(lo * cell + cell <= hi * cell) by (nonlinear_arith)
            requires
                lo + 1 <= hi,
                0 < cell,
        ;
    } else {
        assert(a.row != b.row);
        let lo: int = if a.row < b.row {
            a.row as int
        } else {
            b.row as int
        };
        let hi: int = if a.row < b.row {
            b.row as int
        } else {
            a.row as int
        };
        assert(lo + 1 <= hi);
        assert(lo * cell + cell <= hi * cell) by (nonlinear_arith)
            requires
                lo + 1 <= hi,
                0 < cell,
        ;
    }
}

} // verus!
