//! The paint commands for one frame.
//!
//! Rendering is a pure function of the published game state and the
//! viewport: it returns the filled rectangles to paint, in order, and
//! mutates nothing. The shell forwards each command to the drawing
//! surface; a terminal game simply keeps producing its frozen final
//! frame. The centered overlay text needs the surface's text metrics and
//! is left to the shell, positioned from the same offsets and playfield
//! side.

use vstd::prelude::*;

use crate::game::GameGrid;
use crate::game::GameView;
use crate::viewport::Rect;
use crate::viewport::Viewport;

verus! {

/// A named paint color.
#[derive(Clone, Copy, Debug, PartialEq, Eq, Structural)]
pub enum Color {
    White,
    Black,
    Blue,
    Green,
    Red,
}

/// One filled-rectangle paint command.
#[derive(Clone, Copy, Debug, PartialEq, Eq, Structural)]
pub struct DrawCmd {
    pub rect: Rect,
    pub color: Color,
}

/// The rectangle of one grid cell under a viewport, as a value.
pub open spec fn spec_cell_rect(vp: Viewport, c: crate::game::Cell) -> Rect {
    Rect {
        x: vp.spec_px_x(c) as u32,
        y: vp.spec_px_y(c) as u32,
        w: vp.cell_pixel_size,
        h: vp.cell_pixel_size,
    }
}

/// The frame for a game state under a viewport: a white clear of the
/// whole surface, a black surface background, the blue centered
/// playfield square, one green rectangle per body cell in body order,
/// and the red food rectangle.
pub open spec fn spec_render(g: GameView, vp: Viewport) -> Seq<DrawCmd> {
    let clear = DrawCmd {
        rect: Rect { x: 0, y: 0, w: vp.physical_width, h: vp.physical_height },
        color: Color::White,
    };
    let background = DrawCmd {
        rect: Rect { x: 0, y: 0, w: vp.physical_width, h: vp.physical_height },
        color: Color::Black,
    };
    let playfield = DrawCmd {
        rect: Rect {
            x: vp.offset_x,
            y: vp.offset_y,
            w: vp.playfield_side,
            h: vp.playfield_side,
        },
        color: Color::Blue,
    };
    let body = Seq::new(g.body.len(), |i: int| DrawCmd {
        rect: spec_cell_rect(vp, g.body[i]),
        color: Color::Green,
    });
    let food = DrawCmd { rect: spec_cell_rect(vp, g.food), color: Color::Red };
    seq![clear, background, playfield] + body + seq![food]
}

/// The paint commands for one frame, in paint order, exactly as
/// [`spec_render`] lays them out. Reads the game and the viewport and
/// mutates neither.
pub fn render_commands(g: &GameGrid, vp: &Viewport) -> (r: Vec<DrawCmd>)
    requires
        g@.wf(),
        vp.wf(),
        vp.logical_width == g@.width,
        vp.logical_height == g@.height,
    ensures
        r@ == spec_render(g@, *vp),
{
    let mut r: Vec<DrawCmd> = Vec::new();
    r.push(DrawCmd {
        rect: Rect { x: 0, y: 0, w: vp.physical_width, h: vp.physical_height },
        color: Color::White,
    });
    r.push(DrawCmd {
        rect: Rect { x: 0, y: 0, w: vp.physical_width, h: vp.physical_height },
        color: Color::Black,
    });
    r.push(DrawCmd {
        rect: Rect {
            x: vp.offset_x,
            y: vp.offset_y,
            w: vp.playfield_side,
            h: vp.playfield_side,
        },
        color: Color::Blue,
    });
    let n = g.body_len();
    let mut i: usize = 0;
    while i < n
        invariant
            g@.wf(),
            vp.wf(),
            vp.logical_width == g@.width,
            vp.logical_height == g@.height,
            n == g@.body.len(),
            i <= n,
            r@.len() == 3 + i,
            r@ == spec_render(g@, *vp).take(3 + i),
        decreases n - i,
    {
        let c = g.body_cell(i);
        let cmd = DrawCmd { rect: vp.map_cell_to_pixel_rect(c), color: Color::Green };
        r.push(cmd);
        proof {
            assert(cmd == spec_render(g@, *vp)[3 + i]);
            assert(r@ =~= spec_render(g@, *vp).take(3 + i + 1));
        }
        i += 1;
    }
    let food_cmd = DrawCmd { rect: vp.map_cell_to_pixel_rect(g.food()), color: Color::Red };
    r.push(food_cmd);
    proof {
        assert(food_cmd == spec_render(g@, *vp)[3 + n]);
        assert(r@ =~= spec_render(g@, *vp));
    }
    r
}

} // verus!
