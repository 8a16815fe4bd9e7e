//! The discrete-time snake state machine.
//!
//! A [`GameGrid`] owns the snake body, the committed and pending headings,
//! the food cell, the grid dimensions, and the terminal status. It is
//! mutated only by [`GameGrid::change_direction`] and [`GameGrid::update`];
//! everything else is a read-only query. Collisions are not errors: they
//! are transitions into a terminal status, after which both mutators are
//! no-ops.

use vstd::prelude::*;

use crate::direction::Direction;
use crate::direction::lemma_opposite_involutive;

verus! {

/// A logical grid cell: column then row, both zero-based.
#[derive(Clone, Copy, Debug, PartialEq, Eq, Structural)]
pub struct Cell {
    pub col: u32,
    pub row: u32,
}

/// The lifecycle status of a game.
///
/// `Alive` is the only state in which `update` and `change_direction` act.
/// `Dead` records a wall or self collision; `Won` records that the body
/// filled the whole grid. Both are terminal.
#[derive(Clone, Copy, Debug, PartialEq, Eq, Structural)]
pub enum Status {
    Alive,
    Dead,
    Won,
}

/// The mathematical model of a [`GameGrid`]: the body as a sequence of
/// cells, head first, plus the headings, food, dimensions, status, and the
/// state of the food-placement random number generator.
#[verifier::ext_equal]
pub ghost struct GameView {
    pub body: Seq<Cell>,
    pub heading: Direction,
    pub pending: Direction,
    pub food: Cell,
    pub width: u32,
    pub height: u32,
    pub status: Status,
    pub rng: u32,
}

/// Largest accepted grid side length; keeps every cell count and pixel
/// product comfortably inside the machine integer types.
pub const MAX_SIDE: u32 = 0xFFFF;

/// Whether `c` lies inside a `w` by `h` grid.
pub open spec fn in_bounds(c: Cell, w: u32, h: u32) -> bool {
    c.col < w && c.row < h
}

/// Whether two cells are grid-adjacent: Manhattan distance exactly 1.
pub open spec fn adjacent(a: Cell, b: Cell) -> bool {
    ||| (a.col == b.col && (a.row + 1 == b.row || b.row + 1 == a.row))
    ||| (a.row == b.row && (a.col + 1 == b.col || b.col + 1 == a.col))
}

/// One step of the linear congruential generator that drives food
/// placement (Numerical Recipes constants, modulo 2^32).
pub open spec fn next_rng(x: u32) -> u32 {
    ((x * 1664525 + 1013904223) % 0x1_0000_0000) as u32
}

/// The cell at position `k` of the row-major enumeration of a grid
/// `w` cells wide.
pub open spec fn cell_of_index(w: u32, k: int) -> Cell {
    Cell { col: (k % (w as int)) as u32, row: (k / (w as int)) as u32 }
}

/// The cells among the first `n` of the row-major enumeration that the
/// body does not occupy, in enumeration order.
pub open spec fn free_cells_up_to(body: Seq<Cell>, w: u32, n: nat) -> Seq<Cell>
    decreases n,
{
    if n == 0 {
        Seq::empty()
    } else {
        let prefix = free_cells_up_to(body, w, (n - 1) as nat);
        let c = cell_of_index(w, n - 1);
        if body.contains(c) {
            prefix
        } else {
            prefix.push(c)
        }
    }
}

/// The cells of a `w` by `h` grid that the body does not occupy, in
/// row-major order. Food is always drawn from this sequence.
pub open spec fn free_cells(body: Seq<Cell>, w: u32, h: u32) -> Seq<Cell> {
    free_cells_up_to(body, w, (w * h) as nat)
}

/// The cell one step from `c` in direction `d`, or `None` when that step
/// leaves the `w` by `h` grid (a wall collision).
pub open spec fn spec_step_cell(c: Cell, d: Direction, w: u32, h: u32) -> Option<Cell> {
    match d {
        Direction::Up => if c.row > 0 {
            Some(Cell { col: c.col, row: (c.row - 1) as u32 })
        } else {
            None
        },
        Direction::Down => if c.row + 1 < h {
            Some(Cell { col: c.col, row: (c.row + 1) as u32 })
        } else {
            None
        },
        Direction::Left => if c.col > 0 {
            Some(Cell { col: (c.col - 1) as u32, row: c.row })
        } else {
            None
        },
        Direction::Right => if c.col + 1 < w {
            Some(Cell { col: (c.col + 1) as u32, row: c.row })
        } else {
            None
        },
    }
}

impl GameView {
    /// Well-formedness: positive bounded dimensions; a nonempty body of
    /// distinct, in-bounds, consecutively adjacent cells; in-bounds food
    /// that lies off the body unless the game is won; and a pending
    /// heading that is never the direct reversal of the committed one.
    pub open spec fn wf(self) -> bool {
        &&& 0 < self.width <= MAX_SIDE
        &&& 0 < self.height <= MAX_SIDE
        &&& self.body.len() >= 1
        &&& (forall|i: int|
            0 <= i < self.body.len() ==> in_bounds(#[trigger] self.body[i], self.width, self.height))
        &&& (forall|i: int|
            0 <= i < self.body.len() - 1 ==> adjacent(#[trigger] self.body[i], self.body[i + 1]))
        &&& (forall|i: int, j: int|
            0 <= i < j < self.body.len() ==> self.body[i] != self.body[j])
        &&& in_bounds(self.food, self.width, self.height)
        &&& (self.status != Status::Won ==> (forall|i: int|
            0 <= i < self.body.len() ==> #[trigger] self.body[i] != self.food))
        &&& self.pending != self.heading.opposite_spec()
    }
}

/// The state after a direction request: the pending heading becomes `d`
/// unless the game is over or `d` would directly reverse the committed
/// heading, in which case the request is silently ignored.
pub open spec fn spec_change_direction(v: GameView, d: Direction) -> GameView {
    if v.status == Status::Alive && d != v.heading.opposite_spec() {
        GameView {
            body: v.body,
            heading: v.heading,
            pending: d,
            food: v.food,
            width: v.width,
            height: v.height,
            status: v.status,
            rng: v.rng,
        }
    } else {
        v
    }
}

/// The state after one tick.
///
/// A terminal state is left unchanged. Otherwise the pending heading is
/// committed and the head takes one step: off the grid is a wall collision
/// (`Dead`); onto the food grows the body by one and relocates the food to
/// a free cell picked by the generator, or wins the game when no free cell
/// is left; onto any body cell other than the vacated tail is a self
/// collision (`Dead`); otherwise the body translates by one cell.
pub open spec fn spec_update(v: GameView) -> GameView {
    if v.status != Status::Alive {
        v
    } else {
        let dir = v.pending;
        match spec_step_cell(v.body[0], dir, v.width, v.height) {
            None => GameView {
                body: v.body,
                heading: dir,
                pending: dir,
                food: v.food,
                width: v.width,
                height: v.height,
                status: Status::Dead,
                rng: v.rng,
            },
            Some(nh) => if nh == v.food {
                let grown = seq![nh] + v.body;
                let free = free_cells(grown, v.width, v.height);
                if free.len() == 0 {
                    GameView {
                        body: grown,
                        heading: dir,
                        pending: dir,
                        food: v.food,
                        width: v.width,
                        height: v.height,
                        status: Status::Won,
                        rng: v.rng,
                    }
                } else {
                    let r = next_rng(v.rng);
                    GameView {
                        body: grown,
                        heading: dir,
                        pending: dir,
                        food: free[(r as int) % (free.len() as int)],
                        width: v.width,
                        height: v.height,
                        status: Status::Alive,
                        rng: r,
                    }
                }
            } else if v.body.take(v.body.len() - 1).contains(nh) {
                GameView {
                    body: v.body,
                    heading: dir,
                    pending: dir,
                    food: v.food,
                    width: v.width,
                    height: v.height,
                    status: Status::Dead,
                    rng: v.rng,
                }
            } else {
                GameView {
                    body: seq![nh] + v.body.take(v.body.len() - 1),
                    heading: dir,
                    pending: dir,
                    food: v.food,
                    width: v.width,
                    height: v.height,
                    status: Status::Alive,
                    rng: v.rng,
                }
            },
        }
    }
}

/// The game state machine. See [`GameView`] for the abstract model and
/// [`spec_update`] / [`spec_change_direction`] for the transition rules.
pub struct GameGrid {
    body: Vec<Cell>,
    heading: Direction,
    pending: Direction,
    food: Cell,
    width: u32,
    height: u32,
    status: Status,
    rng: u32,
}

impl View for GameGrid {
    type V = GameView;

    closed spec fn view(&self) -> GameView {
        GameView {
            body: self.body@,
            heading: self.heading,
            pending: self.pending,
            food: self.food,
            width: self.width,
            height: self.height,
            status: self.status,
            rng: self.rng,
        }
    }
}

/// One step of the food-placement generator.
fn step_rng(x: u32) -> (r: u32)
    ensures
        r == next_rng(x),
{
    let wide: u64 = (x as u64) * 1664525 + 1013904223;
    (wide % 0x1_0000_0000) as u32
}

/// Whether the body occupies `c`.
fn body_contains(body: &Vec<Cell>, c: Cell) -> (r: bool)
    ensures
        r == body@.contains(c),
{
    let mut i: usize = 0;
    while i < body.len()
        invariant
            i <= body@.len(),
            forall|k: int| 0 <= k < i ==> body@[k] != c,
        decreases body@.len() - i,
    {
        if body[i] == c {
            return true;
        }
        i += 1;
    }
    false
}

/// Whether the first `upto` body cells occupy `c`.
fn prefix_contains(body: &Vec<Cell>, upto: usize, c: Cell) -> (r: bool)
    requires
        upto <= body@.len(),
    ensures
        r == body@.take(upto as int).contains(c),
{
    let mut i: usize = 0;
    while i < upto
        invariant
            i <= upto <= body@.len(),
            forall|k: int| 0 <= k < i ==> body@[k] != c,
        decreases upto - i,
    {
        if body[i] == c {
            assert(body@.take(upto as int)[i as int] == c);
            return true;
        }
        i += 1;
    }
    assert(forall|k: int|
        0 <= k < upto ==> #[trigger] body@.take(upto as int)[k] == body@[k]);
    false
}

/// The free cells of a `w` by `h` grid, in row-major order.
fn compute_free_cells(body: &Vec<Cell>, w: u32, h: u32) -> (free: Vec<Cell>)
    requires
        0 < w <= MAX_SIDE,
        0 < h <= MAX_SIDE,
    ensures
        free@ == free_cells(body@, w, h),
{
    proof {
        assert((w as int) * (h as int) <= 0xFFFF * 0xFFFF) by (nonlinear_arith)
            requires
                0 <= w <= 0xFFFF,
                0 <= h <= 0xFFFF,
        ;
    }
    let total: usize = (w as usize) * (h as usize);
    let mut free: Vec<Cell> = Vec::new();
    let mut k: usize = 0;
    while k < total
        invariant
            total == w * h,
            0 < w <= MAX_SIDE,
            0 < h <= MAX_SIDE,
            k <= total,
            free@ == free_cells_up_to(body@, w, k as nat),
        decreases total - k,
    {
        proof {
            assert((k as int) % (w as int) < (w as int)) by (nonlinear_arith)
                requires
                    0 < w,
                    0 <= k,
            ;
            assert((k as int) / (w as int) <= (k as int)) by (nonlinear_arith)
                requires
                    0 < w,
                    0 <= k,
            ;
        }
        let col: u32 = (k % (w as usize)) as u32;
        let row: u32 = (k / (w as usize)) as u32;
        let c = Cell { col, row };
        proof {
            assert(c == cell_of_index(w, k as int));
        }
        if !body_contains(body, c) {
            free.push(c);
        }
        k += 1;
        proof {
            assert(free@ == free_cells_up_to(body@, w, k as nat));
        }
    }
    free
}

/// The cell one step from `c` in direction `d`, or `None` on a wall.
fn step_cell(c: Cell, d: Direction, w: u32, h: u32) -> (r: Option<Cell>)
    requires
        in_bounds(c, w, h),
    ensures
        r == spec_step_cell(c, d, w, h),
{
    match d {
        Direction::Up => if c.row > 0 {
            Some(Cell { col: c.col, row: c.row - 1 })
        } else {
            None
        },
        Direction::Down => if c.row + 1 < h {
            Some(Cell { col: c.col, row: c.row + 1 })
        } else {
            None
        },
        Direction::Left => if c.col > 0 {
            Some(Cell { col: c.col - 1, row: c.row })
        } else {
            None
        },
        Direction::Right => if c.col + 1 < w {
            Some(Cell { col: c.col + 1, row: c.row })
        } else {
            None
        },
    }
}

/// A successful step lands on a distinct, in-bounds cell adjacent to the
/// one it left.
pub proof fn lemma_step_cell_props(c: Cell, d: Direction, w: u32, h: u32)
    requires
        in_bounds(c, w, h),
    ensures
        spec_step_cell(c, d, w, h) matches Some(nh) ==> adjacent(c, nh) && in_bounds(nh, w, h)
            && nh != c,
{
}

/// Every cell of the free-cell enumeration lies inside the grid and off
/// the body.
pub proof fn lemma_free_cells_up_to_props(body: Seq<Cell>, w: u32, h: u32, n: nat)
    requires
        0 < w,
        n <= (w as int) * (h as int),
    ensures
        forall|k: int|
            0 <= k < free_cells_up_to(body, w, n).len()
                ==> !body.contains(#[trigger] free_cells_up_to(body, w, n)[k])
                && in_bounds(free_cells_up_to(body, w, n)[k], w, h),
    decreases n,
{
    if n > 0 {
        lemma_free_cells_up_to_props(body, w, h, (n - 1) as nat);
        let c = cell_of_index(w, n - 1);
        assert((n - 1) % (w as int) < (w as int)) by (nonlinear_arith)
            requires
                0 < w,
                1 <= n,
        ;
        assert((n - 1) / (w as int) < (h as int)) by (nonlinear_arith)
            requires
                0 < w,
                1 <= n,
                n <= (w as int) * (h as int),
        ;
        assert(in_bounds(c, w, h));
        let fp = free_cells_up_to(body, w, (n - 1) as nat);
        let fn_ = free_cells_up_to(body, w, n);
        assert forall|k: int|
            0 <= k < fn_.len() implies !body.contains(#[trigger] fn_[k]) && in_bounds(
            fn_[k],
            w,
            h,
        ) by {
            if k < fp.len() {
                assert(fn_[k] == fp[k]);
                assert(!body.contains(fp[k]) && in_bounds(fp[k], w, h));
            } else {
                assert(fn_[k] == c);
            }
        }
    }
}

/// Food placed by [`free_cells`] lies inside the grid and off the body.
pub proof fn lemma_free_cells_props(body: Seq<Cell>, w: u32, h: u32)
    requires
        0 < w <= MAX_SIDE,
        0 < h <= MAX_SIDE,
    ensures
        forall|k: int|
            0 <= k < free_cells(body, w, h).len()
                ==> !body.contains(#[trigger] free_cells(body, w, h)[k])
                && in_bounds(free_cells(body, w, h)[k], w, h),
{
    lemma_free_cells_up_to_props(body, w, h, ((w as int) * (h as int)) as nat);
}

/// A direction request keeps the state well-formed: an accepted request
/// only replaces the pending heading with one that is no direct reversal,
/// and a rejected one changes nothing.
pub proof fn lemma_change_direction_preserves_wf(v: GameView, d: Direction)
    requires
        v.wf(),
    ensures
        spec_change_direction(v, d).wf(),
{
}

/// One tick keeps the state well-formed: in every reachable state the
/// body cells stay distinct, in bounds, and consecutively grid-adjacent,
/// and the food stays off the body until the game is won.
pub proof fn lemma_update_preserves_wf(v: GameView)
    requires
        v.wf(),
    ensures
        spec_update(v).wf(),
{
    if v.status == Status::Alive {
        let dir = v.pending;
        let head = v.body[0];
        lemma_opposite_involutive(dir);
        lemma_step_cell_props(head, dir, v.width, v.height);
        match spec_step_cell(head, dir, v.width, v.height) {
            None => {},
            Some(nh) => {
                if nh == v.food {
                    let grown = seq![nh] + v.body;
                    assert(grown.len() == v.body.len() + 1);
                    assert(grown[0] == nh);
                    assert(forall|i: int| 1 <= i < grown.len() ==> grown[i] == v.body[i - 1]);
                    assert(forall|i: int|
                        0 <= i < grown.len() ==> in_bounds(
                            #[trigger] grown[i],
                            v.width,
                            v.height,
                        ));
                    assert(forall|i: int|
                        0 <= i < grown.len() - 1 ==> adjacent(
                            #[trigger] grown[i],
                            grown[i + 1],
                        ));
                    assert(forall|i: int, j: int|
                        0 <= i < j < grown.len() ==> grown[i] != grown[j]);
                    let free = free_cells(grown, v.width, v.height);
                    if free.len() > 0 {
                        lemma_free_cells_props(grown, v.width, v.height);
                        let r = next_rng(v.rng);
                        let idx = (r as int) % (free.len() as int);
                        assert(0 <= idx < free.len()) by (nonlinear_arith)
                            requires
                                free.len() > 0,
                                0 <= r,
                                idx == (r as int) % (free.len() as int),
                        ;
                        let nf = free[idx];
                        assert(!grown.contains(nf));
                        assert forall|i: int| 0 <= i < grown.len() implies #[trigger] grown[i]
                            != nf by {
                            if grown[i] == nf {
                                assert(grown.contains(nf));
                            }
                        }
                    }
                } else {
                    let trimmed = v.body.take(v.body.len() - 1);
                    assert(forall|i: int| 0 <= i < trimmed.len() ==> trimmed[i] == v.body[i]);
                    if !trimmed.contains(nh) {
                        let moved = seq![nh] + trimmed;
                        assert(moved[0] == nh);
                        assert(forall|i: int| 1 <= i < moved.len() ==> moved[i] == v.body[i - 1]);
                        assert(forall|i: int|
                            0 <= i < moved.len() ==> in_bounds(
                                #[trigger] moved[i],
                                v.width,
                                v.height,
                            ));
                        assert(forall|i: int|
                            0 <= i < moved.len() - 1 ==> adjacent(
                                #[trigger] moved[i],
                                moved[i + 1],
                            ));
                        assert forall|i: int, j: int|
                            0 <= i < j < moved.len() implies moved[i] != moved[j] by {
                            if i == 0 {
                                if moved[j] == nh {
                                    assert(trimmed[j - 1] == nh);
                                    assert(trimmed.contains(nh));
                                }
                            }
                        }
                        assert forall|i: int| 0 <= i < moved.len() implies #[trigger] moved[i]
                            != v.food by {
                        }
                    }
                }
            },
        }
    }
}

/// The initial state: a one-cell body at the grid's center, heading
/// `Right`, and food drawn by the generator from the free cells. On a
/// grid with no free cell left the game is won on the spot.
pub open spec fn spec_new(width: u32, height: u32, seed: u32) -> GameView {
    let start = Cell { col: (width / 2) as u32, row: (height / 2) as u32 };
    let body = seq![start];
    let free = free_cells(body, width, height);
    if free.len() == 0 {
        GameView {
            body: body,
            heading: Direction::Right,
            pending: Direction::Right,
            food: start,
            width: width,
            height: height,
            status: Status::Won,
            rng: seed,
        }
    } else {
        let r = next_rng(seed);
        GameView {
            body: body,
            heading: Direction::Right,
            pending: Direction::Right,
            food: free[(r as int) % (free.len() as int)],
            width: width,
            height: height,
            status: Status::Alive,
            rng: r,
        }
    }
}

/// The initial state is well-formed.
pub proof fn lemma_new_wf(width: u32, height: u32, seed: u32)
    requires
        0 < width <= MAX_SIDE,
        0 < height <= MAX_SIDE,
    ensures
        spec_new(width, height, seed).wf(),
{
    let start = Cell { col: (width / 2) as u32, row: (height / 2) as u32 };
    assert((width as int) / 2 < width as int);
    assert((height as int) / 2 < height as int);
    let body = seq![start];
    let free = free_cells(body, width, height);
    if free.len() > 0 {
        lemma_free_cells_props(body, width, height);
        let r = next_rng(seed);
        let idx = (r as int) % (free.len() as int);
        assert(0 <= idx < free.len()) by (nonlinear_arith)
            requires
                free.len() > 0,
                0 <= r,
                idx == (r as int) % (free.len() as int),
        ;
        let nf = free[idx];
        assert forall|i: int| 0 <= i < body.len() implies #[trigger] body[i] != nf by {
            if body[i] == nf {
                assert(body.contains(nf));
            }
        }
    }
}

impl GameGrid {
    /// A fresh game on a `width` by `height` grid, seeded for food
    /// placement. The snake starts as a single cell at the grid's center,
    /// heading `Right`, with food on a free cell drawn from the seed.
    pub fn new(width: u32, height: u32, seed: u32) -> (g: GameGrid)
        requires
            0 < width <= MAX_SIDE,
            0 < height <= MAX_SIDE,
        ensures
            g@ == spec_new(width, height, seed),
            g@.wf(),
    {
        proof {
            lemma_new_wf(width, height, seed);
        }
        let start = Cell { col: width / 2, row: height / 2 };
        let mut body: Vec<Cell> = Vec::new();
        body.push(start);
        proof {
            assert(body@ =~= seq![start]);
        }
        let free = compute_free_cells(&body, width, height);
        if free.len() == 0 {
            let g = GameGrid {
                body: body,
                heading: Direction::Right,
                pending: Direction::Right,
                food: start,
                width: width,
                height: height,
                status: Status::Won,
                rng: seed,
            };
            proof {
                assert(g@ =~= spec_new(width, height, seed));
            }
            g
        } else {
            let r = step_rng(seed);
            let idx: usize = (r as usize) % free.len();
            let g = GameGrid {
                body: body,
                heading: Direction::Right,
                pending: Direction::Right,
                food: free[idx],
                width: width,
                height: height,
                status: Status::Alive,
                rng: r,
            };
            proof {
                assert(g@ =~= spec_new(width, height, seed));
            }
            g
        }
    }

    /// Requests a heading for the next tick. The request is silently
    /// ignored when the game is over or when it would directly reverse
    /// the committed heading; otherwise it replaces any earlier pending
    /// request, and takes effect only at the next [`GameGrid::update`].
    pub fn change_direction(&mut self, d: Direction)
        requires
            old(self)@.wf(),
        ensures
            final(self)@ == spec_change_direction(old(self)@, d),
            final(self)@.wf(),
    {
        proof {
            lemma_change_direction_preserves_wf(old(self)@, d);
        }
        if self.status == Status::Alive && d != self.heading.opposite() {
            self.pending = d;
        }
    }

    /// Advances the game by one tick, as [`spec_update`] describes: a
    /// no-op on a terminal state; otherwise the pending heading is
    /// committed and the head takes one step, which moves, grows, wins,
    /// or kills the snake.
    pub fn update(&mut self)
        requires
            old(self)@.wf(),
        ensures
            final(self)@ == spec_update(old(self)@),
            final(self)@.wf(),
    {
        proof {
            lemma_update_preserves_wf(old(self)@);
        }
        if self.status != Status::Alive {
            return ;
        }
        self.heading = self.pending;
        let head = self.body[0];
        let next = step_cell(head, self.heading, self.width, self.height);
        match next {
            None => {
                self.status = Status::Dead;
            },
            Some(nh) => {
                if nh == self.food {
                    self.body.insert(0, nh);
                    proof {
                        assert(self.body@ =~= seq![nh] + old(self)@.body);
                    }
                    let free = compute_free_cells(&self.body, self.width, self.height);
                    if free.len() == 0 {
                        self.status = Status::Won;
                    } else {
                        let r = step_rng(self.rng);
                        self.rng = r;
                        let idx: usize = (r as usize) % free.len();
                        self.food = free[idx];
                    }
                } else {
                    let upto = self.body.len() - 1;
                    if prefix_contains(&self.body, upto, nh) {
                        self.status = Status::Dead;
                    } else {
                        self.body.insert(0, nh);
                        self.body.pop();
                        proof {
                            assert(self.body@ =~= seq![nh] + old(self)@.body.take(
                                old(self)@.body.len() - 1,
                            ));
                        }
                    }
                }
            },
        }
        proof {
            assert(self@ =~= spec_update(old(self)@));
        }
    }
}

impl GameGrid {
    /// The logical grid width, in cells.
    pub fn width(&self) -> (r: u32)
        ensures
            r == self@.width,
    {
        self.width
    }

    /// The logical grid height, in cells.
    pub fn height(&self) -> (r: u32)
        ensures
            r == self@.height,
    {
        self.height
    }

    /// The heading the snake is committed to for the current tick.
    pub fn heading(&self) -> (r: Direction)
        ensures
            r == self@.heading,
    {
        self.heading
    }

    /// The requested heading that the next tick will commit.
    pub fn pending_heading(&self) -> (r: Direction)
        ensures
            r == self@.pending,
    {
        self.pending
    }

    /// The current food cell.
    pub fn food(&self) -> (r: Cell)
        ensures
            r == self@.food,
    {
        self.food
    }

    /// The lifecycle status.
    pub fn status(&self) -> (r: Status)
        ensures
            r == self@.status,
    {
        self.status
    }

    /// Whether the game is still running.
    pub fn is_alive(&self) -> (r: bool)
        ensures
            r == (self@.status == Status::Alive),
    {
        self.status == Status::Alive
    }

    /// Whether the body filled the whole grid.
    pub fn is_won(&self) -> (r: bool)
        ensures
            r == (self@.status == Status::Won),
    {
        self.status == Status::Won
    }

    /// The number of body cells.
    pub fn body_len(&self) -> (r: usize)
        ensures
            r == self@.body.len(),
    {
        self.body.len()
    }

    /// The `i`-th body cell, head first.
    pub fn body_cell(&self, i: usize) -> (r: Cell)
        requires
            i < self@.body.len(),
        ensures
            r == self@.body[i as int],
    {
        self.body[i]
    }

    /// The head cell.
    pub fn head(&self) -> (r: Cell)
        requires
            self@.body.len() >= 1,
        ensures
            r == self@.body[0],
    {
        self.body[0]
    }
}

/// The state that [`GameGrid::from_parts`] builds from explicit parts:
/// the given body, headings, food, dimensions, and generator state, with
/// the game running.
pub open spec fn assembled_view(
    body: Seq<Cell>,
    heading: Direction,
    pending: Direction,
    food: Cell,
    width: u32,
    height: u32,
    rng: u32,
) -> GameView {
    GameView {
        body: body,
        heading: heading,
        pending: pending,
        food: food,
        width: width,
        height: height,
        status: Status::Alive,
        rng: rng,
    }
}

/// Checks whether two cells are grid-adjacent.
fn cells_adjacent(a: Cell, b: Cell) -> (r: bool)
    requires
        a.col <= MAX_SIDE,
        a.row <= MAX_SIDE,
        b.col <= MAX_SIDE,
        b.row <= MAX_SIDE,
    ensures
        r == adjacent(a, b),
{
    (a.col == b.col && (a.row + 1 == b.row || b.row + 1 == a.row)) || (a.row == b.row && (a.col + 1
        == b.col || b.col + 1 == a.col))
}

impl GameGrid {
    /// A running game assembled from explicit parts, or `None` when the
    /// parts do not form a well-formed state: this validates the grid
    /// dimensions, the body's shape, the food placement, and the pending
    /// heading, exactly as [`GameView::wf`] demands.
    pub fn from_parts(
        body: Vec<Cell>,
        heading: Direction,
        pending: Direction,
        food: Cell,
        width: u32,
        height: u32,
        rng: u32,
    ) -> (r: Option<GameGrid>)
        ensures
            (r matches Some(g) ==> g@ == assembled_view(
                body@,
                heading,
                pending,
                food,
                width,
                height,
                rng,
            ) && g@.wf()),
            r is Some <==> assembled_view(body@, heading, pending, food, width, height, rng).wf(),
    {
        let ghost v = assembled_view(body@, heading, pending, food, width, height, rng);
        if width == 0 || width > MAX_SIDE || height == 0 || height > MAX_SIDE {
            return None;
        }
        if body.len() == 0 {
            return None;
        }
        if food.col >= width || food.row >= height {
            return None;
        }
        if pending == heading.opposite() {
            return None;
        }
        let n = body.len();
        let mut i: usize = 0;
        while i < n
            invariant
                n == body@.len(),
                i <= n,
                width <= MAX_SIDE,
                height <= MAX_SIDE,
                forall|k: int| 0 <= k < i ==> in_bounds(#[trigger] body@[k], width, height),
            decreases n - i,
        {
            if body[i].col >= width || body[i].row >= height {
                return None;
            }
            i += 1;
        }
        i = 0;
        while i < n - 1
            invariant
                n == body@.len(),
                1 <= n,
                i <= n,
                width <= MAX_SIDE,
                height <= MAX_SIDE,
                forall|k: int| 0 <= k < body@.len() ==> in_bounds(#[trigger] body@[k], width, height),
                forall|k: int| 0 <= k < i ==> adjacent(#[trigger] body@[k], body@[k + 1]),
            decreases n - i,
        {
            if !cells_adjacent(body[i], body[i + 1]) {
                return None;
            }
            i += 1;
        }
        i = 0;
        while i < n
            invariant
                n == body@.len(),
                i <= n,
                forall|k: int, l: int| 0 <= k < l < body@.len() && k < i ==> body@[k] != body@[l],
            decreases n - i,
        {
            let mut j: usize = i + 1;
            while j < n
                invariant
                    n == body@.len(),
                    i < j || i + 1 == j,
                    i < n,
                    j <= n,
                    i + 1 <= j,
                    forall|l: int| i < l < j ==> body@[i as int] != body@[l],
                decreases n - j,
            {
                if body[i] == body[j] {
                    return None;
                }
                j += 1;
            }
            i += 1;
        }
        if body_contains(&body, food) {
            return None;
        }
        let g = GameGrid {
            body: body,
            heading: heading,
            pending: pending,
            food: food,
            width: width,
            height: height,
            status: Status::Alive,
            rng: rng,
        };
        proof {
            assert forall|k: int| 0 <= k < g@.body.len() implies #[trigger] g@.body[k]
                != g@.food by {
                if g@.body[k] == g@.food {
                    assert(g@.body.contains(g@.food));
                }
            }
            assert(g@ =~= v);
        }
        Some(g)
    }
}

/// Reversal protection: a request for the direct reversal of the
/// committed heading is ignored, a tick commits exactly the pending
/// heading, that heading is never the reversal of the one it replaces,
/// and after a tick the pending heading matches the committed one until
/// the next accepted request.
pub proof fn lemma_no_reversal(v: GameView)
    requires
        v.wf(),
        v.status == Status::Alive,
    ensures
        spec_change_direction(v, v.heading.opposite_spec()) == v,
        spec_update(v).heading == v.pending,
        spec_update(v).heading != v.heading.opposite_spec(),
        spec_update(v).pending == spec_update(v).heading,
{
}

/// Growth: a tick that lands the head on the food lengthens the body by
/// exactly one cell; a tick that does not leaves the length unchanged,
/// and a wall collision leaves the body itself unchanged. Either way the
/// committed heading is exactly the pending one.
pub proof fn lemma_growth(v: GameView)
    requires
        v.wf(),
        v.status == Status::Alive,
    ensures
        spec_step_cell(v.body[0], v.pending, v.width, v.height) matches Some(nh) ==> {
            &&& (nh == v.food ==> spec_update(v).body.len() == v.body.len() + 1)
            &&& (nh != v.food ==> spec_update(v).body.len() == v.body.len())
        },
        spec_step_cell(v.body[0], v.pending, v.width, v.height) is None ==> spec_update(v).body
            == v.body,
        spec_update(v).heading == v.pending,
{
}

/// Terminal states are frozen: once the game is over, further ticks and
/// direction requests change nothing at all.
pub proof fn lemma_terminal_frozen(v: GameView, d: Direction)
    requires
        v.status != Status::Alive,
    ensures
        spec_update(v) == v,
        spec_change_direction(v, d) == v,
{
}

/// Food never lies on the body: not in any well-formed state that is not
/// won, and in particular not after any tick from such a state, however
/// the tick relocated it.
pub proof fn lemma_food_off_body(v: GameView)
    requires
        v.wf(),
    ensures
        v.status != Status::Won ==> (forall|i: int|
            0 <= i < v.body.len() ==> #[trigger] v.body[i] != v.food),
        spec_update(v).status != Status::Won ==> (forall|i: int|
            0 <= i < spec_update(v).body.len() ==> #[trigger] spec_update(v).body[i] != spec_update(
                v,
            ).food),
{
    lemma_update_preserves_wf(v);
}

/// Body shape: in every well-formed state — the constructors establish
/// well-formedness and both mutators preserve it — consecutive body cells
/// are grid-adjacent, and no cell appears twice in the body.
pub proof fn lemma_body_shape(v: GameView)
    requires
        v.wf(),
    ensures
        forall|i: int|
            0 <= i < v.body.len() - 1 ==> adjacent(#[trigger] v.body[i], v.body[i + 1]),
        forall|i: int, j: int| 0 <= i < j < v.body.len() ==> v.body[i] != v.body[j],
{
}

} // verus!
