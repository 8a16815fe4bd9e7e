//! The four headings a snake can travel in, and the reversal rule.

use vstd::prelude::*;

verus! {

/// One of the four axis-aligned headings on the grid.
///
/// `Up` decreases the row, `Down` increases it; `Left` decreases the
/// column, `Right` increases it (rows grow downward, as on a screen).
#[derive(Clone, Copy, Debug, PartialEq, Eq, Structural)]
pub enum Direction {
    Up,
    Down,
    Left,
    Right,
}

impl Direction {
    /// The direct reversal of a heading: `Up <-> Down`, `Left <-> Right`.
    pub open spec fn opposite_spec(self) -> Direction {
        match self {
            Direction::Up => Direction::Down,
            Direction::Down => Direction::Up,
            Direction::Left => Direction::Right,
            Direction::Right => Direction::Left,
        }
    }

    /// The direct reversal of a heading, used to reject 180-degree turns.
    #[verifier::when_used_as_spec(opposite_spec)]
    pub fn opposite(self) -> (r: Direction)
        ensures
            r == self.opposite_spec(),
    {
        match self {
            Direction::Up => Direction::Down,
            Direction::Down => Direction::Up,
            Direction::Left => Direction::Right,
            Direction::Right => Direction::Left,
        }
    }
}

/// `opposite` is total and involutive, and never maps a heading to itself.
pub proof fn lemma_opposite_involutive(d: Direction)
    ensures
        d.opposite_spec().opposite_spec() == d,
        d.opposite_spec() != d,
{
}

} // verus!
