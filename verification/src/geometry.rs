//! Grid geometry: 2D integer coordinates, the four movement directions, and
//! snake body segments.

use vstd::prelude::*;

verus! {

/// One of the four movement directions on the grid.
#[derive(Clone, Copy, PartialEq, Eq, Structural, Debug)]
pub enum Direction {
    Up,
    Down,
    Left,
    Right,
}

impl Direction {
    /// The opposite direction: Up and Down form one pair, Left and Right the other.
    pub open spec fn opposite_spec(self) -> Direction {
        match self {
            Direction::Up => Direction::Down,
            Direction::Down => Direction::Up,
            Direction::Left => Direction::Right,
            Direction::Right => Direction::Left,
        }
    }

    pub fn opposite(&self) -> (r: Direction)
        ensures
            r == self.opposite_spec(),
    {
        match self {
            Direction::Up => Direction::Down,
            Direction::Down => Direction::Up,
            Direction::Left => Direction::Right,
            Direction::Right => Direction::Left,
        }
    }
}

/// Taking the opposite twice gives the direction back.
pub proof fn lemma_opposite_involutive(d: Direction)
    ensures
        d.opposite_spec().opposite_spec() == d,
{
}

/// A grid coordinate; `x` is horizontal, `y` vertical.  On a board the
/// playable cells are `1..=board.x` by `1..=board.y`; `0` and `board + 1` are
/// the out-of-bounds sentinel values the boundary check looks for.
#[derive(Clone, Copy, PartialEq, Eq, Structural, Debug)]
pub struct Vec2 {
    pub x: i64,
    pub y: i64,
}

impl Vec2 {
    /// The cell one step along `d`: Up decreases `y`, Down increases `y`,
    /// Left decreases `x`, Right increases `x`.
    pub open spec fn moved(self, d: Direction) -> Vec2 {
        match d {
            Direction::Up => Vec2 { x: self.x, y: (self.y - 1) as i64 },
            Direction::Down => Vec2 { x: self.x, y: (self.y + 1) as i64 },
            Direction::Left => Vec2 { x: (self.x - 1) as i64, y: self.y },
            Direction::Right => Vec2 { x: (self.x + 1) as i64, y: self.y },
        }
    }

    /// Translates the position by exactly one unit along `direction`.
    /// No bounds clamping: out-of-range results are valid intermediate states
    /// that the boundary check detects later.
    pub fn move_direction(&mut self, direction: Direction)
        requires
            i64::MIN < old(self).x < i64::MAX,
            i64::MIN < old(self).y < i64::MAX,
        ensures
            *final(self) == old(self).moved(direction),
    {
        match direction {
            Direction::Up => self.y = self.y - 1,
            Direction::Down => self.y = self.y + 1,
            Direction::Left => self.x = self.x - 1,
            Direction::Right => self.x = self.x + 1,
        }
    }
}

/// Moving one step and then one step the opposite way returns to the start,
/// as long as neither step can wrap the coordinate type.
pub proof fn lemma_moved_undo(p: Vec2, d: Direction)
    requires
        i64::MIN + 2 < p.x < i64::MAX - 2,
        i64::MIN + 2 < p.y < i64::MAX - 2,
    ensures
        p.moved(d).moved(d.opposite_spec()) == p,
        p.moved(d.opposite_spec()).moved(d) == p,
{
}

/// One segment of the snake: the cell it occupies, plus the direction it will
/// move on the next tick.  On a non-head segment that direction is one tick
/// behind the segment in front of it.
#[derive(Clone, Copy, PartialEq, Eq, Structural, Debug)]
pub struct SnakeBody {
    pub pos: Vec2,
    pub direction: Direction,
}

impl SnakeBody {
    /// The segment advanced one cell along its own stored direction.
    pub open spec fn moved(self) -> SnakeBody {
        SnakeBody { pos: self.pos.moved(self.direction), direction: self.direction }
    }

    /// Advances the segment one cell along its stored direction.
    pub fn move_square(&mut self)
        requires
            i64::MIN < old(self).pos.x < i64::MAX,
            i64::MIN < old(self).pos.y < i64::MAX,
        ensures
            *final(self) == old(self).moved(),
    {
        self.pos.move_direction(self.direction);
    }
}

} // verus!
