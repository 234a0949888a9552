//! Positions on a sheet and the identifiers of sheets.

use vstd::prelude::*;

verus! {

/// `uuid::Uuid`, taken as it comes: nothing here looks inside one.
#[verifier::external_type_specification]
#[verifier::external_body]
pub struct ExUuid(uuid::Uuid);

/// Identifier of a sheet. It is minted elsewhere; here it is only handed on.
#[derive(Clone, Copy, Debug, PartialEq, Eq, Hash)]
pub struct SheetId {
    pub id: uuid::Uuid,
}

/// A cell position: `x` is the column and `y` the row, both 1-based.
#[derive(Clone, Copy, Debug, PartialEq, Eq, Hash, Structural)]
pub struct Pos {
    pub x: i64,
    pub y: i64,
}

impl Pos {
    /// The position at column `x` and row `y`.
    pub fn new(x: i64, y: i64) -> (pos: Pos)
        ensures
            pos.x == x,
            pos.y == y,
    {
        Pos { x, y }
    }
}

/// A rectangle of cells, given by two of its corners, both of them inside.
#[derive(Clone, Copy, Debug, PartialEq, Eq, Hash, Structural)]
pub struct Rect {
    pub min: Pos,
    pub max: Pos,
}

impl Rect {
    /// The corners name positions of a sheet, `min` above and left of `max`
    /// or on it.
    pub open spec fn wf(self) -> bool {
        &&& 1 <= self.min.x <= self.max.x < i64::MAX
        &&& 1 <= self.min.y <= self.max.y < i64::MAX
    }

    /// The cell at column `x` and row `y` lies in the rectangle.
    pub open spec fn has(self, x: int, y: int) -> bool {
        &&& self.min.x <= x <= self.max.x
        &&& self.min.y <= y <= self.max.y
    }

    /// The rectangle from column `x0` and row `y0` to column `x1` and row
    /// `y1`.
    pub fn new(x0: i64, y0: i64, x1: i64, y1: i64) -> (rect: Rect)
        ensures
            rect.min == (Pos { x: x0, y: y0 }),
            rect.max == (Pos { x: x1, y: y1 }),
    {
        Rect { min: Pos { x: x0, y: y0 }, max: Pos { x: x1, y: y1 } }
    }

    /// Whether the rectangle is well formed.
    pub fn is_valid(&self) -> (r: bool)
        ensures
            r == self.wf(),
    {
        1 <= self.min.x && self.min.x <= self.max.x && self.max.x < i64::MAX && 1 <= self.min.y
            && self.min.y <= self.max.y && self.max.y < i64::MAX
    }

    /// Whether `pos` lies in the rectangle.
    pub fn contains(&self, pos: Pos) -> (r: bool)
        ensures
            r == self.has(pos.x as int, pos.y as int),
    {
        self.min.x <= pos.x && pos.x <= self.max.x && self.min.y <= pos.y && pos.y <= self.max.y
    }
}

} // verus!
