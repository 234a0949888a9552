//! One coordinate of a reference: a 1-based position along an axis, or the
//! mark that the reference runs on to the edge of the sheet.

use vstd::prelude::*;

verus! {

/// The coordinate that stands for "no bound on this side".
pub const UNBOUNDED: i64 = i64::MAX;

/// A column or a row of a reference.
///
/// `coord` is the 1-based position, or [`UNBOUNDED`]. `is_absolute` is the
/// `$` of the notation; an unbounded coordinate carries none.
#[derive(Clone, Copy, Debug, PartialEq, Eq, Hash, Structural)]
pub struct CellRefCoord {
    pub coord: i64,
    pub is_absolute: bool,
}

impl CellRefCoord {
    /// The first position of an axis, relative.
    pub open spec fn spec_start() -> CellRefCoord {
        CellRefCoord { coord: 1, is_absolute: false }
    }

    /// The coordinate that puts no bound on its side.
    pub open spec fn spec_unbounded() -> CellRefCoord {
        CellRefCoord { coord: UNBOUNDED, is_absolute: false }
    }

    /// The first position of an axis, relative.
    #[verifier::when_used_as_spec(spec_start)]
    pub fn start() -> (c: CellRefCoord)
        ensures
            c == Self::spec_start(),
    {
        CellRefCoord { coord: 1, is_absolute: false }
    }

    /// The coordinate that puts no bound on its side.
    #[verifier::when_used_as_spec(spec_unbounded)]
    pub fn unbounded() -> (c: CellRefCoord)
        ensures
            c == Self::spec_unbounded(),
    {
        CellRefCoord { coord: UNBOUNDED, is_absolute: false }
    }

    /// The coordinate is a position from 1 up, or is unbounded and carries no
    /// `$`.
    pub open spec fn wf(self) -> bool {
        &&& 1 <= self.coord
        &&& self.coord == UNBOUNDED ==> !self.is_absolute
    }

    /// The coordinate puts no bound on its side.
    pub open spec fn spec_is_unbounded(&self) -> bool {
        self.coord == UNBOUNDED
    }

    /// The position that the coordinate names, if it names one.
    pub open spec fn bound(self) -> Option<int> {
        if self.is_unbounded() {
            None
        } else {
            Some(self.coord as int)
        }
    }

    /// The coordinate moved by `delta`: an unbounded one stays as it is, a
    /// bounded one keeps its `$` and moves, unless it would leave the
    /// positions from 1 up to the last one below [`UNBOUNDED`].
    pub open spec fn shifted(self, delta: int) -> Option<CellRefCoord> {
        if self.is_unbounded() {
            Some(self)
        } else if 1 <= self.coord + delta < UNBOUNDED {
            Some(CellRefCoord { coord: (self.coord + delta) as i64, is_absolute: self.is_absolute })
        } else {
            None
        }
    }

    /// A relative coordinate at `coord`.
    pub fn new_rel(coord: i64) -> (c: CellRefCoord)
        ensures
            c == (CellRefCoord { coord, is_absolute: false }),
    {
        CellRefCoord { coord, is_absolute: false }
    }

    /// An absolute coordinate at `coord`.
    pub fn new_abs(coord: i64) -> (c: CellRefCoord)
        ensures
            c == (CellRefCoord { coord, is_absolute: true }),
    {
        CellRefCoord { coord, is_absolute: true }
    }

    /// Whether the coordinate puts no bound on its side.
    #[verifier::when_used_as_spec(spec_is_unbounded)]
    pub fn is_unbounded(&self) -> (r: bool)
        ensures
            r == self.spec_is_unbounded(),
    {
        self.coord == UNBOUNDED
    }

    /// Whether the coordinate is well formed.
    pub fn is_valid(&self) -> (r: bool)
        ensures
            r == self.wf(),
    {
        1 <= self.coord && !(self.coord == UNBOUNDED && self.is_absolute)
    }

    /// Moves the coordinate by `delta`; `None` where a bounded coordinate
    /// would leave the sheet.
    pub fn translate(&self, delta: i64) -> (r: Option<CellRefCoord>)
        ensures
            r == self.shifted(delta as int),
    {
        if self.coord == UNBOUNDED {
            Some(*self)
        } else {
            match self.coord.checked_add(delta) {
                Some(moved) => {
                    if 1 <= moved && moved < UNBOUNDED {
                        Some(CellRefCoord { coord: moved, is_absolute: self.is_absolute })
                    } else {
                        None
                    }
                },
                None => None,
            }
        }
    }
}

} // verus!
