//! The colors of the game and the content of a track cell.

use vstd::prelude::*;

verus! {

/// What a track cell holds: a horse of one of the four colors, or nothing.
///
/// The four colors are ranked in the order in which they are declared; a
/// color's rank decides where its horses enter the track and where they
/// leave it for their stairway.
#[allow(non_camel_case_types)]
#[derive(Debug, Copy, Clone, PartialEq, Eq, Structural)]
pub enum Cell {
    RED,
    YELLOW,
    GREEN,
    BLUE,
    EMPTY,
}

impl Cell {
    /// The rank of a color, counted from zero; `EMPTY` comes after every color.
    pub open spec fn rank(self) -> nat {
        match self {
            Cell::RED => 0,
            Cell::YELLOW => 1,
            Cell::GREEN => 2,
            Cell::BLUE => 3,
            Cell::EMPTY => 4,
        }
    }

    /// Whether this is one of the four colors rather than the empty marker.
    pub open spec fn is_color(self) -> bool {
        self != Cell::EMPTY
    }

    /// The rank as a machine integer, fit to index a per-color table.
    pub fn index(self) -> (r: usize)
        ensures
            r == self.rank(),
    {
        match self {
            Cell::RED => 0,
            Cell::YELLOW => 1,
            Cell::GREEN => 2,
            Cell::BLUE => 3,
            Cell::EMPTY => 4,
        }
    }

    /// The color of a given rank; any rank past the last color gives `EMPTY`.
    pub open spec fn of_rank(rank: nat) -> Cell {
        if rank == 0 {
            Cell::RED
        } else if rank == 1 {
            Cell::YELLOW
        } else if rank == 2 {
            Cell::GREEN
        } else if rank == 3 {
            Cell::BLUE
        } else {
            Cell::EMPTY
        }
    }

    /// The color of a given rank; any rank past the last color gives `EMPTY`.
    pub fn from_rank(rank: usize) -> (c: Cell)
        ensures
            c == Cell::of_rank(rank as nat),
    {
        if rank == 0 {
            Cell::RED
        } else if rank == 1 {
            Cell::YELLOW
        } else if rank == 2 {
            Cell::GREEN
        } else if rank == 3 {
            Cell::BLUE
        } else {
            Cell::EMPTY
        }
    }
}

} // verus!
