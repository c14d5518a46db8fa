//! The mathematical model of a game: the ring of cells, the stables and the
//! stairways, with the moves of the game as functions from state to state.

use vstd::prelude::*;
use crate::cell::Cell;

verus! {

/// The state of a game as plain mathematical values.
#[verifier::ext_equal]
pub struct Board {
    /// The occupant of each cell of the ring, by index.
    pub track: Seq<Cell>,
    /// For each color, by rank, the number of horses that wait in its stable.
    pub stables: Seq<nat>,
    /// For each color, by rank, which slots of its stairway are occupied.
    pub stairs: Seq<Seq<bool>>,
}

impl Board {
    /// How many slots each stairway has.
    pub open spec fn stairway_length(self) -> nat {
        if self.stairs.len() > 0 {
            self.stairs[0].len()
        } else {
            0
        }
    }

    /// Whether a cell content is a color that takes part in this game.
    pub open spec fn plays(self, color: Cell) -> bool {
        color.rank() < self.stables.len()
    }

    /// The shape every game has: between one and four colors, a ring that the
    /// colors divide evenly, one stairway per color, all of one length, and
    /// no horse on the track but of a color that plays.
    pub open spec fn wf(self) -> bool {
        &&& 1 <= self.stables.len() <= 4
        &&& self.track.len() >= 1
        &&& self.track.len() % self.stables.len() == 0
        &&& self.stairs.len() == self.stables.len()
        &&& forall|r: int|
            0 <= r < self.stairs.len() ==> (#[trigger] self.stairs[r]).len() == self.stairs[0].len()
        &&& forall|i: int|
            0 <= i < self.track.len() ==> (#[trigger] self.track[i]) == Cell::EMPTY || self.plays(
                self.track[i],
            )
    }

    /// The game before any horse has left its stable.
    pub open spec fn fresh(
        track_length: nat,
        start_horses: nat,
        colors: nat,
        stairway_length: nat,
    ) -> Board {
        Board {
            track: Seq::new(track_length, |i: int| Cell::EMPTY),
            stables: Seq::new(colors, |r: int| start_horses),
            stairs: Seq::new(colors, |r: int| Seq::new(stairway_length, |s: int| false)),
        }
    }

    /// The distance on the ring between the start cells of two neighbouring colors.
    pub open spec fn stride(self) -> int {
        self.track.len() as int / self.stables.len() as int
    }

    /// The cell on which the horses of a color enter the track.
    pub open spec fn start_index(self, color: Cell) -> int {
        self.stride() * color.rank()
    }

    /// The cell from which the horses of a color climb their stairway: the
    /// last cell of the ring for the first color, the cell just before its
    /// start cell for every other.
    pub open spec fn stair_entry(self, color: Cell) -> int {
        if color.rank() == 0 {
            self.track.len() - 1
        } else {
            self.stride() * color.rank() - 1
        }
    }

    /// The game after the occupant of a cell, if there is one, has been sent
    /// back to its stable.
    pub open spec fn kick(self, index: int) -> Board {
        let occupant = self.track[index];
        if occupant == Cell::EMPTY {
            self
        } else {
            Board {
                track: self.track.update(index, Cell::EMPTY),
                stables: self.stables.update(
                    occupant.rank() as int,
                    self.stables[occupant.rank() as int] + 1,
                ),
                stairs: self.stairs,
            }
        }
    }

    /// The game after a horse of a color has left its stable for its start
    /// cell, whose former occupant, if any, was kicked first.
    pub open spec fn place(self, color: Cell) -> Board {
        let start = self.start_index(color);
        let cleared = self.kick(start);
        Board {
            track: cleared.track.update(start, color),
            stables: cleared.stables.update(
                color.rank() as int,
                (cleared.stables[color.rank() as int] - 1) as nat,
            ),
            stairs: cleared.stairs,
        }
    }

    /// Whether a horse of a color that stands on `index` and advances by
    /// `distance` would pass its stairway entry.
    pub open spec fn crosses_entry(self, color: Cell, index: int, distance: int) -> bool {
        index < self.stair_entry(color) < index + distance
    }

    /// The cell that a horse on `index`, away from its stairway entry,
    /// reaches by advancing by `distance`: turned back at the entry where it
    /// would pass it, and else as far along the ring.
    pub open spec fn destination(self, index: int, distance: int) -> int {
        let color = self.track[index];
        if self.crosses_entry(color, index, distance) {
            2 * self.stair_entry(color) - (index + distance)
        } else {
            (index + distance) % (self.track.len() as int)
        }
    }

    /// The game after the horse on `index`, if there is one, has advanced by
    /// `distance`.
    ///
    /// A horse on its stairway entry climbs to the slot numbered `distance`.
    /// Any other horse goes to its `destination`, from which a horse of
    /// another color is kicked first. The cell it came from is empty afterwards.
    pub open spec fn advance(self, index: int, distance: int) -> Board {
        let color = self.track[index];
        if color == Cell::EMPTY {
            self
        } else if index == self.stair_entry(color) {
            Board {
                track: self.track.update(index, Cell::EMPTY),
                stables: self.stables,
                stairs: self.stairs.update(
                    color.rank() as int,
                    self.stairs[color.rank() as int].update(distance - 1, true),
                ),
            }
        } else {
            let target = self.destination(index, distance);
            let cleared = if self.track[target] == color {
                self
            } else {
                self.kick(target)
            };
            Board {
                track: cleared.track.update(target, color).update(index, Cell::EMPTY),
                stables: cleared.stables,
                stairs: cleared.stairs,
            }
        }
    }

    /// The game after each of the first `count` colors, in the order of their
    /// ranks, has placed one horse.
    pub open spec fn lined_up(self, count: nat) -> Board
        decreases count,
    {
        if count == 0 {
            self
        } else {
            self.lined_up((count - 1) as nat).place(Cell::of_rank((count - 1) as nat))
        }
    }

    /// On which cells `kick` can be asked for: those of the track whose
    /// occupant's stable count can still grow by one within a machine word.
    pub open spec fn can_kick(self, index: int) -> bool {
        &&& 0 <= index < self.track.len()
        &&& self.track[index] != Cell::EMPTY ==> self.stables[self.track[index].rank() as int]
            < usize::MAX
    }

    /// For which colors `place` can be asked for: those that play, whose
    /// start cell can be cleared, and that have a horse left in the stable
    /// once it has been.
    pub open spec fn can_place(self, color: Cell) -> bool {
        &&& self.plays(color)
        &&& self.can_kick(self.start_index(color))
        &&& self.kick(self.start_index(color)).stables[color.rank() as int] >= 1
    }

    /// Whether each of the first `count` colors can place a horse in turn.
    pub open spec fn can_line_up(self, count: nat) -> bool
        decreases count,
    {
        count == 0 || {
            &&& self.can_line_up((count - 1) as nat)
            &&& self.lined_up((count - 1) as nat).can_place(Cell::of_rank((count - 1) as nat))
        }
    }

    /// Which moves `advance` can be asked for. The cell is one of the track.
    /// If a horse stands on it, the distance is at least one; from the
    /// stairway entry it is no more than the stairway is long; a horse that
    /// is turned back at the entry is not thrown further back than cell 0;
    /// and a horse of another color on the destination can be kicked.
    pub open spec fn can_advance(self, index: int, distance: int) -> bool {
        let color = self.track[index];
        &&& 0 <= index < self.track.len()
        &&& color != Cell::EMPTY ==> {
            &&& distance >= 1
            &&& index == self.stair_entry(color) ==> distance <= self.stairway_length()
            &&& index != self.stair_entry(color) ==> {
                let target = self.destination(index, distance);
                &&& target >= 0
                &&& self.track[target] != color ==> self.can_kick(target)
            }
        }
    }
}

/// The strides of the colors make up the ring; the start cell and the
/// stairway entry of a color that plays lie on the track, and the start cell
/// is the cell that follows the entry on the ring.
pub proof fn lemma_marks_on_track(board: Board, color: Cell)
    requires
        board.wf(),
        board.plays(color),
    ensures
        board.stride() >= 1,
        board.stride() * board.stables.len() == board.track.len(),
        0 <= board.start_index(color) < board.track.len(),
        0 <= board.stair_entry(color) < board.track.len(),
        board.start_index(color) == (board.stair_entry(color) + 1) % (board.track.len() as int),
{
    let n = board.stables.len() as int;
    let len = board.track.len() as int;
    let stride = board.stride();
    let rank = color.rank() as int;
    assert(stride * n == len && stride >= 1) by (nonlinear_arith)
        requires
            1 <= n <= 4,
            len >= 1,
            len % n == 0,
            stride == len / n,
    ;
    assert(0 <= stride * rank <= len - stride) by (nonlinear_arith)
        requires
            0 <= rank < n,
            stride >= 1,
            stride * n == len,
    ;
    if rank == 0 {
        assert(stride * rank == 0) by (nonlinear_arith)
            requires
                rank == 0,
        ;
        assert((len - 1 + 1) % len == 0) by {
            vstd::arithmetic::div_mod::lemma_mod_self_0(len);
        }
    } else {
        assert(stride * rank >= stride) by (nonlinear_arith)
            requires
                rank >= 1,
                stride >= 1,
        ;
        assert((stride * rank - 1 + 1) % len == stride * rank) by {
            vstd::arithmetic::div_mod::lemma_small_mod((stride * rank) as nat, len as nat);
        }
    }
}

/// Colors that can line up can do so one after the other: what holds of
/// the first `count` of them holds of any fewer.
pub proof fn lemma_line_up_prefix(board: Board, fewer: nat, count: nat)
    requires
        board.can_line_up(count),
        fewer <= count,
    ensures
        board.can_line_up(fewer),
    decreases count,
{
    if fewer < count {
        lemma_line_up_prefix(board, fewer, (count - 1) as nat);
    }
}

} // verus!
