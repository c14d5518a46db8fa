//! The board engine: the one owner of a game's state, and its four operations.

use vstd::prelude::*;
use crate::board::{Board, lemma_line_up_prefix, lemma_marks_on_track};
use crate::cell::Cell;

verus! {

/// The number of cells of the ring in the standard game.
pub const NB_CELLS: usize = 56;

/// The number of horses that wait in each stable when the standard game begins.
pub const NB_START_HORSES: usize = 2;

/// The number of colors in the standard game.
pub const NB_MAX_PLAYERS: usize = 4;

/// The number of slots of each stairway in the standard game.
pub const NB_STAIRS: usize = 6;

/// A game in progress.
pub struct Game {
    board: Vec<Cell>,
    stables: Vec<usize>,
    stairs: Vec<Vec<bool>>,
}

impl View for Game {
    type V = Board;

    closed spec fn view(&self) -> Board {
        Board {
            track: self.board@,
            stables: Seq::new(self.stables@.len(), |r: int| self.stables@[r] as nat),
            stairs: Seq::new(self.stairs@.len(), |r: int| self.stairs@[r]@),
        }
    }
}

impl Clone for Game {
    /// A second game in the same state.
    fn clone(&self) -> (copy: Game)
        ensures
            copy@ == self@,
    {
        let mut board: Vec<Cell> = Vec::new();
        while board.len() < self.board.len()
            invariant
                board@.len() <= self.board@.len(),
                forall|i: int| 0 <= i < board@.len() ==> board@[i] == self.board@[i],
            decreases self.board@.len() - board@.len(),
        {
            board.push(self.board[board.len()]);
        }
        let mut stables: Vec<usize> = Vec::new();
        while stables.len() < self.stables.len()
            invariant
                stables@.len() <= self.stables@.len(),
                forall|r: int| 0 <= r < stables@.len() ==> stables@[r] == self.stables@[r],
            decreases self.stables@.len() - stables@.len(),
        {
            stables.push(self.stables[stables.len()]);
        }
        let mut stairs: Vec<Vec<bool>> = Vec::new();
        while stairs.len() < self.stairs.len()
            invariant
                stairs@.len() <= self.stairs@.len(),
                forall|r: int|
                    0 <= r < stairs@.len() ==> (#[trigger] stairs@[r])@ == self.stairs@[r]@,
            decreases self.stairs@.len() - stairs@.len(),
        {
            let from: &Vec<bool> = &self.stairs[stairs.len()];
            let mut row: Vec<bool> = Vec::new();
            while row.len() < from.len()
                invariant
                    row@.len() <= from@.len(),
                    forall|s: int| 0 <= s < row@.len() ==> row@[s] == from@[s],
                decreases from@.len() - row@.len(),
            {
                row.push(from[row.len()]);
            }
            stairs.push(row);
        }
        let copy = Game { board, stables, stairs };
        copy
    }
}

impl Game {
    /// Whether the game has the shape that every operation keeps.
    pub open spec fn wf(&self) -> bool {
        self@.wf()
    }

    /// The state of a game in the machine is never larger than machine words
    /// can count.
    pub proof fn lemma_fits_machine(&self)
        ensures
            self@.track.len() <= usize::MAX,
            self@.stables.len() <= usize::MAX,
            self@.stairway_length() <= usize::MAX,
            forall|r: int| 0 <= r < self@.stables.len() ==> self@.stables[r] <= usize::MAX,
    {
        assert(self.board@.len() == self.board.len());
        assert(self.stables@.len() == self.stables.len());
        if self.stairs@.len() > 0 {
            assert(self.stairs@[0]@.len() == self.stairs@[0].len());
        }
    }

    /// Whether `create` can be called with a track length and a number of
    /// colors.
    pub fn can_create(track_length: usize, colors: usize) -> (ok: bool)
        ensures
            ok == (1 <= colors <= 4 && track_length >= 1 && track_length % colors == 0),
    {
        1 <= colors && colors <= 4 && track_length >= 1 && track_length % colors == 0
    }

    /// A game of the given dimensions in which every cell and every stairway
    /// slot is empty and every stable holds `start_horses` horses.
    ///
    /// The colors that play are the first `colors` of the four, and the track
    /// has to divide evenly among them.
    pub fn create(
        track_length: usize,
        start_horses: usize,
        colors: usize,
        stairway_length: usize,
    ) -> (game: Game)
        requires
            1 <= colors <= 4,
            track_length >= 1,
            track_length % colors == 0,
        ensures
            game@ == Board::fresh(
                track_length as nat,
                start_horses as nat,
                colors as nat,
                stairway_length as nat,
            ),
            game.wf(),
    {
        let mut board: Vec<Cell> = Vec::new();
        while board.len() < track_length
            invariant
                board@.len() <= track_length,
                forall|i: int| 0 <= i < board@.len() ==> board@[i] == Cell::EMPTY,
            decreases track_length - board@.len(),
        {
            board.push(Cell::EMPTY);
        }
        let mut stables: Vec<usize> = Vec::new();
        let mut stairs: Vec<Vec<bool>> = Vec::new();
        while stables.len() < colors
            invariant
                stables@.len() == stairs@.len(),
                stables@.len() <= colors,
                forall|r: int| 0 <= r < stables@.len() ==> stables@[r] == start_horses,
                forall|r: int|
                    0 <= r < stairs@.len() ==> (#[trigger] stairs@[r])@ == Seq::new(
                        stairway_length as nat,
                        |s: int| false,
                    ),
            decreases colors - stables@.len(),
        {
            let mut row: Vec<bool> = Vec::new();
            while row.len() < stairway_length
                invariant
                    row@.len() <= stairway_length,
                    forall|s: int| 0 <= s < row@.len() ==> !row@[s],
                decreases stairway_length - row@.len(),
            {
                row.push(false);
            }
            stables.push(start_horses);
            stairs.push(row);
        }
        let game = Game { board, stables, stairs };
        assert(game@ =~~= Board::fresh(
            track_length as nat,
            start_horses as nat,
            colors as nat,
            stairway_length as nat,
        ));
        game
    }

    /// The standard game: a ring of 56 cells, four colors with two horses
    /// each, and stairways of six slots.
    pub fn new() -> (game: Game)
        ensures
            game@ == Board::fresh(
                NB_CELLS as nat,
                NB_START_HORSES as nat,
                NB_MAX_PLAYERS as nat,
                NB_STAIRS as nat,
            ),
            game.wf(),
    {
        Game::create(NB_CELLS, NB_START_HORSES, NB_MAX_PLAYERS, NB_STAIRS)
    }

    /// The number of cells of the ring.
    pub fn track_length(&self) -> (n: usize)
        ensures
            n == self@.track.len(),
    {
        self.board.len()
    }

    /// The number of colors that play.
    pub fn colors(&self) -> (n: usize)
        ensures
            n == self@.stables.len(),
    {
        self.stables.len()
    }

    /// The number of slots of each stairway.
    pub fn stairway_length(&self) -> (n: usize)
        requires
            self.wf(),
        ensures
            n == self@.stairway_length(),
    {
        self.stairs[0].len()
    }

    /// The occupant of a cell of the track.
    pub fn cell_at(&self, index: usize) -> (cell: Cell)
        requires
            index < self@.track.len(),
        ensures
            cell == self@.track[index as int],
    {
        self.board[index]
    }

    /// Whether no horse stands on a cell of the track.
    pub fn cell_is_empty(&self, index: usize) -> (empty: bool)
        requires
            index < self@.track.len(),
        ensures
            empty == (self@.track[index as int] == Cell::EMPTY),
    {
        self.board[index] == Cell::EMPTY
    }

    /// The number of horses that wait in the stable of a color.
    pub fn stable_count(&self, color: Cell) -> (count: usize)
        requires
            self@.plays(color),
        ensures
            count == self@.stables[color.rank() as int],
    {
        self.stables[color.index()]
    }

    /// Whether a slot of the stairway of a color is occupied.
    pub fn stair_slot(&self, color: Cell, slot: usize) -> (occupied: bool)
        requires
            self.wf(),
            self@.plays(color),
            slot < self@.stairway_length(),
        ensures
            occupied == self@.stairs[color.rank() as int][slot as int],
    {
        assert(self@.stairs[color.rank() as int].len() == self@.stairs[0].len());
        self.stairs[color.index()][slot]
    }

    /// The cells of the track, in order.
    pub fn board(&self) -> (cells: &Vec<Cell>)
        ensures
            cells@ == self@.track,
    {
        &self.board
    }

    /// The stable counts of the colors, in the order of the ranks.
    pub fn stables(&self) -> (counts: &Vec<usize>)
        ensures
            counts@.len() == self@.stables.len(),
            forall|r: int| 0 <= r < counts@.len() ==> counts@[r] == self@.stables[r],
    {
        &self.stables
    }

    /// The stairways of the colors, in the order of the ranks.
    pub fn stairs(&self) -> (rows: &Vec<Vec<bool>>)
        ensures
            rows@.len() == self@.stairs.len(),
            forall|r: int| 0 <= r < rows@.len() ==> (#[trigger] rows@[r])@ == self@.stairs[r],
    {
        &self.stairs
    }

    /// The cell on which the horses of a color enter the track.
    pub fn start_index(&self, color: Cell) -> (index: usize)
        requires
            self.wf(),
            self@.plays(color),
        ensures
            index == self@.start_index(color),
            index < self@.track.len(),
    {
        proof {
            lemma_marks_on_track(self@, color);
        }
        let stride: usize = self.board.len() / self.stables.len();
        let rank: usize = color.index();
        stride * rank
    }

    /// The cell from which the horses of a color climb their stairway.
    pub fn get_stair_index(&self, color: Cell) -> (index: usize)
        requires
            self.wf(),
            self@.plays(color),
        ensures
            index == self@.stair_entry(color),
            index < self@.track.len(),
    {
        proof {
            lemma_marks_on_track(self@, color);
        }
        let rank: usize = color.index();
        if rank == 0 {
            self.board.len() - 1
        } else {
            let stride: usize = self.board.len() / self.stables.len();
            stride * rank - 1
        }
    }

    /// The cell that the horse on `index`, away from its stairway entry,
    /// reaches by advancing by `distance`.
    pub fn destination(&self, index: usize, distance: usize) -> (target: usize)
        requires
            self.wf(),
            index < self@.track.len(),
            self@.track[index as int] != Cell::EMPTY,
            self@.destination(index as int, distance as int) >= 0,
        ensures
            target == self@.destination(index as int, distance as int),
            target < self@.track.len(),
    {
        let color = self.board[index];
        let entry: usize = self.get_stair_index(color);
        if index < entry && distance > entry - index {
            let excess: usize = distance - (entry - index);
            entry - excess
        } else {
            let len: usize = self.board.len();
            let rest: usize = distance % len;
            proof {
                vstd::arithmetic::div_mod::lemma_add_mod_noop_right(
                    index as int,
                    distance as int,
                    len as int,
                );
                if rest < len - index {
                    vstd::arithmetic::div_mod::lemma_small_mod((index + rest) as nat, len as nat);
                } else {
                    vstd::arithmetic::div_mod::lemma_mod_sub_multiples_vanish(
                        index + rest,
                        len as int,
                    );
                    vstd::arithmetic::div_mod::lemma_small_mod(
                        (index + rest - len) as nat,
                        len as nat,
                    );
                }
            }
            if rest < len - index {
                index + rest
            } else {
                rest - (len - index)
            }
        }
    }

    /// Whether `kick_horse` can be called on a cell.
    pub fn can_kick_horse(&self, index: usize) -> (ok: bool)
        requires
            self.wf(),
        ensures
            ok == self@.can_kick(index as int),
    {
        if index >= self.board.len() {
            return false;
        }
        let occupant = self.board[index];
        occupant == Cell::EMPTY || self.stables[occupant.index()] < usize::MAX
    }

    /// Sends the occupant of a cell, if there is one, back to its stable.
    pub fn kick_horse(&mut self, index: usize)
        requires
            old(self).wf(),
            old(self)@.can_kick(index as int),
        ensures
            final(self)@ == old(self)@.kick(index as int),
            final(self).wf(),
    {
        let occupant = self.board[index];
        if occupant == Cell::EMPTY {
            return ;
        }
        let rank: usize = occupant.index();
        let waiting: usize = self.stables[rank];
        self.board[index] = Cell::EMPTY;
        self.stables[rank] = waiting + 1;
    }

    /// Whether `place_horse` can be called for a color.
    pub fn can_place_horse(&self, horse_color: Cell) -> (ok: bool)
        requires
            self.wf(),
        ensures
            ok == self@.can_place(horse_color),
    {
        let rank: usize = horse_color.index();
        if rank >= self.stables.len() {
            return false;
        }
        let start_index: usize = self.start_index(horse_color);
        if !self.can_kick_horse(start_index) {
            return false;
        }
        self.board[start_index] == horse_color || self.stables[rank] >= 1
    }

    /// Brings a horse of a color from its stable to its start cell, kicking
    /// whatever horse stands there.
    pub fn place_horse(&mut self, horse_color: Cell)
        requires
            old(self).wf(),
            old(self)@.can_place(horse_color),
        ensures
            final(self)@ == old(self)@.place(horse_color),
            final(self).wf(),
    {
        let start_index: usize = self.start_index(horse_color);
        if !self.cell_is_empty(start_index) {
            self.kick_horse(start_index);
        }
        let rank: usize = horse_color.index();
        let waiting: usize = self.stables[rank];
        self.board[start_index] = horse_color;
        self.stables[rank] = waiting - 1;
    }

    /// Whether `move_horse` can be called for a cell and a distance.
    pub fn can_move_horse(&self, index: usize, to_advance: usize) -> (ok: bool)
        requires
            self.wf(),
        ensures
            ok == self@.can_advance(index as int, to_advance as int),
    {
        if index >= self.board.len() {
            return false;
        }
        let color = self.board[index];
        if color == Cell::EMPTY {
            return true;
        }
        if to_advance == 0 {
            return false;
        }
        let stair_index: usize = self.get_stair_index(color);
        if index == stair_index {
            return to_advance <= self.stairs[0].len();
        }
        if index < stair_index && to_advance > stair_index - index && to_advance - (stair_index
            - index) > stair_index {
            return false;
        }
        let new_index: usize = self.destination(index, to_advance);
        self.board[new_index] == color || self.can_kick_horse(new_index)
    }

    /// Advances the horse on a cell, if there is one, by a distance.
    ///
    /// From its stairway entry the horse climbs to the slot numbered
    /// `to_advance`. From any other cell it goes to its destination on the
    /// track, and a horse of another color that stands there is kicked.
    pub fn move_horse(&mut self, index: usize, to_advance: usize)
        requires
            old(self).wf(),
            old(self)@.can_advance(index as int, to_advance as int),
        ensures
            final(self)@ == old(self)@.advance(index as int, to_advance as int),
            final(self).wf(),
    {
        if self.cell_is_empty(index) {
            return ;
        }
        let color = self.board[index];
        let stair_index: usize = self.get_stair_index(color);
        if index == stair_index {
            let rank: usize = color.index();
            self.stairs[rank][to_advance - 1] = true;
        } else {
            let new_index: usize = self.destination(index, to_advance);
            if self.board[new_index] != color {
                self.kick_horse(new_index);
            }
            self.board[new_index] = color;
        }
        self.board[index] = Cell::EMPTY;
        assert(self@ =~~= old(self)@.advance(index as int, to_advance as int));
    }

    /// Whether `run` can be called: whether each color that plays can place
    /// a horse in its turn.
    pub fn can_run(&self) -> (ok: bool)
        requires
            self.wf(),
        ensures
            ok == self@.can_line_up(self@.stables.len()),
    {
        let mut trial: Game = self.clone();
        let colors: usize = self.stables.len();
        let mut rank: usize = 0;
        while rank < colors
            invariant
                rank <= colors,
                colors == self@.stables.len(),
                trial.wf(),
                trial@ == self@.lined_up(rank as nat),
                self@.can_line_up(rank as nat),
            decreases colors - rank,
        {
            let color = Cell::from_rank(rank);
            if !trial.can_place_horse(color) {
                proof {
                    if self@.can_line_up(colors as nat) {
                        lemma_line_up_prefix(self@, (rank + 1) as nat, colors as nat);
                    }
                }
                return false;
            }
            trial.place_horse(color);
            rank = rank + 1;
        }
        true
    }

    /// Opens the game: each color that plays, in the order of the ranks,
    /// places one horse.
    pub fn run(&mut self)
        requires
            old(self).wf(),
            old(self)@.can_line_up(old(self)@.stables.len()),
        ensures
            final(self)@ == old(self)@.lined_up(old(self)@.stables.len()),
            final(self).wf(),
    {
        let colors: usize = self.stables.len();
        let mut rank: usize = 0;
        while rank < colors
            invariant
                rank <= colors,
                colors == old(self)@.stables.len(),
                old(self)@.can_line_up(colors as nat),
                self.wf(),
                self@ == old(self)@.lined_up(rank as nat),
            decreases colors - rank,
        {
            proof {
                lemma_line_up_prefix(old(self)@, (rank + 1) as nat, colors as nat);
            }
            self.place_horse(Cell::from_rank(rank));
            rank = rank + 1;
        }
    }

    /// Puts a horse on a cell, or clears it, with no effect on any stable:
    /// the way to set up a position that play did not lead to.
    pub fn set_cell(&mut self, index: usize, cell: Cell)
        requires
            old(self).wf(),
            index < old(self)@.track.len(),
            cell == Cell::EMPTY || old(self)@.plays(cell),
        ensures
            final(self)@ == (Board {
                track: old(self)@.track.update(index as int, cell),
                stables: old(self)@.stables,
                stairs: old(self)@.stairs,
            }),
            final(self).wf(),
    {
        self.board[index] = cell;
        assert(self@ =~~= (Board {
            track: old(self)@.track.update(index as int, cell),
            stables: old(self)@.stables,
            stairs: old(self)@.stairs,
        }));
    }
}

} // verus!
