//! The picture of a game: which piece is drawn where. The pieces are laid
//! out here; turning them into text is the business of `paint`.

use vstd::prelude::*;
use crate::board::Board;
use crate::cell::Cell;
use crate::game::{Game, NB_CELLS, NB_MAX_PLAYERS, NB_STAIRS};

verus! {

/// The number of places that the picture shows of each stable.
pub const NB_MAX_HORSES: usize = 4;

/// The number of squares of the strip of starting squares.
pub const NB_SQUARES: i8 = 40;

/// One piece of the picture.
#[derive(Debug, Copy, Clone, PartialEq, Eq, Structural)]
pub enum Tile {
    /// A cell of the track, a place of a stable or a slot of a stairway with
    /// the horse that stands on it; with `EMPTY`, a cell on which none stands.
    Square(Cell),
    /// A place of the stable of a color in which no horse waits.
    Stall(Cell),
    /// A free slot of the stairway of a color, and the number that it shows.
    Step(Cell, usize),
    /// So many blank columns.
    Gap(usize),
}

impl Board {
    /// Whether the game has the dimensions for which the picture is drawn:
    /// those of the standard game.
    pub open spec fn is_standard(self) -> bool {
        &&& self.track.len() == NB_CELLS
        &&& self.stables.len() == NB_MAX_PLAYERS
        &&& self.stairway_length() == NB_STAIRS
    }

    /// The piece for a slot of a stairway: the horse that occupies it, or
    /// the number of the slot, counted from one.
    pub open spec fn step_tile(self, color: Cell, slot: int) -> Tile {
        if self.stairs[color.rank() as int][slot] {
            Tile::Square(color)
        } else {
            Tile::Step(color, (slot + 1) as usize)
        }
    }

    /// The pieces for the stable of a color: one horse for each that waits,
    /// as far as there are places, and empty places after them.
    pub open spec fn stable_tiles(self, color: Cell) -> Seq<Tile> {
        Seq::new(
            NB_MAX_HORSES as nat,
            |place: int|
                if place < self.stables[color.rank() as int] {
                    Tile::Square(color)
                } else {
                    Tile::Stall(color)
                },
        )
    }

    /// The two rows above the track: the stables of the first two colors,
    /// and under them those of the other two, each pair 21 columns apart.
    pub open spec fn stable_rows(self) -> Seq<Seq<Tile>> {
        seq![
            self.stable_tiles(Cell::RED) + seq![Tile::Gap(21)] + self.stable_tiles(Cell::YELLOW),
            self.stable_tiles(Cell::GREEN) + seq![Tile::Gap(21)] + self.stable_tiles(Cell::BLUE),
        ]
    }

    /// The slots of a stairway from the entry inwards.
    pub open spec fn steps_inwards(self, color: Cell) -> Seq<Tile> {
        Seq::new(NB_STAIRS as nat, |slot: int| self.step_tile(color, slot))
    }

    /// The slots of a stairway from the innermost to the entry.
    pub open spec fn steps_outwards(self, color: Cell) -> Seq<Tile> {
        Seq::new(NB_STAIRS as nat, |k: int| self.step_tile(color, NB_STAIRS - 1 - k))
    }

    /// What lies between the two sides of the track in the row that is
    /// `depth` rows below the one under the top. The stairway of the first
    /// color runs along the first of these rows and that of the third along
    /// the last; the stairway of the second color runs down the right, that
    /// of the fourth up the left.
    pub open spec fn inner_row(self, depth: int) -> Seq<Tile> {
        if depth == 0 {
            self.steps_inwards(Cell::RED) + seq![
                Tile::Gap(18),
                self.step_tile(Cell::YELLOW, 0),
            ]
        } else if depth < 6 {
            seq![Tile::Gap(36), self.step_tile(Cell::YELLOW, depth)]
        } else if depth == 6 {
            seq![Tile::Gap(39)]
        } else if depth < 12 {
            seq![self.step_tile(Cell::BLUE, 12 - depth), Tile::Gap(36)]
        } else {
            seq![self.step_tile(Cell::BLUE, 0), Tile::Gap(18)] + self.steps_outwards(Cell::GREEN)
        }
    }

    /// A row of the picture of the track, which runs clockwise around a
    /// square of fifteen rows: cells 0 to 14 along the top, 15 to 27 down
    /// the right, 28 to 42 back along the bottom and 43 to 55 up the left.
    pub open spec fn grid_row(self, row: int) -> Seq<Tile> {
        if row == 0 {
            Seq::new(15, |column: int| Tile::Square(self.track[column]))
        } else if row == 14 {
            Seq::new(15, |column: int| Tile::Square(self.track[42 - column]))
        } else {
            seq![Tile::Square(self.track[56 - row])] + self.inner_row(row - 1) + seq![
                Tile::Square(self.track[14 + row]),
            ]
        }
    }

    /// The fifteen rows of the picture of the track.
    pub open spec fn grid_rows(self) -> Seq<Seq<Tile>> {
        Seq::new(15, |row: int| self.grid_row(row))
    }

    /// The whole picture: the stables, and the track under them.
    pub open spec fn board_rows(self) -> Seq<Seq<Tile>> {
        self.stable_rows() + self.grid_rows()
    }
}

/// The rows of a picture as mathematical sequences.
pub open spec fn rows_view(rows: Vec<Vec<Tile>>) -> Seq<Seq<Tile>> {
    Seq::new(rows@.len(), |row: int| rows@[row]@)
}

impl Game {
    /// Whether the game has the dimensions for which the picture is drawn.
    pub fn has_standard_size(&self) -> (standard: bool)
        requires
            self.wf(),
        ensures
            standard == self@.is_standard(),
    {
        self.track_length() == NB_CELLS && self.colors() == NB_MAX_PLAYERS
            && self.stairway_length() == NB_STAIRS
    }

    /// The piece for a slot of the stairway of a color.
    pub fn step_tile(&self, color: Cell, index: usize) -> (tile: Tile)
        requires
            self.wf(),
            self@.plays(color),
            index < self@.stairway_length(),
        ensures
            tile == self@.step_tile(color, index as int),
    {
        proof {
            self.lemma_fits_machine();
        }
        if self.stair_slot(color, index) {
            Tile::Square(color)
        } else {
            Tile::Step(color, index + 1)
        }
    }

    /// The pieces for the stable of a color.
    pub fn stable_tiles(&self, color: Cell) -> (tiles: Vec<Tile>)
        requires
            self@.plays(color),
        ensures
            tiles@ == self@.stable_tiles(color),
    {
        let mut nb_horses: usize = self.stable_count(color);
        let mut tiles: Vec<Tile> = Vec::new();
        while tiles.len() < NB_MAX_HORSES
            invariant
                tiles@.len() <= NB_MAX_HORSES,
                tiles@.len() + nb_horses >= self@.stables[color.rank() as int],
                nb_horses > 0 ==> tiles@.len() + nb_horses == self@.stables[color.rank() as int],
                forall|place: int|
                    0 <= place < tiles@.len() ==> tiles@[place] == self@.stable_tiles(color)[place],
            decreases NB_MAX_HORSES - tiles@.len(),
        {
            if nb_horses == 0 {
                tiles.push(Tile::Stall(color));
            } else {
                tiles.push(Tile::Square(color));
                nb_horses = nb_horses - 1;
            }
        }
        tiles
    }

    /// The two rows of stables, for a game of four colors.
    pub fn stable_rows(&self) -> (rows: Vec<Vec<Tile>>)
        requires
            self@.stables.len() == NB_MAX_PLAYERS,
        ensures
            rows_view(rows) == self@.stable_rows(),
    {
        let mut upper: Vec<Tile> = self.stable_tiles(Cell::RED);
        let mut right: Vec<Tile> = self.stable_tiles(Cell::YELLOW);
        upper.push(Tile::Gap(21));
        upper.append(&mut right);
        let mut lower: Vec<Tile> = self.stable_tiles(Cell::GREEN);
        let mut right: Vec<Tile> = self.stable_tiles(Cell::BLUE);
        lower.push(Tile::Gap(21));
        lower.append(&mut right);
        let mut rows: Vec<Vec<Tile>> = Vec::new();
        rows.push(upper);
        rows.push(lower);
        assert(rows_view(rows) =~~= self@.stable_rows());
        rows
    }

    /// The slots of the stairway of a color from the entry inwards.
    fn steps_inwards(&self, color: Cell) -> (tiles: Vec<Tile>)
        requires
            self.wf(),
            self@.plays(color),
            self@.stairway_length() == NB_STAIRS,
        ensures
            tiles@ == self@.steps_inwards(color),
    {
        let mut tiles: Vec<Tile> = Vec::new();
        let mut i: usize = 0;
        while i < NB_STAIRS
            invariant
                self.wf(),
                self@.plays(color),
                self@.stairway_length() == NB_STAIRS,
                i <= NB_STAIRS,
                tiles@.len() == i,
                forall|k: int| 0 <= k < i ==> tiles@[k] == self@.step_tile(color, k),
            decreases NB_STAIRS - i,
        {
            tiles.push(self.step_tile(color, i));
            i = i + 1;
        }
        tiles
    }

    /// The slots of the stairway of a color from the innermost to the entry.
    fn steps_outwards(&self, color: Cell) -> (tiles: Vec<Tile>)
        requires
            self.wf(),
            self@.plays(color),
            self@.stairway_length() == NB_STAIRS,
        ensures
            tiles@ == self@.steps_outwards(color),
    {
        let mut tiles: Vec<Tile> = Vec::new();
        let mut i: usize = 0;
        while i < NB_STAIRS
            invariant
                self.wf(),
                self@.plays(color),
                self@.stairway_length() == NB_STAIRS,
                i <= NB_STAIRS,
                tiles@.len() == i,
                forall|k: int|
                    0 <= k < i ==> tiles@[k] == self@.step_tile(color, NB_STAIRS - 1 - k),
            decreases NB_STAIRS - i,
        {
            tiles.push(self.step_tile(color, NB_STAIRS - i - 1));
            i = i + 1;
        }
        tiles
    }

    /// What lies between the two sides of the track, `depth` rows below the
    /// row under the top.
    fn inner_row(&self, depth: usize) -> (tiles: Vec<Tile>)
        requires
            self.wf(),
            self@.is_standard(),
            depth < 13,
        ensures
            tiles@ == self@.inner_row(depth as int),
    {
        let mut tiles: Vec<Tile> = Vec::new();
        if depth == 0 {
            let mut steps: Vec<Tile> = self.steps_inwards(Cell::RED);
            tiles.append(&mut steps);
            tiles.push(Tile::Gap(18));
            tiles.push(self.step_tile(Cell::YELLOW, 0));
        } else if depth < 6 {
            tiles.push(Tile::Gap(36));
            tiles.push(self.step_tile(Cell::YELLOW, depth));
        } else if depth == 6 {
            tiles.push(Tile::Gap(39));
        } else if depth < 12 {
            tiles.push(self.step_tile(Cell::BLUE, 12 - depth));
            tiles.push(Tile::Gap(36));
        } else {
            let mut steps: Vec<Tile> = self.steps_outwards(Cell::GREEN);
            tiles.push(self.step_tile(Cell::BLUE, 0));
            tiles.push(Tile::Gap(18));
            tiles.append(&mut steps);
        }
        tiles
    }

    /// The fifteen rows of the picture of the track, for a game of the
    /// standard size.
    pub fn grid_rows(&self) -> (rows: Vec<Vec<Tile>>)
        requires
            self.wf(),
            self@.is_standard(),
        ensures
            rows_view(rows) == self@.grid_rows(),
    {
        let mut rows: Vec<Vec<Tile>> = Vec::new();
        let mut top: Vec<Tile> = Vec::new();
        let mut i: usize = 0;
        while i < 15
            invariant
                self@.is_standard(),
                i <= 15,
                top@.len() == i,
                forall|k: int| 0 <= k < i ==> top@[k] == Tile::Square(self@.track[k]),
            decreases 15 - i,
        {
            top.push(Tile::Square(self.cell_at(i)));
            i = i + 1;
        }
        rows.push(top);
        let mut i: usize = 0;
        while i < 13
            invariant
                self.wf(),
                self@.is_standard(),
                i <= 13,
                rows@.len() == i + 1,
                forall|r: int|
                    0 <= r < rows@.len() ==> (#[trigger] rows@[r])@ == self@.grid_row(r),
            decreases 13 - i,
        {
            let mut line: Vec<Tile> = Vec::new();
            let mut inner: Vec<Tile> = self.inner_row(i);
            line.push(Tile::Square(self.cell_at(NB_CELLS - 1 - i)));
            line.append(&mut inner);
            line.push(Tile::Square(self.cell_at(15 + i)));
            rows.push(line);
            i = i + 1;
        }
        let mut bottom: Vec<Tile> = Vec::new();
        let mut i: usize = 0;
        while i < 15
            invariant
                self@.is_standard(),
                i <= 15,
                bottom@.len() == i,
                forall|k: int| 0 <= k < i ==> bottom@[k] == Tile::Square(self@.track[42 - k]),
            decreases 15 - i,
        {
            bottom.push(Tile::Square(self.cell_at(NB_CELLS - 14 - i)));
            i = i + 1;
        }
        rows.push(bottom);
        assert(rows_view(rows) =~~= self@.grid_rows());
        rows
    }

    /// The whole picture of a game of the standard size: the stables, and
    /// the track under them.
    pub fn board_rows(&self) -> (rows: Vec<Vec<Tile>>)
        requires
            self.wf(),
            self@.is_standard(),
        ensures
            rows_view(rows) == self@.board_rows(),
    {
        let mut rows: Vec<Vec<Tile>> = self.stable_rows();
        let mut grid: Vec<Vec<Tile>> = self.grid_rows();
        rows.append(&mut grid);
        rows
    }
}

/// Whether a square of the strip is one on which a color starts: the first
/// after each full ten, so the squares 1, 11, 21 and 31 of the forty.
pub fn is_starting_square(square_number: i8) -> (starting: bool)
    requires
        square_number > i8::MIN,
    ensures
        starting == ((square_number - 1) % 10 == 0),
{
    (square_number - 1) % 10 == 0
}

/// The strip of forty squares with a horse of each color on its starting
/// square, the colors in the order of their ranks.
pub open spec fn spec_start_line() -> Seq<Tile> {
    Seq::new(
        NB_SQUARES as nat,
        |square: int|
            if (square - 1) % 10 == 0 {
                Tile::Square(Cell::of_rank(((square - 1) / 10) as nat))
            } else {
                Tile::Square(Cell::EMPTY)
            },
    )
}

/// The strip of forty squares with a horse of each color on its starting
/// square.
pub fn start_line() -> (line: Vec<Tile>)
    ensures
        line@ == spec_start_line(),
{
    let mut line: Vec<Tile> = Vec::new();
    let mut color_index: usize = 0;
    let mut square: i8 = 0;
    while square < NB_SQUARES
        invariant
            0 <= square <= NB_SQUARES,
            line@.len() == square,
            color_index == (square + 8) / 10,
            forall|k: int| 0 <= k < square ==> line@[k] == spec_start_line()[k],
        decreases NB_SQUARES - square,
    {
        if is_starting_square(square) {
            line.push(Tile::Square(Cell::from_rank(color_index)));
            color_index = color_index + 1;
        } else {
            line.push(Tile::Square(Cell::EMPTY));
        }
        square = square + 1;
    }
    line
}

} // verus!
