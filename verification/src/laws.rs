//! What holds of the moves of the game, whatever the state they start from,
//! and of the picture of a game, whatever the game.

use vstd::prelude::*;
use crate::board::{Board, lemma_marks_on_track};
use crate::cell::Cell;
use crate::paint::row_width;
use crate::render::Tile;

verus! {

/// A game that has just been created is well formed; every stable holds the
/// configured number of horses, and every cell of the track and every slot
/// of every stairway is empty.
pub proof fn lemma_fresh_game_is_empty(
    track_length: nat,
    start_horses: nat,
    colors: nat,
    stairway_length: nat,
)
    requires
        1 <= colors <= 4,
        track_length >= 1,
        track_length % colors == 0,
    ensures
        ({
            let board = Board::fresh(track_length, start_horses, colors, stairway_length);
            &&& board.wf()
            &&& board.track.len() == track_length
            &&& board.stables.len() == colors
            &&& board.stairs.len() == colors
            &&& board.stairway_length() == stairway_length
            &&& forall|color: Cell| #[trigger]
                board.plays(color) ==> board.stables[color.rank() as int] == start_horses
            &&& forall|i: int| 0 <= i < track_length ==> board.track[i] == Cell::EMPTY
            &&& forall|color: Cell, slot: int| #[trigger]
                board.plays(color) && 0 <= slot < stairway_length ==> !(
                #[trigger] board.stairs[color.rank() as int][slot])
        }),
{
}

/// The start cells of the colors that play are spaced evenly around the
/// ring, one stride apart from rank to rank, so that no two colors share
/// one, and the strides of all the colors together make one lap.
pub proof fn lemma_start_cells_evenly_spaced(board: Board, first: Cell, second: Cell)
    requires
        board.wf(),
        board.plays(first),
        board.plays(second),
    ensures
        board.start_index(second) - board.start_index(first) == board.stride() * (second.rank()
            - first.rank()),
        first != second ==> board.start_index(first) != board.start_index(second),
        board.stride() * board.stables.len() == board.track.len(),
{
    lemma_marks_on_track(board, first);
    let stride = board.stride();
    let a = first.rank() as int;
    let b = second.rank() as int;
    assert(stride * b - stride * a == stride * (b - a)) by (nonlinear_arith);
    if a != b {
        assert(stride * (b - a) != 0) by (nonlinear_arith)
            requires
                stride >= 1,
                a != b,
        ;
    }
}

/// Where the start cells of the first `count` colors are free and each of
/// their stables holds a horse, these colors can line up; each then has a
/// horse on its start cell and one horse less in its stable, and nothing
/// else has changed.
pub proof fn lemma_line_up_on_free_start_cells(board: Board, count: nat)
    requires
        board.wf(),
        count <= board.stables.len(),
        forall|color: Cell|
            color.rank() < count ==> board.track[#[trigger] board.start_index(color)]
                == Cell::EMPTY,
        forall|r: int| 0 <= r < count ==> board.stables[r] >= 1,
    ensures
        board.can_line_up(count),
        ({
            let after = board.lined_up(count);
            &&& after.wf()
            &&& after.track.len() == board.track.len()
            &&& after.stables.len() == board.stables.len()
            &&& after.stairs == board.stairs
            &&& forall|color: Cell|
                color.rank() < count ==> after.track[#[trigger] board.start_index(color)] == color
            &&& forall|i: int|
                {
                    &&& 0 <= i < board.track.len()
                    &&& forall|color: Cell|
                        color.rank() < count ==> i != #[trigger] board.start_index(color)
                } ==> #[trigger] after.track[i] == board.track[i]
            &&& forall|r: int|
                0 <= r < count ==> #[trigger] after.stables[r] == board.stables[r] - 1
            &&& forall|r: int|
                count <= r < board.stables.len() ==> #[trigger] after.stables[r]
                    == board.stables[r]
        }),
    decreases count,
{
    if count > 0 {
        let fewer = (count - 1) as nat;
        let comer = Cell::of_rank(fewer);
        let after = board.lined_up(count);
        lemma_line_up_on_free_start_cells(board, fewer);
        lemma_marks_on_track(board, comer);
        // no color before the newcomer starts where it does
        assert forall|color: Cell| color.rank() < fewer implies board.start_index(comer)
            != #[trigger] board.start_index(color) by {
            lemma_start_cells_evenly_spaced(board, color, comer);
        }
        assert forall|color: Cell| color.rank() < count implies after.track[
            #[trigger] board.start_index(color)
        ] == color by {
            if color.rank() < fewer {
                lemma_start_cells_evenly_spaced(board, color, comer);
            }
        }
        assert forall|i: int|
            {
                &&& 0 <= i < board.track.len()
                &&& forall|color: Cell|
                    color.rank() < count ==> i != #[trigger] board.start_index(color)
            } implies #[trigger] after.track[i] == board.track[i] by {}
    }
}

/// Kicking an empty cell changes nothing.
pub proof fn lemma_kick_empty_cell(board: Board, index: int)
    requires
        board.track[index] == Cell::EMPTY,
    ensures
        board.kick(index) == board,
{
}

/// Kicking an occupied cell empties it and adds one horse to the stable of
/// the color that stood there; no other cell, no other stable and no
/// stairway changes.
pub proof fn lemma_kick_occupied_cell(board: Board, index: int)
    requires
        board.wf(),
        0 <= index < board.track.len(),
        board.track[index] != Cell::EMPTY,
    ensures
        ({
            let occupant = board.track[index];
            let after = board.kick(index);
            &&& after.track[index] == Cell::EMPTY
            &&& after.stables[occupant.rank() as int] == board.stables[occupant.rank() as int] + 1
            &&& after.track.len() == board.track.len()
            &&& after.stables.len() == board.stables.len()
            &&& forall|i: int|
                0 <= i < board.track.len() && i != index ==> after.track[i] == board.track[i]
            &&& forall|r: int|
                0 <= r < board.stables.len() && r != occupant.rank() ==> after.stables[r]
                    == board.stables[r]
            &&& after.stairs == board.stairs
        }),
{
}

/// Placing a horse puts its color on the start cell of that color, whatever
/// stood there before, and takes one horse from the stable as the kick of
/// the start cell left it.
pub proof fn lemma_place_sets_start_cell(board: Board, color: Cell)
    requires
        board.wf(),
        board.can_place(color),
    ensures
        ({
            let start = board.start_index(color);
            let after = board.place(color);
            &&& 0 <= start < board.track.len()
            &&& after.track[start] == color
            &&& after.stables[color.rank() as int] == board.kick(start).stables[color.rank() as int]
                - 1
            &&& after.wf()
        }),
{
    lemma_marks_on_track(board, color);
}

/// Placing a horse on a start cell that does not already hold a horse of its
/// own color takes exactly one horse from the stable of that color. A horse
/// of another color that stood on the start cell is back in its own stable,
/// and nothing else changes.
pub proof fn lemma_place_takes_one_horse(board: Board, color: Cell)
    requires
        board.wf(),
        board.can_place(color),
        board.track[board.start_index(color)] != color,
    ensures
        ({
            let start = board.start_index(color);
            let occupant = board.track[start];
            let after = board.place(color);
            &&& after.track[start] == color
            &&& after.stables[color.rank() as int] == board.stables[color.rank() as int] - 1
            &&& occupant != Cell::EMPTY ==> after.stables[occupant.rank() as int]
                == board.stables[occupant.rank() as int] + 1
            &&& forall|i: int|
                0 <= i < board.track.len() && i != start ==> after.track[i] == board.track[i]
            &&& forall|r: int|
                0 <= r < board.stables.len() && r != color.rank() && r != occupant.rank()
                    ==> after.stables[r] == board.stables[r]
            &&& after.stairs == board.stairs
        }),
{
    lemma_marks_on_track(board, color);
}

/// Placing a horse on a start cell that already holds a horse of its own
/// color leaves the whole game as it was: the horse that stood there goes
/// back to the stable and the new one takes its place.
pub proof fn lemma_place_onto_own_horse(board: Board, color: Cell)
    requires
        board.wf(),
        board.can_place(color),
        board.track[board.start_index(color)] == color,
    ensures
        board.place(color) == board,
{
    lemma_marks_on_track(board, color);
}

/// A move from a cell on which no horse stands changes nothing: not the
/// track, not the stables, not the stairways.
pub proof fn lemma_move_from_empty_cell(board: Board, index: int, distance: int)
    requires
        board.track[index] == Cell::EMPTY,
    ensures
        board.advance(index, distance) == board,
{
}

/// A horse on the last cell of the track that advances by one lands on
/// cell 0 and leaves the last cell empty, unless the last cell is the
/// stairway entry of its color, which it is for the first color alone.
pub proof fn lemma_last_cell_wraps(board: Board)
    requires
        board.wf(),
        board.track[board.track.len() - 1] != Cell::EMPTY,
        board.track[board.track.len() - 1].rank() != 0,
    ensures
        ({
            let last = board.track.len() - 1;
            let after = board.advance(last, 1);
            &&& board.destination(last, 1) == 0
            &&& after.track[0] == board.track[last]
            &&& after.track[last] == Cell::EMPTY
        }),
{
    let last = board.track.len() - 1;
    let color = board.track[last];
    lemma_marks_on_track(board, color);
    assert(board.stride() * color.rank() <= board.stride() * (board.stables.len() - 1))
        by (nonlinear_arith)
        requires
            color.rank() <= board.stables.len() - 1,
            board.stride() >= 1,
    ;
    assert(board.stride() * (board.stables.len() - 1) == board.track.len() - board.stride())
        by (nonlinear_arith)
        requires
            board.stride() * board.stables.len() == board.track.len(),
    ;
    vstd::arithmetic::div_mod::lemma_mod_self_0(board.track.len() as int);
}

/// A horse that lands on a cell held by another color kicks it: the cell
/// holds the mover, the stable of the color that stood there has one horse
/// more, and the cell that the mover came from is empty.
pub proof fn lemma_landing_kicks_other_color(board: Board, index: int, distance: int)
    requires
        board.wf(),
        0 <= index < board.track.len(),
        board.track[index] != Cell::EMPTY,
        index != board.stair_entry(board.track[index]),
        board.destination(index, distance) >= 0,
        board.track[board.destination(index, distance)] != Cell::EMPTY,
        board.track[board.destination(index, distance)] != board.track[index],
    ensures
        ({
            let target = board.destination(index, distance);
            let victim = board.track[target];
            let after = board.advance(index, distance);
            &&& after.track[target] == board.track[index]
            &&& after.track[index] == Cell::EMPTY
            &&& after.stables[victim.rank() as int] == board.stables[victim.rank() as int] + 1
            &&& forall|r: int|
                0 <= r < board.stables.len() && r != victim.rank() ==> after.stables[r]
                    == board.stables[r]
            &&& after.stairs == board.stairs
        }),
{
    lemma_destination_on_track(board, index, distance);
}

/// A horse never kicks a horse of its own color: where it lands on one, the
/// two stand as one, and no stable changes.
pub proof fn lemma_landing_on_own_color(board: Board, index: int, distance: int)
    requires
        board.wf(),
        0 <= index < board.track.len(),
        board.track[index] != Cell::EMPTY,
        index != board.stair_entry(board.track[index]),
        board.destination(index, distance) >= 0,
        board.destination(index, distance) != index,
        board.track[board.destination(index, distance)] == board.track[index],
    ensures
        ({
            let target = board.destination(index, distance);
            let after = board.advance(index, distance);
            &&& after.track[target] == board.track[index]
            &&& after.track[index] == Cell::EMPTY
            &&& after.stables == board.stables
            &&& after.stairs == board.stairs
        }),
{
    lemma_destination_on_track(board, index, distance);
}

/// A horse whose move would take it past the stairway entry of its color is
/// turned back there: it lands as far before the entry as the move would
/// have taken it beyond, and not beyond it on the track. No cell changes but
/// the one it leaves and the one it lands on.
pub proof fn lemma_turned_back_at_entry(board: Board, index: int, distance: int)
    requires
        board.wf(),
        0 <= index < board.track.len(),
        board.track[index] != Cell::EMPTY,
        board.crosses_entry(board.track[index], index, distance),
        index + distance <= 2 * board.stair_entry(board.track[index]),
    ensures
        ({
            let entry = board.stair_entry(board.track[index]);
            let target = entry - (index + distance - entry);
            let after = board.advance(index, distance);
            &&& 0 <= target < entry
            &&& board.destination(index, distance) == target
            &&& target != index ==> after.track[target] == board.track[index]
            &&& after.track[index] == Cell::EMPTY
            &&& forall|i: int|
                0 <= i < board.track.len() && i != index && i != target ==> after.track[i]
                    == board.track[i]
            &&& after.stairs == board.stairs
        }),
{
    lemma_destination_on_track(board, index, distance);
}

/// A horse one cell before its stairway entry that advances by three lands
/// two cells before the entry.
pub proof fn lemma_three_from_the_cell_before_entry(board: Board, color: Cell)
    requires
        board.wf(),
        board.plays(color),
        board.stair_entry(color) >= 2,
        board.track[board.stair_entry(color) - 1] == color,
    ensures
        ({
            let entry = board.stair_entry(color);
            let after = board.advance(entry - 1, 3);
            &&& after.track[entry - 2] == color
            &&& after.track[entry - 1] == Cell::EMPTY
            &&& forall|i: int|
                0 <= i < board.track.len() && i != entry - 1 && i != entry - 2 ==> after.track[i]
                    == board.track[i]
        }),
{
    lemma_marks_on_track(board, color);
    lemma_turned_back_at_entry(board, board.stair_entry(color) - 1, 3);
}

/// A horse on the stairway entry of its color that advances by `distance`
/// occupies the stairway slot numbered `distance` (the slot of index
/// `distance - 1`) and leaves the entry empty. No other cell, no other slot
/// and no stable changes.
pub proof fn lemma_climb_from_entry(board: Board, index: int, distance: int)
    requires
        board.wf(),
        0 <= index < board.track.len(),
        board.track[index] != Cell::EMPTY,
        index == board.stair_entry(board.track[index]),
        1 <= distance <= board.stairway_length(),
    ensures
        ({
            let rank = board.track[index].rank() as int;
            let after = board.advance(index, distance);
            &&& 0 <= distance - 1 < board.stairway_length()
            &&& after.stairs[rank][distance - 1]
            &&& after.track[index] == Cell::EMPTY
            &&& forall|i: int|
                0 <= i < board.track.len() && i != index ==> after.track[i] == board.track[i]
            &&& forall|r: int, slot: int|
                0 <= r < board.stairs.len() && 0 <= slot < board.stairway_length() && !(r == rank
                    && slot == distance - 1) ==> after.stairs[r][slot] == board.stairs[r][slot]
            &&& after.stables == board.stables
        }),
{
}

/// The destination of a horse is a cell of the track, unless the horse is
/// turned back so far that it would come to lie before cell 0.
pub proof fn lemma_destination_on_track(board: Board, index: int, distance: int)
    requires
        board.wf(),
        0 <= index < board.track.len(),
        board.track[index] != Cell::EMPTY,
        board.destination(index, distance) >= 0,
    ensures
        board.destination(index, distance) < board.track.len(),
{
    lemma_marks_on_track(board, board.track[index]);
    vstd::arithmetic::div_mod::lemma_mod_bound(index + distance, board.track.len() as int);
}

/// Every move that may be made keeps the game well formed.
pub proof fn lemma_moves_keep_shape(board: Board, index: int, distance: int, color: Cell)
    requires
        board.wf(),
    ensures
        board.can_kick(index) ==> board.kick(index).wf(),
        board.can_place(color) ==> board.place(color).wf(),
        board.can_advance(index, distance) ==> board.advance(index, distance).wf(),
{
    if board.can_place(color) {
        lemma_marks_on_track(board, color);
    }
    if board.can_advance(index, distance) && board.track[index] != Cell::EMPTY {
        if index != board.stair_entry(board.track[index]) {
            lemma_destination_on_track(board, index, distance);
        }
    }
}

/// How often a value occurs in a sequence.
pub open spec fn occurrences<T>(row: Seq<T>, value: T) -> nat
    decreases row.len(),
{
    if row.len() == 0 {
        0
    } else {
        occurrences(row.drop_last(), value) + if row.last() == value {
            1nat
        } else {
            0nat
        }
    }
}

impl Board {
    /// The number of horses of a color in the game: those on the track,
    /// those in the stable, and those on the stairway.
    pub open spec fn horses(self, color: Cell) -> nat {
        occurrences(self.track, color) + self.stables[color.rank() as int] + occurrences(
            self.stairs[color.rank() as int],
            true,
        )
    }
}

/// Where one element of a sequence is replaced, a value occurs once less if
/// it was taken away, and once more if it was put there.
pub proof fn lemma_occurrences_after_update<T>(row: Seq<T>, i: int, put: T, value: T)
    requires
        0 <= i < row.len(),
    ensures
        occurrences(row.update(i, put), value) + if row[i] == value {
            1nat
        } else {
            0nat
        } == occurrences(row, value) + if put == value {
            1nat
        } else {
            0nat
        },
    decreases row.len(),
{
    if i == row.len() - 1 {
        assert(row.update(i, put).drop_last() =~= row.drop_last());
    } else {
        lemma_occurrences_after_update(row.drop_last(), i, put, value);
        assert(row.update(i, put).drop_last() =~= row.drop_last().update(i, put));
    }
}

/// A kick makes and loses no horse: of every color there are as many in the
/// game as before.
pub proof fn lemma_kick_keeps_the_horses(board: Board, index: int, color: Cell)
    requires
        board.wf(),
        0 <= index < board.track.len(),
        board.plays(color),
    ensures
        board.kick(index).horses(color) == board.horses(color),
{
    if board.track[index] != Cell::EMPTY {
        lemma_occurrences_after_update(board.track, index, Cell::EMPTY, color);
    }
}

/// Placing a horse makes and loses no horse: of every color there are as
/// many in the game as before.
pub proof fn lemma_place_keeps_the_horses(board: Board, placed: Cell, color: Cell)
    requires
        board.wf(),
        board.can_place(placed),
        board.plays(color),
    ensures
        board.place(placed).horses(color) == board.horses(color),
{
    let start = board.start_index(placed);
    lemma_marks_on_track(board, placed);
    lemma_kick_keeps_the_horses(board, start, color);
    lemma_occurrences_after_update(board.kick(start).track, start, placed, color);
}

/// A move makes no horse: of every color there are at most as many in the
/// game as before. A horse is lost where it lands on a horse of its own
/// color or on the cell from which it set out, and where it climbs to a
/// stairway slot that is occupied already.
pub proof fn lemma_move_makes_no_horse(board: Board, index: int, distance: int, color: Cell)
    requires
        board.wf(),
        0 <= index < board.track.len(),
        board.track[index] != Cell::EMPTY ==> {
            &&& index == board.stair_entry(board.track[index]) ==> 1 <= distance
                <= board.stairway_length()
            &&& index != board.stair_entry(board.track[index]) ==> board.destination(
                index,
                distance,
            ) >= 0
        },
        board.plays(color),
    ensures
        board.advance(index, distance).horses(color) <= board.horses(color),
{
    let mover = board.track[index];
    if mover != Cell::EMPTY {
        if index == board.stair_entry(mover) {
            let stairway = board.stairs[mover.rank() as int];
            assert(stairway.len() == board.stairs[0].len());
            lemma_occurrences_after_update(board.track, index, Cell::EMPTY, color);
            lemma_occurrences_after_update(stairway, distance - 1, true, true);
        } else {
            let target = board.destination(index, distance);
            lemma_destination_on_track(board, index, distance);
            let cleared = if board.track[target] == mover {
                board
            } else {
                board.kick(target)
            };
            lemma_kick_keeps_the_horses(board, target, color);
            lemma_occurrences_after_update(cleared.track, target, mover, color);
            lemma_occurrences_after_update(
                cleared.track.update(target, mover),
                index,
                Cell::EMPTY,
                color,
            );
        }
    }
}

/// The width of two rows joined is the sum of their widths.
pub proof fn lemma_width_of_joined_rows(left: Seq<Tile>, right: Seq<Tile>)
    ensures
        row_width(left + right) == row_width(left) + row_width(right),
    decreases right.len(),
{
    if right.len() > 0 {
        lemma_width_of_joined_rows(left, right.drop_last());
        assert((left + right).drop_last() =~= left + right.drop_last());
    }
}

/// A row of one piece is as wide as the piece.
pub proof fn lemma_width_of_one_piece(tile: Tile)
    ensures
        row_width(seq![tile]) == tile.width(),
{
    assert(row_width(seq![tile]) == row_width(seq![tile].drop_last()) + tile.width());
}

/// A row of pieces that are three columns wide each takes three columns for
/// each of them.
pub proof fn lemma_width_of_threes(row: Seq<Tile>)
    requires
        forall|i: int| 0 <= i < row.len() ==> (#[trigger] row[i]).width() == 3,
    ensures
        row_width(row) == 3 * row.len(),
    decreases row.len(),
{
    if row.len() > 0 {
        lemma_width_of_threes(row.drop_last());
    }
}

/// A slot of a stairway with a number of one digit is drawn three columns
/// wide, whether a horse stands on it or not.
pub proof fn lemma_width_of_a_step(board: Board, color: Cell, slot: int)
    requires
        color != Cell::EMPTY,
        0 <= slot < 9,
    ensures
        board.step_tile(color, slot).width() == 3,
{
}

/// The picture of a game has seventeen rows, and each of them is 45 columns
/// wide, whatever stands on the track, in the stables and on the stairways.
pub proof fn lemma_picture_is_45_columns_wide(board: Board, row: int)
    requires
        0 <= row < 17,
    ensures
        board.board_rows().len() == 17,
        row_width(board.board_rows()[row]) == 45,
{
    if row < 2 {
        let left = if row == 0 {
            Cell::RED
        } else {
            Cell::GREEN
        };
        let right = if row == 0 {
            Cell::YELLOW
        } else {
            Cell::BLUE
        };
        let gap = seq![Tile::Gap(21)];
        assert(board.board_rows()[row] == board.stable_tiles(left) + gap + board.stable_tiles(
            right,
        ));
        lemma_width_of_threes(board.stable_tiles(left));
        lemma_width_of_threes(board.stable_tiles(right));
        lemma_width_of_one_piece(Tile::Gap(21));
        lemma_width_of_joined_rows(board.stable_tiles(left), gap);
        lemma_width_of_joined_rows(board.stable_tiles(left) + gap, board.stable_tiles(right));
    } else {
        let line = row - 2;
        if line == 0 || line == 14 {
            lemma_width_of_threes(board.grid_row(line));
        } else {
            let inner = board.inner_row(line - 1);
            let left = seq![Tile::Square(board.track[56 - line])];
            let right = seq![Tile::Square(board.track[14 + line])];
            lemma_width_of_inner_row(board, line - 1);
            lemma_width_of_one_piece(left[0]);
            lemma_width_of_one_piece(right[0]);
            lemma_width_of_joined_rows(left, inner);
            lemma_width_of_joined_rows(left + inner, right);
        }
    }
}

/// What lies between the two sides of the track is 39 columns wide in each
/// of the thirteen rows.
pub proof fn lemma_width_of_inner_row(board: Board, depth: int)
    requires
        0 <= depth < 13,
    ensures
        row_width(board.inner_row(depth)) == 39,
{
    if depth == 0 {
        let steps = board.steps_inwards(Cell::RED);
        let gap = seq![Tile::Gap(18)];
        let last = seq![board.step_tile(Cell::YELLOW, 0)];
        assert(board.inner_row(depth) =~= steps + gap + last);
        assert forall|i: int| 0 <= i < steps.len() implies (#[trigger] steps[i]).width() == 3 by {
            lemma_width_of_a_step(board, Cell::RED, i);
        }
        lemma_width_of_threes(steps);
        lemma_width_of_one_piece(Tile::Gap(18));
        lemma_width_of_a_step(board, Cell::YELLOW, 0);
        lemma_width_of_one_piece(last[0]);
        lemma_width_of_joined_rows(steps, gap);
        lemma_width_of_joined_rows(steps + gap, last);
    } else if depth < 6 {
        let gap = seq![Tile::Gap(36)];
        let step = seq![board.step_tile(Cell::YELLOW, depth)];
        assert(board.inner_row(depth) =~= gap + step);
        lemma_width_of_one_piece(Tile::Gap(36));
        lemma_width_of_a_step(board, Cell::YELLOW, depth);
        lemma_width_of_one_piece(step[0]);
        lemma_width_of_joined_rows(gap, step);
    } else if depth == 6 {
        lemma_width_of_one_piece(Tile::Gap(39));
    } else if depth < 12 {
        let step = seq![board.step_tile(Cell::BLUE, 12 - depth)];
        let gap = seq![Tile::Gap(36)];
        assert(board.inner_row(depth) =~= step + gap);
        lemma_width_of_a_step(board, Cell::BLUE, 12 - depth);
        lemma_width_of_one_piece(step[0]);
        lemma_width_of_one_piece(Tile::Gap(36));
        lemma_width_of_joined_rows(step, gap);
    } else {
        let first = seq![board.step_tile(Cell::BLUE, 0)];
        let gap = seq![Tile::Gap(18)];
        let steps = board.steps_outwards(Cell::GREEN);
        assert(board.inner_row(depth) =~= first + gap + steps);
        assert forall|i: int| 0 <= i < steps.len() implies (#[trigger] steps[i]).width() == 3 by {
            lemma_width_of_a_step(board, Cell::GREEN, 5 - i);
        }
        lemma_width_of_threes(steps);
        lemma_width_of_a_step(board, Cell::BLUE, 0);
        lemma_width_of_one_piece(first[0]);
        lemma_width_of_one_piece(Tile::Gap(18));
        lemma_width_of_joined_rows(first, gap);
        lemma_width_of_joined_rows(first + gap, steps);
    }
}

} // verus!
