use petits_chevaux::cell::Cell;
use petits_chevaux::game::{Game, NB_CELLS, NB_MAX_PLAYERS, NB_STAIRS, NB_START_HORSES};

const COLORS: [Cell; 4] = [Cell::RED, Cell::YELLOW, Cell::GREEN, Cell::BLUE];

fn snapshot(game: &Game) -> (Vec<Cell>, Vec<usize>, Vec<Vec<bool>>) {
    (game.board().clone(), game.stables().clone(), game.stairs().clone())
}

// ---- creation ----

#[test]
fn created_game_is_empty_whatever_its_size() {
    for &(track, horses, colors, stairs) in
        [(56usize, 2usize, 4usize, 6usize), (40, 3, 4, 4), (12, 1, 3, 2), (5, 0, 1, 3), (2, 7, 2, 0)].iter()
    {
        let game = Game::create(track, horses, colors, stairs);
        assert_eq!(game.track_length(), track);
        assert_eq!(game.colors(), colors);
        assert_eq!(game.stairway_length(), stairs);
        assert_eq!(game.board(), &vec![Cell::EMPTY; track]);
        assert_eq!(game.stables(), &vec![horses; colors]);
        assert_eq!(game.stairs(), &vec![vec![false; stairs]; colors]);
    }
}

#[test]
fn can_create_says_when() {
    assert!(Game::can_create(56, 4));
    assert!(Game::can_create(40, 4));
    assert!(Game::can_create(12, 3));
    assert!(Game::can_create(1, 1));
    assert!(Game::can_create(usize::MAX, 1));
    // the colors have to divide the track evenly
    assert!(!Game::can_create(57, 4));
    assert!(!Game::can_create(3, 4));
    assert!(!Game::can_create(0, 1));
    // between one color and four
    assert!(!Game::can_create(56, 0));
    assert!(!Game::can_create(55, 5));
    assert!(!Game::can_create(56, 7));
}

#[test]
fn standard_game_has_the_standard_size() {
    let game = Game::new();
    assert_eq!(game.track_length(), NB_CELLS);
    assert_eq!(game.colors(), NB_MAX_PLAYERS);
    assert_eq!(game.stairway_length(), NB_STAIRS);
    assert_eq!(NB_CELLS, 56);
    assert_eq!(NB_START_HORSES, 2);
    assert_eq!(NB_MAX_PLAYERS, 4);
    assert_eq!(NB_STAIRS, 6);
}

#[test]
fn clone_is_in_the_same_state() {
    let mut game = Game::new();
    game.place_horse(Cell::GREEN);
    game.set_cell(55, Cell::RED);
    game.move_horse(55, 2);
    let copy = game.clone();
    assert_eq!(snapshot(&copy), snapshot(&game));
    game.kick_horse(28);
    assert_eq!(copy.cell_at(28), Cell::GREEN);
    assert_eq!(game.cell_at(28), Cell::EMPTY);
}

// ---- colors, start cells and stairway entries ----

#[test]
fn ranks_follow_the_declaration() {
    assert_eq!(Cell::RED.index(), 0);
    assert_eq!(Cell::YELLOW.index(), 1);
    assert_eq!(Cell::GREEN.index(), 2);
    assert_eq!(Cell::BLUE.index(), 3);
    assert_eq!(Cell::EMPTY.index(), 4);
    for rank in 0..5 {
        assert_eq!(Cell::from_rank(rank).index(), rank);
        assert_eq!(Cell::from_rank(rank) as usize, rank);
    }
    assert_eq!(Cell::from_rank(5), Cell::EMPTY);
    assert_eq!(Cell::from_rank(usize::MAX), Cell::EMPTY);
}

#[test]
fn start_cells_are_evenly_spaced() {
    let game = Game::new();
    assert_eq!(game.start_index(Cell::RED), 0);
    assert_eq!(game.start_index(Cell::YELLOW), 14);
    assert_eq!(game.start_index(Cell::GREEN), 28);
    assert_eq!(game.start_index(Cell::BLUE), 42);
    let game = Game::create(40, 2, 4, 4);
    assert_eq!(game.start_index(Cell::RED), 0);
    assert_eq!(game.start_index(Cell::YELLOW), 10);
    assert_eq!(game.start_index(Cell::GREEN), 20);
    assert_eq!(game.start_index(Cell::BLUE), 30);
    let game = Game::create(12, 2, 3, 2);
    assert_eq!(game.start_index(Cell::RED), 0);
    assert_eq!(game.start_index(Cell::YELLOW), 4);
    assert_eq!(game.start_index(Cell::GREEN), 8);
}

#[test]
fn stairway_entries_lie_just_before_the_start_cells() {
    let game = Game::new();
    assert_eq!(game.get_stair_index(Cell::RED), 55);
    assert_eq!(game.get_stair_index(Cell::YELLOW), 13);
    assert_eq!(game.get_stair_index(Cell::GREEN), 27);
    assert_eq!(game.get_stair_index(Cell::BLUE), 41);
    let game = Game::create(40, 2, 4, 4);
    assert_eq!(game.get_stair_index(Cell::RED), 39);
    assert_eq!(game.get_stair_index(Cell::YELLOW), 9);
    assert_eq!(game.get_stair_index(Cell::GREEN), 19);
    assert_eq!(game.get_stair_index(Cell::BLUE), 29);
    let game = Game::create(12, 2, 3, 2);
    assert_eq!(game.get_stair_index(Cell::RED), 11);
    assert_eq!(game.get_stair_index(Cell::YELLOW), 3);
    assert_eq!(game.get_stair_index(Cell::GREEN), 7);
    let game = Game::create(1, 2, 1, 2);
    assert_eq!(game.start_index(Cell::RED), 0);
    assert_eq!(game.get_stair_index(Cell::RED), 0);
}

// ---- accessors ----

#[test]
fn accessors_read_the_state() {
    let mut game = Game::new();
    game.place_horse(Cell::YELLOW);
    game.set_cell(41, Cell::BLUE);
    game.move_horse(41, 6);
    assert_eq!(game.cell_at(14), Cell::YELLOW);
    assert_eq!(game.cell_at(41), Cell::EMPTY);
    assert!(!game.cell_is_empty(14));
    assert!(game.cell_is_empty(41));
    assert_eq!(game.stable_count(Cell::YELLOW), 1);
    assert_eq!(game.stable_count(Cell::BLUE), 2);
    assert!(game.stair_slot(Cell::BLUE, 5));
    assert!(!game.stair_slot(Cell::BLUE, 4));
    assert!(!game.stair_slot(Cell::YELLOW, 5));
}

#[test]
fn set_cell_touches_one_cell_only() {
    let mut game = Game::new();
    game.set_cell(7, Cell::GREEN);
    let mut expected = vec![Cell::EMPTY; NB_CELLS];
    expected[7] = Cell::GREEN;
    assert_eq!(game.board(), &expected);
    assert_eq!(game.stables(), &vec![NB_START_HORSES; 4]);
    assert_eq!(game.stairs(), &vec![vec![false; NB_STAIRS]; 4]);
    game.set_cell(7, Cell::EMPTY);
    assert_eq!(game.board(), &vec![Cell::EMPTY; NB_CELLS]);
}

// ---- place_horse ----

#[test]
fn place_kicks_another_color_first() {
    let mut game = Game::new();
    game.set_cell(14, Cell::RED);
    game.place_horse(Cell::YELLOW);
    assert_eq!(game.cell_at(14), Cell::YELLOW);
    assert_eq!(game.stables(), &vec![3, 1, 2, 2]);
}

#[test]
fn place_onto_own_horse_changes_nothing() {
    let mut game = Game::new();
    game.place_horse(Cell::RED);
    let before = snapshot(&game);
    assert_eq!(game.stable_count(Cell::RED), 1);
    game.place_horse(Cell::RED);
    assert_eq!(snapshot(&game), before);
    assert_eq!(game.stable_count(Cell::RED), 1);
}

#[test]
fn place_leaves_the_rest_alone() {
    let mut game = Game::new();
    game.set_cell(3, Cell::BLUE);
    game.place_horse(Cell::GREEN);
    let mut expected = vec![Cell::EMPTY; NB_CELLS];
    expected[3] = Cell::BLUE;
    expected[28] = Cell::GREEN;
    assert_eq!(game.board(), &expected);
    assert_eq!(game.stables(), &vec![2, 2, 1, 2]);
    assert_eq!(game.stairs(), &vec![vec![false; NB_STAIRS]; 4]);
}

#[test]
fn can_place_horse_says_when() {
    let mut game = Game::create(12, 1, 3, 2);
    assert!(game.can_place_horse(Cell::RED));
    assert!(game.can_place_horse(Cell::YELLOW));
    assert!(game.can_place_horse(Cell::GREEN));
    // blue does not play among three colors, and the empty marker is no color
    assert!(!game.can_place_horse(Cell::BLUE));
    assert!(!game.can_place_horse(Cell::EMPTY));
    game.place_horse(Cell::YELLOW);
    assert_eq!(game.stable_count(Cell::YELLOW), 0);
    // the stable is empty, but the horse on the start cell comes back first
    assert!(game.can_place_horse(Cell::YELLOW));
    game.place_horse(Cell::YELLOW);
    assert_eq!(game.stable_count(Cell::YELLOW), 0);
    assert_eq!(game.cell_at(4), Cell::YELLOW);
    game.move_horse(4, 1);
    // no horse left to place
    assert!(!game.can_place_horse(Cell::YELLOW));
    // a horse of another color on the start cell does not help
    game.set_cell(4, Cell::RED);
    assert!(!game.can_place_horse(Cell::YELLOW));
}

#[test]
fn can_place_horse_minds_a_full_stable() {
    let mut game = Game::create(8, usize::MAX, 2, 1);
    assert!(game.can_place_horse(Cell::YELLOW));
    game.set_cell(4, Cell::RED);
    // the red horse on yellow's start cell cannot be counted back in
    assert!(!game.can_place_horse(Cell::YELLOW));
    assert!(!game.can_kick_horse(4));
    game.set_cell(4, Cell::YELLOW);
    assert!(!game.can_place_horse(Cell::YELLOW));
}

// ---- kick_horse ----

#[test]
fn kick_returns_the_horse_and_nothing_else() {
    let mut game = Game::new();
    game.set_cell(10, Cell::BLUE);
    game.set_cell(11, Cell::BLUE);
    game.set_cell(12, Cell::RED);
    game.kick_horse(11);
    let mut expected = vec![Cell::EMPTY; NB_CELLS];
    expected[10] = Cell::BLUE;
    expected[12] = Cell::RED;
    assert_eq!(game.board(), &expected);
    assert_eq!(game.stables(), &vec![2, 2, 2, 3]);
    assert_eq!(game.stairs(), &vec![vec![false; NB_STAIRS]; 4]);
}

#[test]
fn kick_of_an_empty_cell_changes_nothing() {
    let mut game = Game::new();
    game.place_horse(Cell::RED);
    game.set_cell(55, Cell::RED);
    game.move_horse(55, 3);
    let before = snapshot(&game);
    game.kick_horse(5);
    assert_eq!(snapshot(&game), before);
}

#[test]
fn can_kick_horse_says_when() {
    let mut game = Game::new();
    game.place_horse(Cell::RED);
    assert!(game.can_kick_horse(0));
    assert!(game.can_kick_horse(1));
    assert!(game.can_kick_horse(NB_CELLS - 1));
    assert!(!game.can_kick_horse(NB_CELLS));
    assert!(!game.can_kick_horse(usize::MAX));
}

// ---- move_horse ----

#[test]
fn move_from_an_empty_cell_changes_nothing() {
    let mut game = Game::new();
    game.place_horse(Cell::RED);
    game.place_horse(Cell::BLUE);
    game.set_cell(13, Cell::YELLOW);
    game.move_horse(13, 4);
    let before = snapshot(&game);
    for &(index, distance) in [(4usize, 3usize), (1, 55), (55, 1), (13, 0), (20, usize::MAX)].iter() {
        assert!(game.can_move_horse(index, distance));
        game.move_horse(index, distance);
        assert_eq!(snapshot(&game), before);
    }
}

#[test]
fn move_clears_the_cell_it_starts_from() {
    let mut game = Game::new();
    game.place_horse(Cell::GREEN);
    game.move_horse(28, 6);
    let mut expected = vec![Cell::EMPTY; NB_CELLS];
    expected[34] = Cell::GREEN;
    assert_eq!(game.board(), &expected);
    assert_eq!(game.stables(), &vec![2, 2, 1, 2]);
    assert_eq!(game.stairs(), &vec![vec![false; NB_STAIRS]; 4]);
}

#[test]
fn last_cell_wraps_to_the_first() {
    for &color in [Cell::YELLOW, Cell::GREEN, Cell::BLUE].iter() {
        let mut game = Game::new();
        game.set_cell(NB_CELLS - 1, color);
        game.move_horse(NB_CELLS - 1, 1);
        assert_eq!(game.cell_at(0), color);
        assert_eq!(game.cell_at(NB_CELLS - 1), Cell::EMPTY);
    }
    let mut game = Game::create(12, 2, 3, 2);
    game.set_cell(11, Cell::GREEN);
    game.move_horse(11, 1);
    assert_eq!(game.cell_at(0), Cell::GREEN);
}

#[test]
fn last_cell_is_the_stairway_entry_of_the_first_color() {
    let mut game = Game::new();
    game.set_cell(NB_CELLS - 1, Cell::RED);
    game.move_horse(NB_CELLS - 1, 1);
    assert_eq!(game.cell_at(0), Cell::EMPTY);
    assert_eq!(game.cell_at(NB_CELLS - 1), Cell::EMPTY);
    assert_eq!(game.stairs()[0], vec![true, false, false, false, false, false]);
}

#[test]
fn move_goes_round_the_ring_as_often_as_asked() {
    let mut game = Game::new();
    game.set_cell(20, Cell::YELLOW);
    game.move_horse(20, 3 * NB_CELLS + 5);
    assert_eq!(game.cell_at(25), Cell::YELLOW);
    assert_eq!(game.cell_at(20), Cell::EMPTY);
    let expected = ((25u128 + usize::MAX as u128) % 56) as usize;
    assert!(game.can_move_horse(25, usize::MAX));
    game.move_horse(25, usize::MAX);
    assert_eq!(game.cell_at(expected), Cell::YELLOW);
    assert_eq!(game.board().iter().filter(|&&cell| cell != Cell::EMPTY).count(), 1);
}

#[test]
fn move_of_a_whole_lap_loses_the_horse() {
    let mut game = Game::new();
    game.set_cell(20, Cell::YELLOW);
    game.move_horse(20, NB_CELLS);
    assert_eq!(game.board(), &vec![Cell::EMPTY; NB_CELLS]);
    assert_eq!(game.stables(), &vec![2, 2, 2, 2]);
}

#[test]
fn landing_on_another_color_kicks_it() {
    let mut game = Game::new();
    game.set_cell(30, Cell::BLUE);
    game.set_cell(36, Cell::GREEN);
    game.move_horse(30, 6);
    assert_eq!(game.cell_at(36), Cell::BLUE);
    assert_eq!(game.cell_at(30), Cell::EMPTY);
    assert_eq!(game.stables(), &vec![2, 2, 3, 2]);
}

#[test]
fn landing_on_own_color_kicks_nothing() {
    let mut game = Game::new();
    game.set_cell(0, Cell::RED);
    game.set_cell(3, Cell::RED);
    game.move_horse(0, 3);
    assert_eq!(game.cell_at(3), Cell::RED);
    assert_eq!(game.cell_at(0), Cell::EMPTY);
    assert_eq!(game.stables(), &vec![2, 2, 2, 2]);
}

#[test]
fn landing_after_the_turn_kicks_too() {
    let mut game = Game::new();
    game.set_cell(12, Cell::YELLOW);
    game.set_cell(11, Cell::GREEN);
    game.move_horse(12, 3);
    assert_eq!(game.cell_at(11), Cell::YELLOW);
    assert_eq!(game.cell_at(12), Cell::EMPTY);
    assert_eq!(game.cell_at(15), Cell::EMPTY);
    assert_eq!(game.stables(), &vec![2, 2, 3, 2]);
}

#[test]
fn passing_the_entry_turns_the_horse_back() {
    for &color in COLORS.iter() {
        let mut game = Game::new();
        let entry = game.get_stair_index(color);
        // five from three cells before the entry: two beyond it, so two before it
        game.set_cell(entry - 3, color);
        game.move_horse(entry - 3, 5);
        let mut expected = vec![Cell::EMPTY; NB_CELLS];
        expected[entry - 2] = color;
        assert_eq!(game.board(), &expected);
        assert_eq!(game.stairs(), &vec![vec![false; NB_STAIRS]; 4]);
    }
}

#[test]
fn three_from_the_cell_before_the_entry() {
    for &color in COLORS.iter() {
        let mut game = Game::new();
        let entry = game.get_stair_index(color);
        game.set_cell(entry - 1, color);
        game.move_horse(entry - 1, 3);
        assert_eq!(game.cell_at(entry - 2), color);
        assert_eq!(game.cell_at(entry - 1), Cell::EMPTY);
        assert_eq!(game.cell_at((entry + 2) % NB_CELLS), Cell::EMPTY);
        assert_eq!(game.stairs(), &vec![vec![false; NB_STAIRS]; 4]);
    }
}

#[test]
fn turned_back_onto_its_own_cell_the_horse_is_lost() {
    let mut game = Game::new();
    game.set_cell(12, Cell::YELLOW);
    game.move_horse(12, 2);
    assert_eq!(game.board(), &vec![Cell::EMPTY; NB_CELLS]);
    assert_eq!(game.stables(), &vec![2, 2, 2, 2]);
}

#[test]
fn reaching_the_entry_exactly_is_no_turn() {
    let mut game = Game::new();
    game.set_cell(10, Cell::YELLOW);
    game.move_horse(10, 3);
    assert_eq!(game.cell_at(13), Cell::YELLOW);
    // another color walks past that entry
    game.set_cell(12, Cell::GREEN);
    game.move_horse(12, 3);
    assert_eq!(game.cell_at(15), Cell::GREEN);
}

#[test]
fn from_the_entry_the_horse_climbs_to_its_slot() {
    for &color in COLORS.iter() {
        for distance in 1..=NB_STAIRS {
            let mut game = Game::new();
            let entry = game.get_stair_index(color);
            game.set_cell(entry, color);
            game.move_horse(entry, distance);
            let mut expected = vec![vec![false; NB_STAIRS]; 4];
            expected[color as usize][distance - 1] = true;
            assert_eq!(game.stairs(), &expected);
            assert_eq!(game.board(), &vec![Cell::EMPTY; NB_CELLS]);
            assert_eq!(game.stables(), &vec![2, 2, 2, 2]);
        }
    }
}

#[test]
fn slots_fill_up_one_by_one() {
    let mut game = Game::new();
    for &distance in [2usize, 6, 2].iter() {
        game.set_cell(27, Cell::GREEN);
        game.move_horse(27, distance);
    }
    assert_eq!(game.stairs()[2], vec![false, true, false, false, false, true]);
}

#[test]
fn destination_follows_the_ring_or_turns_back() {
    let mut game = Game::new();
    game.set_cell(10, Cell::YELLOW);
    game.set_cell(20, Cell::YELLOW);
    game.set_cell(50, Cell::RED);
    // up to the entry on cell 13, and turned back beyond it
    assert_eq!(game.destination(10, 1), 11);
    assert_eq!(game.destination(10, 3), 13);
    assert_eq!(game.destination(10, 4), 12);
    assert_eq!(game.destination(10, 6), 10);
    assert_eq!(game.destination(10, 16), 0);
    // past the entry already: on along the ring, and round it
    assert_eq!(game.destination(20, 6), 26);
    assert_eq!(game.destination(20, 35), 55);
    assert_eq!(game.destination(20, 36), 0);
    assert_eq!(game.destination(20, 56), 20);
    assert_eq!(game.destination(20, 150), 2);
    // the first color is turned back at the last cell
    assert_eq!(game.destination(50, 5), 55);
    assert_eq!(game.destination(50, 6), 54);
    assert_eq!(game.destination(50, 60), 0);
}

#[test]
fn can_move_horse_says_when() {
    let mut game = Game::new();
    game.set_cell(12, Cell::YELLOW);
    game.set_cell(13, Cell::YELLOW);
    game.set_cell(5, Cell::YELLOW);
    // off the track
    assert!(!game.can_move_horse(NB_CELLS, 1));
    assert!(!game.can_move_horse(usize::MAX, 1));
    // nothing to move: any distance will do
    assert!(game.can_move_horse(40, 0));
    // a horse does not move by nothing
    assert!(!game.can_move_horse(12, 0));
    assert!(!game.can_move_horse(13, 0));
    // from the entry, up to the length of the stairway
    assert!(game.can_move_horse(13, 1));
    assert!(game.can_move_horse(13, 6));
    assert!(!game.can_move_horse(13, 7));
    // turned back, but no further than cell 0
    assert!(game.can_move_horse(12, 14));
    assert!(!game.can_move_horse(12, 15));
    assert!(!game.can_move_horse(12, usize::MAX));
    assert!(game.can_move_horse(5, 21));
    assert!(!game.can_move_horse(5, 22));
    // the last move that is allowed lands on cell 0
    game.move_horse(5, 21);
    assert_eq!(game.cell_at(0), Cell::YELLOW);
}

#[test]
fn can_move_horse_minds_a_full_stable() {
    let mut game = Game::create(8, usize::MAX, 2, 1);
    game.set_cell(0, Cell::RED);
    game.set_cell(2, Cell::YELLOW);
    game.set_cell(3, Cell::RED);
    assert!(!game.can_move_horse(0, 2));
    assert!(game.can_move_horse(0, 3));
    assert!(game.can_move_horse(0, 1));
}

// ---- run ----

#[test]
fn run_places_one_horse_of_each_color() {
    let mut game = Game::new();
    assert!(game.can_run());
    game.run();
    let mut expected = vec![Cell::EMPTY; NB_CELLS];
    expected[0] = Cell::RED;
    expected[14] = Cell::YELLOW;
    expected[28] = Cell::GREEN;
    expected[42] = Cell::BLUE;
    assert_eq!(game.board(), &expected);
    assert_eq!(game.stables(), &vec![1, 1, 1, 1]);
    assert_eq!(game.stairs(), &vec![vec![false; NB_STAIRS]; 4]);
    // the horses that stand on the start cells go back and out again
    assert!(game.can_run());
    game.run();
    assert_eq!(game.board(), &expected);
    assert_eq!(game.stables(), &vec![1, 1, 1, 1]);
}

#[test]
fn run_with_fewer_colors() {
    let mut game = Game::create(12, 1, 3, 2);
    assert!(game.can_run());
    game.run();
    let mut expected = vec![Cell::EMPTY; 12];
    expected[0] = Cell::RED;
    expected[4] = Cell::YELLOW;
    expected[8] = Cell::GREEN;
    assert_eq!(game.board(), &expected);
    assert_eq!(game.stables(), &vec![0, 0, 0]);
}

#[test]
fn can_run_says_when() {
    let game = Game::create(8, 0, 2, 1);
    assert!(!game.can_run());
    let mut game = Game::create(8, 1, 2, 1);
    assert!(game.can_run());
    game.run();
    assert!(game.can_run());
    game.move_horse(4, 1);
    assert!(!game.can_run());
    // a red horse on yellow's start cell comes back in time for red's turn only
    let mut game = Game::create(8, 1, 2, 1);
    game.place_horse(Cell::RED);
    game.move_horse(0, 4);
    assert!(!game.can_run());
    game.place_horse(Cell::YELLOW);
    game.move_horse(4, 4);
    assert_eq!(game.stables(), &vec![1, 0]);
    assert_eq!(game.cell_at(0), Cell::YELLOW);
    // red kicks yellow from cell 0, and yellow has a horse again for its turn
    assert!(game.can_run());
    game.run();
    assert_eq!(game.cell_at(0), Cell::RED);
    assert_eq!(game.cell_at(4), Cell::YELLOW);
    assert_eq!(game.stables(), &vec![0, 0]);
}

// ---- a long game ----

#[test]
fn a_long_game_keeps_its_shape_and_makes_no_horses() {
    let mut game = Game::new();
    let mut seed: u64 = 0x2545_F491_4F6C_DD1D;
    let mut next = move || {
        seed ^= seed << 13;
        seed ^= seed >> 7;
        seed ^= seed << 17;
        seed
    };
    let horses = |game: &Game| {
        let on_track = game.board().iter().filter(|&&cell| cell != Cell::EMPTY).count();
        let waiting: usize = game.stables().iter().sum();
        let climbed = game.stairs().iter().flatten().filter(|&&slot| slot).count();
        on_track + waiting + climbed
    };
    let mut before = horses(&game);
    assert_eq!(before, 4 * NB_START_HORSES);
    let mut moves = 0;
    for _ in 0..20_000 {
        match next() % 8 {
            0 => {
                let color = COLORS[(next() % 4) as usize];
                if game.can_place_horse(color) {
                    game.place_horse(color);
                    assert_eq!(game.cell_at(game.start_index(color)), color);
                }
            }
            1 => {
                let index = (next() % NB_CELLS as u64) as usize;
                assert!(game.can_kick_horse(index));
                game.kick_horse(index);
                assert_eq!(game.cell_at(index), Cell::EMPTY);
            }
            _ => {
                let index = (next() % NB_CELLS as u64) as usize;
                let thrown = game.roll_dice();
                if game.can_move_horse(index, thrown) {
                    let moved = game.cell_at(index) != Cell::EMPTY;
                    game.move_horse(index, thrown);
                    assert_eq!(game.cell_at(index), Cell::EMPTY);
                    if moved {
                        moves += 1;
                    }
                }
            }
        }
        assert_eq!(game.track_length(), NB_CELLS);
        assert_eq!(game.colors(), NB_MAX_PLAYERS);
        assert_eq!(game.stairway_length(), NB_STAIRS);
        assert!(game.stairs().iter().all(|stairway| stairway.len() == NB_STAIRS));
        let after = horses(&game);
        assert!(after <= before);
        before = after;
    }
    assert!(moves > 0);
}
