use oicana_rules::enemies::{EnemyColor, EnemyForm};
use oicana_rules::filling::{can_fill, update_puzzle_slots, SlotRefill};
use oicana_rules::map::{Coordinate, Tile, TileMap};
use oicana_rules::piece::Piece;
use oicana_rules::puzzle::{
    slot_offset, Offset, Puzzle, PuzzleIdFactory, PuzzleSlot, Puzzles, SlotSpawn, SLOTS_PER_PUZZLE,
    SLOT_OFFSET,
};
use oicana_rules::setup::set_tower_puzzles;

fn piece(color: EnemyColor, form: EnemyForm) -> Piece {
    Piece { color, form }
}

fn four_pieces() -> [Piece; 4] {
    [
        piece(EnemyColor::Red, EnemyForm::Circle),
        piece(EnemyColor::Blue, EnemyForm::Triangle),
        piece(EnemyColor::Red, EnemyForm::Quadratic),
        piece(EnemyColor::Blue, EnemyForm::Circle),
    ]
}

fn slot_of(puzzle_id: usize) -> PuzzleSlot {
    PuzzleSlot { piece: piece(EnemyColor::Red, EnemyForm::Circle), filled: false, puzzle_id }
}

#[test]
fn identifiers_start_at_zero_and_rise_by_one() {
    let mut ids = PuzzleIdFactory::default();
    assert_eq!(ids.get_next_id(), 0);
    assert_eq!(ids.get_next_id(), 1);
    assert_eq!(ids.get_next_id(), 2);
}

#[test]
fn slots_stand_on_the_corners_of_a_square() {
    assert_eq!(SLOT_OFFSET, 16);
    assert_eq!(SLOTS_PER_PUZZLE, 4);
    assert_eq!(slot_offset(0), Offset { x: -16, y: -16 });
    assert_eq!(slot_offset(1), Offset { x: 16, y: -16 });
    assert_eq!(slot_offset(2), Offset { x: 16, y: 16 });
    assert_eq!(slot_offset(3), Offset { x: -16, y: 16 });
}

#[test]
fn an_index_past_the_last_slot_gives_the_fourth_corner() {
    assert_eq!(slot_offset(4), Offset { x: -16, y: 16 });
    assert_eq!(slot_offset(usize::MAX), Offset { x: -16, y: 16 });
}

#[test]
fn a_new_puzzle_has_no_slot_filled() {
    let at = Coordinate { column: 3, row: 5 };
    let puzzle = Puzzle::new(7, at, four_pieces());
    assert_eq!(puzzle, Puzzle { id: 7, coordinate: at, pieces: four_pieces(), filled: 0 });
}

#[test]
fn a_puzzle_spawns_one_empty_slot_for_each_piece() {
    let at = Coordinate { column: 3, row: 5 };
    let puzzle = Puzzle::new(7, at, four_pieces());
    let spawns = puzzle.spawns();
    assert_eq!(spawns.len(), 4);
    for (index, spawn) in spawns.iter().enumerate() {
        assert_eq!(
            *spawn,
            SlotSpawn {
                coordinate: at,
                offset: slot_offset(index),
                slot: PuzzleSlot { piece: four_pieces()[index], filled: false, puzzle_id: 7 },
            }
        );
    }
    assert_eq!(spawns[2].offset, Offset { x: 16, y: 16 });
    assert_eq!(spawns[2].slot.piece, piece(EnemyColor::Red, EnemyForm::Quadratic));
}

#[test]
fn added_puzzles_keep_their_order() {
    let mut puzzles = Puzzles::new();
    assert_eq!(puzzles.len(), 0);
    assert_eq!(puzzles.get(0), None);
    let first = Coordinate { column: 0, row: 0 };
    let second = Coordinate { column: 2, row: 1 };
    let spawns = puzzles.add_puzzle(4, first, four_pieces());
    assert_eq!(spawns, Puzzle::new(4, first, four_pieces()).spawns());
    puzzles.add_puzzle(9, second, four_pieces());
    assert_eq!(puzzles.len(), 2);
    assert_eq!(puzzles.get(0), Some(Puzzle::new(4, first, four_pieces())));
    assert_eq!(puzzles.get(1), Some(Puzzle::new(9, second, four_pieces())));
    assert_eq!(puzzles.get(2), None);
}

#[test]
fn find_gives_the_oldest_puzzle_with_the_identifier() {
    let mut puzzles = Puzzles::new();
    let at = Coordinate { column: 0, row: 0 };
    puzzles.add_puzzle(4, at, four_pieces());
    puzzles.add_puzzle(9, at, four_pieces());
    puzzles.add_puzzle(4, at, four_pieces());
    assert_eq!(puzzles.find(4), Some(0));
    assert_eq!(puzzles.find(9), Some(1));
    assert_eq!(puzzles.find(5), None);
    assert_eq!(Puzzles::new().find(0), None);
}

#[test]
fn the_fourth_fill_completes_a_puzzle() {
    let mut puzzles = Puzzles::new();
    let at = Coordinate { column: 1, row: 1 };
    puzzles.add_puzzle(0, at, four_pieces());
    puzzles.add_puzzle(1, at, four_pieces());
    assert!(!puzzles.record_fill(1));
    assert!(!puzzles.record_fill(1));
    assert!(!puzzles.record_fill(1));
    assert_eq!(puzzles.get(1).unwrap().filled, 3);
    assert!(puzzles.record_fill(1));
    assert_eq!(puzzles.get(1).unwrap().filled, 4);
    assert_eq!(puzzles.get(0).unwrap().filled, 0);
    assert!(!puzzles.record_fill(1));
    assert_eq!(puzzles.get(1).unwrap().filled, 5);
}

#[test]
fn a_fill_counts_on_the_oldest_puzzle_with_the_identifier() {
    let mut puzzles = Puzzles::new();
    let at = Coordinate { column: 1, row: 1 };
    puzzles.add_puzzle(3, at, four_pieces());
    puzzles.add_puzzle(3, at, four_pieces());
    puzzles.record_fill(3);
    assert_eq!(puzzles.get(0).unwrap().filled, 1);
    assert_eq!(puzzles.get(1).unwrap().filled, 0);
}

#[test]
fn a_filled_copy_keeps_piece_and_puzzle() {
    let slot = PuzzleSlot {
        piece: piece(EnemyColor::Blue, EnemyForm::Quadratic),
        filled: false,
        puzzle_id: 12,
    };
    assert_eq!(
        slot.filled_in(),
        PuzzleSlot {
            piece: piece(EnemyColor::Blue, EnemyForm::Quadratic),
            filled: true,
            puzzle_id: 12,
        }
    );
    assert_eq!(slot.filled_in().filled_in(), slot.filled_in());
    assert!(!slot.filled);
}

#[test]
fn filled_slots_are_counted_in_the_order_given() {
    let mut puzzles = Puzzles::new();
    let at = Coordinate { column: 1, row: 1 };
    puzzles.add_puzzle(0, at, four_pieces());
    puzzles.add_puzzle(1, at, four_pieces());
    for _ in 0..3 {
        puzzles.record_fill(0);
    }
    let to_fill = vec![slot_of(1), slot_of(0), slot_of(1), slot_of(0)];
    let refills = update_puzzle_slots(&mut puzzles, &to_fill);
    assert_eq!(
        refills,
        vec![
            SlotRefill { slot: slot_of(1).filled_in(), completed: false },
            SlotRefill { slot: slot_of(0).filled_in(), completed: true },
            SlotRefill { slot: slot_of(1).filled_in(), completed: false },
            SlotRefill { slot: slot_of(0).filled_in(), completed: false },
        ]
    );
    assert_eq!(puzzles.get(0).unwrap().filled, 5);
    assert_eq!(puzzles.get(1).unwrap().filled, 2);
    assert_eq!(puzzles.get(0).unwrap().id, 0);
    assert_eq!(puzzles.get(1).unwrap().pieces, four_pieces());
}

#[test]
fn no_slot_to_fill_changes_nothing() {
    let mut puzzles = Puzzles::new();
    let at = Coordinate { column: 1, row: 1 };
    puzzles.add_puzzle(0, at, four_pieces());
    let refills = update_puzzle_slots(&mut puzzles, &vec![]);
    assert_eq!(refills, vec![]);
    assert_eq!(puzzles.get(0), Some(Puzzle::new(0, at, four_pieces())));
}

#[test]
fn every_tower_plot_gets_a_puzzle_with_four_slots() {
    let map = TileMap {
        tiles: vec![
            vec![Tile::Empty, Tile::TowerPlot, Tile::Path],
            vec![Tile::TowerPlot, Tile::Path, Tile::TowerPlot],
        ],
    };
    let mut ids = PuzzleIdFactory::default();
    let mut puzzles = Puzzles::new();
    let spawns = set_tower_puzzles(&mut ids, &mut puzzles, &map);
    let cells = [
        Coordinate { column: 1, row: 0 },
        Coordinate { column: 0, row: 1 },
        Coordinate { column: 2, row: 1 },
    ];
    assert_eq!(puzzles.len(), 3);
    assert_eq!(spawns.len(), 12);
    for (i, at) in cells.iter().enumerate() {
        let puzzle = puzzles.get(i).unwrap();
        assert_eq!(puzzle.id, i);
        assert_eq!(puzzle.coordinate, *at);
        assert_eq!(puzzle.filled, 0);
        assert_eq!(spawns[4 * i..4 * i + 4].to_vec(), puzzle.spawns());
        for k in 0..4 {
            let spawn = spawns[4 * i + k];
            assert_eq!(spawn.coordinate, *at);
            assert_eq!(spawn.offset, slot_offset(k));
            assert_eq!(spawn.slot.piece, puzzle.pieces[k]);
            assert_eq!(spawn.slot.puzzle_id, i);
            assert!(!spawn.slot.filled);
        }
    }
    assert_eq!(ids.get_next_id(), 3);
}

#[test]
fn later_puzzles_go_behind_earlier_ones_with_fresh_identifiers() {
    let one_plot = TileMap { tiles: vec![vec![Tile::TowerPlot]] };
    let two_plots = TileMap { tiles: vec![vec![Tile::Path, Tile::TowerPlot], vec![Tile::TowerPlot]] };
    let mut ids = PuzzleIdFactory::default();
    let mut puzzles = Puzzles::new();
    set_tower_puzzles(&mut ids, &mut puzzles, &one_plot);
    let first = puzzles.get(0).unwrap();
    let spawns = set_tower_puzzles(&mut ids, &mut puzzles, &two_plots);
    assert_eq!(puzzles.len(), 3);
    assert_eq!(puzzles.get(0), Some(first));
    assert_eq!(puzzles.get(1).unwrap().id, 1);
    assert_eq!(puzzles.get(1).unwrap().coordinate, Coordinate { column: 1, row: 0 });
    assert_eq!(puzzles.get(2).unwrap().id, 2);
    assert_eq!(puzzles.get(2).unwrap().coordinate, Coordinate { column: 0, row: 1 });
    assert_eq!(spawns.len(), 8);
    assert_eq!(spawns[5].slot.puzzle_id, 2);
    assert_eq!(spawns[5].offset, Offset { x: 16, y: -16 });
    assert_eq!(spawns[5].slot.piece, puzzles.get(2).unwrap().pieces[1]);
}

#[test]
fn a_map_without_plots_sets_up_nothing() {
    let map = TileMap { tiles: vec![vec![Tile::Path, Tile::Empty]] };
    let mut ids = PuzzleIdFactory::default();
    let mut puzzles = Puzzles::new();
    let spawns = set_tower_puzzles(&mut ids, &mut puzzles, &map);
    assert_eq!(spawns, vec![]);
    assert_eq!(puzzles.len(), 0);
    assert_eq!(ids.get_next_id(), 0);
}

#[test]
fn a_fresh_factory_has_room_for_any_number_of_identifiers() {
    let ids = PuzzleIdFactory::default();
    assert!(ids.has_room_for(0));
    assert!(ids.has_room_for(1));
    assert!(ids.has_room_for(usize::MAX));
}

#[test]
fn each_identifier_handed_out_leaves_room_for_one_less() {
    let mut ids = PuzzleIdFactory::default();
    ids.get_next_id();
    assert!(ids.has_room_for(usize::MAX - 1));
    assert!(!ids.has_room_for(usize::MAX));
    ids.get_next_id();
    assert!(ids.has_room_for(usize::MAX - 2));
    assert!(!ids.has_room_for(usize::MAX - 1));
}

#[test]
fn slots_of_known_puzzles_can_be_filled() {
    let mut puzzles = Puzzles::new();
    let at = Coordinate { column: 1, row: 1 };
    puzzles.add_puzzle(0, at, four_pieces());
    puzzles.add_puzzle(1, at, four_pieces());
    assert!(can_fill(&puzzles, &vec![]));
    assert!(can_fill(&puzzles, &vec![slot_of(1), slot_of(0), slot_of(1)]));
    assert!(can_fill(&Puzzles::new(), &vec![]));
}

#[test]
fn a_slot_of_an_unknown_puzzle_cannot_be_filled() {
    let mut puzzles = Puzzles::new();
    let at = Coordinate { column: 1, row: 1 };
    puzzles.add_puzzle(0, at, four_pieces());
    assert!(!can_fill(&puzzles, &vec![slot_of(0), slot_of(2)]));
    assert!(!can_fill(&Puzzles::new(), &vec![slot_of(0)]));
}

#[test]
fn each_puzzle_counts_the_slots_that_carry_its_identifier() {
    let mut puzzles = Puzzles::new();
    let at = Coordinate { column: 0, row: 0 };
    puzzles.add_puzzle(0, at, four_pieces());
    puzzles.add_puzzle(1, at, four_pieces());
    puzzles.add_puzzle(2, at, four_pieces());
    let to_fill = vec![slot_of(2), slot_of(0), slot_of(2), slot_of(2), slot_of(2)];
    let refills = update_puzzle_slots(&mut puzzles, &to_fill);
    assert_eq!(puzzles.get(0).unwrap().filled, 1);
    assert_eq!(puzzles.get(1).unwrap().filled, 0);
    assert_eq!(puzzles.get(2).unwrap().filled, 4);
    let completed: Vec<bool> = refills.iter().map(|refill| refill.completed).collect();
    assert_eq!(completed, vec![false, false, false, false, true]);
}
