//! Setting up the puzzles of a map.

use crate::map::TileMap;
use crate::piece::Piece;
use crate::puzzle::{Puzzle, PuzzleIdFactory, Puzzles, SlotSpawn};
use vstd::prelude::*;

verus! {

/// Sets up a puzzle on every tower plot of the map, in row-major order. Each
/// puzzle gets the next free identifier and four pieces drawn by chance, and
/// starts with no slot filled. Returns the orders that put the slots on the
/// screen: four for each new puzzle, by rising slot index, puzzle after
/// puzzle.
pub fn set_tower_puzzles(
    puzzle_ids: &mut PuzzleIdFactory,
    puzzles: &mut Puzzles,
    map: &TileMap,
) -> (spawns: Vec<SlotSpawn>)
    requires
        old(puzzle_ids).next() + map.tower_plots().len() <= usize::MAX,
    ensures
        final(puzzle_ids).next() == old(puzzle_ids).next() + map.tower_plots().len(),
        final(puzzles)@.len() == old(puzzles)@.len() + map.tower_plots().len(),
        final(puzzles)@.subrange(0, old(puzzles)@.len() as int) == old(puzzles)@,
        forall|j: int|
            old(puzzles)@.len() <= j < final(puzzles)@.len() ==> {
                let puzzle = #[trigger] final(puzzles)@[j];
                &&& puzzle.id == old(puzzle_ids).next() + (j - old(puzzles)@.len())
                &&& puzzle.coordinate == map.tower_plots()[j - old(puzzles)@.len()]
                &&& puzzle.filled == 0
            },
        spawns@.len() == 4 * map.tower_plots().len(),
        forall|s: int|
            0 <= s < spawns@.len() ==> #[trigger] spawns@[s] == final(puzzles)@[old(puzzles)@.len()
                + s / 4].slot_spawn(s % 4),
        old(puzzles).issued_by(old(puzzle_ids)) ==> final(puzzles).issued_by(final(puzzle_ids)),
{
    let plots = map.find_tower_plots();
    let mut spawns: Vec<SlotSpawn> = Vec::new();
    let ghost first_id = puzzle_ids.next();
    let ghost before = puzzles@;
    let mut done: usize = 0;
    while done < plots.len()
        invariant
            done <= plots.len(),
            plots@ == map.tower_plots(),
            first_id + plots.len() <= usize::MAX,
            puzzle_ids.next() == first_id + done,
            puzzles@.len() == before.len() + done,
            puzzles@.subrange(0, before.len() as int) == before,
            forall|j: int|
                before.len() <= j < puzzles@.len() ==> {
                    let puzzle = #[trigger] puzzles@[j];
                    &&& puzzle.id == first_id + (j - before.len())
                    &&& puzzle.coordinate == plots@[j - before.len()]
                    &&& puzzle.filled == 0
                },
            spawns@.len() == 4 * done,
            forall|s: int|
                0 <= s < spawns@.len() ==> #[trigger] spawns@[s] == puzzles@[before.len() + s
                    / 4].slot_spawn(s % 4),
        decreases plots.len() - done,
    {
        let id = puzzle_ids.get_next_id();
        let pieces = [Piece::random(), Piece::random(), Piece::random(), Piece::random()];
        let ghost earlier = puzzles@;
        let ghost laid = spawns@;
        let mut slots = puzzles.add_puzzle(id, plots[done], pieces);
        spawns.append(&mut slots);
        proof {
            let puzzle = Puzzle { id, coordinate: plots@[done as int], pieces, filled: 0 };
            lemma_spawns_extend(before.len() as int, earlier, laid, puzzle);
            assert(puzzles@.subrange(0, before.len() as int) == before) by {
                assert(earlier.subrange(0, before.len() as int) == before);
            }
        }
        done += 1;
    }
    proof {
        if old(puzzles).issued_by(old(puzzle_ids)) {
            lemma_fresh_ids(before, puzzles@, first_id as int);
        }
    }
    spawns
}

/// Laying the four slots of one more puzzle keeps the orders in step with
/// the puzzles: the order at place `s` belongs to slot `s % 4` of the puzzle
/// `s / 4` places after the first new one.
proof fn lemma_spawns_extend(
    first: int,
    earlier: Seq<Puzzle>,
    laid: Seq<SlotSpawn>,
    puzzle: Puzzle,
)
    requires
        0 <= first <= earlier.len(),
        laid.len() == 4 * (earlier.len() - first),
        forall|s: int|
            0 <= s < laid.len() ==> #[trigger] laid[s] == earlier[first + s / 4].slot_spawn(s % 4),
    ensures
        (laid + puzzle.slot_spawns()).len() == 4 * (earlier.len() + 1 - first),
        forall|s: int|
            0 <= s < laid.len() + 4 ==> #[trigger] (laid + puzzle.slot_spawns())[s]
                == earlier.push(puzzle)[first + s / 4].slot_spawn(s % 4),
{
    let all = laid + puzzle.slot_spawns();
    let done = earlier.len() - first;
    assert forall|s: int| 0 <= s < laid.len() + 4 implies #[trigger] all[s] == earlier.push(
        puzzle,
    )[first + s / 4].slot_spawn(s % 4) by {
        if s < laid.len() {
            assert(all[s] == laid[s]);
            assert(s / 4 < done);
            assert(earlier.push(puzzle)[first + s / 4] == earlier[first + s / 4]);
        } else {
            assert(s / 4 == done && s % 4 == s - 4 * done);
            assert(all[s] == puzzle.slot_spawns()[s - laid.len()]);
            assert(earlier.push(puzzle)[first + s / 4] == puzzle);
        }
    }
}

/// Puzzles that carry distinct identifiers below `first_id` stay distinct
/// when puzzles numbered from `first_id` on are put behind them.
proof fn lemma_fresh_ids(before: Seq<Puzzle>, after: Seq<Puzzle>, first_id: int)
    requires
        before.len() <= after.len(),
        after.subrange(0, before.len() as int) == before,
        forall|i: int| 0 <= i < before.len() ==> (#[trigger] before[i]).id < first_id,
        forall|i: int, j: int|
            0 <= i < j < before.len() ==> (#[trigger] before[i]).id != (#[trigger] before[j]).id,
        forall|j: int|
            before.len() <= j < after.len() ==> (#[trigger] after[j]).id == first_id + (j
                - before.len()),
    ensures
        forall|i: int|
            0 <= i < after.len() ==> (#[trigger] after[i]).id < first_id + (after.len()
                - before.len()),
        forall|i: int, j: int|
            0 <= i < j < after.len() ==> (#[trigger] after[i]).id != (#[trigger] after[j]).id,
{
    assert forall|i: int| 0 <= i < before.len() implies #[trigger] after[i] == before[i] by {
        assert(after.subrange(0, before.len() as int)[i] == after[i]);
    }
    assert forall|i: int| 0 <= i < after.len() implies (#[trigger] after[i]).id < first_id + (
    after.len() - before.len()) by {
        if i < before.len() {
            assert(after[i] == before[i]);
        }
    }
    assert forall|i: int, j: int| 0 <= i < j < after.len() implies (#[trigger] after[i]).id != (
    #[trigger] after[j]).id by {
        if i < before.len() {
            assert(after[i] == before[i]);
        }
        if j < before.len() {
            assert(after[j] == before[j]);
        }
    }
}

} // verus!
