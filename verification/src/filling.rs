//! Counting the slots that received their piece.

use crate::puzzle::{
    fill_one, first_with, holds_id, lemma_fill_one, lemma_first_with_exists,
    lemma_first_with_unique, Puzzle, PuzzleSlot, Puzzles,
};
use vstd::prelude::*;

verus! {

/// The puzzles after the given slots were filled, one after the other.
pub open spec fn fill_all(puzzles: Seq<Puzzle>, slots: Seq<PuzzleSlot>) -> Seq<Puzzle>
    decreases slots.len(),
{
    if slots.len() == 0 {
        puzzles
    } else {
        fill_one(fill_all(puzzles, slots.drop_last()), slots.last().puzzle_id)
    }
}

/// Whether the slots can all be counted: each belongs to a puzzle that is
/// there, and no count of filled slots would leave the range of its type.
pub open spec fn fillable(puzzles: Seq<Puzzle>, slots: Seq<PuzzleSlot>) -> bool {
    &&& forall|k: int| 0 <= k < slots.len() ==> holds_id(puzzles, (#[trigger] slots[k]).puzzle_id)
    &&& forall|j: int|
        0 <= j < puzzles.len() ==> (#[trigger] puzzles[j]).filled + slots.len() <= usize::MAX
}

/// How many of the slots count on the puzzle at `place`: those whose
/// identifier is first carried by that puzzle.
pub open spec fn counted_on(puzzles: Seq<Puzzle>, slots: Seq<PuzzleSlot>, place: int) -> nat
    decreases slots.len(),
{
    if slots.len() == 0 {
        0
    } else {
        let before = counted_on(puzzles, slots.drop_last(), place);
        if first_with(puzzles, slots.last().puzzle_id) == place {
            before + 1
        } else {
            before
        }
    }
}

/// Filling slots never adds or removes a puzzle and never changes a puzzle's
/// identifier, cell or pieces. Each puzzle's count of filled slots rises by
/// the number of slots that count on it, which is at most the number of
/// slots filled.
pub proof fn lemma_fill_all(puzzles: Seq<Puzzle>, slots: Seq<PuzzleSlot>)
    requires
        fillable(puzzles, slots),
    ensures
        fill_all(puzzles, slots).len() == puzzles.len(),
        forall|j: int|
            0 <= j < puzzles.len() ==> {
                let after = #[trigger] fill_all(puzzles, slots)[j];
                &&& after.id == puzzles[j].id
                &&& after.coordinate == puzzles[j].coordinate
                &&& after.pieces == puzzles[j].pieces
                &&& after.filled == puzzles[j].filled + counted_on(puzzles, slots, j)
                &&& counted_on(puzzles, slots, j) <= slots.len()
            },
    decreases slots.len(),
{
    if slots.len() > 0 {
        let shorter = slots.drop_last();
        let id = slots.last().puzzle_id;
        assert forall|k: int| 0 <= k < shorter.len() implies holds_id(
            puzzles,
            (#[trigger] shorter[k]).puzzle_id,
        ) by {
            assert(shorter[k] == slots[k]);
        }
        lemma_fill_all(puzzles, shorter);
        let earlier = fill_all(puzzles, shorter);
        lemma_same_ids(puzzles, earlier, id);
        lemma_fill_one(earlier, id);
        assert forall|j: int| 0 <= j < puzzles.len() implies {
            let after = #[trigger] fill_all(puzzles, slots)[j];
            &&& after.id == puzzles[j].id
            &&& after.coordinate == puzzles[j].coordinate
            &&& after.pieces == puzzles[j].pieces
            &&& after.filled == puzzles[j].filled + counted_on(puzzles, slots, j)
            &&& counted_on(puzzles, slots, j) <= slots.len()
        } by {
            assert(fill_all(puzzles, slots)[j] == fill_one(earlier, id)[j]);
            assert(earlier[j].filled == puzzles[j].filled + counted_on(puzzles, shorter, j));
        }
    }
}

/// Tests whether the slots can all be counted on these puzzles.
pub fn can_fill(puzzles: &Puzzles, to_fill: &Vec<PuzzleSlot>) -> (can: bool)
    ensures
        can == fillable(puzzles@, to_fill@),
{
    let mut k: usize = 0;
    while k < to_fill.len()
        invariant
            k <= to_fill@.len(),
            forall|i: int| 0 <= i < k ==> holds_id(puzzles@, (#[trigger] to_fill@[i]).puzzle_id),
        decreases to_fill@.len() - k,
    {
        if puzzles.find(to_fill[k].puzzle_id).is_none() {
            return false;
        }
        k += 1;
    }
    let mut j: usize = 0;
    while j < puzzles.len()
        invariant
            j <= puzzles@.len(),
            forall|i: int|
                0 <= i < j ==> (#[trigger] puzzles@[i]).filled + to_fill@.len() <= usize::MAX,
        decreases puzzles@.len() - j,
    {
        match puzzles.get(j) {
            Some(puzzle) => {
                if puzzle.filled > usize::MAX - to_fill.len() {
                    return false;
                }
            },
            None => {},
        }
        j += 1;
    }
    true
}

/// What becomes of a slot that received its piece.
#[derive(Debug, Clone, Copy, PartialEq, Eq, Structural)]
pub struct SlotRefill {
    /// The slot as it is put back on the screen: filled.
    pub slot: PuzzleSlot,
    /// Whether this slot was the one that brought its puzzle to four filled
    /// slots.
    pub completed: bool,
}

/// Takes the slots that received a piece since the last frame, in the order
/// in which the host lists them. Each is to be put back on the screen as a
/// filled slot, and counts once on the oldest puzzle that carries its
/// identifier. A slot is reported as completing when its puzzle then stands
/// at four.
pub fn update_puzzle_slots(puzzles: &mut Puzzles, to_fill: &Vec<PuzzleSlot>) -> (refills: Vec<
    SlotRefill,
>)
    requires
        fillable(old(puzzles)@, to_fill@),
    ensures
        final(puzzles)@ == fill_all(old(puzzles)@, to_fill@),
        final(puzzles)@.len() == old(puzzles)@.len(),
        forall|j: int|
            0 <= j < old(puzzles)@.len() ==> #[trigger] final(puzzles)@[j] == (Puzzle {
                filled: (old(puzzles)@[j].filled + counted_on(old(puzzles)@, to_fill@, j)) as usize,
                ..old(puzzles)@[j]
            }),
        refills@.len() == to_fill@.len(),
        forall|k: int|
            0 <= k < to_fill@.len() ==> {
                let refill = #[trigger] refills@[k];
                let place = first_with(old(puzzles)@, to_fill@[k].puzzle_id);
                &&& refill.slot == to_fill@[k].as_filled()
                &&& refill.completed == (old(puzzles)@[place].filled + counted_on(
                    old(puzzles)@,
                    to_fill@.take(k + 1),
                    place,
                ) == 4)
            },
{
    let mut refills: Vec<SlotRefill> = Vec::new();
    let ghost before = puzzles@;
    let mut done: usize = 0;
    while done < to_fill.len()
        invariant
            done <= to_fill@.len(),
            puzzles@ == fill_all(before, to_fill@.take(done as int)),
            puzzles@.len() == before.len(),
            forall|j: int|
                0 <= j < before.len() ==> {
                    &&& (#[trigger] puzzles@[j]).id == before[j].id
                    &&& puzzles@[j].filled <= before[j].filled + done
                },
            forall|k: int|
                0 <= k < to_fill@.len() ==> holds_id(before, (#[trigger] to_fill@[k]).puzzle_id),
            forall|j: int|
                0 <= j < before.len() ==> (#[trigger] before[j]).filled + to_fill@.len()
                    <= usize::MAX,
            refills@.len() == done,
            forall|k: int|
                0 <= k < done ==> {
                    let refill = #[trigger] refills@[k];
                    let now = fill_all(before, to_fill@.take(k + 1));
                    &&& refill.slot == to_fill@[k].as_filled()
                    &&& refill.completed == (now[first_with(now, to_fill@[k].puzzle_id)].filled
                        == 4)
                },
        decreases to_fill@.len() - done,
    {
        let slot = &to_fill[done];
        let ghost earlier = puzzles@;
        proof {
            lemma_same_ids(before, earlier, slot.puzzle_id);
            lemma_first_with_exists(earlier, slot.puzzle_id);
            lemma_fill_one(earlier, slot.puzzle_id);
            assert(to_fill@.take(done + 1).drop_last() == to_fill@.take(done as int));
        }
        let completed = puzzles.record_fill(slot.puzzle_id);
        proof {
            lemma_same_ids(earlier, puzzles@, slot.puzzle_id);
        }
        refills.push(SlotRefill { slot: slot.filled_in(), completed });
        done += 1;
    }
    proof {
        assert(to_fill@.take(to_fill@.len() as int) == to_fill@);
        lemma_fill_all(before, to_fill@);
        assert forall|k: int| 0 <= k < to_fill@.len() implies {
            let refill = #[trigger] refills@[k];
            let place = first_with(before, to_fill@[k].puzzle_id);
            refill.completed == (before[place].filled + counted_on(
                before,
                to_fill@.take(k + 1),
                place,
            ) == 4)
        } by {
            let upto = to_fill@.take(k + 1);
            let id = to_fill@[k].puzzle_id;
            assert forall|i: int| 0 <= i < upto.len() implies holds_id(
                before,
                (#[trigger] upto[i]).puzzle_id,
            ) by {
                assert(upto[i] == to_fill@[i]);
            }
            lemma_fill_all(before, upto);
            lemma_same_ids(before, fill_all(before, upto), id);
            lemma_first_with_exists(before, id);
        }
    }
    refills
}

/// Two lists of puzzles that agree on the identifiers, place by place, hold
/// the same identifiers, each first at the same place.
proof fn lemma_same_ids(a: Seq<Puzzle>, b: Seq<Puzzle>, id: usize)
    requires
        a.len() == b.len(),
        forall|j: int| 0 <= j < a.len() ==> (#[trigger] b[j]).id == a[j].id,
        holds_id(a, id),
    ensures
        holds_id(b, id),
        first_with(b, id) == first_with(a, id),
{
    lemma_first_with_exists(a, id);
    let first = first_with(a, id);
    assert(b[first].id == id);
    assert forall|j: int| 0 <= j < first implies (#[trigger] b[j]).id != id by {
        assert(a[j].id != id);
    }
    lemma_first_with_unique(b, first, id);
}

} // verus!
