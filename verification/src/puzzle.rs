//! Puzzles: four slots around each tower plot, each waiting for one piece.

use crate::map::Coordinate;
use crate::piece::Piece;
use vstd::prelude::*;

verus! {

/// How far, in world units, a slot stands from the centre of its puzzle along
/// each axis.
pub const SLOT_OFFSET: i32 = 16;

/// The number of slots of a puzzle.
pub const SLOTS_PER_PUZZLE: usize = 4;

/// Hands out puzzle identifiers in rising order, starting at zero.
pub struct PuzzleIdFactory {
    next_id: usize,
}

impl PuzzleIdFactory {
    /// The identifier that the next call of `get_next_id` returns.
    pub closed spec fn next(&self) -> nat {
        self.next_id as nat
    }

    /// Whether `count` more identifiers can be handed out before they run
    /// out.
    pub fn has_room_for(&self, count: usize) -> (room: bool)
        ensures
            room == (self.next() + count <= usize::MAX),
    {
        count <= usize::MAX - self.next_id
    }

    /// Returns the current identifier and moves on to the following one.
    pub fn get_next_id(&mut self) -> (id: usize)
        requires
            old(self).next() < usize::MAX,
        ensures
            id == old(self).next(),
            final(self).next() == old(self).next() + 1,
    {
        self.next_id += 1;
        self.next_id - 1
    }
}

impl Default for PuzzleIdFactory {
    fn default() -> (factory: PuzzleIdFactory)
        ensures
            factory.next() == 0,
    {
        PuzzleIdFactory { next_id: 0 }
    }
}

/// One slot of a puzzle.
#[derive(Debug, Clone, Copy, PartialEq, Eq, Structural)]
pub struct PuzzleSlot {
    pub piece: Piece,
    pub filled: bool,
    pub puzzle_id: usize,
}

impl PuzzleSlot {
    /// The same slot, filled.
    pub open spec fn as_filled(self) -> PuzzleSlot {
        PuzzleSlot { filled: true, ..self }
    }

    /// A copy of this slot that is marked as filled.
    pub fn filled_in(&self) -> (slot: PuzzleSlot)
        ensures
            slot == self.as_filled(),
    {
        PuzzleSlot { piece: self.piece, filled: true, puzzle_id: self.puzzle_id }
    }
}

/// Where a slot stands relative to the centre of its puzzle.
#[derive(Debug, Clone, Copy, PartialEq, Eq, Structural)]
pub struct Offset {
    pub x: i32,
    pub y: i32,
}

/// The offset of the slot with the given index: the four slots stand on the
/// corners of a square, counted from the corner with both offsets negative,
/// first along x, then along y, then back along x. An index past the third
/// slot gives the fourth corner.
pub open spec fn slot_offset_at(index: int) -> Offset {
    if index == 0 {
        Offset { x: (-SLOT_OFFSET) as i32, y: (-SLOT_OFFSET) as i32 }
    } else if index == 1 {
        Offset { x: SLOT_OFFSET, y: (-SLOT_OFFSET) as i32 }
    } else if index == 2 {
        Offset { x: SLOT_OFFSET, y: SLOT_OFFSET }
    } else {
        Offset { x: (-SLOT_OFFSET) as i32, y: SLOT_OFFSET }
    }
}

/// Computes the offset of the slot with the given index.
pub fn slot_offset(index: usize) -> (offset: Offset)
    ensures
        offset == slot_offset_at(index as int),
{
    if index == 0 {
        Offset { x: -SLOT_OFFSET, y: -SLOT_OFFSET }
    } else if index == 1 {
        Offset { x: SLOT_OFFSET, y: -SLOT_OFFSET }
    } else if index == 2 {
        Offset { x: SLOT_OFFSET, y: SLOT_OFFSET }
    } else {
        Offset { x: -SLOT_OFFSET, y: SLOT_OFFSET }
    }
}

/// An order to the host: put this slot on the screen, at the cell's place in
/// the world moved by the offset, drawn as the outline of its piece.
#[derive(Debug, Clone, Copy, PartialEq, Eq, Structural)]
pub struct SlotSpawn {
    pub coordinate: Coordinate,
    pub offset: Offset,
    pub slot: PuzzleSlot,
}

/// The puzzle of one tower plot.
#[derive(Debug, Clone, Copy, PartialEq, Eq)]
pub struct Puzzle {
    pub id: usize,
    pub coordinate: Coordinate,
    pub pieces: [Piece; 4],
    pub filled: usize,
}

impl Puzzle {
    /// The order that puts the slot with the given index on the screen.
    pub open spec fn slot_spawn(self, index: int) -> SlotSpawn {
        SlotSpawn {
            coordinate: self.coordinate,
            offset: slot_offset_at(index),
            slot: PuzzleSlot { piece: self.pieces@[index], filled: false, puzzle_id: self.id },
        }
    }

    /// The orders for the four slots, by rising index.
    pub open spec fn slot_spawns(self) -> Seq<SlotSpawn> {
        Seq::new(4, |index: int| self.slot_spawn(index))
    }

    /// A puzzle with no slot filled yet.
    pub fn new(id: usize, coordinate: Coordinate, pieces: [Piece; 4]) -> (puzzle: Puzzle)
        ensures
            puzzle == (Puzzle { id, coordinate, pieces, filled: 0 }),
    {
        Puzzle { id, coordinate, pieces, filled: 0 }
    }

    /// Lists the orders that put the four slots of this puzzle on the screen.
    pub fn spawns(&self) -> (spawns: Vec<SlotSpawn>)
        ensures
            spawns@ == self.slot_spawns(),
    {
        let mut spawns: Vec<SlotSpawn> = Vec::new();
        let mut index: usize = 0;
        while index < 4
            invariant
                index <= 4,
                spawns@.len() == index,
                forall|k: int| 0 <= k < index ==> spawns@[k] == self.slot_spawn(k),
            decreases 4 - index,
        {
            spawns.push(
                SlotSpawn {
                    coordinate: self.coordinate,
                    offset: slot_offset(index),
                    slot: PuzzleSlot {
                        piece: self.pieces[index],
                        filled: false,
                        puzzle_id: self.id,
                    },
                },
            );
            index += 1;
        }
        spawns
    }
}

/// The puzzles of all tower plots, in the order in which they were set up.
pub struct Puzzles {
    new_towers: Vec<Puzzle>,
}

impl Puzzles {
    /// The puzzles, oldest first.
    pub closed spec fn view(&self) -> Seq<Puzzle> {
        self.new_towers@
    }

    /// Every puzzle carries an identifier that `factory` has already handed
    /// out, and no two puzzles carry the same one.
    pub open spec fn issued_by(&self, factory: &PuzzleIdFactory) -> bool {
        &&& forall|i: int| 0 <= i < self@.len() ==> (#[trigger] self@[i]).id < factory.next()
        &&& forall|i: int, j: int|
            0 <= i < j < self@.len() ==> (#[trigger] self@[i]).id != (#[trigger] self@[j]).id
    }

    /// No puzzles yet.
    pub fn new() -> (puzzles: Puzzles)
        ensures
            puzzles@ == Seq::<Puzzle>::empty(),
    {
        Puzzles { new_towers: Vec::new() }
    }

    /// The number of puzzles.
    pub fn len(&self) -> (len: usize)
        ensures
            len == self@.len(),
    {
        self.new_towers.len()
    }

    /// The puzzle at `index`, counted from the oldest, if there is one.
    pub fn get(&self, index: usize) -> (puzzle: Option<Puzzle>)
        ensures
            index < self@.len() ==> puzzle == Some(self@[index as int]),
            index >= self@.len() ==> puzzle.is_none(),
    {
        if index < self.new_towers.len() {
            Some(self.new_towers[index])
        } else {
            None
        }
    }

    /// Looks for the oldest puzzle that carries `puzzle_id` and returns its
    /// place.
    pub fn find(&self, puzzle_id: usize) -> (place: Option<usize>)
        ensures
            holds_id(self@, puzzle_id) <==> place.is_some(),
            place matches Some(index) ==> index == first_with(self@, puzzle_id) && is_first_with(
                self@,
                index as int,
                puzzle_id,
            ),
    {
        let mut index: usize = 0;
        while index < self.new_towers.len()
            invariant
                index <= self.new_towers.len(),
                forall|j: int| 0 <= j < index ==> (#[trigger] self@[j]).id != puzzle_id,
            decreases self.new_towers.len() - index,
        {
            if self.new_towers[index].id == puzzle_id {
                proof {
                    lemma_first_with_unique(self@, index as int, puzzle_id);
                }
                return Some(index);
            }
            index += 1;
        }
        None
    }

    /// Counts one more filled slot on the oldest puzzle that carries
    /// `puzzle_id`, and says whether that made four.
    pub fn record_fill(&mut self, puzzle_id: usize) -> (completed: bool)
        requires
            holds_id(old(self)@, puzzle_id),
            old(self)@[first_with(old(self)@, puzzle_id)].filled < usize::MAX,
        ensures
            final(self)@ == fill_one(old(self)@, puzzle_id),
            completed == (old(self)@[first_with(old(self)@, puzzle_id)].filled + 1 == 4),
    {
        let mut index: usize = 0;
        proof {
            lemma_first_with_exists(self@, puzzle_id);
        }
        while self.new_towers[index].id != puzzle_id
            invariant
                index <= first_with(self@, puzzle_id) < self@.len(),
                is_first_with(self@, first_with(self@, puzzle_id), puzzle_id),
                self@ == old(self)@,
            decreases self@.len() - index,
        {
            assert(self@[index as int].id != puzzle_id);
            assert(self@.len() == self.new_towers.len());
            index += 1;
        }
        proof {
            lemma_first_with_unique(self@, index as int, puzzle_id);
        }
        let mut puzzle = self.new_towers[index];
        puzzle.filled += 1;
        self.new_towers.set(index, puzzle);
        puzzle.filled == SLOTS_PER_PUZZLE
    }

    /// Sets up one puzzle with the given pieces and no slot filled, and
    /// returns the orders that put its four slots on the screen.
    pub fn add_puzzle(&mut self, id: usize, coordinate: Coordinate, pieces: [Piece; 4]) -> (spawns:
        Vec<SlotSpawn>)
        ensures
            final(self)@ == old(self)@.push(Puzzle { id, coordinate, pieces, filled: 0 }),
            spawns@ == (Puzzle { id, coordinate, pieces, filled: 0 }).slot_spawns(),
    {
        let puzzle = Puzzle::new(id, coordinate, pieces);
        let spawns = puzzle.spawns();
        self.new_towers.push(puzzle);
        spawns
    }
}

/// Whether `index` is the place of the oldest puzzle that carries `id`.
pub open spec fn is_first_with(puzzles: Seq<Puzzle>, index: int, id: usize) -> bool {
    &&& 0 <= index < puzzles.len()
    &&& puzzles[index].id == id
    &&& forall|j: int| 0 <= j < index ==> (#[trigger] puzzles[j]).id != id
}

/// Whether some puzzle carries `id`.
pub open spec fn holds_id(puzzles: Seq<Puzzle>, id: usize) -> bool {
    exists|i: int| 0 <= i < puzzles.len() && (#[trigger] puzzles[i]).id == id
}

/// The place of the oldest puzzle that carries `id`, where one does.
pub open spec fn first_with(puzzles: Seq<Puzzle>, id: usize) -> int {
    choose|index: int| is_first_with(puzzles, index, id)
}

/// Only one place can be that of the oldest puzzle carrying `id`.
pub proof fn lemma_first_with_unique(puzzles: Seq<Puzzle>, index: int, id: usize)
    requires
        is_first_with(puzzles, index, id),
    ensures
        first_with(puzzles, id) == index,
{
    let chosen = first_with(puzzles, id);
    assert(is_first_with(puzzles, chosen, id));
    if chosen < index {
        assert(puzzles[chosen].id != id);
    } else if index < chosen {
        assert(puzzles[index].id != id);
    }
}

/// Where some puzzle carries `id`, there is an oldest one that does.
pub proof fn lemma_first_with_exists(puzzles: Seq<Puzzle>, id: usize)
    requires
        holds_id(puzzles, id),
    ensures
        is_first_with(puzzles, first_with(puzzles, id), id),
    decreases puzzles.len(),
{
    let some = choose|i: int| 0 <= i < puzzles.len() && (#[trigger] puzzles[i]).id == id;
    let shorter = puzzles.take(some);
    if holds_id(shorter, id) {
        lemma_first_with_exists(shorter, id);
        let first = first_with(shorter, id);
        assert(shorter[first] == puzzles[first]);
        assert forall|j: int| 0 <= j < first implies (#[trigger] puzzles[j]).id != id by {
            assert(shorter[j] == puzzles[j]);
        }
        assert(is_first_with(puzzles, first, id));
    } else {
        assert forall|j: int| 0 <= j < some implies (#[trigger] puzzles[j]).id != id by {
            assert(shorter[j] == puzzles[j]);
        }
        assert(is_first_with(puzzles, some, id));
    }
}

/// The puzzle with one more slot filled.
pub open spec fn one_more(puzzle: Puzzle) -> Puzzle {
    Puzzle { filled: (puzzle.filled + 1) as usize, ..puzzle }
}

/// The puzzles after a slot of the oldest puzzle carrying `id` was filled.
pub open spec fn fill_one(puzzles: Seq<Puzzle>, id: usize) -> Seq<Puzzle> {
    puzzles.update(first_with(puzzles, id), one_more(puzzles[first_with(puzzles, id)]))
}

/// Filling a slot changes one puzzle's count of filled slots by one, and
/// nothing else: not the number of puzzles, nor which identifier, cell and
/// pieces each has.
pub proof fn lemma_fill_one(puzzles: Seq<Puzzle>, id: usize)
    requires
        holds_id(puzzles, id),
    ensures
        fill_one(puzzles, id).len() == puzzles.len(),
        forall|j: int|
            0 <= j < puzzles.len() ==> {
                let after = #[trigger] fill_one(puzzles, id)[j];
                &&& after.id == puzzles[j].id
                &&& after.coordinate == puzzles[j].coordinate
                &&& after.pieces == puzzles[j].pieces
                &&& j != first_with(puzzles, id) ==> after.filled == puzzles[j].filled
                &&& j == first_with(puzzles, id) ==> after.filled == (puzzles[j].filled
                    + 1) as usize
            },
{
    lemma_first_with_exists(puzzles, id);
}

} // verus!
