//! Picking up tamed enemies and placing them into puzzle slots.

use crate::piece::Piece;
use crate::puzzle::PuzzleSlot;
use crate::reach::Reach;
use bevy_ecs::entity::Entity;
use vstd::prelude::*;

verus! {

/// `bevy_ecs::entity::Entity`, the host engine's handle of an entity. The
/// rules only store such a handle and hand it back; they never look inside.
#[verifier::external_type_specification]
#[verifier::external_body]
pub struct ExEntity(bevy_ecs::entity::Entity);

/// The piece that the player carries, and the tamed enemy it came from.
/// Either both are there or neither.
#[derive(Debug, Clone, Copy, PartialEq, Eq)]
pub struct CurrentPiece {
    pub entity: Option<Entity>,
    pub piece: Option<Piece>,
}

impl CurrentPiece {
    /// An enemy is recorded exactly when a piece is.
    pub open spec fn well_formed(&self) -> bool {
        self.entity.is_some() == self.piece.is_some()
    }

    /// Nothing is carried.
    pub open spec fn is_empty(&self) -> bool {
        self.entity.is_none() && self.piece.is_none()
    }

    /// Empty hands.
    pub fn new() -> (current: CurrentPiece)
        ensures
            current.is_empty(),
    {
        CurrentPiece { entity: None, piece: None }
    }
}

/// A tamed enemy as the host sees it in one frame.
#[derive(Debug, Clone, Copy, PartialEq, Eq)]
pub struct Tamed {
    pub entity: Entity,
    /// The enemy's colour and form.
    pub piece: Piece,
    /// The enemy's distance from the cursor, compared with the pick-up radius.
    pub reach: Reach,
}

/// A puzzle slot as the host sees it in one frame.
#[derive(Debug, Clone, Copy, PartialEq, Eq)]
pub struct SlotSight {
    pub entity: Entity,
    pub slot: PuzzleSlot,
    /// The slot's distance from the cursor, compared with the pick-up radius.
    pub reach: Reach,
}

impl SlotSight {
    /// The slot can take a piece now: it is not filled, and the cursor is not
    /// beyond the pick-up radius from it.
    pub open spec fn is_open(self) -> bool {
        !self.slot.filled && self.reach.not_beyond()
    }

    /// The slot can take this piece now.
    pub open spec fn fits(self, piece: Piece) -> bool {
        self.is_open() && self.slot.piece == piece
    }

    /// The same sight with the slot filled.
    pub open spec fn as_filled(self) -> SlotSight {
        SlotSight { slot: self.slot.as_filled(), ..self }
    }
}

/// What a press of the button led to.
#[derive(Debug, Clone, Copy, PartialEq, Eq)]
pub enum Pick {
    /// Nothing happened: the button was not pressed, or the hands were empty
    /// and no tamed enemy was within the radius.
    Idle,
    /// The tamed enemy at this place in the list was picked up.
    Taken { tamed: usize },
    /// The carried piece went into the slot at this place in the list. The
    /// host moves the enemy onto the slot, marks the slot as one to redraw,
    /// and removes the enemy.
    Placed { enemy: Entity, slot: usize },
    /// Open slots were in reach, but none asked for the carried piece: it
    /// stays in the hands.
    Kept,
    /// No open slot was in reach: the carried piece was let go.
    Released,
}

/// Whether `index` is the first place in the list with a tamed enemy strictly
/// within the radius.
pub open spec fn is_first_within(tamed: Seq<Tamed>, index: int) -> bool {
    &&& 0 <= index < tamed.len()
    &&& tamed[index].reach.within()
    &&& forall|j: int| 0 <= j < index ==> !(#[trigger] tamed[j]).reach.within()
}

/// Whether `index` is the first place in the list with a slot that can take
/// `piece` now.
pub open spec fn is_first_fitting(slots: Seq<SlotSight>, index: int, piece: Piece) -> bool {
    &&& 0 <= index < slots.len()
    &&& slots[index].fits(piece)
    &&& forall|j: int| 0 <= j < index ==> !(#[trigger] slots[j]).fits(piece)
}

/// Decides what a frame does to the carried piece.
///
/// Without a press nothing changes. With empty hands, a press picks up the
/// first tamed enemy strictly within the radius, if there is one. With a
/// piece in the hands, a press looks at the slots that are not filled and not
/// beyond the radius: the first of them that asks for the carried piece gets
/// it and is marked filled, and the hands are empty again; if there are such
/// slots but none asks for the piece, it stays in the hands; if there is no
/// such slot, the piece is let go.
pub fn pick_up_piece(
    pressed: bool,
    currently_picked: &mut CurrentPiece,
    tamed: &Vec<Tamed>,
    slots: &mut Vec<SlotSight>,
) -> (pick: Pick)
    requires
        old(currently_picked).well_formed(),
    ensures
        final(currently_picked).well_formed(),
        final(slots)@.len() == old(slots)@.len(),
        forall|j: int|
            0 <= j < old(slots)@.len() ==> {
                let after = #[trigger] final(slots)@[j];
                &&& after.entity == old(slots)@[j].entity
                &&& after.reach == old(slots)@[j].reach
                &&& after.slot.piece == old(slots)@[j].slot.piece
                &&& after.slot.puzzle_id == old(slots)@[j].slot.puzzle_id
                &&& old(slots)@[j].slot.filled ==> after.slot.filled
            },
        match pick {
            Pick::Idle => {
                &&& !pressed || (old(currently_picked).is_empty() && forall|j: int|
                    0 <= j < tamed@.len() ==> !(#[trigger] tamed@[j]).reach.within())
                &&& *final(currently_picked) == *old(currently_picked)
                &&& final(slots)@ == old(slots)@
            },
            Pick::Taken { tamed: index } => {
                &&& pressed
                &&& old(currently_picked).is_empty()
                &&& is_first_within(tamed@, index as int)
                &&& final(currently_picked).entity == Some(tamed@[index as int].entity)
                &&& final(currently_picked).piece == Some(tamed@[index as int].piece)
                &&& final(slots)@ == old(slots)@
            },
            Pick::Placed { enemy, slot } => {
                &&& pressed
                &&& old(currently_picked).entity == Some(enemy)
                &&& is_first_fitting(
                    old(slots)@,
                    slot as int,
                    old(currently_picked).piece.unwrap(),
                )
                &&& final(currently_picked).is_empty()
                &&& final(slots)@ == old(slots)@.update(
                    slot as int,
                    old(slots)@[slot as int].as_filled(),
                )
            },
            Pick::Kept => {
                &&& pressed
                &&& old(currently_picked).entity.is_some()
                &&& exists|j: int| 0 <= j < old(slots)@.len() && (#[trigger] old(slots)@[j]).is_open()
                &&& forall|j: int|
                    0 <= j < old(slots)@.len() ==> !(#[trigger] old(slots)@[j]).fits(
                        old(currently_picked).piece.unwrap(),
                    )
                &&& *final(currently_picked) == *old(currently_picked)
                &&& final(slots)@ == old(slots)@
            },
            Pick::Released => {
                &&& pressed
                &&& old(currently_picked).entity.is_some()
                &&& forall|j: int|
                    0 <= j < old(slots)@.len() ==> !(#[trigger] old(slots)@[j]).is_open()
                &&& final(currently_picked).is_empty()
                &&& final(slots)@ == old(slots)@
            },
        },
{
    if !pressed {
        return Pick::Idle;
    }
    match (currently_picked.entity, currently_picked.piece) {
        (Some(enemy), Some(piece)) => {
            // A piece is in the hands: place it in a puzzle or let it go.
            let mut found_slot = false;
            let mut index: usize = 0;
            while index < slots.len()
                invariant
                    pressed,
                    index <= slots@.len(),
                    slots@ == old(slots)@,
                    *currently_picked == *old(currently_picked),
                    currently_picked.entity == Some(enemy),
                    currently_picked.piece == Some(piece),
                    forall|j: int| 0 <= j < index ==> !(#[trigger] slots@[j]).fits(piece),
                    found_slot <==> exists|j: int|
                        0 <= j < index && (#[trigger] slots@[j]).is_open(),
                decreases slots@.len() - index,
            {
                let sight = slots[index];
                if !sight.slot.filled && sight.reach.is_not_beyond() {
                    found_slot = true;
                    if sight.slot.piece == piece {
                        slots.set(
                            index,
                            SlotSight {
                                entity: sight.entity,
                                slot: sight.slot.filled_in(),
                                reach: sight.reach,
                            },
                        );
                        currently_picked.entity = None;
                        currently_picked.piece = None;
                        return Pick::Placed { enemy, slot: index };
                    }
                }
                index += 1;
            }
            if found_slot {
                Pick::Kept
            } else {
                // Nothing to place it in: the enemy goes free.
                currently_picked.entity = None;
                currently_picked.piece = None;
                Pick::Released
            }
        },
        _ => {
            let mut index: usize = 0;
            while index < tamed.len()
                invariant
                    pressed,
                    old(currently_picked).is_empty(),
                    index <= tamed@.len(),
                    slots@ == old(slots)@,
                    *currently_picked == *old(currently_picked),
                    forall|j: int| 0 <= j < index ==> !(#[trigger] tamed@[j]).reach.within(),
                decreases tamed@.len() - index,
            {
                if tamed[index].reach.is_within() {
                    currently_picked.entity = Some(tamed[index].entity);
                    currently_picked.piece = Some(tamed[index].piece);
                    return Pick::Taken { tamed: index };
                }
                index += 1;
            }
            Pick::Idle
        },
    }
}

} // verus!
