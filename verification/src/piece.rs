//! Pieces: what a puzzle slot asks for and what a tamed enemy offers.

use crate::chance::random_draw;
use crate::enemies::{EnemyColor, EnemyForm};
use vstd::prelude::*;

verus! {

/// What a slot asks for and what a tamed enemy offers: a colour and a form.
/// A piece fits a slot when the two are equal.
#[derive(Debug, Clone, Copy, PartialEq, Eq, Structural)]
pub struct Piece {
    pub color: EnemyColor,
    pub form: EnemyForm,
}

impl Piece {
    /// The piece that two drawn numbers stand for.
    pub open spec fn of_draws(color_draw: u32, form_draw: u32) -> Piece {
        Piece { color: EnemyColor::of_draw(color_draw), form: EnemyForm::of_draw(form_draw) }
    }

    /// Turns two drawn numbers into a piece.
    pub fn from_draws(color_draw: u32, form_draw: u32) -> (piece: Piece)
        ensures
            piece == Self::of_draws(color_draw, form_draw),
    {
        Piece { color: EnemyColor::from_draw(color_draw), form: EnemyForm::from_draw(form_draw) }
    }

    /// Draws a piece by chance: first its colour, then its form. Any piece
    /// may come back.
    pub fn random() -> Piece {
        let color_draw = random_draw();
        let form_draw = random_draw();
        Piece::from_draws(color_draw, form_draw)
    }
}

} // verus!
