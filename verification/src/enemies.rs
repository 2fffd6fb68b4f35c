//! The attributes of an enemy that the puzzle rules compare.

use vstd::prelude::*;

verus! {

/// The shape of an enemy, and of the path it is drawn with.
#[derive(Debug, Clone, Copy, PartialEq, Eq, Structural)]
pub enum EnemyForm {
    Circle,
    Triangle,
    Quadratic,
}

/// The colour of an enemy.
#[derive(Debug, Clone, Copy, PartialEq, Eq, Structural)]
pub enum EnemyColor {
    Red,
    Blue,
}

impl EnemyForm {
    /// The form that a drawn number stands for: the three forms take turns
    /// as the number grows.
    pub open spec fn of_draw(draw: u32) -> EnemyForm {
        if draw % 3 == 0 {
            EnemyForm::Circle
        } else if draw % 3 == 1 {
            EnemyForm::Triangle
        } else {
            EnemyForm::Quadratic
        }
    }

    /// Turns a drawn number into a form.
    pub fn from_draw(draw: u32) -> (form: EnemyForm)
        ensures
            form == Self::of_draw(draw),
    {
        let turn: u32 = draw % 3;
        if turn == 0 {
            EnemyForm::Circle
        } else if turn == 1 {
            EnemyForm::Triangle
        } else {
            EnemyForm::Quadratic
        }
    }
}

impl EnemyColor {
    /// The colour that a drawn number stands for: even numbers are red, odd
    /// numbers blue.
    pub open spec fn of_draw(draw: u32) -> EnemyColor {
        if draw % 2 == 0 {
            EnemyColor::Red
        } else {
            EnemyColor::Blue
        }
    }

    /// Turns a drawn number into a colour.
    pub fn from_draw(draw: u32) -> (color: EnemyColor)
        ensures
            color == Self::of_draw(draw),
    {
        if draw % 2 == 0 {
            EnemyColor::Red
        } else {
            EnemyColor::Blue
        }
    }
}

} // verus!
