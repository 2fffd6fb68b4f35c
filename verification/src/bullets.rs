//! What a bullet does on one frame.

use crate::reach::Reach;
use vstd::prelude::*;

verus! {

/// The enemy that a bullet flies at, as the host sees it in one frame.
#[derive(Debug, Clone, Copy, PartialEq, Eq, Structural)]
pub struct Target {
    /// The enemy's health before the bullet arrives.
    pub health: i32,
    /// The bullet's distance from the enemy, compared with the way the bullet
    /// covers in this frame.
    pub reach: Reach,
}

/// What the host does with a bullet on one frame.
#[derive(Debug, Clone, Copy, PartialEq, Eq, Structural)]
pub enum BulletAction {
    /// The bullet reaches its target: the target's health becomes `health`,
    /// and the bullet is removed.
    Hit { health: i32 },
    /// The bullet moves on towards its target by the way it covers in this
    /// frame.
    Advance,
    /// The target is gone: the bullet is removed.
    Discard,
}

/// The action for a bullet of the given damage. A bullet hits when its target
/// is strictly closer than the way it covers in this frame, and then takes
/// its damage off the target's health.
pub open spec fn bullet_action(damage: i32, target: Option<Target>) -> BulletAction {
    match target {
        Some(target) => if target.reach.within() {
            BulletAction::Hit { health: (target.health - damage) as i32 }
        } else {
            BulletAction::Advance
        },
        None => BulletAction::Discard,
    }
}

/// Whether taking `damage` off `health` stays within the range of the health.
pub open spec fn damage_fits(health: i32, damage: i32) -> bool {
    i32::MIN <= health - damage <= i32::MAX
}

/// Decides what a bullet does on this frame. `target` is `None` when the
/// enemy that the bullet was fired at can no longer be found.
pub fn update_bullet(damage: i32, target: Option<Target>) -> (action: BulletAction)
    requires
        target matches Some(enemy) ==> enemy.reach.within() ==> damage_fits(enemy.health, damage),
    ensures
        action == bullet_action(damage, target),
{
    match target {
        Some(enemy) => {
            if enemy.reach.is_within() {
                BulletAction::Hit { health: enemy.health - damage }
            } else {
                BulletAction::Advance
            }
        },
        None => BulletAction::Discard,
    }
}

} // verus!
