//! Rules of a tower-defence game: where puzzles stand on the map, how tamed
//! enemies are picked up and placed into puzzle slots, and what a bullet does
//! on each frame. The functions take and return plain values; the host engine
//! supplies what it sees and carries out what they decide.

pub mod bullets;
pub mod chance;
pub mod enemies;
pub mod filling;
pub mod map;
pub mod picking;
pub mod piece;
pub mod puzzle;
pub mod reach;
pub mod setup;
