//! A discrete-tick hockey simulation engine.
//!
//! Lengths are integers in tenths of a foot on a 200 by 85 foot rink, so x
//! runs from 0 to 2000 and y from 0 to 850. Skill ratings are integers in
//! thousandths: a rating of 1000 is a perfect score.
//!
//! - `models`: players, teams, the puck and the rink.
//! - `roster`: building a team from roster records.
//! - `motion`: bounded-speed steering.
//! - `sim`: the game state, the phase machine and the tick engine.
//! - `dice`: the seeded random source behind contested plays.
pub mod dice;
pub mod faceoff;
pub mod models;
pub mod motion;
pub mod movement;
pub mod puck;
pub mod roster;
pub mod shots;
pub mod sim;
