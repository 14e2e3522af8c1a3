//! The rules core of four-player riichi mahjong.
//!
//! The first half finds out what a hand is waiting for: `tables` holds the
//! two lookup tables of single-suit decompositions, `decomp` puts the
//! decompositions of the four suits together into the regular waits of a
//! hand, `irregular` finds seven pairs and thirteen orphans, and `analysis`
//! sums up both. `decomp_proofs` states what holds of every regular wait.
//!
//! The second half is the state machine of a round: `engine::action`
//! judges the action of the player in turn, and `engine::step` gives the
//! state that follows it or the end of the round.

pub mod tile;
pub mod group;
pub mod tile_set;
pub mod player;
pub mod meld;
pub mod model;
pub mod tables;
pub mod decomp;
pub mod decomp_proofs;
pub mod irregular;
pub mod analysis;
pub mod engine;
