//! The rules of a round: which actions are legal, what state follows a
//! turn, and how a round ends.

pub mod action;
pub mod cache;
pub mod dora;
pub mod scoring;
pub mod step;
pub mod utils;
