//! The rules of five small rhythm games: note judgement, scoring, combos,
//! note movement and removal, and the mapping from keys to lanes.
//!
//! Positions are held in thousandths of a pixel (`i64`), frame times in
//! microseconds (`u64`) and clock readings in milliseconds (`u64`), so that
//! every rule can be stated and proved over integers.

pub mod keys;
pub mod labels;
pub mod palette;
pub mod motion;
mod random;
pub mod stepmania;
pub mod taiko;
pub mod clone_hero;
pub mod osu;
pub mod rhythm_typer;
