//! A verified codec for the two configuration/save files of a small
//! platformer: a multi-slot save file and a cheats/settings file, both kept
//! in a line-oriented key/value text format.
//!
//! The heart of the crate translates between a strongly validated in-memory
//! model ([`data::WhipseeySaveData`], [`data::BfsSettings`]) and the exact
//! on-disk text the game engine reads: quoted six-decimal numeric literals,
//! scaled fractional volume steps, per-area unlock flags folded into one
//! ordered level value, and a fixed-size null-padded buffer.

pub mod data;
pub mod document;
pub mod gui;
pub mod util;
