//! Verified core of a live theme switcher for the Alacritty terminal.
//!
//! The library decides everything that the terminal program does: which
//! configuration and theme paths are used, how a theme is written into the
//! `[general].import` array of `alacritty.toml`, which theme the list starts
//! on, how the cursor moves, and how a `git pull` of the theme repository is
//! reported. The program around it only reads files, runs `git` and draws.
use vstd::prelude::*;

pub mod text;
pub mod path;
pub mod path_facts;
pub mod order;
pub mod themes;
pub mod locations;
pub mod toml_doc;
pub mod config;
pub mod app;
pub mod ui;
pub mod preview;
pub mod laws;

verus! {

} // verus!
