//! Keybinding dispatch for a fuzzy-finder front end to the jj version-control CLI.
//!
//! The library decides what the finder should do after each keystroke or
//! selection change, and encodes the requests by which the program calls itself
//! back. Running processes, the pager and the clipboard stay with the caller.

pub mod text;
pub mod common;
pub mod protocol;
pub mod fzf;
pub mod keymap;
pub mod whichkey;
pub mod compile;
pub mod binding;
pub mod command;
