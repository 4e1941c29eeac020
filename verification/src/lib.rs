//! A verified core for a command-line audio player.
//!
//! The library models the player's logic — discovering `.mp3` files under a
//! directory tree, parsing interactive commands, and driving the playback
//! queue's state — while the surrounding binary performs the actual file,
//! terminal and audio-device I/O.

pub mod command;
pub mod discovery;
pub mod numeric;
pub mod player;
pub mod playlist;
pub mod text;
