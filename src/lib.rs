//! A per-user album of items drawn at random from a fixed pool.
//!
//! `pool` holds the items that can be drawn and draws from them, `album` the
//! tally of one user, `store` the albums of all users, `render` the display
//! text, and `command` the two commands and their replies.
pub mod album;
pub mod command;
pub mod pool;
pub mod render;
pub mod store;
