//! A persistent pool of text items from which a user repeatedly draws a short
//! batch of candidates, picks one of them, and has the rest put back.
//!
//! The crate holds the rules of a selection round and proves them; reading the
//! console and the files is left to the program around it.
//!
//! - [`draw`]: drawing one candidate, and the batch of a round, under the
//!   selection policy.
//! - [`input`]: reading the user's number from a line of input.
//! - [`commit`]: settling the round on the chosen candidate.
//! - [`storage`]: the pool as the text of its file.
//! - [`settings`]: the settings and their JSON document.
//! - [`menu`]: the top-level menu.

pub mod commit;
pub mod draw;
pub mod input;
pub mod menu;
pub mod model;
mod random;
pub mod settings;
pub mod storage;
pub mod text;
