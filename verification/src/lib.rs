//! A vault of secrets, each stored as an encrypted file of its own under one
//! root directory.
//!
//! This library holds the decisions and nothing else. It turns entry names
//! into paths that cannot leave the vault (`path`), generates passwords
//! (`crypto`), finds where the vault lies (`util`), and runs each operation
//! as a conversation (`session`, `cli`): it asks for one thing at a time to
//! be done on disk, at the terminal or by the encryption backend, and
//! decides what follows from what came of it. What it decides is stated in
//! contracts, and what holds of every operation is proved in `cli::laws` and
//! `path::laws`.

pub mod cli;
pub mod crypto;
pub mod error;
pub mod path;
pub mod session;
pub mod text;
pub mod util;
