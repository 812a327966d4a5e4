//! A reversible `rm`: instead of unlinking, paths are relocated into a
//! holding area (the tempstore) and every relocation is recorded in an
//! append-only ledger, so that it can be listed and restored later.
//!
//! The library holds the logic of that engine: text helpers, the mapping of
//! a source path to a collision-free destination, the ledger's line format,
//! and the relocation itself as a state machine whose actions are carried
//! out by the caller.
pub mod text;
pub mod util;
pub mod cli;
pub mod ledger;
pub mod relocate;

pub use cli::Cli;
pub use ledger::Entry;
pub use relocate::{resolve_source, Action, Event, FileKind, Item, Outcome, Relocation, Resolution};
pub use util::{humanize_bytes, is_yes, join_absolute, rename_tempfile, resolve_destination};
