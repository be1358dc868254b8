//! The engine of a local file manager: name and path rules, directory
//! snapshots, batch moves with a copy fallback, a trash with restore, an
//! action journal, and the undo of the most recent reversible batch.

pub mod clock;
pub mod commands;
pub mod db;
pub mod error;
pub mod fs;
pub mod ids;
pub mod text;
