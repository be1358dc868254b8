//! What a caller asks of the engine: the guard on paths, the records that go
//! into the journal, the search in a listing, and the undo of the most recent
//! reversible batch.

pub mod db_ops;
pub mod file_ops;
