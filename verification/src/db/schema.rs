//! The shape in which a caller hands in a record to be journalled.

use crate::db::ActionLog;
use crate::text::opt_view;
use vstd::prelude::*;

verus! {

/// A record without id and time: what the caller knows of an operation.
#[derive(Debug)]
pub struct LogEntry {
    pub action: String,
    pub src_path: Option<String>,
    pub dst_path: Option<String>,
    pub status: String,
    pub message: Option<String>,
    pub batch_id: Option<String>,
}

impl LogEntry {
    /// The journal record for this entry, stamped with the given time and
    /// without an id: the journal gives it one.
    pub fn stamped(self, timestamp: String) -> (log: ActionLog)
        ensures
            log@.id is None,
            log@.timestamp == timestamp@,
            log@.action == self.action@,
            log@.src_path == opt_view(self.src_path),
            log@.dst_path == opt_view(self.dst_path),
            log@.status == self.status@,
            log@.message == opt_view(self.message),
            log@.batch_id == opt_view(self.batch_id),
    {
        ActionLog {
            id: None,
            timestamp,
            action: self.action,
            src_path: self.src_path,
            dst_path: self.dst_path,
            status: self.status,
            message: self.message,
            batch_id: self.batch_id,
        }
    }
}

} // verus!
