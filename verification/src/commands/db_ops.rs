//! The two requests that go to the journal directly.

use crate::db::{recent, ActionLog, ActionLogView, Database};
use crate::error::AppError;
use crate::text::views;
use vstd::prelude::*;

verus! {

/// The newest `limit` records of the journal, newest first.
pub fn get_recent_logs(limit: usize, db: &Database) -> (logs: Vec<ActionLog>)
    ensures
        views(logs@) == recent(db@, limit as nat),
{
    db.get_recent_logs(limit)
}

/// Appends a record that the caller made and returns the id it was given.
pub fn db_log(entry: ActionLog, db: &mut Database) -> (r: Result<i64, AppError>)
    ensures
        r is Ok <==> old(db).next_id() < i64::MAX,
        r matches Ok(id) ==> {
            &&& id == old(db).next_id()
            &&& final(db).next_id() == id + 1
            &&& final(db)@ == old(db)@.push(ActionLogView { id: Some(id), ..entry@ })
        },
        r is Err ==> final(db)@ == old(db)@ && final(db).next_id() == old(db).next_id(),
{
    db.log_action(entry)
}

} // verus!
