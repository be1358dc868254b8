use filemanager::commands::db_ops::{db_log, get_recent_logs};
use filemanager::db::schema::LogEntry;
use filemanager::db::{ActionLog, Database};
use filemanager::error::AppError;

fn rec(action: &str, status: &str, batch: Option<&str>) -> ActionLog {
    ActionLog {
        id: Some(999),
        timestamp: "t".to_string(),
        action: action.to_string(),
        src_path: Some(format!("/src/{}", action)),
        dst_path: None,
        status: status.to_string(),
        message: None,
        batch_id: batch.map(|b| b.to_string()),
    }
}

fn ids(logs: &Vec<ActionLog>) -> Vec<i64> {
    logs.iter().map(|l| l.id.unwrap()).collect()
}

#[test]
fn the_journal_gives_ids_that_grow() {
    let mut db = Database::new();
    assert_eq!(db.len(), 0);
    assert_eq!(db.log_action(rec("LIST_DIR", "SUCCESS", None)).unwrap(), 1);
    assert_eq!(db.log_action(rec("MOVE", "SUCCESS", Some("b"))).unwrap(), 2);
    assert_eq!(db_log(rec("MOVE", "SUCCESS", Some("b")), &mut db).unwrap(), 3);
    assert_eq!(db.len(), 3);
    assert_eq!(ids(db.records()), vec![1, 2, 3]);
    assert_eq!(db.records()[0].action, "LIST_DIR");
    assert_eq!(db.records()[0].src_path, Some("/src/LIST_DIR".to_string()));
}

#[test]
fn the_reversible_batch_is_every_record_of_the_newest_batch() {
    let mut db = Database::new();
    for r in vec![
        rec("MOVE", "SUCCESS", Some("old")),
        rec("MOVE", "SUCCESS", Some("new")),
        rec("LIST_DIR", "SUCCESS", None),
        rec("MOVE", "SUCCESS", Some("new")),
        rec("MOVE", "FAILURE", Some("other")),
        rec("LIST_DIR", "SUCCESS", None),
    ] {
        db.log_action(r).unwrap();
    }
    let batch = db.get_last_reversible_action();
    assert_eq!(ids(&batch), vec![2, 4]);
    assert!(batch.iter().all(|r| r.batch_id == Some("new".to_string())));
    let last = batch.last().unwrap();
    assert_ne!(last.action, "LIST_DIR");
    assert_ne!(last.action, "UNDO");
}

#[test]
fn a_record_without_a_batch_is_a_batch_of_its_own() {
    let mut db = Database::new();
    db.log_action(rec("MOVE", "SUCCESS", Some("b"))).unwrap();
    db.log_action(rec("RENAME", "SUCCESS", None)).unwrap();
    let batch = db.get_last_reversible_action();
    assert_eq!(ids(&batch), vec![2]);
    assert_eq!(batch[0].action, "RENAME");
}

#[test]
fn every_reversible_kind_is_found_and_no_other() {
    for kind in ["MOVE", "RENAME", "CREATE_DIR", "DELETE"] {
        let mut db = Database::new();
        db.log_action(rec(kind, "SUCCESS", None)).unwrap();
        assert_eq!(db.get_last_reversible_action().len(), 1);
    }
    for kind in ["LIST_DIR", "UNDO", "move", "COPY", ""] {
        let mut db = Database::new();
        db.log_action(rec(kind, "SUCCESS", None)).unwrap();
        assert!(db.get_last_reversible_action().is_empty());
    }
    let mut db = Database::new();
    db.log_action(rec("MOVE", "FAILURE", None)).unwrap();
    db.log_action(rec("MOVE", "success", None)).unwrap();
    assert!(db.get_last_reversible_action().is_empty());
    assert!(Database::new().get_last_reversible_action().is_empty());
}

#[test]
fn an_undo_mark_hides_the_batch_until_something_new_is_done() {
    let mut db = Database::new();
    db.log_action(rec("DELETE", "SUCCESS", Some("d"))).unwrap();
    db.log_action(rec("UNDO", "SUCCESS", None)).unwrap();
    assert!(db.get_last_reversible_action().is_empty());
    db.log_action(rec("LIST_DIR", "SUCCESS", None)).unwrap();
    assert!(db.get_last_reversible_action().is_empty());
    db.log_action(rec("UNDO", "FAILURE", None)).unwrap();
    assert!(db.get_last_reversible_action().is_empty());
    db.log_action(rec("CREATE_DIR", "SUCCESS", None)).unwrap();
    assert_eq!(ids(&db.get_last_reversible_action()), vec![5]);
}

#[test]
fn a_failed_undo_does_not_hide_the_batch() {
    let mut db = Database::new();
    db.log_action(rec("DELETE", "SUCCESS", Some("d"))).unwrap();
    db.log_action(rec("UNDO", "FAILURE", None)).unwrap();
    assert_eq!(ids(&db.get_last_reversible_action()), vec![1]);
}

#[test]
fn recent_logs_come_newest_first() {
    let mut db = Database::new();
    for kind in ["A", "B", "C", "D"] {
        db.log_action(rec(kind, "SUCCESS", None)).unwrap();
    }
    assert_eq!(ids(&db.get_recent_logs(2)), vec![4, 3]);
    assert_eq!(ids(&db.get_recent_logs(10)), vec![4, 3, 2, 1]);
    assert!(db.get_recent_logs(0).is_empty());
    assert_eq!(ids(&get_recent_logs(3, &db)), vec![4, 3, 2]);
    assert_eq!(db.get_recent_logs(1)[0].action, "D");
}

#[test]
fn a_journal_is_rebuilt_from_records_whose_ids_are_in_order() {
    let mut a = rec("MOVE", "SUCCESS", None);
    a.id = Some(3);
    let mut b = rec("RENAME", "SUCCESS", None);
    b.id = Some(8);
    let mut db = Database::from_records(vec![a, b]).unwrap_or_else(|| panic!("ids are in order"));
    assert_eq!(db.len(), 2);
    assert_eq!(db.log_action(rec("MOVE", "SUCCESS", None)).unwrap(), 9);
    let mut db = Database::from_records(Vec::new()).unwrap_or_else(|| panic!("nothing to order"));
    assert_eq!(db.log_action(rec("MOVE", "SUCCESS", None)).unwrap(), 1);
}

#[test]
fn a_journal_is_not_rebuilt_from_ids_out_of_order() {
    let with = |ids: Vec<Option<i64>>| -> Vec<ActionLog> {
        ids.into_iter()
            .map(|id| {
                let mut r = rec("MOVE", "SUCCESS", None);
                r.id = id;
                r
            })
            .collect()
    };
    assert!(Database::from_records(with(vec![Some(2), Some(2)])).is_none());
    assert!(Database::from_records(with(vec![Some(5), Some(4)])).is_none());
    assert!(Database::from_records(with(vec![Some(1), None])).is_none());
    assert!(Database::from_records(with(vec![Some(0)])).is_none());
    assert!(Database::from_records(with(vec![Some(-3)])).is_none());
    assert!(Database::from_records(with(vec![Some(i64::MAX)])).is_none());
    assert!(Database::from_records(with(vec![Some(i64::MAX - 1)])).is_some());
}

#[test]
fn a_journal_whose_ids_are_used_up_refuses_a_record() {
    let mut last = rec("MOVE", "SUCCESS", None);
    last.id = Some(i64::MAX - 1);
    let mut db = Database::from_records(vec![last]).unwrap_or_else(|| panic!("in order"));
    match db.log_action(rec("MOVE", "SUCCESS", None)) {
        Err(AppError::DatabaseError(m)) => assert_eq!(m, "journal ids are used up"),
        _ => panic!("no id is left"),
    }
    assert_eq!(db.len(), 1);
}

#[test]
fn an_entry_is_stamped_into_a_record() {
    let entry = LogEntry {
        action: "RENAME".to_string(),
        src_path: Some("/a".to_string()),
        dst_path: Some("/b".to_string()),
        status: "SUCCESS".to_string(),
        message: Some("m".to_string()),
        batch_id: None,
    };
    let log = entry.stamped("2024-01-01T00:00:00+00:00".to_string());
    assert!(log.id.is_none());
    assert_eq!(log.timestamp, "2024-01-01T00:00:00+00:00");
    assert_eq!(log.action, "RENAME");
    assert_eq!(log.src_path, Some("/a".to_string()));
    assert_eq!(log.dst_path, Some("/b".to_string()));
    assert_eq!(log.status, "SUCCESS");
    assert_eq!(log.message, Some("m".to_string()));
    assert!(log.batch_id.is_none());
    let copy = log.duplicate();
    assert_eq!(copy.action, "RENAME");
    assert_eq!(copy.dst_path, Some("/b".to_string()));
}
