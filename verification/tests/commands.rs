use filemanager::clock::{optional_timestamp_text, slot_name, timestamp_text, UnixTime};
use filemanager::commands::file_ops::{
    check_access, check_all_access, favorites_of, filter_by_query, get_favorites, list_dir,
    list_dir_record, make_dir, make_dir_record, move_paths, rename_path, rename_record, search,
    set_allowed_roots, soft_delete, stat_path, AppState,
};
use filemanager::db::Database;
use filemanager::error::AppError;
use filemanager::fs::operations::{
    get_file_stat, list_directory, CreateDirectory, DirResult, EntryProbe, RenameItem,
    RenameResult,
};
use filemanager::fs::trash::TrashManager;
use filemanager::fs::{FileItem, FileMeta, FileStat};
use filemanager::text::decimal;

fn some(s: &str) -> Option<String> {
    Some(s.to_string())
}

fn file_meta(size: u64) -> FileMeta {
    FileMeta {
        is_dir: false,
        is_file: true,
        size,
        modified: Some(UnixTime { secs: 1_431_648_000, nanos: 0 }),
        created: Some(UnixTime { secs: 0, nanos: 500_000_000 }),
    }
}

fn dir_meta() -> FileMeta {
    FileMeta { is_dir: true, is_file: false, size: 4096, modified: None, created: None }
}

fn probe(path: &str, meta: Option<FileMeta>) -> EntryProbe {
    EntryProbe { path: path.to_string(), meta }
}

fn now() -> UnixTime {
    UnixTime { secs: 86_400, nanos: 0 }
}

#[test]
fn times_are_written_as_rfc_3339() {
    assert_eq!(timestamp_text(UnixTime { secs: 0, nanos: 0 }), "1970-01-01T00:00:00+00:00");
    assert_eq!(
        timestamp_text(UnixTime { secs: 1_431_648_000, nanos: 0 }),
        "2015-05-15T00:00:00+00:00"
    );
    assert_eq!(
        timestamp_text(UnixTime { secs: -1, nanos: 250_000_000 }),
        "1969-12-31T23:59:59.250+00:00"
    );
    assert_eq!(timestamp_text(UnixTime { secs: i64::MAX, nanos: 0 }), "");
    assert_eq!(optional_timestamp_text(None), "");
    assert_eq!(
        optional_timestamp_text(Some(UnixTime { secs: 60, nanos: 0 })),
        "1970-01-01T00:01:00+00:00"
    );
}

#[test]
fn slot_names_are_date_and_time_to_the_second() {
    assert_eq!(slot_name(0), some("19700101_000000"));
    assert_eq!(slot_name(1_431_648_000 + 3_723), some("20150515_010203"));
    assert_eq!(slot_name(i64::MAX), None);
    assert_eq!(slot_name(i64::MIN), None);
    assert!(slot_name(1_000_000_000).unwrap() < slot_name(1_000_000_001).unwrap());
}

#[test]
fn an_item_is_made_from_a_path_and_its_metadata() {
    let item = FileItem::from_path("/root/report.final.txt", &file_meta(12)).unwrap();
    assert_eq!(item.name, "report.final.txt");
    assert_eq!(item.path, "/root/report.final.txt");
    assert!(!item.is_dir);
    assert_eq!(item.size, 12);
    assert_eq!(item.modified, "2015-05-15T00:00:00+00:00");
    assert_eq!(item.ext, some("txt"));
    let dir = FileItem::from_path("/root/folder.d", &dir_meta()).unwrap();
    assert!(dir.is_dir);
    assert_eq!(dir.ext, None);
    assert_eq!(dir.modified, "");
    match FileItem::from_path("/", &dir_meta()) {
        Err(AppError::InvalidPath(m)) => assert_eq!(m, "Invalid file name"),
        _ => panic!("the root has no file name"),
    }
    let copy = item.duplicate();
    assert_eq!(copy.name, item.name);
    assert_eq!(copy.ext, item.ext);
}

#[test]
fn a_stat_carries_the_time_of_creation() {
    let stat = FileStat::from_path("/root/a.txt", &file_meta(7)).unwrap();
    assert_eq!(stat.name, "a.txt");
    assert_eq!(stat.path, "/root/a.txt");
    assert_eq!(stat.size, 7);
    assert_eq!(stat.modified, "2015-05-15T00:00:00+00:00");
    assert_eq!(stat.created, "1970-01-01T00:00:00.500+00:00");
    assert!(matches!(FileStat::from_path("..", &file_meta(7)), Err(AppError::InvalidPath(_))));
}

#[test]
fn a_listing_shows_the_entries_that_could_be_read() {
    let entries = vec![
        probe("/root/a.txt", Some(file_meta(1))),
        probe("/root/gone", None),
        probe("/root/sub", Some(dir_meta())),
    ];
    let items = list_directory("/root", true, true, Ok(entries)).unwrap();
    assert_eq!(items.len(), 2);
    assert_eq!(items[0].name, "a.txt");
    assert_eq!(items[1].name, "sub");
    assert!(items[1].is_dir);
    assert!(list_directory("/root", true, true, Ok(Vec::new())).unwrap().is_empty());
}

#[test]
fn a_listing_fails_for_what_is_not_a_readable_directory() {
    match list_directory("/none", false, false, Ok(Vec::new())) {
        Err(AppError::FileNotFound(p)) => assert_eq!(p, "/none"),
        _ => panic!("the path is missing"),
    }
    match list_directory("/root/a.txt", true, false, Ok(Vec::new())) {
        Err(AppError::InvalidPath(m)) => assert_eq!(m, "Not a directory"),
        _ => panic!("the path is a file"),
    }
    match list_directory("/root", true, true, Err("permission denied".to_string())) {
        Err(AppError::IoError(m)) => assert_eq!(m, "permission denied"),
        _ => panic!("the directory cannot be read"),
    }
}

#[test]
fn a_stat_fails_for_what_is_not_there() {
    match get_file_stat("/none", false, Ok(file_meta(1))) {
        Err(AppError::FileNotFound(p)) => assert_eq!(p, "/none"),
        _ => panic!("the path is missing"),
    }
    match get_file_stat("/root/a", true, Err("stale handle".to_string())) {
        Err(AppError::IoError(m)) => assert_eq!(m, "stale handle"),
        _ => panic!("the metadata cannot be read"),
    }
    assert_eq!(get_file_stat("/root/a", true, Ok(file_meta(3))).unwrap().size, 3);
}

#[test]
fn the_guard_is_lifted_without_roots_and_strict_with_them() {
    let none: Vec<Option<String>> = Vec::new();
    let roots = vec![some("/home/u")];
    assert!(check_access(None, &none, "no").is_ok());
    assert!(check_access(Some("/etc"), &none, "no").is_ok());
    assert!(check_access(Some("/home/u/x"), &roots, "no").is_ok());
    match check_access(Some("/etc"), &roots, "Access to this path is not allowed") {
        Err(AppError::NotAllowed(m)) => assert_eq!(m, "Access to this path is not allowed"),
        _ => panic!("the path is outside the roots"),
    }
    assert!(check_access(None, &roots, "no").is_err());
}

#[test]
fn the_guard_on_a_batch_names_the_first_path_that_is_refused() {
    let roots = vec![some("/home/u")];
    let paths = vec!["/home/u/a".to_string(), "/etc/b".to_string(), "/var/c".to_string()];
    let resolved = vec![some("/home/u/a"), some("/etc/b"), some("/var/c")];
    match check_all_access(&paths, &resolved, &roots) {
        Err(AppError::NotAllowed(m)) => assert_eq!(m, "Access to /etc/b is not allowed"),
        _ => panic!("the second path is outside the roots"),
    }
    match check_all_access(&paths, &vec![some("/home/u/a")], &roots) {
        Err(AppError::NotAllowed(m)) => assert_eq!(m, "Access to /etc/b is not allowed"),
        _ => panic!("a path without a resolved form is refused"),
    }
    assert!(check_all_access(&paths, &Vec::new(), &Vec::new()).is_ok());
    assert!(check_all_access(&vec!["/home/u/a".to_string()], &resolved, &roots).is_ok());
}

#[test]
fn list_dir_lists_behind_the_guard_and_gives_the_record() {
    let roots = vec![some("/home/u")];
    let (items, log) = list_dir(
        "/home/u",
        Some("/home/u"),
        &roots,
        true,
        true,
        Ok(vec![probe("/home/u/a.txt", Some(file_meta(1)))]),
        now(),
    )
    .unwrap();
    assert_eq!(items.len(), 1);
    assert_eq!(log.action, "LIST_DIR");
    assert_eq!(log.src_path, some("/home/u"));
    assert_eq!(log.dst_path, None);
    assert_eq!(log.status, "SUCCESS");
    assert_eq!(log.timestamp, "1970-01-02T00:00:00+00:00");
    assert_eq!(log.batch_id, None);
    match list_dir("/etc", Some("/etc"), &roots, true, true, Ok(Vec::new()), now()) {
        Err(AppError::NotAllowed(m)) => assert_eq!(m, "Access to this directory is not allowed"),
        _ => panic!("the directory is outside the roots"),
    }
    match list_dir("/home/u/x", Some("/home/u/x"), &roots, false, false, Ok(Vec::new()), now()) {
        Err(AppError::FileNotFound(p)) => assert_eq!(p, "/home/u/x"),
        _ => panic!("the directory is missing"),
    }
    let log = list_dir_record("/p", now());
    assert_eq!(log.src_path, some("/p"));
}

#[test]
fn stat_path_looks_behind_the_guard() {
    let roots = vec![some("/home/u")];
    let stat = stat_path("/home/u/a", Some("/home/u/a"), &roots, true, Ok(file_meta(9))).unwrap();
    assert_eq!(stat.size, 9);
    match stat_path("/etc/a", Some("/etc/a"), &roots, true, Ok(file_meta(9))) {
        Err(AppError::NotAllowed(m)) => assert_eq!(m, "Access to this path is not allowed"),
        _ => panic!("the path is outside the roots"),
    }
}

#[test]
fn make_dir_checks_the_name_first_and_then_the_guard() {
    let roots = vec![some("/home/u")];
    match make_dir("/etc", "CON", Some("/etc"), &roots) {
        Err(AppError::InvalidFileName(m)) => assert_eq!(m, "'CON' is a reserved name"),
        _ => panic!("the name is reserved"),
    }
    match make_dir("/home/u", "../outside", Some("/home/u"), &roots) {
        Err(AppError::InvalidFileName(m)) => assert_eq!(m, "File name cannot contain '/'"),
        _ => panic!("a name cannot lead out of the directory"),
    }
    match make_dir("/home/u", "sub\\x", Some("/home/u"), &roots) {
        Err(AppError::InvalidFileName(m)) => assert_eq!(m, "File name cannot contain '\\'"),
        _ => panic!("a name holds no separator"),
    }
    match make_dir("/etc", "fine", Some("/etc"), &roots) {
        Err(AppError::NotAllowed(m)) => assert_eq!(m, "Access to this directory is not allowed"),
        _ => panic!("the directory is outside the roots"),
    }
    match make_dir("/home/u", "fine", Some("/home/u"), &roots) {
        Ok(CreateDirectory::Checking { path }) => assert_eq!(path, "/home/u/fine"),
        _ => panic!("the creation should start"),
    }
    let result = DirResult { success: true, path: "/home/u/fine".to_string(), message: None };
    let log = make_dir_record(&result, now());
    assert_eq!(log.action, "CREATE_DIR");
    assert_eq!(log.src_path, None);
    assert_eq!(log.dst_path, some("/home/u/fine"));
}

#[test]
fn rename_path_checks_the_name_first_and_then_the_guard() {
    let roots = vec![some("/home/u")];
    match rename_path("/home/u/a", "b?", Some("/home/u/a"), &roots) {
        Err(AppError::InvalidFileName(m)) => assert_eq!(m, "File name cannot contain '?'"),
        _ => panic!("the name holds a forbidden character"),
    }
    match rename_path("/home/u/a", "../b", Some("/home/u/a"), &roots) {
        Err(AppError::InvalidFileName(m)) => assert_eq!(m, "File name cannot contain '/'"),
        _ => panic!("a name cannot lead out of the directory"),
    }
    match rename_path("/etc/a", "b", Some("/etc/a"), &roots) {
        Err(AppError::NotAllowed(m)) => assert_eq!(m, "Access to this path is not allowed"),
        _ => panic!("the path is outside the roots"),
    }
    match rename_path("/home/u/a", "b", Some("/home/u/a"), &roots) {
        Ok(RenameItem::CheckingSource { src, new_name }) => {
            assert_eq!(src, "/home/u/a");
            assert_eq!(new_name, "b");
        }
        _ => panic!("the renaming should start"),
    }
    let result = RenameResult {
        success: true,
        old_path: "/home/u/a".to_string(),
        new_path: "/home/u/b".to_string(),
        message: None,
    };
    let log = rename_record(&result, now());
    assert_eq!(log.action, "RENAME");
    assert_eq!(log.src_path, some("/home/u/a"));
    assert_eq!(log.dst_path, some("/home/u/b"));
}

#[test]
fn move_paths_guards_the_destination_then_the_sources() {
    let roots = vec![some("/home/u")];
    let sources = vec!["/home/u/a".to_string(), "/etc/b".to_string()];
    let resolved = vec![some("/home/u/a"), some("/etc/b")];
    match move_paths(sources.clone(), "/mnt", Some("/mnt"), &resolved, &roots) {
        Err(AppError::NotAllowed(m)) => {
            assert_eq!(m, "Access to destination directory is not allowed")
        }
        _ => panic!("the destination is outside the roots"),
    }
    match move_paths(sources.clone(), "/home/u/d", Some("/home/u/d"), &resolved, &roots) {
        Err(AppError::NotAllowed(m)) => assert_eq!(m, "Access to /etc/b is not allowed"),
        _ => panic!("a source is outside the roots"),
    }
    match move_paths(vec!["/".to_string()], "/d", Some("/d"), &vec![some("/")], &Vec::new()) {
        Err(AppError::InvalidPath(m)) => assert_eq!(m, "Invalid file name"),
        _ => panic!("a source has no file name"),
    }
    let m = move_paths(
        vec!["/home/u/a".to_string()],
        "/home/u/d",
        Some("/home/u/d"),
        &vec![some("/home/u/a")],
        &roots,
    );
    match m {
        Ok(batch) => assert!(batch.pending().is_some()),
        Err(_) => panic!("the batch should start"),
    }
}

#[test]
fn soft_delete_guards_every_path() {
    let roots = vec![some("/home/u")];
    let trash = TrashManager::new("/app");
    match soft_delete(
        vec!["/home/u/a".to_string(), "/etc/b".to_string()],
        &vec![some("/home/u/a"), some("/etc/b")],
        &roots,
        &trash,
    ) {
        Err(AppError::NotAllowed(m)) => assert_eq!(m, "Access to /etc/b is not allowed"),
        _ => panic!("a path is outside the roots"),
    }
    match soft_delete(vec!["/home/u/a".to_string()], &vec![some("/home/u/a")], &roots, &trash) {
        Ok(d) => assert!(d.trash_dir().starts_with("/app/.trash/")),
        Err(_) => panic!("the soft delete should start"),
    }
}

#[test]
fn search_matches_names_whatever_their_case() {
    let items = vec![
        FileItem::from_path("/r/README.md", &file_meta(1)).unwrap(),
        FileItem::from_path("/r/notes.txt", &file_meta(1)).unwrap(),
        FileItem::from_path("/r/Über-readme", &file_meta(1)).unwrap(),
    ];
    let found = filter_by_query(&items, "ReadMe");
    assert_eq!(found.len(), 2);
    assert_eq!(found[0].name, "README.md");
    assert_eq!(found[1].name, "Über-readme");
    assert_eq!(filter_by_query(&items, "ÜBER").len(), 1);
    assert_eq!(filter_by_query(&items, "").len(), 3);
    assert!(filter_by_query(&items, "absent").is_empty());

    let roots = vec![some("/r")];
    let entries = vec![
        probe("/r/README.md", Some(file_meta(1))),
        probe("/r/notes.txt", Some(file_meta(1))),
    ];
    let found = search("/r", "NOTES", Some("/r"), &roots, true, true, Ok(entries)).unwrap();
    assert_eq!(found.len(), 1);
    assert_eq!(found[0].path, "/r/notes.txt");
    assert!(matches!(
        search("/x", "q", Some("/x"), &roots, true, true, Ok(Vec::new())),
        Err(AppError::NotAllowed(_))
    ));
}

#[test]
fn favorites_are_the_directories_that_are_there() {
    let f = favorites_of(some("/h/Downloads"), None, some("/h/Desktop"), some("/h"));
    assert_eq!(f, vec!["/h/Downloads", "/h/Desktop", "/h"]);
    assert!(favorites_of(None, None, None, None).is_empty());
    let f = favorites_of(some("a"), some("b"), some("c"), some("d"));
    assert_eq!(f, vec!["a", "b", "c", "d"]);
    assert!(get_favorites().len() <= 4);
}

#[test]
fn the_allowed_roots_are_replaced() {
    let mut state = AppState {
        db: Database::new(),
        allowed_roots: vec!["/old".to_string()],
        trash_manager: TrashManager::new("/app"),
    };
    set_allowed_roots(vec!["/a".to_string(), "/b".to_string()], &mut state);
    assert_eq!(state.allowed_roots, vec!["/a", "/b"]);
    set_allowed_roots(Vec::new(), &mut state);
    assert!(state.allowed_roots.is_empty());
    assert_eq!(state.trash_manager.trash_root(), "/app/.trash");
}

#[test]
fn errors_have_a_code_and_a_message() {
    let all = vec![
        (AppError::FileNotFound("x".to_string()), "FILE_NOT_FOUND", "File not found: x"),
        (AppError::PermissionDenied("x".to_string()), "PERMISSION_DENIED", "Permission denied: x"),
        (AppError::InvalidPath("x".to_string()), "INVALID_PATH", "Invalid path: x"),
        (AppError::FileExists("x".to_string()), "FILE_EXISTS", "File already exists: x"),
        (AppError::InvalidFileName("x".to_string()), "INVALID_FILE_NAME", "Invalid file name: x"),
        (AppError::IoError("x".to_string()), "IO_ERROR", "IO error: x"),
        (AppError::DatabaseError("x".to_string()), "DATABASE_ERROR", "Database error: x"),
        (AppError::NotAllowed("x".to_string()), "NOT_ALLOWED", "Operation not allowed: x"),
        (AppError::UndoFailed("x".to_string()), "UNDO_FAILED", "Undo failed: x"),
        (AppError::Unknown("x".to_string()), "UNKNOWN_ERROR", "Unknown error: x"),
    ];
    for (e, code, message) in all {
        assert_eq!(e.error_code(), code);
        assert_eq!(e.to_string(), message);
        assert_eq!(e.detail(), "x");
    }
    assert!(matches!(AppError::from_io("m".to_string()), AppError::IoError(_)));
    assert!(matches!(AppError::from_store("m".to_string()), AppError::DatabaseError(_)));
}

#[test]
fn numbers_are_written_in_decimal() {
    assert_eq!(decimal(0), "0");
    assert_eq!(decimal(7), "7");
    assert_eq!(decimal(10), "10");
    assert_eq!(decimal(1205), "1205");
    assert_eq!(decimal(usize::MAX), usize::MAX.to_string());
}
