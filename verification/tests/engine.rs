use std::collections::BTreeMap;

use filemanager::commands::file_ops::{
    delete_records, move_records, undo_last_action, undo_record, UndoRun,
};
use filemanager::db::{ActionLog, Database};
use filemanager::clock::UnixTime;
use filemanager::error::AppError;
use filemanager::fs::effects::{FsReply, FsRequest};
use filemanager::fs::operations::{
    create_directory, move_items, move_items_as, rename_item, BatchResult, CreateDirectory,
    DirResult, MoveBatch, RenameItem, RenameResult, UndoResult,
};
use filemanager::fs::trash::{Restore, SoftDelete, TrashManager};

#[derive(Clone, Debug, PartialEq)]
enum Node {
    File(String),
    Dir,
}

/// A filesystem in memory that answers the engine's requests.
struct FakeFs {
    nodes: BTreeMap<String, Node>,
    cross_device: bool,
    rename_fails: bool,
    deny_create: bool,
    deny_single_create: bool,
    asked: Vec<String>,
}

fn parent_of(path: &str) -> Option<String> {
    let trimmed = path.trim_end_matches('/');
    match trimmed.rfind('/') {
        Some(0) => {
            if trimmed.len() > 1 {
                Some("/".to_string())
            } else {
                None
            }
        }
        Some(i) => Some(trimmed[..i].to_string()),
        None => None,
    }
}

impl FakeFs {
    fn new() -> FakeFs {
        let mut nodes = BTreeMap::new();
        nodes.insert("/".to_string(), Node::Dir);
        FakeFs {
            nodes,
            cross_device: false,
            rename_fails: false,
            deny_create: false,
            deny_single_create: false,
            asked: Vec::new(),
        }
    }

    fn dir(&mut self, path: &str) {
        if let Some(p) = parent_of(path) {
            if !self.nodes.contains_key(&p) {
                self.dir(&p);
            }
        }
        self.nodes.insert(path.to_string(), Node::Dir);
    }

    fn file(&mut self, path: &str, content: &str) {
        if let Some(p) = parent_of(path) {
            if !self.nodes.contains_key(&p) {
                self.dir(&p);
            }
        }
        self.nodes.insert(path.to_string(), Node::File(content.to_string()));
    }

    fn has(&self, path: &str) -> bool {
        self.nodes.contains_key(path)
    }

    fn content(&self, path: &str) -> Option<String> {
        match self.nodes.get(path) {
            Some(Node::File(c)) => Some(c.clone()),
            _ => None,
        }
    }

    fn is_dir(&self, path: &str) -> bool {
        matches!(self.nodes.get(path), Some(Node::Dir))
    }

    fn children(&self, path: &str) -> Vec<String> {
        let prefix = if path.ends_with('/') { path.to_string() } else { format!("{}/", path) };
        let mut names = Vec::new();
        for key in self.nodes.keys() {
            if key.starts_with(&prefix) && key.len() > prefix.len() {
                let rest = &key[prefix.len()..];
                if !rest.contains('/') {
                    names.push(rest.to_string());
                }
            }
        }
        names
    }

    fn below(&self, path: &str) -> Vec<String> {
        let prefix = format!("{}/", path);
        self.nodes.keys().filter(|k| k.starts_with(&prefix)).cloned().collect()
    }

    fn failed(message: &str) -> FsReply {
        FsReply::Failed { cross_device: false, message: message.to_string() }
    }

    fn perform(&mut self, request: FsRequest) -> FsReply {
        self.asked.push(format!("{:?}", request));
        match request {
            FsRequest::Exists { path } => FsReply::Flag(self.has(&path)),
            FsRequest::IsDir { path } => FsReply::Flag(self.is_dir(&path)),
            FsRequest::ReadDir { path } => {
                if self.is_dir(&path) {
                    FsReply::Names(self.children(&path))
                } else {
                    FakeFs::failed("not a directory")
                }
            }
            FsRequest::ListDirs { path } => {
                if self.is_dir(&path) {
                    let names = self
                        .children(&path)
                        .into_iter()
                        .filter(|n| self.is_dir(&format!("{}/{}", path, n)))
                        .collect();
                    FsReply::Names(names)
                } else {
                    FakeFs::failed("not a directory")
                }
            }
            FsRequest::Rename { from, to } => {
                if self.cross_device {
                    return FsReply::Failed {
                        cross_device: true,
                        message: "cross-device link".to_string(),
                    };
                }
                if self.rename_fails {
                    return FakeFs::failed("permission denied");
                }
                if !self.has(&from) {
                    return FakeFs::failed("no such file or directory");
                }
                match parent_of(&to) {
                    Some(p) if !self.is_dir(&p) => return FakeFs::failed("no such directory"),
                    _ => {}
                }
                let node = self.nodes.remove(&from).unwrap();
                let moved = self.below(&from);
                for key in moved {
                    let n = self.nodes.remove(&key).unwrap();
                    let new_key = format!("{}{}", to, &key[from.len()..]);
                    self.nodes.insert(new_key, n);
                }
                self.nodes.insert(to, node);
                FsReply::Done
            }
            FsRequest::CopyFile { from, to } => match self.nodes.get(&from).cloned() {
                Some(Node::File(c)) => {
                    self.nodes.insert(to, Node::File(c));
                    FsReply::Done
                }
                _ => FakeFs::failed("not a file"),
            },
            FsRequest::CreateDir { path } => {
                if self.deny_create || self.deny_single_create {
                    return FakeFs::failed("permission denied");
                }
                if self.has(&path) {
                    return FsReply::Taken { message: "file exists".to_string() };
                }
                match parent_of(&path) {
                    Some(p) if !self.is_dir(&p) => return FakeFs::failed("no such directory"),
                    _ => {}
                }
                self.nodes.insert(path, Node::Dir);
                FsReply::Done
            }
            FsRequest::CreateDirAll { path } => {
                if self.deny_create {
                    return FakeFs::failed("permission denied");
                }
                self.dir(&path);
                FsReply::Done
            }
            FsRequest::RemoveFile { path } => match self.nodes.get(&path) {
                Some(Node::File(_)) => {
                    self.nodes.remove(&path);
                    FsReply::Done
                }
                _ => FakeFs::failed("not a file"),
            },
            FsRequest::RemoveDir { path } => {
                if !self.is_dir(&path) {
                    return FakeFs::failed("not a directory");
                }
                if !self.children(&path).is_empty() {
                    return FakeFs::failed("directory not empty");
                }
                self.nodes.remove(&path);
                FsReply::Done
            }
            FsRequest::RemoveDirAll { path } => {
                if !self.is_dir(&path) {
                    return FakeFs::failed("not a directory");
                }
                for key in self.below(&path) {
                    self.nodes.remove(&key);
                }
                self.nodes.remove(&path);
                FsReply::Done
            }
            FsRequest::WriteFile { path, contents } => {
                self.nodes.insert(path, Node::File(contents));
                FsReply::Done
            }
        }
    }

    fn asked_any(&self, word: &str) -> bool {
        self.asked.iter().any(|a| a.starts_with(word))
    }
}

fn run_moves(mut m: MoveBatch, fs: &mut FakeFs) -> BatchResult {
    loop {
        match m.pending() {
            Some(request) => {
                let reply = fs.perform(request);
                m = m.advance(reply);
            }
            None => break,
        }
    }
    match m.finish() {
        Ok(outcome) => outcome,
        Err(_) => panic!("the batch asks nothing but has not ended"),
    }
}

fn run_soft_delete(mut d: SoftDelete, fs: &mut FakeFs) -> Result<BatchResult, AppError> {
    loop {
        match d.pending() {
            Some(request) => {
                let reply = fs.perform(request);
                d = d.advance(reply);
            }
            None => break,
        }
    }
    match d.finish() {
        Ok(outcome) => outcome,
        Err(_) => panic!("the soft delete asks nothing but has not ended"),
    }
}

fn run_restore(mut r: Restore, fs: &mut FakeFs) -> Result<UndoResult, AppError> {
    loop {
        match r.pending() {
            Some(request) => {
                let reply = fs.perform(request);
                r = r.advance(reply);
            }
            None => break,
        }
    }
    match r.finish() {
        Ok(outcome) => outcome,
        Err(_) => panic!("the restore asks nothing but has not ended"),
    }
}

fn run_create(mut op: CreateDirectory, fs: &mut FakeFs) -> Result<DirResult, AppError> {
    loop {
        match op.pending() {
            Some(request) => {
                let reply = fs.perform(request);
                op = op.advance(reply);
            }
            None => break,
        }
    }
    match op {
        CreateDirectory::Finished(r) => r,
        _ => panic!("the creation asks nothing but has not ended"),
    }
}

fn run_rename(mut op: RenameItem, fs: &mut FakeFs) -> Result<RenameResult, AppError> {
    loop {
        match op.pending() {
            Some(request) => {
                let reply = fs.perform(request);
                op = op.advance(reply);
            }
            None => break,
        }
    }
    match op {
        RenameItem::Finished(r) => r,
        _ => panic!("the renaming asks nothing but has not ended"),
    }
}

fn run_undo(mut run: UndoRun, fs: &mut FakeFs) -> Result<UndoResult, AppError> {
    loop {
        match run.pending() {
            Some(request) => {
                let reply = fs.perform(request);
                run = run.advance(reply);
            }
            None => break,
        }
    }
    match run {
        UndoRun::Finished(r) => r,
        _ => panic!("the undo asks nothing but has not ended"),
    }
}

fn paths(list: &[&str]) -> Vec<String> {
    list.iter().map(|s| s.to_string()).collect()
}

fn at(secs: i64) -> UnixTime {
    UnixTime { secs, nanos: 0 }
}

fn log_all(db: &mut Database, records: Vec<ActionLog>) {
    for r in records {
        db.log_action(r).unwrap();
    }
}

#[test]
fn batch_moves_every_item_into_the_directory() {
    let mut fs = FakeFs::new();
    fs.file("/root/a.txt", "alpha");
    fs.file("/root/b.txt", "beta");
    fs.dir("/root/sub");
    let m = move_items_as("b-1".to_string(), paths(&["/root/a.txt", "/root/b.txt"]), "/root/sub")
        .unwrap_or_else(|_| panic!("both sources have a file name"));
    let outcome = run_moves(m, &mut fs);
    assert!(outcome.success);
    assert_eq!(outcome.processed, 2);
    assert_eq!(outcome.failed, 0);
    assert_eq!(outcome.batch_id, "b-1");
    assert_eq!(outcome.results.len(), 2);
    assert_eq!(outcome.results[0].path, "/root/a.txt");
    assert!(outcome.results[0].success);
    assert!(outcome.results[0].message.is_none());
    assert_eq!(outcome.results[1].path, "/root/b.txt");
    assert_eq!(fs.content("/root/sub/a.txt"), Some("alpha".to_string()));
    assert_eq!(fs.content("/root/sub/b.txt"), Some("beta".to_string()));
    assert!(!fs.has("/root/a.txt"));
    assert!(!fs.has("/root/b.txt"));
}

#[test]
fn move_onto_a_taken_target_fails_the_item_and_leaves_the_source() {
    let mut fs = FakeFs::new();
    fs.file("/root/x", "mine");
    fs.file("/root/sub/x", "theirs");
    let m = move_items(paths(&["/root/x"]), "/root/sub")
        .unwrap_or_else(|_| panic!("the source has a file name"));
    let outcome = run_moves(m, &mut fs);
    assert!(!outcome.success);
    assert_eq!(outcome.processed, 0);
    assert_eq!(outcome.failed, 1);
    assert_eq!(outcome.results.len(), 1);
    assert!(!outcome.results[0].success);
    assert_eq!(outcome.results[0].message, Some("Destination already exists".to_string()));
    assert_eq!(fs.content("/root/x"), Some("mine".to_string()));
    assert_eq!(fs.content("/root/sub/x"), Some("theirs".to_string()));
    assert!(!fs.asked_any("Rename"));
    assert!(!fs.asked_any("CopyFile"));
    assert!(!fs.asked_any("Remove"));
}

#[test]
fn move_across_devices_copies_the_file_and_removes_the_source() {
    let mut fs = FakeFs::new();
    fs.file("/root/x.bin", "payload");
    fs.dir("/mnt/usb");
    fs.cross_device = true;
    let m = move_items(paths(&["/root/x.bin"]), "/mnt/usb")
        .unwrap_or_else(|_| panic!("the source has a file name"));
    let outcome = run_moves(m, &mut fs);
    assert!(outcome.success);
    assert_eq!(outcome.processed, 1);
    assert_eq!(outcome.failed, 0);
    assert!(!fs.has("/root/x.bin"));
    assert_eq!(fs.content("/mnt/usb/x.bin"), Some("payload".to_string()));
    assert!(fs.asked_any("CopyFile"));
    assert!(fs.asked_any("RemoveFile"));
}

#[test]
fn move_across_devices_copies_a_tree_node_by_node() {
    let mut fs = FakeFs::new();
    fs.file("/root/proj/readme.md", "r");
    fs.file("/root/proj/src/main.rs", "m");
    fs.file("/root/proj/src/deep/x.rs", "x");
    fs.dir("/root/proj/empty");
    fs.dir("/mnt/usb");
    fs.cross_device = true;
    let m = move_items(paths(&["/root/proj"]), "/mnt/usb")
        .unwrap_or_else(|_| panic!("the source has a file name"));
    let outcome = run_moves(m, &mut fs);
    assert_eq!(outcome.processed, 1);
    assert_eq!(outcome.failed, 0);
    assert!(!fs.has("/root/proj"));
    assert!(!fs.has("/root/proj/src/main.rs"));
    assert!(fs.is_dir("/mnt/usb/proj"));
    assert!(fs.is_dir("/mnt/usb/proj/empty"));
    assert!(fs.is_dir("/mnt/usb/proj/src/deep"));
    assert_eq!(fs.content("/mnt/usb/proj/readme.md"), Some("r".to_string()));
    assert_eq!(fs.content("/mnt/usb/proj/src/main.rs"), Some("m".to_string()));
    assert_eq!(fs.content("/mnt/usb/proj/src/deep/x.rs"), Some("x".to_string()));
    assert!(fs.asked_any("RemoveDirAll"));
}

#[test]
fn tree_copy_visits_entries_in_walk_order() {
    let mut fs = FakeFs::new();
    fs.file("/a/1.txt", "1");
    fs.file("/a/d/2.txt", "2");
    fs.file("/a/z.txt", "z");
    fs.dir("/t");
    fs.cross_device = true;
    let m = move_items(paths(&["/a"]), "/t").unwrap_or_else(|_| panic!("named"));
    run_moves(m, &mut fs);
    let copies: Vec<&String> = fs.asked.iter().filter(|a| a.starts_with("CopyFile")).collect();
    assert_eq!(copies.len(), 3);
    assert!(copies[0].contains("/a/1.txt"));
    assert!(copies[1].contains("/a/d/2.txt"));
    assert!(copies[2].contains("/a/z.txt"));
}

#[test]
fn a_rename_that_fails_on_one_device_fails_the_item_without_a_copy() {
    let mut fs = FakeFs::new();
    fs.file("/root/locked", "l");
    fs.file("/root/free", "f");
    fs.dir("/root/sub");
    fs.rename_fails = true;
    let m = move_items(paths(&["/root/locked", "/root/free"]), "/root/sub")
        .unwrap_or_else(|_| panic!("named"));
    let outcome = run_moves(m, &mut fs);
    assert!(!outcome.success);
    assert_eq!(outcome.processed, 0);
    assert_eq!(outcome.failed, 2);
    assert_eq!(outcome.results[0].message, Some("IO error: permission denied".to_string()));
    assert!(!fs.asked_any("CopyFile"));
    assert!(fs.has("/root/locked"));
}

#[test]
fn one_failing_item_does_not_stop_the_batch() {
    let mut fs = FakeFs::new();
    fs.file("/root/a", "a");
    fs.file("/root/b", "b");
    fs.file("/root/c", "c");
    fs.file("/root/sub/b", "taken");
    let m = move_items(paths(&["/root/a", "/root/b", "/root/c", "/root/gone"]), "/root/sub")
        .unwrap_or_else(|_| panic!("named"));
    let outcome = run_moves(m, &mut fs);
    assert!(!outcome.success);
    assert_eq!(outcome.processed, 2);
    assert_eq!(outcome.failed, 2);
    assert_eq!(outcome.processed + outcome.failed, 4);
    assert_eq!(outcome.results.len(), 4);
    let flags: Vec<bool> = outcome.results.iter().map(|r| r.success).collect();
    assert_eq!(flags, vec![true, false, true, false]);
    assert_eq!(
        outcome.results[3].message,
        Some("IO error: no such file or directory".to_string())
    );
    assert_eq!(fs.content("/root/sub/a"), Some("a".to_string()));
    assert_eq!(fs.content("/root/sub/b"), Some("taken".to_string()));
    assert_eq!(fs.content("/root/b"), Some("b".to_string()));
}

#[test]
fn an_empty_batch_ends_at_once_as_a_success() {
    let mut fs = FakeFs::new();
    let m = move_items(Vec::new(), "/root/sub").unwrap_or_else(|_| panic!("nothing to name"));
    assert!(m.pending().is_none());
    let outcome = run_moves(m, &mut fs);
    assert!(outcome.success);
    assert_eq!(outcome.processed, 0);
    assert_eq!(outcome.failed, 0);
    assert!(fs.asked.is_empty());
}

#[test]
fn a_source_without_a_file_name_refuses_the_whole_batch() {
    let r = move_items(paths(&["/root/a", "/"]), "/root/sub");
    match r {
        Err(AppError::InvalidPath(m)) => assert_eq!(m, "Invalid file name"),
        _ => panic!("the batch should be refused"),
    }
    let r = move_items(paths(&["/root/.."]), "/root/sub");
    assert!(matches!(r, Err(AppError::InvalidPath(_))));
}

#[test]
fn fresh_batches_get_different_identifiers() {
    let mut fs = FakeFs::new();
    let a = run_moves(move_items(Vec::new(), "/d").unwrap_or_else(|_| panic!()), &mut fs);
    let b = run_moves(move_items(Vec::new(), "/d").unwrap_or_else(|_| panic!()), &mut fs);
    assert_eq!(a.batch_id.len(), 36);
    assert_ne!(a.batch_id, b.batch_id);
}

#[test]
fn moving_there_and_back_restores_the_item() {
    let mut fs = FakeFs::new();
    fs.file("/home/u/docs/report.txt", "contents of the report");
    fs.dir("/home/u/archive");
    let there = move_items(paths(&["/home/u/docs/report.txt"]), "/home/u/archive")
        .unwrap_or_else(|_| panic!("named"));
    assert_eq!(run_moves(there, &mut fs).processed, 1);
    assert!(!fs.has("/home/u/docs/report.txt"));
    let back = move_items(paths(&["/home/u/archive/report.txt"]), "/home/u/docs")
        .unwrap_or_else(|_| panic!("named"));
    assert_eq!(run_moves(back, &mut fs).processed, 1);
    assert_eq!(
        fs.content("/home/u/docs/report.txt"),
        Some("contents of the report".to_string())
    );
    assert!(!fs.has("/home/u/archive/report.txt"));
}

#[test]
fn create_directory_makes_the_directory() {
    let mut fs = FakeFs::new();
    fs.dir("/root");
    let r = run_create(create_directory("/root", "new"), &mut fs).unwrap();
    assert!(r.success);
    assert_eq!(r.path, "/root/new");
    assert!(r.message.is_none());
    assert!(fs.is_dir("/root/new"));
}

#[test]
fn create_directory_refuses_a_taken_path() {
    let mut fs = FakeFs::new();
    fs.file("/root/new", "f");
    match run_create(create_directory("/root", "new"), &mut fs) {
        Err(AppError::FileExists(p)) => assert_eq!(p, "/root/new"),
        _ => panic!("the path is taken"),
    }
    assert!(!fs.asked_any("CreateDir"));
}

#[test]
fn create_directory_reports_a_failed_creation() {
    let mut fs = FakeFs::new();
    fs.dir("/root");
    fs.deny_create = true;
    match run_create(create_directory("/root", "new"), &mut fs) {
        Err(AppError::IoError(m)) => assert_eq!(m, "permission denied"),
        _ => panic!("the creation fails"),
    }
}

#[test]
fn rename_item_renames_within_the_directory() {
    let mut fs = FakeFs::new();
    fs.file("/root/old.txt", "o");
    let r = run_rename(rename_item("/root/old.txt", "new.txt"), &mut fs).unwrap();
    assert!(r.success);
    assert_eq!(r.old_path, "/root/old.txt");
    assert_eq!(r.new_path, "/root/new.txt");
    assert_eq!(fs.content("/root/new.txt"), Some("o".to_string()));
    assert!(!fs.has("/root/old.txt"));
}

#[test]
fn rename_item_refuses_what_it_cannot_do() {
    let mut fs = FakeFs::new();
    fs.file("/root/a", "a");
    fs.file("/root/b", "b");
    match run_rename(rename_item("/root/none", "x"), &mut fs) {
        Err(AppError::FileNotFound(p)) => assert_eq!(p, "/root/none"),
        _ => panic!("the source is missing"),
    }
    match run_rename(rename_item("/root/a", "b"), &mut fs) {
        Err(AppError::FileExists(p)) => assert_eq!(p, "/root/b"),
        _ => panic!("the target is taken"),
    }
    match run_rename(rename_item("/", "x"), &mut fs) {
        Err(AppError::InvalidPath(m)) => assert_eq!(m, "Cannot get parent directory"),
        _ => panic!("the root has no parent"),
    }
    assert!(!fs.asked_any("Rename"));
    fs.rename_fails = true;
    match run_rename(rename_item("/root/a", "c"), &mut fs) {
        Err(AppError::IoError(m)) => assert_eq!(m, "permission denied"),
        _ => panic!("the rename fails"),
    }
}

#[test]
fn soft_delete_moves_into_a_new_slot_and_writes_the_manifest() {
    let mut fs = FakeFs::new();
    fs.file("/root/a.txt", "alpha");
    fs.file("/root/b.txt", "beta");
    let trash = TrashManager::new("/app");
    assert_eq!(trash.trash_root(), "/app/.trash");
    let d = trash
        .soft_delete_at(paths(&["/root/a.txt", "/root/b.txt"]), "batch-7".to_string(), 0)
        .unwrap_or_else(|_| panic!("both paths have a file name"));
    assert_eq!(d.trash_dir(), "/app/.trash/19700101_000000");
    let outcome = run_soft_delete(d, &mut fs).unwrap();
    assert!(outcome.success);
    assert_eq!(outcome.processed, 2);
    assert_eq!(outcome.failed, 0);
    assert_eq!(outcome.batch_id, "batch-7");
    assert!(!fs.has("/root/a.txt"));
    assert_eq!(fs.content("/app/.trash/19700101_000000/a.txt"), Some("alpha".to_string()));
    assert_eq!(fs.content("/app/.trash/19700101_000000/b.txt"), Some("beta".to_string()));
    let manifest = fs.content("/app/.trash/19700101_000000/.metadata.json").unwrap();
    let expected = "{\n  \"batch_id\": \"batch-7\",\n  \"items\": [\n    \"/root/a.txt\",\n    \"/root/b.txt\"\n  ],\n  \"timestamp\": \"19700101_000000\"\n}";
    assert_eq!(manifest, expected);
}

#[test]
fn the_manifest_lists_only_what_was_moved() {
    let mut fs = FakeFs::new();
    fs.file("/root/a.txt", "alpha");
    let trash = TrashManager::new("/app");
    let d = trash
        .soft_delete_into(
            paths(&["/root/a.txt", "/root/missing.txt"]),
            "b".to_string(),
            "slot".to_string(),
        )
        .unwrap_or_else(|_| panic!("named"));
    let outcome = run_soft_delete(d, &mut fs).unwrap();
    assert!(!outcome.success);
    assert_eq!(outcome.processed, 1);
    assert_eq!(outcome.failed, 1);
    let manifest = fs.content("/app/.trash/slot/.metadata.json").unwrap();
    let value: serde_json::Value = serde_json::from_str(&manifest).unwrap();
    assert_eq!(value["batch_id"], "b");
    assert_eq!(value["timestamp"], "slot");
    assert_eq!(value["items"].as_array().unwrap().len(), 1);
    assert_eq!(value["items"][0], "/root/a.txt");
}

#[test]
fn soft_delete_fails_whole_where_the_slot_cannot_be_made() {
    let mut fs = FakeFs::new();
    fs.file("/root/a.txt", "alpha");
    fs.deny_create = true;
    let trash = TrashManager::new("/app");
    let d = trash
        .soft_delete_at(paths(&["/root/a.txt"]), "b".to_string(), 0)
        .unwrap_or_else(|_| panic!("named"));
    match run_soft_delete(d, &mut fs) {
        Err(AppError::IoError(m)) => assert_eq!(m, "permission denied"),
        _ => panic!("the slot cannot be made"),
    }
    assert!(!fs.asked_any("Rename"));
    assert_eq!(fs.content("/root/a.txt"), Some("alpha".to_string()));
}

#[test]
fn soft_delete_refuses_a_path_without_a_file_name() {
    let trash = TrashManager::new("/app");
    match trash.soft_delete_at(paths(&["/root/a", "/"]), "b".to_string(), 0) {
        Err(AppError::InvalidPath(m)) => assert_eq!(m, "Invalid file name"),
        _ => panic!("the root has no file name"),
    }
    assert!(matches!(trash.soft_delete(paths(&[""])), Err(AppError::InvalidPath(_))));
}

#[test]
fn soft_delete_refuses_a_time_that_has_no_name() {
    let trash = TrashManager::new("/app");
    match trash.soft_delete_at(paths(&["/root/a"]), "b".to_string(), i64::MAX) {
        Err(AppError::Unknown(m)) => assert_eq!(m, "Time out of range"),
        _ => panic!("the time cannot be written"),
    }
}

#[test]
fn soft_delete_by_the_clock_makes_a_slot_named_by_the_time() {
    let mut fs = FakeFs::new();
    fs.file("/root/a.txt", "alpha");
    let trash = TrashManager::new("/app");
    let d = trash.soft_delete(paths(&["/root/a.txt"])).unwrap_or_else(|_| panic!("named"));
    let dir = d.trash_dir().clone();
    assert!(dir.starts_with("/app/.trash/"));
    let name = &dir["/app/.trash/".len()..];
    assert_eq!(name.len(), 15);
    assert_eq!(name.as_bytes()[8], b'_');
    let outcome = run_soft_delete(d, &mut fs).unwrap();
    assert_eq!(outcome.processed, 1);
    assert_eq!(outcome.batch_id.len(), 36);
    assert_eq!(fs.content(&format!("{}/a.txt", dir)), Some("alpha".to_string()));
}

#[test]
fn restore_moves_entries_back_and_a_second_restore_finds_nothing() {
    let mut fs = FakeFs::new();
    fs.file("/root/docs/a.txt", "alpha");
    let trash = TrashManager::new("/app");
    let d = trash
        .soft_delete_at(paths(&["/root/docs/a.txt"]), "b".to_string(), 86_400)
        .unwrap_or_else(|_| panic!("named"));
    assert_eq!(run_soft_delete(d, &mut fs).unwrap().processed, 1);
    assert!(!fs.has("/root/docs/a.txt"));
    let first = run_restore(
        trash.restore_from_trash("19700102_000000", paths(&["/root/docs/a.txt"])),
        &mut fs,
    )
    .unwrap();
    assert!(first.success);
    assert_eq!(first.action, "DELETE");
    assert_eq!(first.items_restored, 1);
    assert!(first.message.is_none());
    assert_eq!(fs.content("/root/docs/a.txt"), Some("alpha".to_string()));
    let second = run_restore(
        trash.restore_from_trash("19700102_000000", paths(&["/root/docs/a.txt"])),
        &mut fs,
    )
    .unwrap();
    assert!(second.success);
    assert_eq!(second.items_restored, 0);
    assert_eq!(fs.content("/root/docs/a.txt"), Some("alpha".to_string()));
}

#[test]
fn restore_makes_the_directories_above_a_path_again() {
    let mut fs = FakeFs::new();
    fs.file("/app/.trash/s/a.txt", "alpha");
    let trash = TrashManager::new("/app");
    let r = run_restore(trash.restore_from_trash("s", paths(&["/new/place/a.txt"])), &mut fs)
        .unwrap();
    assert_eq!(r.items_restored, 1);
    assert_eq!(fs.content("/new/place/a.txt"), Some("alpha".to_string()));
    assert!(!fs.has("/app/.trash/s"));
}

#[test]
fn restore_from_a_missing_slot_fails() {
    let mut fs = FakeFs::new();
    let trash = TrashManager::new("/app");
    match run_restore(trash.restore_from_trash("nope", paths(&["/root/a"])), &mut fs) {
        Err(AppError::UndoFailed(m)) => assert_eq!(m, "Trash folder not found"),
        _ => panic!("the slot is missing"),
    }
}

#[test]
fn restore_refuses_a_path_without_a_file_name_before_it_moves_anything() {
    let mut fs = FakeFs::new();
    fs.file("/app/.trash/s/a.txt", "alpha");
    let trash = TrashManager::new("/app");
    match run_restore(trash.restore_from_trash("s", paths(&["/root/a.txt", "/"])), &mut fs) {
        Err(AppError::InvalidPath(m)) => assert_eq!(m, "Invalid file name"),
        _ => panic!("the root has no file name"),
    }
    assert!(!fs.asked_any("Rename"));
    assert!(fs.has("/app/.trash/s/a.txt"));
}

#[test]
fn restore_stops_at_the_first_entry_that_cannot_be_moved() {
    let mut fs = FakeFs::new();
    fs.file("/app/.trash/s/a.txt", "alpha");
    fs.dir("/root");
    fs.rename_fails = true;
    let trash = TrashManager::new("/app");
    match run_restore(trash.restore_from_trash("s", paths(&["/root/a.txt"])), &mut fs) {
        Err(AppError::IoError(m)) => assert_eq!(m, "permission denied"),
        _ => panic!("the move back fails"),
    }
}

#[test]
fn the_latest_trash_folder_is_the_greatest_name() {
    let trash = TrashManager::new("/app");
    assert_eq!(trash.get_latest_trash_folder(&Vec::new()), None);
    let names = paths(&["20240101_120000", "20250309_080000", "20241231_235959"]);
    assert_eq!(trash.get_latest_trash_folder(&names), Some("20250309_080000".to_string()));
    let names = paths(&["b", "a", "ab", "b"]);
    assert_eq!(trash.get_latest_trash_folder(&names), Some("b".to_string()));
    let names = paths(&["2024", "20240"]);
    assert_eq!(trash.get_latest_trash_folder(&names), Some("20240".to_string()));
}

#[test]
fn undo_of_a_soft_delete_restores_both_files_once() {
    let mut fs = FakeFs::new();
    fs.file("/root/a.txt", "alpha");
    fs.file("/root/b.txt", "beta");
    let trash = TrashManager::new("/app");
    let mut db = Database::new();

    let d = trash
        .soft_delete_at(paths(&["/root/a.txt", "/root/b.txt"]), "batch-1".to_string(), 1_700_000_000)
        .unwrap_or_else(|_| panic!("named"));
    let outcome = run_soft_delete(d, &mut fs).unwrap();
    assert_eq!(outcome.processed, 2);
    assert_eq!(outcome.failed, 0);
    let slots = fs.children("/app/.trash");
    assert_eq!(slots.len(), 1);
    assert!(fs.has(&format!("/app/.trash/{}/a.txt", slots[0])));
    assert!(fs.has(&format!("/app/.trash/{}/b.txt", slots[0])));
    log_all(&mut db, delete_records(&outcome, at(1_700_000_000)));
    assert_eq!(db.len(), 2);

    let batch = db.get_last_reversible_action();
    assert_eq!(batch.len(), 2);
    let result = run_undo(undo_last_action(&batch, &trash), &mut fs).unwrap();
    assert!(result.success);
    assert_eq!(result.action, "DELETE");
    assert_eq!(result.items_restored, 2);
    assert_eq!(fs.content("/root/a.txt"), Some("alpha".to_string()));
    assert_eq!(fs.content("/root/b.txt"), Some("beta".to_string()));
    db.log_action(undo_record(&result, at(1_700_000_100))).unwrap();

    let batch = db.get_last_reversible_action();
    assert!(batch.is_empty());
    match run_undo(undo_last_action(&batch, &trash), &mut fs) {
        Err(AppError::UndoFailed(m)) => assert_eq!(m, "No action to undo"),
        _ => panic!("nothing is left to undo"),
    }
}

#[test]
fn undo_of_a_move_moves_every_member_back() {
    let mut fs = FakeFs::new();
    fs.file("/root/a.txt", "alpha");
    fs.file("/root/deep/b.txt", "beta");
    fs.dir("/root/sub");
    let trash = TrashManager::new("/app");
    let mut db = Database::new();
    let m = move_items_as(
        "mv-1".to_string(),
        paths(&["/root/a.txt", "/root/deep/b.txt", "/root/missing"]),
        "/root/sub",
    )
    .unwrap_or_else(|_| panic!("named"));
    let outcome = run_moves(m, &mut fs);
    assert_eq!(outcome.processed, 2);
    let records = move_records(&outcome, "/root/sub", at(10));
    assert_eq!(records.len(), 2);
    assert_eq!(records[0].action, "MOVE");
    assert_eq!(records[0].src_path, Some("/root/a.txt".to_string()));
    assert_eq!(records[0].dst_path, Some("/root/sub".to_string()));
    assert_eq!(records[0].batch_id, Some("mv-1".to_string()));
    assert_eq!(records[0].status, "SUCCESS");
    assert_eq!(records[0].timestamp, "1970-01-01T00:00:10+00:00");
    log_all(&mut db, records);

    let batch = db.get_last_reversible_action();
    let result = run_undo(undo_last_action(&batch, &trash), &mut fs).unwrap();
    assert_eq!(result.action, "MOVE");
    assert_eq!(result.items_restored, 2);
    assert_eq!(fs.content("/root/a.txt"), Some("alpha".to_string()));
    assert_eq!(fs.content("/root/deep/b.txt"), Some("beta".to_string()));
    assert!(!fs.has("/root/sub/a.txt"));
}

#[test]
fn undo_of_a_move_counts_only_what_came_back() {
    let mut fs = FakeFs::new();
    fs.file("/root/sub/a.txt", "alpha");
    fs.file("/root/sub/b.txt", "beta");
    fs.file("/root/b.txt", "in the way");
    let trash = TrashManager::new("/app");
    let batch = vec![
        record("MOVE", Some("/root/a.txt"), Some("/root/sub"), Some("m")),
        record("MOVE", Some("/root/b.txt"), Some("/root/sub"), Some("m")),
        record("MOVE", None, Some("/root/sub"), Some("m")),
    ];
    let result = run_undo(undo_last_action(&batch, &trash), &mut fs).unwrap();
    assert_eq!(result.items_restored, 1);
    assert_eq!(fs.content("/root/a.txt"), Some("alpha".to_string()));
    assert_eq!(fs.content("/root/b.txt"), Some("in the way".to_string()));
    assert_eq!(fs.content("/root/sub/b.txt"), Some("beta".to_string()));
}

fn record(action: &str, src: Option<&str>, dst: Option<&str>, batch: Option<&str>) -> ActionLog {
    ActionLog {
        id: None,
        timestamp: "t".to_string(),
        action: action.to_string(),
        src_path: src.map(|s| s.to_string()),
        dst_path: dst.map(|s| s.to_string()),
        status: "SUCCESS".to_string(),
        message: None,
        batch_id: batch.map(|s| s.to_string()),
    }
}

#[test]
fn undo_of_a_rename_renames_back() {
    let mut fs = FakeFs::new();
    fs.file("/root/new.txt", "n");
    let trash = TrashManager::new("/app");
    let batch = vec![record("RENAME", Some("/root/old.txt"), Some("/root/new.txt"), None)];
    let result = run_undo(undo_last_action(&batch, &trash), &mut fs).unwrap();
    assert!(result.success);
    assert_eq!(result.action, "RENAME");
    assert_eq!(result.items_restored, 1);
    assert_eq!(fs.content("/root/old.txt"), Some("n".to_string()));
    assert!(!fs.has("/root/new.txt"));
}

#[test]
fn undo_of_a_rename_fails_where_the_entry_is_gone() {
    let mut fs = FakeFs::new();
    let trash = TrashManager::new("/app");
    let batch = vec![record("RENAME", Some("/root/old.txt"), Some("/root/new.txt"), None)];
    match run_undo(undo_last_action(&batch, &trash), &mut fs) {
        Err(AppError::FileNotFound(p)) => assert_eq!(p, "/root/new.txt"),
        _ => panic!("the renamed entry is gone"),
    }
}

#[test]
fn undo_of_a_created_directory_removes_it_unless_it_has_content() {
    let mut fs = FakeFs::new();
    fs.dir("/root/made");
    let trash = TrashManager::new("/app");
    let batch = vec![record("CREATE_DIR", None, Some("/root/made"), None)];
    let result = run_undo(undo_last_action(&batch, &trash), &mut fs).unwrap();
    assert_eq!(result.action, "CREATE_DIR");
    assert_eq!(result.items_restored, 1);
    assert!(!fs.has("/root/made"));

    fs.file("/root/kept/inside.txt", "i");
    let batch = vec![record("CREATE_DIR", None, Some("/root/kept"), None)];
    match run_undo(undo_last_action(&batch, &trash), &mut fs) {
        Err(AppError::IoError(m)) => assert_eq!(m, "directory not empty"),
        _ => panic!("a directory with content stays"),
    }
    assert!(fs.has("/root/kept/inside.txt"));
}

#[test]
fn undo_refuses_what_it_cannot_reverse() {
    let mut fs = FakeFs::new();
    let trash = TrashManager::new("/app");
    match run_undo(undo_last_action(&Vec::new(), &trash), &mut fs) {
        Err(AppError::UndoFailed(m)) => assert_eq!(m, "No action to undo"),
        _ => panic!("an empty batch"),
    }
    match run_undo(undo_last_action(&vec![record("LIST_DIR", Some("/r"), None, None)], &trash), &mut fs) {
        Err(AppError::UndoFailed(m)) => assert_eq!(m, "Cannot undo action: LIST_DIR"),
        _ => panic!("a listing cannot be undone"),
    }
    match run_undo(undo_last_action(&vec![record("RENAME", Some("/r/a"), None, None)], &trash), &mut fs) {
        Err(AppError::UndoFailed(m)) => assert_eq!(m, "Missing path information"),
        _ => panic!("the record lacks a path"),
    }
    match run_undo(undo_last_action(&vec![record("CREATE_DIR", Some("/r/a"), None, None)], &trash), &mut fs) {
        Err(AppError::UndoFailed(m)) => assert_eq!(m, "Missing path information"),
        _ => panic!("the record lacks a path"),
    }
    match run_undo(undo_last_action(&vec![record("RENAME", Some("/"), Some("/x"), None)], &trash), &mut fs) {
        Err(AppError::InvalidPath(m)) => assert_eq!(m, "Invalid file name"),
        _ => panic!("the source has no file name"),
    }
    match run_undo(
        undo_last_action(
            &vec![
                record("MOVE", Some("/r/a"), Some("/d"), Some("m")),
                record("MOVE", Some("/"), Some("/d"), Some("m")),
            ],
            &trash,
        ),
        &mut fs,
    ) {
        Err(AppError::InvalidPath(m)) => assert_eq!(m, "Invalid file name"),
        _ => panic!("a source has no file name"),
    }
    assert!(fs.asked.is_empty());
}

#[test]
fn undo_of_a_soft_delete_needs_a_trash_folder() {
    let mut fs = FakeFs::new();
    let trash = TrashManager::new("/app");
    let batch = vec![record("DELETE", Some("/root/a"), None, Some("d"))];
    match run_undo(undo_last_action(&batch, &trash), &mut fs) {
        Err(AppError::UndoFailed(m)) => assert_eq!(m, "No trash folder found"),
        _ => panic!("there is no trash"),
    }
    fs.dir("/app/.trash");
    match run_undo(undo_last_action(&batch, &trash), &mut fs) {
        Err(AppError::UndoFailed(m)) => assert_eq!(m, "No trash folder found"),
        _ => panic!("the trash is empty"),
    }
}

#[test]
fn undo_of_a_soft_delete_restores_from_the_newest_slot() {
    let mut fs = FakeFs::new();
    fs.file("/app/.trash/20240101_000000/a", "old");
    fs.file("/app/.trash/20240202_000000/a", "new");
    fs.file("/app/.trash/zzz.txt", "not a folder");
    let trash = TrashManager::new("/app");
    let batch = vec![record("DELETE", Some("/root/a"), None, Some("d"))];
    let result = run_undo(undo_last_action(&batch, &trash), &mut fs).unwrap();
    assert_eq!(result.items_restored, 1);
    assert_eq!(fs.content("/root/a"), Some("new".to_string()));
    assert!(fs.has("/app/.trash/20240101_000000/a"));
}

#[test]
fn the_record_of_an_undo_says_how_many_items_came_back() {
    let result = UndoResult {
        success: true,
        action: "MOVE".to_string(),
        items_restored: 120,
        message: None,
    };
    let log = undo_record(&result, UnixTime { secs: 1_431_648_000, nanos: 0 });
    assert_eq!(log.action, "UNDO");
    assert_eq!(log.status, "SUCCESS");
    assert_eq!(log.message, Some("Undid 120 action(s)".to_string()));
    assert_eq!(log.timestamp, "2015-05-15T00:00:00+00:00");
    assert!(log.id.is_none());
    assert!(log.batch_id.is_none());
    assert!(log.src_path.is_none());
    assert!(log.dst_path.is_none());
}

#[test]
fn a_journalled_undo_leaves_nothing_to_undo() {
    let mut db = Database::new();
    db.log_action(record("RENAME", Some("/a"), Some("/b"), None)).unwrap();
    assert_eq!(db.get_last_reversible_action().len(), 1);
    let result = UndoResult {
        success: true,
        action: "RENAME".to_string(),
        items_restored: 1,
        message: None,
    };
    let id = filemanager::commands::file_ops::journal_undo(&mut db, &result, at(5)).unwrap();
    assert_eq!(id, 2);
    assert_eq!(db.len(), 2);
    assert_eq!(db.records()[1].action, "UNDO");
    assert_eq!(db.records()[1].id, Some(2));
    assert_eq!(db.records()[1].message, Some("Undid 1 action(s)".to_string()));
    assert!(db.get_last_reversible_action().is_empty());
}

#[test]
fn a_soft_delete_never_reuses_the_folder_of_the_same_second() {
    let mut fs = FakeFs::new();
    fs.file("/root/a.txt", "alpha");
    fs.file("/root/b.txt", "beta");
    fs.file("/root/c.txt", "gamma");
    let trash = TrashManager::new("/app");
    let first = trash
        .soft_delete_at(paths(&["/root/a.txt"]), "first".to_string(), 1_700_000_000)
        .unwrap_or_else(|_| panic!("named"));
    let slot = first.trash_dir().clone();
    assert_eq!(run_soft_delete(first, &mut fs).unwrap().processed, 1);
    let manifest = fs.content(&format!("{}/.metadata.json", slot)).unwrap();
    fs.asked.clear();

    let second = trash
        .soft_delete_at(paths(&["/root/b.txt"]), "second".to_string(), 1_700_000_000)
        .unwrap_or_else(|_| panic!("named"));
    let outcome = run_soft_delete(second, &mut fs).unwrap();
    assert!(outcome.success);
    assert_eq!(outcome.processed, 1);
    assert_eq!(outcome.failed, 0);
    let marked = format!("{}+", slot);
    assert!(!fs.has("/root/b.txt"));
    assert_eq!(fs.content(&format!("{}/b.txt", marked)), Some("beta".to_string()));
    assert!(fs.has(&format!("{}/.metadata.json", marked)));
    assert!(!fs.has(&format!("{}/b.txt", slot)));
    assert_eq!(fs.content(&format!("{}/a.txt", slot)), Some("alpha".to_string()));
    assert_eq!(fs.content(&format!("{}/.metadata.json", slot)), Some(manifest));
    let created: Vec<&String> = fs.asked.iter().filter(|a| a.starts_with("CreateDir {")).collect();
    assert_eq!(created.len(), 2);
    assert!(created[0].contains(&format!("{}\"", slot)));
    assert!(created[1].contains(&format!("{}\"", marked)));

    let third = trash
        .soft_delete_at(paths(&["/root/c.txt"]), "third".to_string(), 1_700_000_000)
        .unwrap_or_else(|_| panic!("named"));
    assert_eq!(run_soft_delete(third, &mut fs).unwrap().processed, 1);
    let twice = format!("{}++", slot);
    assert_eq!(fs.content(&format!("{}/c.txt", twice)), Some("gamma".to_string()));

    let mut names = fs.children("/app/.trash");
    assert_eq!(names.len(), 3);
    names.sort();
    let later = "20231114_221321".to_string();
    assert!(names[2] < later);
    assert_eq!(trash.get_latest_trash_folder(&names), Some(names[2].clone()));
    assert!(names[2].ends_with("++"));
}

#[test]
fn a_soft_delete_fails_where_the_folder_cannot_be_made_for_another_reason() {
    let mut fs = FakeFs::new();
    fs.file("/root/a.txt", "alpha");
    fs.deny_single_create = true;
    let trash = TrashManager::new("/app");
    let d = trash
        .soft_delete_into(paths(&["/root/a.txt"]), "b".to_string(), "slot".to_string())
        .unwrap_or_else(|_| panic!("named"));
    match run_soft_delete(d, &mut fs) {
        Err(AppError::IoError(m)) => assert_eq!(m, "permission denied"),
        _ => panic!("the folder cannot be made"),
    }
    assert!(!fs.asked_any("Rename"));
    assert_eq!(fs.asked.iter().filter(|a| a.starts_with("CreateDir {")).count(), 1);
    assert_eq!(fs.content("/root/a.txt"), Some("alpha".to_string()));
}

#[test]
fn undo_after_two_soft_deletes_of_one_second_restores_the_later_one() {
    let mut fs = FakeFs::new();
    fs.file("/root/a.txt", "alpha");
    fs.file("/root/b.txt", "beta");
    let trash = TrashManager::new("/app");
    let mut db = Database::new();
    for (path, id) in [("/root/a.txt", "one"), ("/root/b.txt", "two")] {
        let d = trash
            .soft_delete_at(paths(&[path]), id.to_string(), 1_700_000_000)
            .unwrap_or_else(|_| panic!("named"));
        let outcome = run_soft_delete(d, &mut fs).unwrap();
        log_all(&mut db, delete_records(&outcome, at(1_700_000_000)));
    }
    let batch = db.get_last_reversible_action();
    assert_eq!(batch.len(), 1);
    let result = run_undo(undo_last_action(&batch, &trash), &mut fs).unwrap();
    assert_eq!(result.items_restored, 1);
    assert_eq!(fs.content("/root/b.txt"), Some("beta".to_string()));
    assert!(!fs.has("/root/a.txt"));
}

#[test]
fn a_soft_delete_asks_for_the_root_then_for_one_new_folder() {
    let mut fs = FakeFs::new();
    fs.file("/root/a.txt", "alpha");
    let trash = TrashManager::new("/app");
    let d = trash
        .soft_delete_into(paths(&["/root/a.txt"]), "b".to_string(), "slot".to_string())
        .unwrap_or_else(|_| panic!("named"));
    run_soft_delete(d, &mut fs).unwrap();
    assert!(fs.asked[0].starts_with("CreateDirAll"));
    assert!(fs.asked[0].contains("/app/.trash\""));
    assert!(fs.asked[1].starts_with("CreateDir {"));
    assert!(fs.asked[1].contains("/app/.trash/slot"));
    assert!(fs.asked[2].starts_with("Rename"));
}
