//! Files and directories: paths, snapshots of entries, and the operations
//! that change the tree.

pub mod disk;
pub mod effects;
pub mod operations;
pub mod paths;
pub mod transfer;
pub mod trash;
pub mod validators;

use crate::clock::{optional_timestamp_text, time_text, UnixTime};
use crate::error::{AppError, AppErrorView};
use crate::fs::paths::{extension, extension_of, file_name, file_name_of, lies_within, path_lies_within};
use crate::text::{chars_of, opt_str_view, opt_view, opt_views, slice_text};
use vstd::prelude::*;
use vstd::string::*;

verus! {

/// What the filesystem knows of one entry, as plain values.
#[derive(Debug, Clone, Copy)]
pub struct FileMeta {
    pub is_dir: bool,
    pub is_file: bool,
    pub size: u64,
    pub modified: Option<UnixTime>,
    pub created: Option<UnixTime>,
}

/// One child of a directory, as a listing shows it.
#[derive(Debug)]
pub struct FileItem {
    pub name: String,
    pub path: String,
    pub is_dir: bool,
    pub size: u64,
    pub modified: String,
    pub ext: Option<String>,
}

/// A listed entry as contracts see it.
pub struct FileItemView {
    pub name: Seq<char>,
    pub path: Seq<char>,
    pub is_dir: bool,
    pub size: u64,
    pub modified: Seq<char>,
    pub ext: Option<Seq<char>>,
}

impl View for FileItem {
    type V = FileItemView;

    open spec fn view(&self) -> FileItemView {
        FileItemView {
            name: self.name@,
            path: self.path@,
            is_dir: self.is_dir,
            size: self.size,
            modified: self.modified@,
            ext: opt_view(self.ext),
        }
    }
}

/// One entry looked at on its own, with the time of its creation.
#[derive(Debug)]
pub struct FileStat {
    pub name: String,
    pub path: String,
    pub is_dir: bool,
    pub size: u64,
    pub modified: String,
    pub created: String,
}

/// A single entry as contracts see it.
pub struct FileStatView {
    pub name: Seq<char>,
    pub path: Seq<char>,
    pub is_dir: bool,
    pub size: u64,
    pub modified: Seq<char>,
    pub created: Seq<char>,
}

impl View for FileStat {
    type V = FileStatView;

    open spec fn view(&self) -> FileStatView {
        FileStatView {
            name: self.name@,
            path: self.path@,
            is_dir: self.is_dir,
            size: self.size,
            modified: self.modified@,
            created: self.created@,
        }
    }
}

/// The listed entry for a path with a file name and its metadata. Only a
/// file has an extension.
pub open spec fn item_of(path: Seq<char>, meta: FileMeta) -> FileItemView {
    FileItemView {
        name: file_name_of(path)->0,
        path,
        is_dir: meta.is_dir,
        size: meta.size,
        modified: time_text(meta.modified),
        ext: if meta.is_file {
            extension_of(path)
        } else {
            None
        },
    }
}

/// The single entry for a path with a file name and its metadata.
pub open spec fn stat_of(path: Seq<char>, meta: FileMeta) -> FileStatView {
    FileStatView {
        name: file_name_of(path)->0,
        path,
        is_dir: meta.is_dir,
        size: meta.size,
        modified: time_text(meta.modified),
        created: time_text(meta.created),
    }
}

impl FileItem {
    /// A copy of the entry.
    pub fn duplicate(&self) -> (r: FileItem)
        ensures
            r@ == self@,
    {
        FileItem {
            name: self.name.clone(),
            path: self.path.clone(),
            is_dir: self.is_dir,
            size: self.size,
            modified: self.modified.clone(),
            ext: match &self.ext {
                Some(e) => Some(e.clone()),
                None => None,
            },
        }
    }

    /// The listed entry for a path and the metadata read for it. A path
    /// without a file name is refused as `InvalidPath`.
    pub fn from_path(path: &str, meta: &FileMeta) -> (r: Result<FileItem, AppError>)
        ensures
            r is Ok <==> file_name_of(path@) is Some,
            r matches Ok(item) ==> item@ == item_of(path@, *meta),
            r matches Err(e) ==> e@ == AppErrorView::InvalidPath("Invalid file name"@),
    {
        let name: String = match file_name(path) {
            Some(n) => n,
            None => {
                return Err(AppError::InvalidPath("Invalid file name".to_owned()));
            },
        };
        let ext: Option<String> = if meta.is_file {
            extension(path)
        } else {
            None
        };
        Ok(
            FileItem {
                name,
                path: path.to_owned(),
                is_dir: meta.is_dir,
                size: meta.size,
                modified: optional_timestamp_text(meta.modified),
                ext,
            },
        )
    }
}

impl FileStat {
    /// The single entry for a path and the metadata read for it. A path
    /// without a file name is refused as `InvalidPath`.
    pub fn from_path(path: &str, meta: &FileMeta) -> (r: Result<FileStat, AppError>)
        ensures
            r is Ok <==> file_name_of(path@) is Some,
            r matches Ok(stat) ==> stat@ == stat_of(path@, *meta),
            r matches Err(e) ==> e@ == AppErrorView::InvalidPath("Invalid file name"@),
    {
        let name: String = match file_name(path) {
            Some(n) => n,
            None => {
                return Err(AppError::InvalidPath("Invalid file name".to_owned()));
            },
        };
        Ok(
            FileStat {
                name,
                path: path.to_owned(),
                is_dir: meta.is_dir,
                size: meta.size,
                modified: optional_timestamp_text(meta.modified),
                created: optional_timestamp_text(meta.created),
            },
        )
    }
}

/// A path with every backslash turned into a separator.
pub open spec fn normalized(path: Seq<char>) -> Seq<char> {
    path.map_values(
        |c: char|
            if c == '\\' {
                '/'
            } else {
                c
            },
    )
}

/// Turns every backslash of a path into `/`.
pub fn normalize_path(path: &str) -> (out: String)
    ensures
        out@ == normalized(path@),
{
    let chars: Vec<char> = chars_of(path);
    let n: usize = chars.len();
    let mut out: String = String::new();
    let mut start: usize = 0;
    let mut i: usize = 0;
    proof {
        reveal_strlit("/");
    }
    while i < n
        invariant
            start <= i <= n == chars.len(),
            chars@ == path@,
            "/"@ =~= seq!['/'],
            forall|j: int| start <= j < i ==> chars@[j] != '\\',
            out@ == normalized(path@.subrange(0, start as int)),
        decreases n - i,
    {
        if chars[i] == '\\' {
            let piece: String = slice_text(path, start, i);
            out.append(piece.as_str());
            out.append("/");
            assert(out@ =~= normalized(path@.subrange(0, i + 1)));
            start = i + 1;
        }
        i = i + 1;
    }
    let piece: String = slice_text(path, start, n);
    out.append(piece.as_str());
    assert(out@ =~= normalized(path@));
    out
}

/// Whether the resolved path lies within one of the resolved roots. A path
/// that could not be resolved lies within none, and a root that could not be
/// resolved holds nothing.
pub open spec fn path_is_safe(resolved: Option<Seq<char>>, roots: Seq<Option<Seq<char>>>) -> bool {
    resolved is Some && exists|i: int|
        0 <= i < roots.len() && (#[trigger] roots[i]) is Some && lies_within(
            resolved->0,
            roots[i]->0,
        )
}

/// The guard on a path: `resolved` is the canonical form of the path, or
/// nothing where the path could not be resolved; `resolved_roots` holds the
/// canonical form of each allowed root, or nothing for a root that could not
/// be resolved. The path is safe exactly when it is one of the roots or lies
/// below one.
pub fn is_path_safe(resolved: Option<&str>, resolved_roots: &Vec<Option<String>>) -> (safe: bool)
    ensures
        safe == path_is_safe(opt_str_view(resolved), opt_views(resolved_roots@)),
{
    let ghost roots = opt_views(resolved_roots@);
    let path: &str = match resolved {
        Some(p) => p,
        None => {
            return false;
        },
    };
    let mut i: usize = 0;
    while i < resolved_roots.len()
        invariant
            i <= resolved_roots.len(),
            resolved == Some(path),
            roots == opt_views(resolved_roots@),
            forall|j: int|
                0 <= j < i ==> !((#[trigger] roots[j]) is Some && lies_within(path@, roots[j]->0)),
        decreases resolved_roots.len() - i,
    {
        assert(roots[i as int] == opt_view(resolved_roots@[i as int]));
        match &resolved_roots[i] {
            Some(root) => {
                if path_lies_within(path, root.as_str()) {
                    return true;
                }
            },
            None => {},
        }
        i = i + 1;
    }
    false
}

} // verus!
