//! Listing, creating, renaming and moving.
//!
//! Listing works on what the caller has read from the disk. The operations
//! that change the tree are machines over `FsRequest` and `FsReply`: each
//! checks before it changes anything, and a batch goes on with the next item
//! where one item fails.

use crate::error::{AppError, AppErrorView};
use crate::fs::effects::{FsReply, FsReplyView, FsRequest, FsRequestView};
use crate::fs::paths::{file_name, file_name_of, join, joined, parent, parent_of};
use crate::fs::transfer::{request_view, PathPair, PathPairView, Transfer, TransferView};
use crate::fs::{item_of, stat_of, FileItem, FileItemView, FileMeta, FileStat, FileStatView};
use crate::ids::random_uuid_text;
use crate::text::{opt_view, views};
use vstd::prelude::*;
use vstd::string::*;

verus! {

/// The outcome of creating a directory.
#[derive(Debug)]
pub struct DirResult {
    pub success: bool,
    pub path: String,
    pub message: Option<String>,
}

/// The outcome of creating a directory as contracts see it.
pub struct DirResultView {
    pub success: bool,
    pub path: Seq<char>,
    pub message: Option<Seq<char>>,
}

impl View for DirResult {
    type V = DirResultView;

    open spec fn view(&self) -> DirResultView {
        DirResultView { success: self.success, path: self.path@, message: opt_view(self.message) }
    }
}

/// The outcome of renaming one entry.
#[derive(Debug)]
pub struct RenameResult {
    pub success: bool,
    pub old_path: String,
    pub new_path: String,
    pub message: Option<String>,
}

/// The outcome of a rename as contracts see it.
pub struct RenameResultView {
    pub success: bool,
    pub old_path: Seq<char>,
    pub new_path: Seq<char>,
    pub message: Option<Seq<char>>,
}

impl View for RenameResult {
    type V = RenameResultView;

    open spec fn view(&self) -> RenameResultView {
        RenameResultView {
            success: self.success,
            old_path: self.old_path@,
            new_path: self.new_path@,
            message: opt_view(self.message),
        }
    }
}

/// What became of one item of a batch.
#[derive(Debug)]
pub struct BatchItemResult {
    pub path: String,
    pub success: bool,
    pub message: Option<String>,
}

/// The outcome of one item as contracts see it.
pub struct BatchItemResultView {
    pub path: Seq<char>,
    pub success: bool,
    pub message: Option<Seq<char>>,
}

impl View for BatchItemResult {
    type V = BatchItemResultView;

    open spec fn view(&self) -> BatchItemResultView {
        BatchItemResultView {
            path: self.path@,
            success: self.success,
            message: opt_view(self.message),
        }
    }
}

/// The outcome of a batch: one result per item, in the order of the input,
/// and the tallies of those that went well and those that did not.
#[derive(Debug)]
pub struct BatchResult {
    pub success: bool,
    pub processed: usize,
    pub failed: usize,
    pub batch_id: String,
    pub results: Vec<BatchItemResult>,
}

/// The outcome of a batch as contracts see it.
pub struct BatchResultView {
    pub success: bool,
    pub processed: nat,
    pub failed: nat,
    pub batch_id: Seq<char>,
    pub results: Seq<BatchItemResultView>,
}

impl View for BatchResult {
    type V = BatchResultView;

    open spec fn view(&self) -> BatchResultView {
        BatchResultView {
            success: self.success,
            processed: self.processed as nat,
            failed: self.failed as nat,
            batch_id: self.batch_id@,
            results: views(self.results@),
        }
    }
}

/// The outcome of an undo.
#[derive(Debug)]
pub struct UndoResult {
    pub success: bool,
    pub action: String,
    pub items_restored: usize,
    pub message: Option<String>,
}

/// The outcome of an undo as contracts see it.
pub struct UndoResultView {
    pub success: bool,
    pub action: Seq<char>,
    pub items_restored: nat,
    pub message: Option<Seq<char>>,
}

impl View for UndoResult {
    type V = UndoResultView;

    open spec fn view(&self) -> UndoResultView {
        UndoResultView {
            success: self.success,
            action: self.action@,
            items_restored: self.items_restored as nat,
            message: opt_view(self.message),
        }
    }
}

/// The number of items that went well.
pub open spec fn successes(results: Seq<BatchItemResultView>) -> nat
    decreases results.len(),
{
    if results.len() == 0 {
        0
    } else {
        successes(results.drop_last()) + if results.last().success {
            1nat
        } else {
            0nat
        }
    }
}

impl BatchResultView {
    /// The tallies agree with the results: `processed` counts the items that
    /// went well, `failed` the others, and `success` says that none failed.
    pub open spec fn consistent(self) -> bool {
        &&& self.processed == successes(self.results)
        &&& self.processed + self.failed == self.results.len()
        &&& self.success == (self.failed == 0)
    }
}

/// The result for an item that went well.
pub open spec fn moved_item(path: Seq<char>) -> BatchItemResultView {
    BatchItemResultView { path, success: true, message: None }
}

/// The result for an item that failed, with the reason.
pub open spec fn failed_item(path: Seq<char>, message: Seq<char>) -> BatchItemResultView {
    BatchItemResultView { path, success: false, message: Some(message) }
}

/// One entry of a directory as the caller read it: its path, and its
/// metadata where that could be read.
#[derive(Debug)]
pub struct EntryProbe {
    pub path: String,
    pub meta: Option<FileMeta>,
}

/// A read entry as contracts see it.
pub struct EntryProbeView {
    pub path: Seq<char>,
    pub meta: Option<FileMeta>,
}

impl View for EntryProbe {
    type V = EntryProbeView;

    open spec fn view(&self) -> EntryProbeView {
        EntryProbeView { path: self.path@, meta: self.meta }
    }
}

/// Whether a read entry can be shown: its metadata was read and its path has
/// a file name.
pub open spec fn is_listable(e: EntryProbeView) -> bool {
    e.meta is Some && file_name_of(e.path) is Some
}

/// The listing of the entries read: those that can be shown, in order.
pub open spec fn listing(entries: Seq<EntryProbeView>) -> Seq<FileItemView>
    decreases entries.len(),
{
    if entries.len() == 0 {
        Seq::empty()
    } else if is_listable(entries.last()) {
        listing(entries.drop_last()).push(item_of(entries.last().path, entries.last().meta->0))
    } else {
        listing(entries.drop_last())
    }
}

/// What a listing owes for a directory, given what was found on the disk.
pub open spec fn listing_outcome(
    path: Seq<char>,
    exists: bool,
    is_dir: bool,
    entries: Result<Seq<EntryProbeView>, Seq<char>>,
) -> Result<Seq<FileItemView>, AppErrorView> {
    if !exists {
        Err(AppErrorView::FileNotFound(path))
    } else if !is_dir {
        Err(AppErrorView::InvalidPath("Not a directory"@))
    } else {
        match entries {
            Err(message) => Err(AppErrorView::IoError(message)),
            Ok(es) => Ok(listing(es)),
        }
    }
}

/// The children of a directory. `exists` and `is_dir` say what was found at
/// the path, `entries` is what reading the directory gave, or the message of
/// the failure. An entry whose metadata could not be read is left out.
pub fn list_directory(
    path: &str,
    exists: bool,
    is_dir: bool,
    entries: Result<Vec<EntryProbe>, String>,
) -> (r: Result<Vec<FileItem>, AppError>)
    ensures
        match r {
            Ok(items) => Ok::<Seq<FileItemView>, AppErrorView>(views(items@)),
            Err(e) => Err::<Seq<FileItemView>, AppErrorView>(e@),
        } == listing_outcome(
            path@,
            exists,
            is_dir,
            match entries {
                Ok(es) => Ok(views(es@)),
                Err(message) => Err(message@),
            },
        ),
{
    if !exists {
        return Err(AppError::FileNotFound(path.to_owned()));
    }
    if !is_dir {
        return Err(AppError::InvalidPath("Not a directory".to_owned()));
    }
    let es: Vec<EntryProbe> = match entries {
        Ok(es) => es,
        Err(message) => {
            return Err(AppError::IoError(message));
        },
    };
    let ghost all = views(es@);
    let mut items: Vec<FileItem> = Vec::new();
    let mut i: usize = 0;
    assert(all.subrange(0, 0) =~= Seq::<EntryProbeView>::empty());
    assert(views(items@) =~= Seq::<FileItemView>::empty());
    while i < es.len()
        invariant
            i <= es.len(),
            all == views(es@),
            views(items@) == listing(all.subrange(0, i as int)),
        decreases es.len() - i,
    {
        let ghost before = views(items@);
        let ghost upto = all.subrange(0, i + 1);
        assert(upto.drop_last() =~= all.subrange(0, i as int));
        assert(upto.last() == es@[i as int]@);
        match es[i].meta {
            Some(meta) => {
                match FileItem::from_path(es[i].path.as_str(), &meta) {
                    Ok(item) => {
                        items.push(item);
                        assert(views(items@) =~= before.push(item@));
                    },
                    Err(_) => {},
                }
            },
            None => {},
        }
        i = i + 1;
    }
    assert(all.subrange(0, es.len() as int) =~= all);
    Ok(items)
}

/// What a look at one path owes, given what was found on the disk.
pub open spec fn stat_outcome(
    path: Seq<char>,
    exists: bool,
    meta: Result<FileMeta, Seq<char>>,
) -> Result<FileStatView, AppErrorView> {
    if !exists {
        Err(AppErrorView::FileNotFound(path))
    } else {
        match meta {
            Err(message) => Err(AppErrorView::IoError(message)),
            Ok(m) => if file_name_of(path) is Some {
                Ok(stat_of(path, m))
            } else {
                Err(AppErrorView::InvalidPath("Invalid file name"@))
            },
        }
    }
}

/// One entry looked at on its own. `exists` says whether anything was found
/// at the path, `meta` is the metadata read, or the message of the failure.
pub fn get_file_stat(path: &str, exists: bool, meta: Result<FileMeta, String>) -> (r: Result<
    FileStat,
    AppError,
>)
    ensures
        match r {
            Ok(stat) => Ok::<FileStatView, AppErrorView>(stat@),
            Err(e) => Err::<FileStatView, AppErrorView>(e@),
        } == stat_outcome(
            path@,
            exists,
            match meta {
                Ok(m) => Ok(m),
                Err(message) => Err(message@),
            },
        ),
{
    if !exists {
        return Err(AppError::FileNotFound(path.to_owned()));
    }
    match meta {
        Err(message) => Err(AppError::IoError(message)),
        Ok(m) => FileStat::from_path(path, &m),
    }
}

/// The creation of one directory: look whether the path is taken, then create.
#[derive(Debug)]
pub enum CreateDirectory {
    /// Waiting to learn whether something is at the path already.
    Checking { path: String },
    /// Waiting on the creation.
    Creating { path: String },
    /// Ended, with the outcome.
    Finished(Result<DirResult, AppError>),
}

/// The creation of a directory as contracts see it.
pub enum CreateDirectoryView {
    Checking { path: Seq<char> },
    Creating { path: Seq<char> },
    Finished(Result<DirResultView, AppErrorView>),
}

impl View for CreateDirectory {
    type V = CreateDirectoryView;

    open spec fn view(&self) -> CreateDirectoryView {
        match self {
            CreateDirectory::Checking { path } => CreateDirectoryView::Checking { path: path@ },
            CreateDirectory::Creating { path } => CreateDirectoryView::Creating { path: path@ },
            CreateDirectory::Finished(Ok(d)) => CreateDirectoryView::Finished(Ok(d@)),
            CreateDirectory::Finished(Err(e)) => CreateDirectoryView::Finished(Err(e@)),
        }
    }
}

impl CreateDirectoryView {
    /// The creation of `name` under `parent`, before anything is asked.
    pub open spec fn start(parent: Seq<char>, name: Seq<char>) -> CreateDirectoryView {
        CreateDirectoryView::Checking { path: joined(parent, name) }
    }

    /// The request that the creation is waiting on; none once it has ended.
    pub open spec fn pending(self) -> Option<FsRequestView> {
        match self {
            CreateDirectoryView::Checking { path } => Some(FsRequestView::Exists { path }),
            CreateDirectoryView::Creating { path } => Some(FsRequestView::CreateDir { path }),
            CreateDirectoryView::Finished(_) => None,
        }
    }

    /// The creation after the reply to its pending request: a path that is
    /// taken ends it with `FileExists` before anything is created; a failed
    /// creation ends it with `IoError`.
    pub open spec fn advance(self, reply: FsReplyView) -> CreateDirectoryView {
        match self {
            CreateDirectoryView::Checking { path } => if reply.flag() {
                CreateDirectoryView::Finished(Err(AppErrorView::FileExists(path)))
            } else {
                CreateDirectoryView::Creating { path }
            },
            CreateDirectoryView::Creating { path } => match reply.failure() {
                None => CreateDirectoryView::Finished(
                    Ok(DirResultView { success: true, path, message: None }),
                ),
                Some(message) => CreateDirectoryView::Finished(Err(AppErrorView::IoError(message))),
            },
            CreateDirectoryView::Finished(_) => self,
        }
    }
}

/// A creation looks before it changes anything: its first request changes
/// nothing, and a path that is taken ends it before any other request.
pub proof fn lemma_create_directory_checks_first(parent: Seq<char>, name: Seq<char>)
    ensures
        ({
            let op = CreateDirectoryView::start(parent, name);
            &&& op.pending() matches Some(q) && !q.mutates()
            &&& op.advance(FsReplyView::Flag(true)) == CreateDirectoryView::Finished(
                Err(AppErrorView::FileExists(joined(parent, name))),
            )
            &&& op.advance(FsReplyView::Flag(true)).pending() is None
        }),
{
}

/// Starts the creation of the directory `name` under `parent`.
pub fn create_directory(parent: &str, name: &str) -> (op: CreateDirectory)
    ensures
        op@ == CreateDirectoryView::start(parent@, name@),
{
    CreateDirectory::Checking { path: join(parent, name) }
}

impl CreateDirectory {
    /// The request that the creation is waiting on; none once it has ended.
    pub fn pending(&self) -> (request: Option<FsRequest>)
        ensures
            request_view(request) == self@.pending(),
    {
        match self {
            CreateDirectory::Checking { path } => Some(FsRequest::Exists { path: path.clone() }),
            CreateDirectory::Creating { path } => Some(FsRequest::CreateDir { path: path.clone() }),
            CreateDirectory::Finished(_) => None,
        }
    }

    /// The creation after the reply to its pending request.
    pub fn advance(self, reply: FsReply) -> (next: CreateDirectory)
        ensures
            next@ == self@.advance(reply@),
    {
        match self {
            CreateDirectory::Checking { path } => {
                if reply.flag() {
                    CreateDirectory::Finished(Err(AppError::FileExists(path)))
                } else {
                    CreateDirectory::Creating { path }
                }
            },
            CreateDirectory::Creating { path } => match reply.failure() {
                None => CreateDirectory::Finished(
                    Ok(DirResult { success: true, path, message: None }),
                ),
                Some(message) => CreateDirectory::Finished(Err(AppError::IoError(message))),
            },
            CreateDirectory::Finished(r) => CreateDirectory::Finished(r),
        }
    }
}

/// The renaming of one entry within its directory: the source has to exist,
/// the new path must be free, then the rename is made.
#[derive(Debug)]
pub enum RenameItem {
    /// Waiting to learn whether the source exists.
    CheckingSource { src: String, new_name: String },
    /// Waiting to learn whether the new path is taken.
    CheckingTarget { src: String, target: String },
    /// Waiting on the rename.
    Renaming { src: String, target: String },
    /// Ended, with the outcome.
    Finished(Result<RenameResult, AppError>),
}

/// The renaming of an entry as contracts see it.
pub enum RenameItemView {
    CheckingSource { src: Seq<char>, new_name: Seq<char> },
    CheckingTarget { src: Seq<char>, target: Seq<char> },
    Renaming { src: Seq<char>, target: Seq<char> },
    Finished(Result<RenameResultView, AppErrorView>),
}

impl View for RenameItem {
    type V = RenameItemView;

    open spec fn view(&self) -> RenameItemView {
        match self {
            RenameItem::CheckingSource { src, new_name } => RenameItemView::CheckingSource {
                src: src@,
                new_name: new_name@,
            },
            RenameItem::CheckingTarget { src, target } => RenameItemView::CheckingTarget {
                src: src@,
                target: target@,
            },
            RenameItem::Renaming { src, target } => RenameItemView::Renaming {
                src: src@,
                target: target@,
            },
            RenameItem::Finished(Ok(r)) => RenameItemView::Finished(Ok(r@)),
            RenameItem::Finished(Err(e)) => RenameItemView::Finished(Err(e@)),
        }
    }
}

impl RenameItemView {
    /// The renaming of `src` to `new_name`, before anything is asked.
    pub open spec fn start(src: Seq<char>, new_name: Seq<char>) -> RenameItemView {
        RenameItemView::CheckingSource { src, new_name }
    }

    /// The request that the renaming is waiting on; none once it has ended.
    pub open spec fn pending(self) -> Option<FsRequestView> {
        match self {
            RenameItemView::CheckingSource { src, .. } => Some(FsRequestView::Exists { path: src }),
            RenameItemView::CheckingTarget { target, .. } => Some(
                FsRequestView::Exists { path: target },
            ),
            RenameItemView::Renaming { src, target } => Some(
                FsRequestView::Rename { from: src, to: target },
            ),
            RenameItemView::Finished(_) => None,
        }
    }

    /// The renaming after the reply to its pending request. A missing source
    /// ends it with `FileNotFound`, a source without a parent with
    /// `InvalidPath`, a taken target with `FileExists`, all before anything
    /// is changed; a failed rename ends it with `IoError`.
    pub open spec fn advance(self, reply: FsReplyView) -> RenameItemView {
        match self {
            RenameItemView::CheckingSource { src, new_name } => if !reply.flag() {
                RenameItemView::Finished(Err(AppErrorView::FileNotFound(src)))
            } else {
                match parent_of(src) {
                    None => RenameItemView::Finished(
                        Err(AppErrorView::InvalidPath("Cannot get parent directory"@)),
                    ),
                    Some(dir) => RenameItemView::CheckingTarget {
                        src,
                        target: joined(dir, new_name),
                    },
                }
            },
            RenameItemView::CheckingTarget { src, target } => if reply.flag() {
                RenameItemView::Finished(Err(AppErrorView::FileExists(target)))
            } else {
                RenameItemView::Renaming { src, target }
            },
            RenameItemView::Renaming { src, target } => match reply.failure() {
                None => RenameItemView::Finished(
                    Ok(
                        RenameResultView {
                            success: true,
                            old_path: src,
                            new_path: target,
                            message: None,
                        },
                    ),
                ),
                Some(message) => RenameItemView::Finished(Err(AppErrorView::IoError(message))),
            },
            RenameItemView::Finished(_) => self,
        }
    }
}

/// A renaming looks twice before it changes anything: nothing is asked that
/// changes the tree until the source was found and the target was found
/// free.
pub proof fn lemma_rename_checks_first(op: RenameItemView, reply: FsReplyView)
    ensures
        op is CheckingSource || op is CheckingTarget ==> (op.pending() matches Some(q)
            && !q.mutates()),
        op is CheckingSource && !reply.flag() ==> op.advance(reply).pending() is None,
        op is CheckingTarget && reply.flag() ==> op.advance(reply).pending() is None,
        op.advance(reply).pending() matches Some(q) && q.mutates() ==> op is CheckingTarget
            && !reply.flag(),
{
}

/// Starts the renaming of the entry at `src` to `new_name` within its
/// directory.
pub fn rename_item(src: &str, new_name: &str) -> (op: RenameItem)
    ensures
        op@ == RenameItemView::start(src@, new_name@),
{
    RenameItem::CheckingSource { src: src.to_owned(), new_name: new_name.to_owned() }
}

impl RenameItem {
    /// The request that the renaming is waiting on; none once it has ended.
    pub fn pending(&self) -> (request: Option<FsRequest>)
        ensures
            request_view(request) == self@.pending(),
    {
        match self {
            RenameItem::CheckingSource { src, .. } => Some(FsRequest::Exists { path: src.clone() }),
            RenameItem::CheckingTarget { target, .. } => Some(
                FsRequest::Exists { path: target.clone() },
            ),
            RenameItem::Renaming { src, target } => Some(
                FsRequest::Rename { from: src.clone(), to: target.clone() },
            ),
            RenameItem::Finished(_) => None,
        }
    }

    /// The renaming after the reply to its pending request.
    pub fn advance(self, reply: FsReply) -> (next: RenameItem)
        ensures
            next@ == self@.advance(reply@),
    {
        match self {
            RenameItem::CheckingSource { src, new_name } => {
                if !reply.flag() {
                    RenameItem::Finished(Err(AppError::FileNotFound(src)))
                } else {
                    match parent(src.as_str()) {
                        None => RenameItem::Finished(
                            Err(AppError::InvalidPath("Cannot get parent directory".to_owned())),
                        ),
                        Some(dir) => {
                            let target: String = join(dir.as_str(), new_name.as_str());
                            RenameItem::CheckingTarget { src, target }
                        },
                    }
                }
            },
            RenameItem::CheckingTarget { src, target } => {
                if reply.flag() {
                    RenameItem::Finished(Err(AppError::FileExists(target)))
                } else {
                    RenameItem::Renaming { src, target }
                }
            },
            RenameItem::Renaming { src, target } => match reply.failure() {
                None => RenameItem::Finished(
                    Ok(RenameResult { success: true, old_path: src, new_path: target, message: None }),
                ),
                Some(message) => RenameItem::Finished(Err(AppError::IoError(message))),
            },
            RenameItem::Finished(r) => RenameItem::Finished(r),
        }
    }
}

/// The message of an item whose target is taken.
pub open spec fn target_taken() -> Seq<char> {
    "Destination already exists"@
}

/// The targets of a batch of moves: each source's file name under the
/// destination directory.
pub open spec fn move_targets(sources: Seq<Seq<char>>, dest_dir: Seq<char>) -> Seq<Seq<char>> {
    Seq::new(sources.len(), |i: int| joined(dest_dir, file_name_of(sources[i])->0))
}

/// Every path of the batch has a file name.
pub open spec fn all_named(sources: Seq<Seq<char>>) -> bool {
    forall|i: int| 0 <= i < sources.len() ==> file_name_of(#[trigger] sources[i]) is Some
}

/// A batch of moves as contracts see it. The item in hand is the one whose
/// index is the number of results so far.
pub struct MoveBatchView {
    pub batch_id: Seq<char>,
    pub sources: Seq<Seq<char>>,
    pub targets: Seq<Seq<char>>,
    pub results: Seq<BatchItemResultView>,
    pub processed: nat,
    pub failed: nat,
    /// Whether an item is moved only after its target was found free.
    pub guarded: bool,
    /// The transfer of the item in hand, once it has begun.
    pub moving: Option<TransferView>,
}

impl MoveBatchView {
    /// A batch of moves into `dest_dir`, before anything is asked. Each item
    /// is moved only after its target was found free.
    pub open spec fn start(
        batch_id: Seq<char>,
        sources: Seq<Seq<char>>,
        dest_dir: Seq<char>,
    ) -> MoveBatchView {
        MoveBatchView {
            batch_id,
            sources,
            targets: move_targets(sources, dest_dir),
            results: Seq::empty(),
            processed: 0,
            failed: 0,
            guarded: true,
            moving: None,
        }
    }

    /// A batch of moves into `dest_dir` that does not look at the targets
    /// first, before anything is asked.
    pub open spec fn start_unguarded(
        batch_id: Seq<char>,
        sources: Seq<Seq<char>>,
        dest_dir: Seq<char>,
    ) -> MoveBatchView {
        MoveBatchView { guarded: false, ..MoveBatchView::start(batch_id, sources, dest_dir) }
    }

    /// A batch of moves, each to a target of its own, before anything is
    /// asked. Each item is moved only after its target was found free.
    pub open spec fn of_pairs(batch_id: Seq<char>, pairs: Seq<PathPairView>) -> MoveBatchView {
        MoveBatchView {
            batch_id,
            sources: pairs.map_values(|p: PathPairView| p.from),
            targets: pairs.map_values(|p: PathPairView| p.to),
            results: Seq::empty(),
            processed: 0,
            failed: 0,
            guarded: true,
            moving: None,
        }
    }

    /// The batch with every item bound for `dest_dir` instead.
    pub open spec fn retargeted(self, dest_dir: Seq<char>) -> MoveBatchView {
        MoveBatchView { targets: move_targets(self.sources, dest_dir), ..self }
    }

    /// Whether the batch is about to look at the target of the item in hand.
    pub open spec fn checking(self) -> bool {
        self.guarded && self.moving is None
    }

    /// The transfer of the item in hand: the one under way, or a fresh one.
    pub open spec fn in_hand(self) -> TransferView {
        match self.moving {
            Some(t) => t,
            None => TransferView::start(self.sources[self.cursor()], self.targets[self.cursor()]),
        }
    }

    /// The index of the item in hand.
    pub open spec fn cursor(self) -> int {
        self.results.len() as int
    }

    /// One result per item done, each under the path of its item; the tallies
    /// count them; a transfer under way is that of the item in hand.
    pub open spec fn wf(self) -> bool {
        &&& self.targets.len() == self.sources.len()
        &&& self.results.len() <= self.sources.len()
        &&& forall|i: int|
            0 <= i < self.results.len() ==> (#[trigger] self.results[i]).path == self.sources[i]
        &&& self.processed == successes(self.results)
        &&& self.processed + self.failed == self.results.len()
        &&& (self.moving matches Some(t) ==> {
            &&& self.results.len() < self.sources.len()
            &&& t.wf()
            &&& !t.finished()
            &&& t.from == self.sources[self.cursor()]
            &&& t.to == self.targets[self.cursor()]
        })
    }

    /// Every item has its result.
    pub open spec fn finished(self) -> bool {
        self.results.len() >= self.sources.len()
    }

    /// The request that the batch is waiting on; none once it has ended.
    pub open spec fn pending(self) -> Option<FsRequestView> {
        if self.finished() {
            None
        } else if self.checking() {
            Some(FsRequestView::Exists { path: self.targets[self.cursor()] })
        } else {
            self.in_hand().pending()
        }
    }

    /// The batch with the result of the item in hand recorded.
    pub open spec fn record(self, item: BatchItemResultView) -> MoveBatchView {
        MoveBatchView {
            results: self.results.push(item),
            processed: if item.success {
                self.processed + 1
            } else {
                self.processed
            },
            failed: if item.success {
                self.failed
            } else {
                self.failed + 1
            },
            moving: None,
            ..self
        }
    }

    /// The batch after the reply to its pending request. An item whose
    /// target is taken fails without a request that touches its source; an
    /// item whose transfer fails is recorded with the rendered I/O error; in
    /// both cases the batch goes on with the next item.
    pub open spec fn advance(self, reply: FsReplyView) -> MoveBatchView {
        if self.finished() {
            self
        } else {
            let source = self.sources[self.cursor()];
            if self.checking() {
                if reply.flag() {
                    self.record(failed_item(source, target_taken()))
                } else {
                    MoveBatchView { moving: Some(self.in_hand()), ..self }
                }
            } else {
                let next = self.in_hand().advance(reply);
                if next.phase is Succeeded {
                    self.record(moved_item(source))
                } else if next.phase is Failed {
                    self.record(failed_item(source, AppErrorView::IoError(next.error).rendered()))
                } else {
                    MoveBatchView { moving: Some(next), ..self }
                }
            }
        }
    }

    /// The outcome of the batch.
    pub open spec fn outcome(self) -> BatchResultView {
        BatchResultView {
            success: self.failed == 0,
            processed: self.processed,
            failed: self.failed,
            batch_id: self.batch_id,
            results: self.results,
        }
    }
}

/// The tally of successes after one more result.
pub proof fn lemma_successes_push(results: Seq<BatchItemResultView>, item: BatchItemResultView)
    ensures
        successes(results.push(item)) == successes(results) + if item.success {
            1nat
        } else {
            0nat
        },
{
    assert(results.push(item).drop_last() =~= results);
}

/// A step keeps the batch well formed, never changes its sources, targets or
/// identifier, and never takes a result back.
pub proof fn lemma_move_batch_step(m: MoveBatchView, reply: FsReplyView)
    requires
        m.wf(),
    ensures
        m.advance(reply).wf(),
        m.advance(reply).sources == m.sources,
        m.advance(reply).targets == m.targets,
        m.advance(reply).batch_id == m.batch_id,
        m.advance(reply).guarded == m.guarded,
        m.results.is_prefix_of(m.advance(reply).results),
        m.advance(reply).results.len() <= m.results.len() + 1,
{
    if !m.finished() {
        let source = m.sources[m.cursor()];
        if m.checking() {
            if reply.flag() {
                lemma_successes_push(m.results, failed_item(source, target_taken()));
            }
        } else {
            crate::fs::transfer::lemma_transfer_step(m.in_hand(), reply);
            let next = m.in_hand().advance(reply);
            if next.phase is Succeeded {
                lemma_successes_push(m.results, moved_item(source));
            } else if next.phase is Failed {
                lemma_successes_push(
                    m.results,
                    failed_item(source, AppErrorView::IoError(next.error).rendered()),
                );
            }
        }
    }
    assert(m.results.is_prefix_of(m.advance(reply).results)) by {
        let after = m.advance(reply).results;
        assert(after.subrange(0, m.results.len() as int) =~= m.results);
    }
}

/// The outcome of a batch that has ended accounts for every item: there is
/// one result per source, in the order of the input, the tallies of moved and
/// failed items add up to the number of sources, and the batch counts as a
/// success exactly when no item failed.
pub proof fn lemma_move_batch_outcome(m: MoveBatchView)
    requires
        m.wf(),
        m.finished(),
    ensures
        m.outcome().consistent(),
        m.outcome().results.len() == m.sources.len(),
        m.outcome().processed + m.outcome().failed == m.sources.len(),
        m.outcome().success == (m.outcome().failed == 0),
        forall|i: int|
            0 <= i < m.sources.len() ==> (#[trigger] m.outcome().results[i]).path == m.sources[i],
{
}

/// An item whose target is taken is recorded as failed at once: the batch
/// asks nothing that could touch its source.
pub proof fn lemma_taken_target_fails_item(m: MoveBatchView)
    requires
        m.wf(),
        !m.finished(),
        m.checking(),
    ensures
        m.pending() == Some(FsRequestView::Exists { path: m.targets[m.cursor()] }),
        m.pending() matches Some(q) && !q.mutates(),
        m.advance(FsReplyView::Flag(true)).results == m.results.push(
            failed_item(m.sources[m.cursor()], target_taken()),
        ),
        m.advance(FsReplyView::Flag(true)).moving is None,
        m.advance(FsReplyView::Flag(true)).failed == m.failed + 1,
        m.advance(FsReplyView::Flag(true)).processed == m.processed,
{
}

/// A batch of moves under way.
pub struct MoveBatch {
    batch_id: String,
    sources: Vec<String>,
    targets: Vec<String>,
    results: Vec<BatchItemResult>,
    processed: usize,
    failed: usize,
    guarded: bool,
    moving: Option<Transfer>,
}

impl View for MoveBatch {
    type V = MoveBatchView;

    closed spec fn view(&self) -> MoveBatchView {
        MoveBatchView {
            batch_id: self.batch_id@,
            sources: views(self.sources@),
            targets: views(self.targets@),
            results: views(self.results@),
            processed: self.processed as nat,
            failed: self.failed as nat,
            guarded: self.guarded,
            moving: match self.moving {
                Some(t) => Some(t@),
                None => None,
            },
        }
    }
}

/// Starts a batch of moves into `dest_dir` under a fresh batch identifier.
/// A source without a file name refuses the whole batch before anything is
/// asked of the filesystem.
pub fn move_items(src_paths: Vec<String>, dest_dir: &str) -> (r: Result<MoveBatch, AppError>)
    ensures
        r is Ok <==> all_named(views(src_paths@)),
        r matches Ok(m) ==> m@ == MoveBatchView::start(
            m@.batch_id,
            views(src_paths@),
            dest_dir@,
        ) && m@.wf(),
        r matches Err(e) ==> e@ == AppErrorView::InvalidPath("Invalid file name"@),
{
    move_items_as(random_uuid_text(), src_paths, dest_dir)
}

/// Starts a batch of moves into `dest_dir` under the given batch identifier.
/// A source without a file name refuses the whole batch before anything is
/// asked of the filesystem.
pub fn move_items_as(batch_id: String, src_paths: Vec<String>, dest_dir: &str) -> (r: Result<
    MoveBatch,
    AppError,
>)
    ensures
        r is Ok <==> all_named(views(src_paths@)),
        r matches Ok(m) ==> m@ == MoveBatchView::start(batch_id@, views(src_paths@), dest_dir@)
            && m@.wf(),
        r matches Err(e) ==> e@ == AppErrorView::InvalidPath("Invalid file name"@),
{
    start_batch(batch_id, src_paths, dest_dir, true)
}

/// Starts a batch of moves, each to a target of its own, under the given
/// batch identifier.
pub fn move_pairs_as(batch_id: String, pairs: Vec<PathPair>) -> (m: MoveBatch)
    ensures
        m@ == MoveBatchView::of_pairs(batch_id@, views(pairs@)),
        m@.wf(),
{
    let ghost all = views(pairs@);
    let mut sources: Vec<String> = Vec::new();
    let mut targets: Vec<String> = Vec::new();
    let mut i: usize = 0;
    while i < pairs.len()
        invariant
            i <= pairs.len(),
            all == views(pairs@),
            sources@.len() == i,
            targets@.len() == i,
            forall|j: int| 0 <= j < i ==> (#[trigger] sources@[j])@ == all[j].from,
            forall|j: int| 0 <= j < i ==> (#[trigger] targets@[j])@ == all[j].to,
        decreases pairs.len() - i,
    {
        assert(all[i as int] == pairs@[i as int]@);
        sources.push(pairs[i].from.clone());
        targets.push(pairs[i].to.clone());
        i = i + 1;
    }
    assert(views(sources@) =~= all.map_values(|p: PathPairView| p.from));
    assert(views(targets@) =~= all.map_values(|p: PathPairView| p.to));
    let m = MoveBatch {
        batch_id,
        sources,
        targets,
        results: Vec::new(),
        processed: 0,
        failed: 0,
        guarded: true,
        moving: None,
    };
    assert(views(m.results@) =~= Seq::<BatchItemResultView>::empty());
    m
}

/// Starts a batch of moves into `dest_dir`, guarded or not.
pub(crate) fn start_batch(
    batch_id: String,
    src_paths: Vec<String>,
    dest_dir: &str,
    guarded: bool,
) -> (r: Result<MoveBatch, AppError>)
    ensures
        r is Ok <==> all_named(views(src_paths@)),
        r matches Ok(m) ==> m@ == (MoveBatchView {
            guarded,
            ..MoveBatchView::start(batch_id@, views(src_paths@), dest_dir@)
        }) && m@.wf(),
        r matches Err(e) ==> e@ == AppErrorView::InvalidPath("Invalid file name"@),
{
    let ghost sources = views(src_paths@);
    let ghost goal = move_targets(sources, dest_dir@);
    let mut targets: Vec<String> = Vec::new();
    let mut i: usize = 0;
    while i < src_paths.len()
        invariant
            i <= src_paths.len(),
            sources == views(src_paths@),
            goal == move_targets(sources, dest_dir@),
            targets@.len() == i,
            forall|j: int| 0 <= j < i ==> file_name_of(#[trigger] sources[j]) is Some,
            forall|j: int| 0 <= j < i ==> (#[trigger] targets@[j])@ == goal[j],
        decreases src_paths.len() - i,
    {
        assert(sources[i as int] == src_paths@[i as int]@);
        match file_name(src_paths[i].as_str()) {
            None => {
                return Err(AppError::InvalidPath("Invalid file name".to_owned()));
            },
            Some(name) => {
                targets.push(join(dest_dir, name.as_str()));
            },
        }
        i = i + 1;
    }
    assert(views(targets@) =~= goal);
    let m = MoveBatch {
        batch_id,
        sources: src_paths,
        targets,
        results: Vec::new(),
        processed: 0,
        failed: 0,
        guarded,
        moving: None,
    };
    assert(views(m.results@) =~= Seq::<BatchItemResultView>::empty());
    Ok(m)
}

impl MoveBatch {
    #[verifier::type_invariant]
    spec fn inv(self) -> bool {
        self@.wf()
    }

    /// Whether every item has its result.
    pub fn is_finished(&self) -> (b: bool)
        ensures
            b == self@.finished(),
            self@.wf(),
    {
        proof {
            use_type_invariant(self);
        }
        self.results.len() >= self.sources.len()
    }

    /// The request that the batch is waiting on; none once it has ended.
    pub fn pending(&self) -> (request: Option<FsRequest>)
        ensures
            request_view(request) == self@.pending(),
            self@.wf(),
    {
        proof {
            use_type_invariant(self);
        }
        let at: usize = self.results.len();
        if at >= self.sources.len() {
            return None;
        }
        assert(views(self.sources@)[at as int] == self.sources@[at as int]@);
        assert(views(self.targets@)[at as int] == self.targets@[at as int]@);
        match &self.moving {
            None => {
                if self.guarded {
                    Some(FsRequest::Exists { path: self.targets[at].clone() })
                } else {
                    Some(
                        FsRequest::Rename {
                            from: self.sources[at].clone(),
                            to: self.targets[at].clone(),
                        },
                    )
                }
            },
            Some(t) => t.pending(),
        }
    }

    /// The batch, before anything of it was moved, with every item bound
    /// for `dest_dir` instead.
    pub(crate) fn retarget(self, dest_dir: &str) -> (m: MoveBatch)
        requires
            all_named(self@.sources),
            self@.results.len() == 0,
            self@.moving is None,
        ensures
            m@ == self@.retargeted(dest_dir@),
            m@.wf(),
    {
        proof {
            use_type_invariant(&self);
        }
        let MoveBatch { batch_id, sources, targets: _, results, processed, failed, guarded, moving } =
            self;
        let ghost all = views(sources@);
        let ghost goal = move_targets(all, dest_dir@);
        let mut targets: Vec<String> = Vec::new();
        let mut i: usize = 0;
        while i < sources.len()
            invariant
                i <= sources.len(),
                all == views(sources@),
                all_named(all),
                goal == move_targets(all, dest_dir@),
                targets@.len() == i,
                forall|j: int| 0 <= j < i ==> (#[trigger] targets@[j])@ == goal[j],
            decreases sources.len() - i,
        {
            assert(all[i as int] == sources@[i as int]@);
            let name: String = match file_name(sources[i].as_str()) {
                Some(n) => n,
                None => String::new(),
            };
            targets.push(join(dest_dir, name.as_str()));
            i = i + 1;
        }
        assert(views(targets@) =~= goal);
        MoveBatch { batch_id, sources, targets, results, processed, failed, guarded, moving }
    }

    /// The results of the items done so far.
    pub fn results(&self) -> (results: &Vec<BatchItemResult>)
        ensures
            views(results@) == self@.results,
    {
        &self.results
    }

    /// The identifier of the batch.
    pub fn batch_id(&self) -> (id: &String)
        ensures
            id@ == self@.batch_id,
    {
        &self.batch_id
    }

    /// The batch after the reply to its pending request.
    pub fn advance(self, reply: FsReply) -> (next: MoveBatch)
        ensures
            next@ == self@.advance(reply@),
            next@.wf(),
    {
        proof {
            use_type_invariant(&self);
            lemma_move_batch_step(self@, reply@);
        }
        let MoveBatch { batch_id, sources, targets, results, processed, failed, guarded, moving } =
            self;
        let at: usize = results.len();
        if at >= sources.len() {
            return MoveBatch {
                batch_id,
                sources,
                targets,
                results,
                processed,
                failed,
                guarded,
                moving,
            };
        }
        assert(views(sources@)[at as int] == sources@[at as int]@);
        assert(views(targets@)[at as int] == targets@[at as int]@);
        let mut results: Vec<BatchItemResult> = results;
        let ghost old_results = views(results@);
        let in_hand: Transfer = match moving {
            Some(t) => t,
            None => {
                if guarded {
                    if reply.flag() {
                        let item = BatchItemResult {
                            path: sources[at].clone(),
                            success: false,
                            message: Some("Destination already exists".to_owned()),
                        };
                        results.push(item);
                        assert(views(results@) =~= old_results.push(item@));
                        return MoveBatch {
                            batch_id,
                            sources,
                            targets,
                            results,
                            processed,
                            failed: failed + 1,
                            guarded,
                            moving: None,
                        };
                    } else {
                        let t = Transfer::start(sources[at].clone(), targets[at].clone());
                        return MoveBatch {
                            batch_id,
                            sources,
                            targets,
                            results,
                            processed,
                            failed,
                            guarded,
                            moving: Some(t),
                        };
                    }
                }
                Transfer::start(sources[at].clone(), targets[at].clone())
            },
        };
        let next: Transfer = in_hand.advance(reply);
        if next.succeeded() {
            let item = BatchItemResult { path: sources[at].clone(), success: true, message: None };
            results.push(item);
            assert(views(results@) =~= old_results.push(item@));
            MoveBatch {
                batch_id,
                sources,
                targets,
                results,
                processed: processed + 1,
                failed,
                guarded,
                moving: None,
            }
        } else if next.is_finished() {
            let e = AppError::IoError(next.error().clone());
            let item = BatchItemResult {
                path: sources[at].clone(),
                success: false,
                message: Some(e.to_string()),
            };
            results.push(item);
            assert(views(results@) =~= old_results.push(item@));
            MoveBatch {
                batch_id,
                sources,
                targets,
                results,
                processed,
                failed: failed + 1,
                guarded,
                moving: None,
            }
        } else {
            MoveBatch {
                batch_id,
                sources,
                targets,
                results,
                processed,
                failed,
                guarded,
                moving: Some(next),
            }
        }
    }

    /// The outcome, once the batch has ended; until then the batch itself
    /// comes back unchanged.
    pub fn finish(self) -> (r: Result<BatchResult, MoveBatch>)
        ensures
            r is Ok <==> self@.finished(),
            r matches Ok(outcome) ==> {
                &&& outcome@ == self@.outcome()
                &&& outcome@.consistent()
                &&& outcome@.processed + outcome@.failed == self@.sources.len()
                &&& outcome@.results.len() == self@.sources.len()
            },
            r matches Err(m) ==> m@ == self@,
    {
        proof {
            use_type_invariant(&self);
        }
        if self.results.len() >= self.sources.len() {
            proof {
                lemma_move_batch_outcome(self@);
            }
            Ok(
                BatchResult {
                    success: self.failed == 0,
                    processed: self.processed,
                    failed: self.failed,
                    batch_id: self.batch_id,
                    results: self.results,
                },
            )
        } else {
            Err(self)
        }
    }
}

} // verus!
