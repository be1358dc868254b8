//! The undo engine and what surrounds an operation: the guard before it and
//! the journal records after it.

use crate::clock::{time_text, timestamp_text, UnixTime};
use crate::db::{
    is_undo_mark, lemma_undo_mark_hides_batch, reversible_batch, ActionLog, ActionLogView,
};
use crate::error::{AppError, AppErrorView};
use crate::fs::effects::{FsReply, FsReplyView, FsRequest, FsRequestView};
use crate::fs::operations::{
    lemma_move_batch_step, move_pairs_as, rename_item, BatchItemResultView, BatchResult, DirResult, MoveBatch, MoveBatchView, RenameItem, RenameItemView, RenameResult,
    UndoResult, UndoResultView,
};
use crate::fs::paths::{
    file_name, file_name_of, is_tidy, join, joined, lemma_file_name_of_joined,
    lemma_file_name_plain, lemma_tidy_path_rebuilds, parent, parent_of,
};
use crate::fs::transfer::{request_view, PathPair, PathPairView};
use crate::fs::trash::{
    latest_name, latest_of, lemma_restore_step, Restore, RestoreView, TrashManager,
};
use crate::fs::{is_path_safe, path_is_safe};
use crate::text::{
    concat, decimal, decimal_text, opt_str_view, opt_view, opt_views, same_text, views,
};
use vstd::prelude::*;
use vstd::string::*;

verus! {

/// The original paths of the members of a batch that recorded one, in order.
pub open spec fn sources_of(batch: Seq<ActionLogView>) -> Seq<Seq<char>>
    decreases batch.len(),
{
    if batch.len() == 0 {
        Seq::empty()
    } else if batch.last().src_path is Some {
        sources_of(batch.drop_last()).push(batch.last().src_path->0)
    } else {
        sources_of(batch.drop_last())
    }
}

/// The record names both where the entry was and where it went.
pub open spec fn has_both_paths(r: ActionLogView) -> bool {
    r.src_path is Some && r.dst_path is Some
}

/// Every member that names both paths names a source with a file name.
pub open spec fn all_movable(batch: Seq<ActionLogView>) -> bool {
    forall|i: int|
        0 <= i < batch.len() && has_both_paths(#[trigger] batch[i]) ==> file_name_of(
            batch[i].src_path->0,
        ) is Some
}

/// The way back for one moved entry: from where it lies now, the directory
/// it was moved into and its file name, to its file name under the parent
/// of the path it came from.
pub open spec fn way_back(r: ActionLogView) -> PathPairView {
    let name = file_name_of(r.src_path->0)->0;
    PathPairView {
        from: joined(r.dst_path->0, name),
        to: joined(parent_of(r.src_path->0)->0, name),
    }
}

/// The ways back for the members of a batch that name both paths, in order.
pub open spec fn ways_back(batch: Seq<ActionLogView>) -> Seq<PathPairView>
    decreases batch.len(),
{
    if batch.len() == 0 {
        Seq::empty()
    } else if has_both_paths(batch.last()) {
        ways_back(batch.drop_last()).push(way_back(batch.last()))
    } else {
        ways_back(batch.drop_last())
    }
}

/// The outcome of an undo that reversed `count` items of kind `action`.
pub open spec fn undone(action: Seq<char>, count: nat) -> UndoResultView {
    UndoResultView { success: true, action, items_restored: count, message: None }
}

/// An undo as contracts see it.
pub enum UndoRunView {
    /// Waiting on the names of the trash folders, to restore from the newest.
    FindingSlot { trash_root: Seq<char>, paths: Seq<Seq<char>> },
    /// Restoring from the trash.
    Restoring(RestoreView),
    /// Renaming an entry back.
    Renaming { op: RenameItemView, action: Seq<char> },
    /// Moving entries back.
    MovingBack { batch: MoveBatchView, action: Seq<char> },
    /// Waiting on the removal of the directory that was created.
    RemovingDir { path: Seq<char>, action: Seq<char> },
    /// Ended, with the outcome.
    Finished(Result<UndoResultView, AppErrorView>),
}

impl UndoRunView {
    /// The part in hand is well formed and has not ended.
    pub open spec fn wf(self) -> bool {
        match self {
            UndoRunView::Restoring(r) => r.wf() && !r.finished(),
            UndoRunView::Renaming { op, .. } => !(op is Finished),
            UndoRunView::MovingBack { batch, .. } => batch.wf() && !batch.finished(),
            _ => true,
        }
    }

    /// The undo has ended.
    pub open spec fn finished(self) -> bool {
        self is Finished
    }

    /// The request that the undo is waiting on; none once it has ended.
    pub open spec fn pending(self) -> Option<FsRequestView> {
        match self {
            UndoRunView::FindingSlot { trash_root, .. } => Some(
                FsRequestView::ListDirs { path: trash_root },
            ),
            UndoRunView::Restoring(r) => r.pending(),
            UndoRunView::Renaming { op, .. } => op.pending(),
            UndoRunView::MovingBack { batch, .. } => batch.pending(),
            UndoRunView::RemovingDir { path, .. } => Some(FsRequestView::RemoveDir { path }),
            UndoRunView::Finished(_) => None,
        }
    }

    /// An undo that restores: under way, or ended with the outcome of the
    /// restore.
    pub open spec fn restoring(r: RestoreView) -> UndoRunView {
        if r.finished() {
            UndoRunView::Finished(r.outcome())
        } else {
            UndoRunView::Restoring(r)
        }
    }

    /// An undo that renames back: under way, or ended. A rename that went
    /// through counts as one item.
    pub open spec fn renaming(op: RenameItemView, action: Seq<char>) -> UndoRunView {
        match op {
            RenameItemView::Finished(Ok(_)) => UndoRunView::Finished(Ok(undone(action, 1))),
            RenameItemView::Finished(Err(e)) => UndoRunView::Finished(Err(e)),
            _ => UndoRunView::Renaming { op, action },
        }
    }

    /// An undo that moves back: under way, or ended. The items that count
    /// are those that were moved back.
    pub open spec fn moving_back(batch: MoveBatchView, action: Seq<char>) -> UndoRunView {
        if batch.finished() {
            UndoRunView::Finished(Ok(undone(action, batch.processed)))
        } else {
            UndoRunView::MovingBack { batch, action }
        }
    }

    /// The undo after the reply to its pending request. Without a trash
    /// folder, the undo of a soft delete fails with `UndoFailed`; a created
    /// directory that cannot be removed fails the undo with `IoError`.
    pub open spec fn advance(self, reply: FsReplyView) -> UndoRunView {
        match self {
            UndoRunView::FindingSlot { trash_root, paths } => {
                let latest = match reply.names() {
                    Ok(names) => latest_of(names),
                    Err(_) => None,
                };
                match latest {
                    None => UndoRunView::Finished(
                        Err(AppErrorView::UndoFailed("No trash folder found"@)),
                    ),
                    Some(slot) => UndoRunView::restoring(
                        RestoreView::start(joined(trash_root, slot), paths),
                    ),
                }
            },
            UndoRunView::Restoring(r) => UndoRunView::restoring(r.advance(reply)),
            UndoRunView::Renaming { op, action } => UndoRunView::renaming(
                op.advance(reply),
                action,
            ),
            UndoRunView::MovingBack { batch, action } => UndoRunView::moving_back(
                batch.advance(reply),
                action,
            ),
            UndoRunView::RemovingDir { path, action } => match reply.failure() {
                None => UndoRunView::Finished(Ok(undone(action, 1))),
                Some(message) => UndoRunView::Finished(Err(AppErrorView::IoError(message))),
            },
            UndoRunView::Finished(_) => self,
        }
    }
}

/// The identifier under which the entries of a batch are moved back: that of
/// the batch, or the empty text where the batch has none.
pub open spec fn batch_id_of(r: ActionLogView) -> Seq<char> {
    match r.batch_id {
        Some(b) => b,
        None => Seq::empty(),
    }
}

/// The undo of a batch, before anything is asked. The kind of the first
/// member says what is to be done:
/// a soft delete is restored from the newest trash folder;
/// a rename is renamed back;
/// a move is moved back, member by member;
/// a created directory is removed;
/// any other kind, and an empty batch, cannot be undone.
/// Whatever is missing for the undo ends it here, before anything is changed.
pub open spec fn undo_start(batch: Seq<ActionLogView>, trash_root: Seq<char>) -> UndoRunView {
    if batch.len() == 0 {
        UndoRunView::Finished(Err(AppErrorView::UndoFailed("No action to undo"@)))
    } else {
        let first = batch[0];
        if first.action == "DELETE"@ {
            UndoRunView::FindingSlot { trash_root, paths: sources_of(batch) }
        } else if first.action == "RENAME"@ {
            if !has_both_paths(first) {
                UndoRunView::Finished(Err(AppErrorView::UndoFailed("Missing path information"@)))
            } else if file_name_of(first.src_path->0) is None {
                UndoRunView::Finished(Err(AppErrorView::InvalidPath("Invalid file name"@)))
            } else {
                UndoRunView::Renaming {
                    op: RenameItemView::start(
                        first.dst_path->0,
                        file_name_of(first.src_path->0)->0,
                    ),
                    action: first.action,
                }
            }
        } else if first.action == "MOVE"@ {
            if !all_movable(batch) {
                UndoRunView::Finished(Err(AppErrorView::InvalidPath("Invalid file name"@)))
            } else {
                UndoRunView::moving_back(
                    MoveBatchView::of_pairs(batch_id_of(first), ways_back(batch)),
                    first.action,
                )
            }
        } else if first.action == "CREATE_DIR"@ {
            match first.dst_path {
                Some(path) => UndoRunView::RemovingDir { path, action: first.action },
                None => UndoRunView::Finished(
                    Err(AppErrorView::UndoFailed("Missing path information"@)),
                ),
            }
        } else {
            UndoRunView::Finished(
                Err(AppErrorView::UndoFailed("Cannot undo action: "@ + first.action)),
            )
        }
    }
}

/// A fresh undo is well formed, and a step keeps it so; an undo that has
/// ended stays as it is.
pub proof fn lemma_undo_step(batch: Seq<ActionLogView>, trash_root: Seq<char>, u: UndoRunView, reply: FsReplyView)
    requires
        u.wf(),
    ensures
        undo_start(batch, trash_root).wf(),
        u.advance(reply).wf(),
        u.finished() ==> u.advance(reply) == u,
{
    match u {
        UndoRunView::Restoring(r) => {
            lemma_restore_step(r, reply);
        },
        UndoRunView::MovingBack { batch, .. } => {
            lemma_move_batch_step(batch, reply);
        },
        _ => {},
    }
}

/// An undo asks nothing that could change the tree before it knows that the
/// batch can be undone: an empty batch, a kind that cannot be reversed, and
/// missing or unusable paths end it at the start.
pub proof fn lemma_undo_fails_whole(batch: Seq<ActionLogView>, trash_root: Seq<char>)
    ensures
        undo_start(batch, trash_root) matches UndoRunView::Finished(Err(_)) ==> undo_start(
            batch,
            trash_root,
        ).pending() is None,
        batch.len() == 0 ==> undo_start(batch, trash_root) == UndoRunView::Finished(
            Err(AppErrorView::UndoFailed("No action to undo"@)),
        ),
{
}

/// The way back of a moved entry leads to where it came from: the entry is
/// looked for under its own name in the directory it was moved into, and for
/// a source that is a tidy path the target of the move back is the source
/// itself.
pub proof fn lemma_way_back_is_source(r: ActionLogView)
    requires
        has_both_paths(r),
        file_name_of(r.src_path->0) is Some,
    ensures
        file_name_of(way_back(r).from) == file_name_of(r.src_path->0),
        is_tidy(r.src_path->0) ==> way_back(r).to == r.src_path->0,
{
    let src = r.src_path->0;
    lemma_file_name_plain(src);
    lemma_file_name_of_joined(r.dst_path->0, file_name_of(src)->0);
    if is_tidy(src) {
        lemma_tidy_path_rebuilds(src);
    }
}

/// A rename is undone by a rename to the old path: for an entry at the tidy
/// path `src` that was renamed to the plain name `new_name` within its
/// directory, the undo looks at the new path and its target is `src`.
pub proof fn lemma_rename_back_is_source(src: Seq<char>, new_name: Seq<char>)
    requires
        is_tidy(src),
        file_name_of(src) is Some,
        crate::fs::paths::is_plain_name(new_name),
    ensures
        ({
            let renamed = joined(parent_of(src)->0, new_name);
            &&& parent_of(renamed) == parent_of(src)
            &&& joined(parent_of(renamed)->0, file_name_of(src)->0) == src
        }),
{
    lemma_file_name_plain(src);
    lemma_tidy_path_rebuilds(src);
    crate::fs::paths::lemma_parent_of_joined(parent_of(src)->0, new_name);
}

/// A batch whose first record is a listing or an undo cannot be undone: the
/// undo ends at once with `UndoFailed`.
pub proof fn lemma_passive_kind_cannot_be_undone(batch: Seq<ActionLogView>, trash_root: Seq<char>)
    requires
        batch.len() > 0,
        crate::db::is_passive_kind(batch[0].action),
    ensures
        undo_start(batch, trash_root) == UndoRunView::Finished(
            Err(AppErrorView::UndoFailed("Cannot undo action: "@ + batch[0].action)),
        ),
{
    crate::db::lemma_kinds_differ();
    assert(crate::db::is_reversible_kind("DELETE"@));
    assert(crate::db::is_reversible_kind("RENAME"@));
    assert(crate::db::is_reversible_kind("MOVE"@));
    assert(crate::db::is_reversible_kind("CREATE_DIR"@));
}

/// An undo under way.
pub enum UndoRun {
    /// Waiting on the names of the trash folders.
    FindingSlot { trash_root: String, paths: Vec<String> },
    /// Restoring from the trash.
    Restoring(Restore),
    /// Renaming an entry back.
    Renaming { op: RenameItem, action: String },
    /// Moving entries back.
    MovingBack { batch: MoveBatch, action: String },
    /// Waiting on the removal of the directory that was created.
    RemovingDir { path: String, action: String },
    /// Ended, with the outcome.
    Finished(Result<UndoResult, AppError>),
}

impl View for UndoRun {
    type V = UndoRunView;

    open spec fn view(&self) -> UndoRunView {
        match self {
            UndoRun::FindingSlot { trash_root, paths } => UndoRunView::FindingSlot {
                trash_root: trash_root@,
                paths: views(paths@),
            },
            UndoRun::Restoring(r) => UndoRunView::Restoring(r@),
            UndoRun::Renaming { op, action } => UndoRunView::Renaming { op: op@, action: action@ },
            UndoRun::MovingBack { batch, action } => UndoRunView::MovingBack {
                batch: batch@,
                action: action@,
            },
            UndoRun::RemovingDir { path, action } => UndoRunView::RemovingDir {
                path: path@,
                action: action@,
            },
            UndoRun::Finished(Ok(r)) => UndoRunView::Finished(Ok(r@)),
            UndoRun::Finished(Err(e)) => UndoRunView::Finished(Err(e@)),
        }
    }
}

/// The original paths of the members that recorded one.
fn collect_sources(batch: &Vec<ActionLog>) -> (paths: Vec<String>)
    ensures
        views(paths@) == sources_of(views(batch@)),
{
    let ghost all = views(batch@);
    let mut paths: Vec<String> = Vec::new();
    let mut i: usize = 0;
    assert(all.subrange(0, 0) =~= Seq::<ActionLogView>::empty());
    assert(views(paths@) =~= Seq::<Seq<char>>::empty());
    while i < batch.len()
        invariant
            i <= batch.len(),
            all == views(batch@),
            views(paths@) == sources_of(all.subrange(0, i as int)),
        decreases batch.len() - i,
    {
        let ghost before = views(paths@);
        let ghost upto = all.subrange(0, i + 1);
        assert(upto.drop_last() =~= all.subrange(0, i as int));
        assert(upto.last() == batch@[i as int]@);
        match &batch[i].src_path {
            Some(p) => {
                let p: String = p.clone();
                paths.push(p);
                assert(views(paths@) =~= before.push(p@));
            },
            None => {},
        }
        i = i + 1;
    }
    assert(all.subrange(0, batch.len() as int) =~= all);
    paths
}

/// The ways back of the members that name both paths, or nothing where one
/// of them names a source without a file name.
fn collect_ways_back(batch: &Vec<ActionLog>) -> (pairs: Option<Vec<PathPair>>)
    ensures
        pairs is Some <==> all_movable(views(batch@)),
        pairs matches Some(ps) ==> views(ps@) == ways_back(views(batch@)),
{
    let ghost all = views(batch@);
    let mut pairs: Vec<PathPair> = Vec::new();
    let mut i: usize = 0;
    assert(all.subrange(0, 0) =~= Seq::<ActionLogView>::empty());
    assert(views(pairs@) =~= Seq::<PathPairView>::empty());
    while i < batch.len()
        invariant
            i <= batch.len(),
            all == views(batch@),
            views(pairs@) == ways_back(all.subrange(0, i as int)),
            forall|j: int|
                0 <= j < i && has_both_paths(#[trigger] all[j]) ==> file_name_of(
                    all[j].src_path->0,
                ) is Some,
        decreases batch.len() - i,
    {
        let ghost before = views(pairs@);
        let ghost upto = all.subrange(0, i + 1);
        assert(upto.drop_last() =~= all.subrange(0, i as int));
        assert(upto.last() == batch@[i as int]@);
        assert(all[i as int] == batch@[i as int]@);
        match (&batch[i].src_path, &batch[i].dst_path) {
            (Some(src), Some(dst)) => {
                let name: String = match file_name(src.as_str()) {
                    Some(n) => n,
                    None => {
                        return None;
                    },
                };
                proof {
                    lemma_file_name_plain(src@);
                }
                let dir: String = match parent(src.as_str()) {
                    Some(d) => d,
                    None => String::new(),
                };
                let pair = PathPair {
                    from: join(dst.as_str(), name.as_str()),
                    to: join(dir.as_str(), name.as_str()),
                };
                pairs.push(pair);
                assert(views(pairs@) =~= before.push(pair@));
            },
            _ => {},
        }
        i = i + 1;
    }
    assert(all.subrange(0, batch.len() as int) =~= all);
    Some(pairs)
}

/// The outcome of an undo that reversed `count` items of kind `action`.
fn undone_result(action: String, count: usize) -> (r: UndoResult)
    ensures
        r@ == undone(action@, count as nat),
{
    UndoResult { success: true, action, items_restored: count, message: None }
}

/// An undo that moves back: under way, or ended.
fn settle_moving_back(batch: MoveBatch, action: String) -> (run: UndoRun)
    ensures
        run@ == UndoRunView::moving_back(batch@, action@),
{
    match batch.finish() {
        Ok(outcome) => UndoRun::Finished(Ok(undone_result(action, outcome.processed))),
        Err(batch) => UndoRun::MovingBack { batch, action },
    }
}

/// An undo that restores: under way, or ended.
fn settle_restoring(r: Restore) -> (run: UndoRun)
    ensures
        run@ == UndoRunView::restoring(r@),
{
    match r.finish() {
        Ok(outcome) => UndoRun::Finished(outcome),
        Err(r) => UndoRun::Restoring(r),
    }
}

/// An undo that renames back: under way, or ended.
fn settle_renaming(op: RenameItem, action: String) -> (run: UndoRun)
    ensures
        run@ == UndoRunView::renaming(op@, action@),
{
    match op {
        RenameItem::Finished(Ok(_)) => UndoRun::Finished(Ok(undone_result(action, 1))),
        RenameItem::Finished(Err(e)) => UndoRun::Finished(Err(e)),
        op => UndoRun::Renaming { op, action },
    }
}

/// Starts the undo of the batch that the journal gave as the most recent
/// reversible one. Whatever is missing for the undo ends it at once, before
/// anything is asked of the filesystem.
pub fn undo_last_action(last_actions: &Vec<ActionLog>, trash: &TrashManager) -> (run: UndoRun)
    ensures
        run@ == undo_start(views(last_actions@), trash@),
        run@.wf(),
{
    let ghost batch = views(last_actions@);
    proof {
        lemma_undo_step(
            batch,
            trash@,
            UndoRunView::Finished(Ok(undone(Seq::empty(), 0))),
            FsReplyView::Done,
        );
    }
    if last_actions.len() == 0 {
        return UndoRun::Finished(Err(AppError::UndoFailed("No action to undo".to_owned())));
    }
    let first: &ActionLog = &last_actions[0];
    assert(batch[0] == first@);
    let kind: &str = first.action.as_str();
    if same_text(kind, "DELETE") {
        UndoRun::FindingSlot {
            trash_root: trash.trash_root().clone(),
            paths: collect_sources(last_actions),
        }
    } else if same_text(kind, "RENAME") {
        match (&first.src_path, &first.dst_path) {
            (Some(src), Some(dst)) => match file_name(src.as_str()) {
                None => UndoRun::Finished(
                    Err(AppError::InvalidPath("Invalid file name".to_owned())),
                ),
                Some(name) => UndoRun::Renaming {
                    op: rename_item(dst.as_str(), name.as_str()),
                    action: first.action.clone(),
                },
            },
            _ => UndoRun::Finished(
                Err(AppError::UndoFailed("Missing path information".to_owned())),
            ),
        }
    } else if same_text(kind, "MOVE") {
        match collect_ways_back(last_actions) {
            None => UndoRun::Finished(Err(AppError::InvalidPath("Invalid file name".to_owned()))),
            Some(pairs) => {
                let id: String = match &first.batch_id {
                    Some(b) => b.clone(),
                    None => String::new(),
                };
                settle_moving_back(move_pairs_as(id, pairs), first.action.clone())
            },
        }
    } else if same_text(kind, "CREATE_DIR") {
        match &first.dst_path {
            Some(path) => UndoRun::RemovingDir { path: path.clone(), action: first.action.clone() },
            None => UndoRun::Finished(
                Err(AppError::UndoFailed("Missing path information".to_owned())),
            ),
        }
    } else {
        UndoRun::Finished(Err(AppError::UndoFailed(concat("Cannot undo action: ", kind))))
    }
}

impl UndoRun {
    /// Whether the undo has ended.
    pub fn is_finished(&self) -> (b: bool)
        ensures
            b == self@.finished(),
    {
        match self {
            UndoRun::Finished(_) => true,
            _ => false,
        }
    }

    /// The request that the undo is waiting on; none once it has ended.
    pub fn pending(&self) -> (request: Option<FsRequest>)
        ensures
            request_view(request) == self@.pending(),
    {
        match self {
            UndoRun::FindingSlot { trash_root, .. } => Some(
                FsRequest::ListDirs { path: trash_root.clone() },
            ),
            UndoRun::Restoring(r) => r.pending(),
            UndoRun::Renaming { op, .. } => op.pending(),
            UndoRun::MovingBack { batch, .. } => batch.pending(),
            UndoRun::RemovingDir { path, .. } => Some(FsRequest::RemoveDir { path: path.clone() }),
            UndoRun::Finished(_) => None,
        }
    }

    /// The undo after the reply to its pending request.
    pub fn advance(self, reply: FsReply) -> (next: UndoRun)
        ensures
            next@ == self@.advance(reply@),
    {
        match self {
            UndoRun::FindingSlot { trash_root, paths } => {
                let latest: Option<String> = match reply.names() {
                    Ok(names) => latest_name(&names),
                    Err(_) => None,
                };
                match latest {
                    None => UndoRun::Finished(
                        Err(AppError::UndoFailed("No trash folder found".to_owned())),
                    ),
                    Some(slot) => {
                        let trash = TrashManager::at(trash_root);
                        settle_restoring(trash.restore_from_trash(slot.as_str(), paths))
                    },
                }
            },
            UndoRun::Restoring(r) => settle_restoring(r.advance(reply)),
            UndoRun::Renaming { op, action } => settle_renaming(op.advance(reply), action),
            UndoRun::MovingBack { batch, action } => settle_moving_back(
                batch.advance(reply),
                action,
            ),
            UndoRun::RemovingDir { path, action } => match reply.failure() {
                None => UndoRun::Finished(Ok(undone_result(action, 1))),
                Some(message) => UndoRun::Finished(Err(AppError::IoError(message))),
            },
            UndoRun::Finished(r) => UndoRun::Finished(r),
        }
    }
}

/// Whether a path may be touched: with no roots configured everything may,
/// else the path has to lie within one of them.
pub open spec fn access_allowed(
    resolved: Option<Seq<char>>,
    roots: Seq<Option<Seq<char>>>,
) -> bool {
    roots.len() == 0 || path_is_safe(resolved, roots)
}

/// The guard before an operation. `resolved` is the canonical form of the
/// path, `resolved_roots` those of the allowed roots; see `is_path_safe`.
/// A path that may not be touched is refused as `NotAllowed` with the given
/// words.
pub fn check_access(resolved: Option<&str>, resolved_roots: &Vec<Option<String>>, denial: &str) -> (r:
    Result<(), AppError>)
    ensures
        r is Ok <==> access_allowed(opt_str_view(resolved), opt_views(resolved_roots@)),
        r matches Err(e) ==> e@ == AppErrorView::NotAllowed(denial@),
{
    if resolved_roots.len() == 0 || is_path_safe(resolved, resolved_roots) {
        Ok(())
    } else {
        Err(AppError::NotAllowed(denial.to_owned()))
    }
}

/// The resolved form that belongs to the path at index `i`; a path for
/// which none was handed in counts as not resolved.
pub open spec fn resolved_at(resolved: Seq<Option<Seq<char>>>, i: int) -> Option<Seq<char>> {
    if 0 <= i < resolved.len() {
        resolved[i]
    } else {
        None
    }
}

/// The index of the first of the first `n` paths that may not be touched.
pub open spec fn first_denied(
    resolved: Seq<Option<Seq<char>>>,
    roots: Seq<Option<Seq<char>>>,
    n: nat,
) -> Option<int>
    decreases n,
{
    if n == 0 {
        None
    } else {
        match first_denied(resolved, roots, (n - 1) as nat) {
            Some(i) => Some(i),
            None => if access_allowed(resolved_at(resolved, n - 1), roots) {
                None
            } else {
                Some(n - 1)
            },
        }
    }
}

/// The words that refuse one path by its name.
pub open spec fn denial_of(path: Seq<char>) -> Seq<char> {
    "Access to "@ + path + " is not allowed"@
}

/// Once a path among the first `k` is denied, it stays the first denied
/// however many more paths are looked at.
pub proof fn lemma_first_denied_stays(
    resolved: Seq<Option<Seq<char>>>,
    roots: Seq<Option<Seq<char>>>,
    k: nat,
    n: nat,
)
    requires
        k <= n,
        first_denied(resolved, roots, k) is Some,
    ensures
        first_denied(resolved, roots, n) == first_denied(resolved, roots, k),
    decreases n,
{
    if k < n {
        lemma_first_denied_stays(resolved, roots, k, (n - 1) as nat);
    }
}

/// The guard before a batch: every path has to pass. The first path that
/// may not be touched refuses the batch by its name.
pub fn check_all_access(
    paths: &Vec<String>,
    resolved_paths: &Vec<Option<String>>,
    resolved_roots: &Vec<Option<String>>,
) -> (r: Result<(), AppError>)
    ensures
        r is Ok <==> first_denied(
            opt_views(resolved_paths@),
            opt_views(resolved_roots@),
            paths@.len(),
        ) is None,
        r matches Err(e) ==> e@ == AppErrorView::NotAllowed(
            denial_of(
                paths@[first_denied(
                    opt_views(resolved_paths@),
                    opt_views(resolved_roots@),
                    paths@.len(),
                )->0]@,
            ),
        ),
{
    let ghost resolved = opt_views(resolved_paths@);
    let ghost roots = opt_views(resolved_roots@);
    let mut i: usize = 0;
    while i < paths.len()
        invariant
            i <= paths.len(),
            resolved == opt_views(resolved_paths@),
            roots == opt_views(resolved_roots@),
            first_denied(resolved, roots, i as nat) is None,
        decreases paths.len() - i,
    {
        let allowed: bool = if i < resolved_paths.len() {
            assert(resolved[i as int] == opt_view(resolved_paths@[i as int]));
            match &resolved_paths[i] {
                Some(p) => check_access(Some(p.as_str()), resolved_roots, "").is_ok(),
                None => check_access(None, resolved_roots, "").is_ok(),
            }
        } else {
            check_access(None, resolved_roots, "").is_ok()
        };
        if !allowed {
            proof {
                assert(first_denied(resolved, roots, (i + 1) as nat) == Some(i as int));
                lemma_first_denied_stays(resolved, roots, (i + 1) as nat, paths@.len());
            }
            let opening: String = concat("Access to ", paths[i].as_str());
            return Err(AppError::NotAllowed(concat(opening.as_str(), " is not allowed")));
        }
        i = i + 1;
    }
    Ok(())
}

/// The journal record of an operation that succeeded, before the journal
/// gives it an id.
pub open spec fn success_record(
    action: Seq<char>,
    src_path: Option<Seq<char>>,
    dst_path: Option<Seq<char>>,
    batch_id: Option<Seq<char>>,
    timestamp: Seq<char>,
) -> ActionLogView {
    ActionLogView {
        id: None,
        timestamp,
        action,
        src_path,
        dst_path,
        status: "SUCCESS"@,
        message: None,
        batch_id,
    }
}

/// The journal record of an operation that succeeded at the time `now`.
pub fn record_success(
    action: &str,
    src_path: Option<String>,
    dst_path: Option<String>,
    batch_id: Option<String>,
    now: UnixTime,
) -> (log: ActionLog)
    ensures
        log@ == success_record(
            action@,
            opt_view(src_path),
            opt_view(dst_path),
            opt_view(batch_id),
            time_text(Some(now)),
        ),
{
    ActionLog {
        id: None,
        timestamp: timestamp_text(now),
        action: action.to_owned(),
        src_path,
        dst_path,
        status: "SUCCESS".to_owned(),
        message: None,
        batch_id,
    }
}

/// The records of a batch: one for each item that went well, in order, all
/// of one kind and under the identifier of the batch.
pub open spec fn batch_records(
    action: Seq<char>,
    results: Seq<BatchItemResultView>,
    dst_path: Option<Seq<char>>,
    batch_id: Seq<char>,
    timestamp: Seq<char>,
) -> Seq<ActionLogView>
    decreases results.len(),
{
    if results.len() == 0 {
        Seq::empty()
    } else if results.last().success {
        batch_records(action, results.drop_last(), dst_path, batch_id, timestamp).push(
            success_record(action, Some(results.last().path), dst_path, Some(batch_id), timestamp),
        )
    } else {
        batch_records(action, results.drop_last(), dst_path, batch_id, timestamp)
    }
}

/// The records of a batch are of one kind, successful, and under one
/// identifier; there are as many as items went well.
pub proof fn lemma_batch_records_uniform(
    action: Seq<char>,
    results: Seq<BatchItemResultView>,
    dst_path: Option<Seq<char>>,
    batch_id: Seq<char>,
    timestamp: Seq<char>,
)
    ensures
        batch_records(action, results, dst_path, batch_id, timestamp).len()
            == crate::fs::operations::successes(results),
        forall|i: int|
            0 <= i < batch_records(action, results, dst_path, batch_id, timestamp).len() ==> {
                let r = #[trigger] batch_records(action, results, dst_path, batch_id, timestamp)[i];
                &&& r.action == action
                &&& r.status == "SUCCESS"@
                &&& r.batch_id == Some(batch_id)
                &&& r.dst_path == dst_path
                &&& r.src_path is Some
            },
    decreases results.len(),
{
    if results.len() > 0 {
        lemma_batch_records_uniform(action, results.drop_last(), dst_path, batch_id, timestamp);
    }
}

/// The journal records for the items of a batch that went well.
fn records_of_batch(
    action: &str,
    result: &BatchResult,
    dst_path: Option<&str>,
    now: UnixTime,
) -> (logs: Vec<ActionLog>)
    ensures
        views(logs@) == batch_records(
            action@,
            result@.results,
            opt_str_view(dst_path),
            result@.batch_id,
            time_text(Some(now)),
        ),
{
    let ghost all = views(result.results@);
    let ghost dst = opt_str_view(dst_path);
    let ghost stamp = time_text(Some(now));
    let mut logs: Vec<ActionLog> = Vec::new();
    let mut i: usize = 0;
    assert(all.subrange(0, 0) =~= Seq::<BatchItemResultView>::empty());
    assert(views(logs@) =~= Seq::<ActionLogView>::empty());
    while i < result.results.len()
        invariant
            i <= result.results.len(),
            all == views(result.results@),
            dst == opt_str_view(dst_path),
            stamp == time_text(Some(now)),
            views(logs@) == batch_records(
                action@,
                all.subrange(0, i as int),
                dst,
                result.batch_id@,
                stamp,
            ),
        decreases result.results.len() - i,
    {
        let ghost before = views(logs@);
        let ghost upto = all.subrange(0, i + 1);
        assert(upto.drop_last() =~= all.subrange(0, i as int));
        assert(upto.last() == result.results@[i as int]@);
        if result.results[i].success {
            let dst_owned: Option<String> = match dst_path {
                Some(d) => Some(d.to_owned()),
                None => None,
            };
            let log = record_success(
                action,
                Some(result.results[i].path.clone()),
                dst_owned,
                Some(result.batch_id.clone()),
                now,
            );
            logs.push(log);
            assert(views(logs@) =~= before.push(log@));
        }
        i = i + 1;
    }
    assert(all.subrange(0, result.results.len() as int) =~= all);
    logs
}

/// The journal records of a batch of moves into `dest_dir`: one `MOVE`
/// record for each item that was moved.
pub fn move_records(result: &BatchResult, dest_dir: &str, now: UnixTime) -> (logs: Vec<ActionLog>)
    ensures
        views(logs@) == batch_records(
            "MOVE"@,
            result@.results,
            Some(dest_dir@),
            result@.batch_id,
            time_text(Some(now)),
        ),
{
    records_of_batch("MOVE", result, Some(dest_dir), now)
}

/// The journal records of a soft delete: one `DELETE` record for each item
/// that was moved to the trash.
pub fn delete_records(result: &BatchResult, now: UnixTime) -> (logs: Vec<ActionLog>)
    ensures
        views(logs@) == batch_records(
            "DELETE"@,
            result@.results,
            None,
            result@.batch_id,
            time_text(Some(now)),
        ),
{
    records_of_batch("DELETE", result, None, now)
}

/// The journal record of a listing.
pub fn list_dir_record(path: &str, now: UnixTime) -> (log: ActionLog)
    ensures
        log@ == success_record("LIST_DIR"@, Some(path@), None, None, time_text(Some(now))),
{
    record_success("LIST_DIR", Some(path.to_owned()), None, None, now)
}

/// The journal record of a created directory.
pub fn make_dir_record(result: &DirResult, now: UnixTime) -> (log: ActionLog)
    ensures
        log@ == success_record(
            "CREATE_DIR"@,
            None,
            Some(result@.path),
            None,
            time_text(Some(now)),
        ),
{
    record_success("CREATE_DIR", None, Some(result.path.clone()), None, now)
}

/// The journal record of a rename.
pub fn rename_record(result: &RenameResult, now: UnixTime) -> (log: ActionLog)
    ensures
        log@ == success_record(
            "RENAME"@,
            Some(result@.old_path),
            Some(result@.new_path),
            None,
            time_text(Some(now)),
        ),
{
    record_success(
        "RENAME",
        Some(result.old_path.clone()),
        Some(result.new_path.clone()),
        None,
        now,
    )
}

/// The note of an undo: how many items it reversed.
pub open spec fn undo_note(count: nat) -> Seq<char> {
    "Undid "@ + decimal_text(count) + " action(s)"@
}

/// The journal record that a successful undo leaves behind.
pub open spec fn undo_mark(count: nat, timestamp: Seq<char>) -> ActionLogView {
    ActionLogView {
        message: Some(undo_note(count)),
        ..success_record("UNDO"@, None, None, None, timestamp)
    }
}

/// The journal record of a successful undo. It carries no batch id, so it
/// can never be undone itself.
pub fn undo_record(result: &UndoResult, now: UnixTime) -> (log: ActionLog)
    ensures
        log@ == undo_mark(result@.items_restored, time_text(Some(now))),
        is_undo_mark(log@),
{
    let count: String = decimal(result.items_restored);
    let opening: String = concat("Undid ", count.as_str());
    let note: String = concat(opening.as_str(), " action(s)");
    ActionLog {
        id: None,
        timestamp: timestamp_text(now),
        action: "UNDO".to_owned(),
        src_path: None,
        dst_path: None,
        status: "SUCCESS".to_owned(),
        message: Some(note),
        batch_id: None,
    }
}

/// Undo is single-shot: once the record of an undo is the newest record of
/// the journal, whatever id it was given, the journal names no batch to
/// reverse.
pub proof fn lemma_undo_is_single_shot(
    journal: Seq<ActionLogView>,
    count: nat,
    timestamp: Seq<char>,
    id: i64,
)
    ensures
        reversible_batch(
            journal.push(ActionLogView { id: Some(id), ..undo_mark(count, timestamp) }),
        ).len() == 0,
{
    lemma_undo_mark_hides_batch(
        journal,
        ActionLogView { id: Some(id), ..undo_mark(count, timestamp) },
    );
}

/// Journals a successful undo. Once the record is in the journal, the
/// journal names no batch to reverse: the same batch cannot be undone twice.
pub fn journal_undo(db: &mut crate::db::Database, result: &UndoResult, now: UnixTime) -> (r:
    Result<i64, AppError>)
    ensures
        r is Ok <==> old(db).next_id() < i64::MAX,
        r matches Ok(id) ==> {
            &&& id == old(db).next_id()
            &&& final(db).next_id() == id + 1
            &&& final(db)@ == old(db)@.push(
                ActionLogView {
                    id: Some(id),
                    ..undo_mark(result@.items_restored, time_text(Some(now)))
                },
            )
            &&& reversible_batch(final(db)@).len() == 0
        },
        r is Err ==> final(db)@ == old(db)@ && final(db).next_id() == old(db).next_id(),
{
    let r = db.log_action(undo_record(result, now));
    proof {
        if r is Ok {
            lemma_undo_is_single_shot(
                old(db)@,
                result@.items_restored,
                time_text(Some(now)),
                r->Ok_0,
            );
        }
    }
    r
}

/// Whether a name matches a query: the query, in lower case, stands
/// somewhere in the name, in lower case.
pub open spec fn matches_query(name: Seq<char>, query: Seq<char>) -> bool {
    crate::text::contains_text(crate::text::lowercase_text(name), crate::text::lowercase_text(query))
}

/// The entries of a listing whose name matches the query, in order.
pub fn filter_by_query(items: &Vec<crate::fs::FileItem>, query: &str) -> (found: Vec<crate::fs::FileItem>)
    ensures
        views(found@) == views(items@).filter(
            |item: crate::fs::FileItemView| matches_query(item.name, query@),
        ),
{
    let ghost all = views(items@);
    let ghost keep = |item: crate::fs::FileItemView| matches_query(item.name, query@);
    let needle: Vec<char> = crate::text::chars_of(crate::text::to_lowercase(query).as_str());
    let mut found: Vec<crate::fs::FileItem> = Vec::new();
    let mut i: usize = 0;
    proof {
        reveal(Seq::filter);
    }
    assert(all.subrange(0, 0) =~= Seq::<crate::fs::FileItemView>::empty());
    assert(views(found@) =~= Seq::<crate::fs::FileItemView>::empty());
    while i < items.len()
        invariant
            i <= items.len(),
            all == views(items@),
            keep == |item: crate::fs::FileItemView| matches_query(item.name, query@),
            needle@ == crate::text::lowercase_text(query@),
            views(found@) == all.subrange(0, i as int).filter(keep),
        decreases items.len() - i,
    {
        let ghost before = views(found@);
        assert(all[i as int] == items@[i as int]@);
        proof {
            all.subrange(0, i as int).lemma_filter_push(all[i as int], keep);
            assert(all.subrange(0, i + 1) =~= all.subrange(0, i as int).push(all[i as int]));
        }
        let hay: Vec<char> = crate::text::chars_of(
            crate::text::to_lowercase(items[i].name.as_str()).as_str(),
        );
        if crate::text::has_text(&hay, &needle) {
            let item = items[i].duplicate();
            found.push(item);
            assert(views(found@) =~= before.push(all[i as int]));
        }
        i = i + 1;
    }
    assert(all.subrange(0, items.len() as int) =~= all);
    found
}

/// Calls `dirs::download_dir` and renders the path with `to_string_lossy`.
/// Nothing is claimed of the result: it depends on the user and the system.
#[verifier::external_body]
pub(crate) fn download_dir_text() -> (dir: Option<String>) {
    dirs::download_dir().map(|p| p.to_string_lossy().to_string())
}

/// Calls `dirs::document_dir` and renders the path with `to_string_lossy`.
/// Nothing is claimed of the result: it depends on the user and the system.
#[verifier::external_body]
pub(crate) fn document_dir_text() -> (dir: Option<String>) {
    dirs::document_dir().map(|p| p.to_string_lossy().to_string())
}

/// Calls `dirs::desktop_dir` and renders the path with `to_string_lossy`.
/// Nothing is claimed of the result: it depends on the user and the system.
#[verifier::external_body]
pub(crate) fn desktop_dir_text() -> (dir: Option<String>) {
    dirs::desktop_dir().map(|p| p.to_string_lossy().to_string())
}

/// Calls `dirs::home_dir` and renders the path with `to_string_lossy`.
/// Nothing is claimed of the result: it depends on the user and the system.
#[verifier::external_body]
pub(crate) fn home_dir_text() -> (dir: Option<String>) {
    dirs::home_dir().map(|p| p.to_string_lossy().to_string())
}

/// The directories that are there, in order.
pub open spec fn present(dirs: Seq<Option<Seq<char>>>) -> Seq<Seq<char>>
    decreases dirs.len(),
{
    if dirs.len() == 0 {
        Seq::empty()
    } else if dirs.last() is Some {
        present(dirs.drop_last()).push(dirs.last()->0)
    } else {
        present(dirs.drop_last())
    }
}

/// The favourites made of the four well-known directories: those that are
/// there, in the order downloads, documents, desktop, home.
pub fn favorites_of(
    downloads: Option<String>,
    documents: Option<String>,
    desktop: Option<String>,
    home: Option<String>,
) -> (favorites: Vec<String>)
    ensures
        views(favorites@) == present(
            seq![opt_view(downloads), opt_view(documents), opt_view(desktop), opt_view(home)],
        ),
{
    let ghost all = seq![opt_view(downloads), opt_view(documents), opt_view(desktop), opt_view(home)];
    let mut favorites: Vec<String> = Vec::new();
    assert(all.subrange(0, 0) =~= Seq::<Option<Seq<char>>>::empty());
    assert(views(favorites@) =~= present(all.subrange(0, 0)));
    let ghost mut before = views(favorites@);
    match downloads {
        Some(d) => {
            favorites.push(d);
            assert(views(favorites@) =~= before.push(d@));
        },
        None => {},
    }
    assert(all.subrange(0, 1).drop_last() =~= all.subrange(0, 0));
    assert(views(favorites@) == present(all.subrange(0, 1)));
    proof {
        before = views(favorites@);
    }
    match documents {
        Some(d) => {
            favorites.push(d);
            assert(views(favorites@) =~= before.push(d@));
        },
        None => {},
    }
    assert(all.subrange(0, 2).drop_last() =~= all.subrange(0, 1));
    assert(views(favorites@) == present(all.subrange(0, 2)));
    proof {
        before = views(favorites@);
    }
    match desktop {
        Some(d) => {
            favorites.push(d);
            assert(views(favorites@) =~= before.push(d@));
        },
        None => {},
    }
    assert(all.subrange(0, 3).drop_last() =~= all.subrange(0, 2));
    assert(views(favorites@) == present(all.subrange(0, 3)));
    proof {
        before = views(favorites@);
    }
    match home {
        Some(d) => {
            favorites.push(d);
            assert(views(favorites@) =~= before.push(d@));
        },
        None => {},
    }
    assert(all.subrange(0, 4).drop_last() =~= all.subrange(0, 3));
    assert(all.subrange(0, 4) =~= all);
    favorites
}

/// No more directories are there than were looked for.
pub proof fn lemma_present_is_short(dirs: Seq<Option<Seq<char>>>)
    ensures
        present(dirs).len() <= dirs.len(),
    decreases dirs.len(),
{
    if dirs.len() > 0 {
        lemma_present_is_short(dirs.drop_last());
    }
}

/// The favourites of the user: the well-known directories that the system
/// names, in the order downloads, documents, desktop, home.
pub fn get_favorites() -> (favorites: Vec<String>)
    ensures
        favorites@.len() <= 4,
{
    let downloads: Option<String> = download_dir_text();
    let documents: Option<String> = document_dir_text();
    let desktop: Option<String> = desktop_dir_text();
    let home: Option<String> = home_dir_text();
    proof {
        lemma_present_is_short(
            seq![opt_view(downloads), opt_view(documents), opt_view(desktop), opt_view(home)],
        );
    }
    favorites_of(downloads, documents, desktop, home)
}

/// What the commands share: the journal, the allowed roots as the caller
/// wrote them, and the trash.
pub struct AppState {
    pub db: crate::db::Database,
    pub allowed_roots: Vec<String>,
    pub trash_manager: TrashManager,
}

/// Replaces the allowed roots. An empty list lifts the guard.
pub fn set_allowed_roots(roots: Vec<String>, state: &mut AppState)
    ensures
        views(final(state).allowed_roots@) == views(roots@),
        final(state).db@ == old(state).db@,
        final(state).db.next_id() == old(state).db.next_id(),
        final(state).trash_manager@ == old(state).trash_manager@,
{
    state.allowed_roots = roots;
}

/// The words that refuse a directory.
pub open spec fn directory_denied() -> Seq<char> {
    "Access to this directory is not allowed"@
}

/// The words that refuse a path.
pub open spec fn path_denied() -> Seq<char> {
    "Access to this path is not allowed"@
}

/// The words that refuse the directory that a batch is to be moved into.
pub open spec fn destination_denied() -> Seq<char> {
    "Access to destination directory is not allowed"@
}

/// Lists a directory behind the guard, and gives the record of the listing
/// for the journal. `resolved` and `resolved_roots` are what the guard
/// needs, the rest is what `list_directory` needs.
pub fn list_dir(
    path: &str,
    resolved: Option<&str>,
    resolved_roots: &Vec<Option<String>>,
    exists: bool,
    is_dir: bool,
    entries: Result<Vec<crate::fs::operations::EntryProbe>, String>,
    now: UnixTime,
) -> (r: Result<(Vec<crate::fs::FileItem>, ActionLog), AppError>)
    ensures
        match r {
            Ok((items, log)) => {
                &&& access_allowed(opt_str_view(resolved), opt_views(resolved_roots@))
                &&& crate::fs::operations::listing_outcome(
                    path@,
                    exists,
                    is_dir,
                    match entries {
                        Ok(es) => Ok(views(es@)),
                        Err(message) => Err(message@),
                    },
                ) == Ok::<Seq<crate::fs::FileItemView>, AppErrorView>(views(items@))
                &&& log@ == success_record("LIST_DIR"@, Some(path@), None, None, time_text(Some(now)))
            },
            Err(e) => if access_allowed(opt_str_view(resolved), opt_views(resolved_roots@)) {
                crate::fs::operations::listing_outcome(
                    path@,
                    exists,
                    is_dir,
                    match entries {
                        Ok(es) => Ok(views(es@)),
                        Err(message) => Err(message@),
                    },
                ) == Err::<Seq<crate::fs::FileItemView>, AppErrorView>(e@)
            } else {
                e@ == AppErrorView::NotAllowed(directory_denied())
            },
        },
{
    match check_access(resolved, resolved_roots, "Access to this directory is not allowed") {
        Err(e) => {
            return Err(e);
        },
        Ok(()) => {},
    }
    match crate::fs::operations::list_directory(path, exists, is_dir, entries) {
        Ok(items) => Ok((items, list_dir_record(path, now))),
        Err(e) => Err(e),
    }
}

/// Looks at one path behind the guard.
pub fn stat_path(
    path: &str,
    resolved: Option<&str>,
    resolved_roots: &Vec<Option<String>>,
    exists: bool,
    meta: Result<crate::fs::FileMeta, String>,
) -> (r: Result<crate::fs::FileStat, AppError>)
    ensures
        match r {
            Ok(stat) => {
                &&& access_allowed(opt_str_view(resolved), opt_views(resolved_roots@))
                &&& crate::fs::operations::stat_outcome(
                    path@,
                    exists,
                    match meta {
                        Ok(m) => Ok(m),
                        Err(message) => Err(message@),
                    },
                ) == Ok::<crate::fs::FileStatView, AppErrorView>(stat@)
            },
            Err(e) => if access_allowed(opt_str_view(resolved), opt_views(resolved_roots@)) {
                crate::fs::operations::stat_outcome(
                    path@,
                    exists,
                    match meta {
                        Ok(m) => Ok(m),
                        Err(message) => Err(message@),
                    },
                ) == Err::<crate::fs::FileStatView, AppErrorView>(e@)
            } else {
                e@ == AppErrorView::NotAllowed(path_denied())
            },
        },
{
    match check_access(resolved, resolved_roots, "Access to this path is not allowed") {
        Err(e) => {
            return Err(e);
        },
        Ok(()) => {},
    }
    crate::fs::operations::get_file_stat(path, exists, meta)
}

/// Starts the creation of the directory `name` under `base`: the name has
/// to pass the rules for names, then `base` the guard, both before anything
/// is asked of the filesystem. A name that passes is one plain component, so
/// what is created is an entry of `base` itself.
pub fn make_dir(
    base: &str,
    name: &str,
    resolved_base: Option<&str>,
    resolved_roots: &Vec<Option<String>>,
) -> (r: Result<crate::fs::operations::CreateDirectory, AppError>)
    ensures
        r is Ok <==> crate::fs::validators::name_rejection(name@) is None && access_allowed(
            opt_str_view(resolved_base),
            opt_views(resolved_roots@),
        ),
        r matches Ok(op) ==> op@ == crate::fs::operations::CreateDirectoryView::start(
            base@,
            name@,
        ) && file_name_of(joined(base@, name@)) == Some(name@),
        r matches Err(e) ==> e@ == if crate::fs::validators::name_rejection(name@) is Some {
            AppErrorView::InvalidFileName(crate::fs::validators::name_rejection(name@)->0)
        } else {
            AppErrorView::NotAllowed(directory_denied())
        },
{
    match crate::fs::validators::validate_file_name(name) {
        Err(e) => {
            return Err(e);
        },
        Ok(()) => {},
    }
    match check_access(resolved_base, resolved_roots, "Access to this directory is not allowed") {
        Err(e) => {
            return Err(e);
        },
        Ok(()) => {},
    }
    proof {
        crate::fs::validators::lemma_valid_name_is_plain(name@, base@);
    }
    Ok(crate::fs::operations::create_directory(base, name))
}

/// Starts the renaming of the entry at `src` to `new_name`: the name has to
/// pass the rules for names, then `src` the guard, both before anything is
/// asked of the filesystem. A name that passes is one plain component, so
/// the entry stays in its directory.
pub fn rename_path(
    src: &str,
    new_name: &str,
    resolved_src: Option<&str>,
    resolved_roots: &Vec<Option<String>>,
) -> (r: Result<RenameItem, AppError>)
    ensures
        r is Ok <==> crate::fs::validators::name_rejection(new_name@) is None && access_allowed(
            opt_str_view(resolved_src),
            opt_views(resolved_roots@),
        ),
        r matches Ok(op) ==> op@ == RenameItemView::start(src@, new_name@)
            && crate::fs::paths::is_plain_name(new_name@),
        r matches Err(e) ==> e@ == if crate::fs::validators::name_rejection(new_name@) is Some {
            AppErrorView::InvalidFileName(crate::fs::validators::name_rejection(new_name@)->0)
        } else {
            AppErrorView::NotAllowed(path_denied())
        },
{
    match crate::fs::validators::validate_file_name(new_name) {
        Err(e) => {
            return Err(e);
        },
        Ok(()) => {},
    }
    match check_access(resolved_src, resolved_roots, "Access to this path is not allowed") {
        Err(e) => {
            return Err(e);
        },
        Ok(()) => {},
    }
    proof {
        crate::fs::validators::lemma_valid_name_is_plain(new_name@, src@);
    }
    Ok(rename_item(src, new_name))
}

/// Starts a batch of moves into `dest_dir` behind the guard: first the
/// destination has to pass, then every source in order, then every source
/// needs a file name, all before anything is asked of the filesystem.
pub fn move_paths(
    src_paths: Vec<String>,
    dest_dir: &str,
    resolved_dest: Option<&str>,
    resolved_sources: &Vec<Option<String>>,
    resolved_roots: &Vec<Option<String>>,
) -> (r: Result<MoveBatch, AppError>)
    ensures
        r is Ok <==> {
            &&& access_allowed(opt_str_view(resolved_dest), opt_views(resolved_roots@))
            &&& first_denied(
                opt_views(resolved_sources@),
                opt_views(resolved_roots@),
                src_paths@.len(),
            ) is None
            &&& crate::fs::operations::all_named(views(src_paths@))
        },
        r matches Ok(m) ==> m@.wf() && m@ == MoveBatchView::start(
            m@.batch_id,
            views(src_paths@),
            dest_dir@,
        ),
        r matches Err(e) ==> e@ == if !access_allowed(
            opt_str_view(resolved_dest),
            opt_views(resolved_roots@),
        ) {
            AppErrorView::NotAllowed(destination_denied())
        } else if first_denied(
            opt_views(resolved_sources@),
            opt_views(resolved_roots@),
            src_paths@.len(),
        ) is Some {
            AppErrorView::NotAllowed(
                denial_of(
                    src_paths@[first_denied(
                        opt_views(resolved_sources@),
                        opt_views(resolved_roots@),
                        src_paths@.len(),
                    )->0]@,
                ),
            )
        } else {
            AppErrorView::InvalidPath("Invalid file name"@)
        },
{
    match check_access(
        resolved_dest,
        resolved_roots,
        "Access to destination directory is not allowed",
    ) {
        Err(e) => {
            return Err(e);
        },
        Ok(()) => {},
    }
    match check_all_access(&src_paths, resolved_sources, resolved_roots) {
        Err(e) => {
            return Err(e);
        },
        Ok(()) => {},
    }
    crate::fs::operations::move_items(src_paths, dest_dir)
}

/// Starts the soft delete of `paths` behind the guard: every path has to
/// pass, in order, before anything is asked of the filesystem. A denied
/// path refuses the call as `NotAllowed`, and no other refusal is
/// `NotAllowed`: past the guard, the call is refused only for a path without
/// a file name or for a time that cannot be written as the name of a folder.
pub fn soft_delete(
    paths: Vec<String>,
    resolved_paths: &Vec<Option<String>>,
    resolved_roots: &Vec<Option<String>>,
    trash: &TrashManager,
) -> (r: Result<crate::fs::trash::SoftDelete, AppError>)
    ensures
        first_denied(opt_views(resolved_paths@), opt_views(resolved_roots@), paths@.len())
            is Some ==> (r matches Err(e) && e@ == AppErrorView::NotAllowed(
            denial_of(
                paths@[first_denied(
                    opt_views(resolved_paths@),
                    opt_views(resolved_roots@),
                    paths@.len(),
                )->0]@,
            ),
        )),
        first_denied(opt_views(resolved_paths@), opt_views(resolved_roots@), paths@.len())
            is None ==> (r matches Err(e) ==> e@ == AppErrorView::InvalidPath(
            "Invalid file name"@,
        ) || e@ == AppErrorView::Unknown("Time out of range"@)),
        r matches Err(e) ==> (e@ == AppErrorView::InvalidPath("Invalid file name"@)
            ==> !crate::fs::operations::all_named(views(paths@))),
        !crate::fs::operations::all_named(views(paths@)) ==> r is Err,
        r matches Ok(d) ==> {
            &&& first_denied(
                opt_views(resolved_paths@),
                opt_views(resolved_roots@),
                paths@.len(),
            ) is None
            &&& crate::fs::operations::all_named(views(paths@))
            &&& d@.wf()
            &&& d@ == crate::fs::trash::SoftDeleteView::start(
                trash@,
                d@.batch.batch_id,
                d@.timestamp,
                views(paths@),
            )
            &&& exists|secs: i64| #[trigger]
                crate::clock::pattern_text(secs, 0, crate::clock::slot_pattern()) == Some(
                    d@.timestamp,
                )
        },
{
    match check_all_access(&paths, resolved_paths, resolved_roots) {
        Err(e) => {
            return Err(e);
        },
        Ok(()) => {},
    }
    trash.soft_delete(paths)
}

/// Searches a directory behind the guard: the entries of its listing whose
/// name matches the query, in order.
pub fn search(
    current_path: &str,
    query: &str,
    resolved: Option<&str>,
    resolved_roots: &Vec<Option<String>>,
    exists: bool,
    is_dir: bool,
    entries: Result<Vec<crate::fs::operations::EntryProbe>, String>,
) -> (r: Result<Vec<crate::fs::FileItem>, AppError>)
    ensures
        match r {
            Ok(found) => {
                &&& access_allowed(opt_str_view(resolved), opt_views(resolved_roots@))
                &&& crate::fs::operations::listing_outcome(
                    current_path@,
                    exists,
                    is_dir,
                    match entries {
                        Ok(es) => Ok(views(es@)),
                        Err(message) => Err(message@),
                    },
                ) matches Ok(items) && views(found@) == items.filter(
                    |item: crate::fs::FileItemView| matches_query(item.name, query@),
                )
            },
            Err(e) => if access_allowed(opt_str_view(resolved), opt_views(resolved_roots@)) {
                crate::fs::operations::listing_outcome(
                    current_path@,
                    exists,
                    is_dir,
                    match entries {
                        Ok(es) => Ok(views(es@)),
                        Err(message) => Err(message@),
                    },
                ) == Err::<Seq<crate::fs::FileItemView>, AppErrorView>(e@)
            } else {
                e@ == AppErrorView::NotAllowed(directory_denied())
            },
        },
{
    match check_access(resolved, resolved_roots, "Access to this directory is not allowed") {
        Err(e) => {
            return Err(e);
        },
        Ok(()) => {},
    }
    match crate::fs::operations::list_directory(current_path, exists, is_dir, entries) {
        Ok(items) => Ok(filter_by_query(&items, query)),
        Err(e) => Err(e),
    }
}

} // verus!
