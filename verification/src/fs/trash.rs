//! The trash: soft delete into a folder named by the time, and restore.
//!
//! A soft delete makes one new folder under the trash root, moves every path
//! of the batch into it, and then writes a manifest of what was moved. The
//! folder has to be new: where a folder of that name is there already, the
//! soft delete leaves it alone and takes the next name, the name of the time
//! with one more mark at its end, which comes later in dictionary order. A
//! restore moves the named entries of one folder back to where they came
//! from and removes the folder if that leaves it empty.

use crate::clock::{pattern_text, slot_name, slot_pattern, unix_now, UnixTime};
use crate::error::{AppError, AppErrorView};
use crate::fs::effects::{FsReply, FsReplyView, FsRequest, FsRequestView};
use crate::fs::operations::{
    all_named, lemma_move_batch_outcome, lemma_move_batch_step, moved_item, start_batch,
    BatchItemResult, BatchItemResultView, BatchResult, BatchResultView, MoveBatch, MoveBatchView,
    UndoResult, UndoResultView,
};
use crate::fs::paths::{file_name, file_name_of, join, joined, parent, parent_of};
use crate::fs::transfer::{lemma_transfer_step, request_view, Transfer, TransferView};
use crate::ids::random_uuid_text;
use crate::text::{chars_of, concat, lemma_text_order, opt_view, text_at_most, text_le, views};
use vstd::prelude::*;
use vstd::string::*;

verus! {

/// The pretty-printed JSON text that `serde_json` gives for an object of
/// three members: two strings and a list of strings, each under its key. It
/// is nothing where `serde_json` fails to render the object.
pub uninterp spec fn json_object_text(
    first_key: Seq<char>,
    first: Seq<char>,
    second_key: Seq<char>,
    second: Seq<char>,
    list_key: Seq<char>,
    list: Seq<Seq<char>>,
) -> Option<Seq<char>>;

/// Builds a `serde_json::Map` of three members, two `Value::String` and one
/// `Value::Array` of strings, and renders the `Value::Object` of it with
/// `serde_json::to_string_pretty`. The contract names the text
/// `json_object_text`: it claims only that the text depends on the keys and
/// the values alone.
#[verifier::external_body]
pub(crate) fn json_object_pretty(
    first_key: &str,
    first: &str,
    second_key: &str,
    second: &str,
    list_key: &str,
    list: &Vec<String>,
) -> (text: Option<String>)
    ensures
        opt_view(text) == json_object_text(
            first_key@,
            first@,
            second_key@,
            second@,
            list_key@,
            views(list@),
        ),
{
    let mut map = serde_json::Map::new();
    map.insert(first_key.to_string(), serde_json::Value::String(first.to_string()));
    map.insert(second_key.to_string(), serde_json::Value::String(second.to_string()));
    let items = list.iter().map(|s| serde_json::Value::String(s.clone())).collect();
    map.insert(list_key.to_string(), serde_json::Value::Array(items));
    serde_json::to_string_pretty(&serde_json::Value::Object(map)).ok()
}

/// The paths of the items that went well, in order.
pub open spec fn moved_paths(results: Seq<BatchItemResultView>) -> Seq<Seq<char>>
    decreases results.len(),
{
    if results.len() == 0 {
        Seq::empty()
    } else if results.last().success {
        moved_paths(results.drop_last()).push(results.last().path)
    } else {
        moved_paths(results.drop_last())
    }
}

/// The text of the manifest of a trash folder: the batch, the name of the
/// folder, and the original paths of what was moved into it.
pub open spec fn manifest_text(
    batch_id: Seq<char>,
    timestamp: Seq<char>,
    results: Seq<BatchItemResultView>,
) -> Option<Seq<char>> {
    json_object_text(
        "batch_id"@,
        batch_id,
        "timestamp"@,
        timestamp,
        "items"@,
        moved_paths(results),
    )
}

/// The name of the manifest inside a trash folder.
pub open spec fn manifest_name() -> Seq<char> {
    ".metadata.json"@
}

/// The mark that is put at the end of a folder's name where the name is
/// taken.
pub open spec fn mark() -> char {
    '+'
}

/// `name` is `base` followed by nothing but marks.
pub open spec fn is_marked(base: Seq<char>, name: Seq<char>) -> bool {
    &&& base.is_prefix_of(name)
    &&& forall|i: int| base.len() <= i < name.len() ==> name[i] == mark()
}

/// Where a soft delete stands.
#[derive(Debug, Clone, Copy)]
pub enum SoftDeletePhase {
    /// Waiting on the trash root to be there.
    Preparing,
    /// Waiting on the creation of the trash folder, which has to be new.
    MakingSlot,
    /// Moving the items.
    Moving,
    /// Waiting on the manifest to be written.
    Writing,
    /// Ended with an outcome.
    Finished,
    /// The trash folder could not be made; nothing was moved.
    Failed,
}

/// A soft delete as contracts see it.
pub struct SoftDeleteView {
    pub trash_root: Seq<char>,
    /// The name of the folder: the text of the time, with a mark at its end
    /// for every name that was found taken.
    pub slot: Seq<char>,
    pub trash_dir: Seq<char>,
    pub timestamp: Seq<char>,
    pub phase: SoftDeletePhase,
    pub batch: MoveBatchView,
    pub manifest: Seq<char>,
    pub failure: Seq<char>,
}

impl SoftDeleteView {
    /// A soft delete of `paths` into the folder `timestamp` under
    /// `trash_root`, before anything is asked.
    pub open spec fn start(
        trash_root: Seq<char>,
        batch_id: Seq<char>,
        timestamp: Seq<char>,
        paths: Seq<Seq<char>>,
    ) -> SoftDeleteView {
        SoftDeleteView {
            trash_root,
            slot: timestamp,
            trash_dir: joined(trash_root, timestamp),
            timestamp,
            phase: SoftDeletePhase::Preparing,
            batch: MoveBatchView::start_unguarded(batch_id, paths, joined(trash_root, timestamp)),
            manifest: Seq::empty(),
            failure: Seq::empty(),
        }
    }

    /// The folder lies under the trash root and bears the name of the time,
    /// marked for every name found taken; every item has a file name and
    /// goes into the folder under it. The batch is well
    /// formed and moves without looking at the targets; items are in hand
    /// exactly while the soft delete is moving, and before the folder is made
    /// nothing has been moved.
    pub open spec fn wf(self) -> bool {
        &&& self.trash_dir == joined(self.trash_root, self.slot)
        &&& is_marked(self.timestamp, self.slot)
        &&& all_named(self.batch.sources)
        &&& self.batch.targets == crate::fs::operations::move_targets(
            self.batch.sources,
            self.trash_dir,
        )
        &&& self.batch.wf()
        &&& !self.batch.guarded
        &&& (self.phase is Moving ==> !self.batch.finished())
        &&& (self.phase is Writing || self.phase is Finished ==> self.batch.finished())
        &&& (self.phase is Preparing || self.phase is MakingSlot || self.phase is Failed ==> {
            &&& self.batch.results.len() == 0
            &&& self.batch.moving is None
        })
    }

    /// The folder of this soft delete has been made by this soft delete.
    pub open spec fn has_made_folder(self) -> bool {
        self.phase is Moving || self.phase is Writing || self.phase is Finished
    }

    /// The soft delete has ended.
    pub open spec fn finished(self) -> bool {
        self.phase is Finished || self.phase is Failed
    }

    /// The request that the soft delete is waiting on; none once it has ended.
    pub open spec fn pending(self) -> Option<FsRequestView> {
        match self.phase {
            SoftDeletePhase::Preparing => Some(
                FsRequestView::CreateDirAll { path: self.trash_root },
            ),
            SoftDeletePhase::MakingSlot => Some(FsRequestView::CreateDir { path: self.trash_dir }),
            SoftDeletePhase::Moving => self.batch.pending(),
            SoftDeletePhase::Writing => Some(
                FsRequestView::WriteFile {
                    path: joined(self.trash_dir, manifest_name()),
                    contents: self.manifest,
                },
            ),
            SoftDeletePhase::Finished | SoftDeletePhase::Failed => None,
        }
    }

    /// The soft delete once the given batch has the result of every item:
    /// the manifest is written next, or, where it cannot be rendered, the
    /// soft delete ends without one.
    pub open spec fn after_moves(self, batch: MoveBatchView) -> SoftDeleteView {
        match manifest_text(batch.batch_id, self.timestamp, batch.results) {
            Some(text) => SoftDeleteView {
                phase: SoftDeletePhase::Writing,
                batch,
                manifest: text,
                ..self
            },
            None => SoftDeleteView { phase: SoftDeletePhase::Finished, batch, ..self },
        }
    }

    /// The soft delete with the given batch: moving while items are left.
    pub open spec fn with_batch(self, batch: MoveBatchView) -> SoftDeleteView {
        if batch.finished() {
            self.after_moves(batch)
        } else {
            SoftDeleteView { phase: SoftDeletePhase::Moving, batch, ..self }
        }
    }

    /// The soft delete bound for the folder of the next name: the name it
    /// had with one more mark at its end.
    pub open spec fn with_next_name(self) -> SoftDeleteView {
        let slot = self.slot.push(mark());
        SoftDeleteView {
            slot,
            trash_dir: joined(self.trash_root, slot),
            batch: self.batch.retargeted(joined(self.trash_root, slot)),
            ..self
        }
    }

    /// The soft delete after the reply to its pending request. The folder
    /// is created as one new directory once the trash root is there. Where
    /// something stands at its name already, that is left alone and the
    /// creation is asked for again under the next name. A folder that cannot
    /// be made for any other reason fails the whole call before anything is
    /// moved. A manifest that cannot be written changes nothing.
    pub open spec fn advance(self, reply: FsReplyView) -> SoftDeleteView {
        match self.phase {
            SoftDeletePhase::Preparing => match reply.failure() {
                None => SoftDeleteView { phase: SoftDeletePhase::MakingSlot, ..self },
                Some(message) => SoftDeleteView {
                    phase: SoftDeletePhase::Failed,
                    failure: message,
                    ..self
                },
            },
            SoftDeletePhase::MakingSlot => match reply.failure() {
                None => self.with_batch(self.batch),
                Some(message) => if reply.is_taken() {
                    self.with_next_name()
                } else {
                    SoftDeleteView { phase: SoftDeletePhase::Failed, failure: message, ..self }
                },
            },
            SoftDeletePhase::Moving => self.with_batch(self.batch.advance(reply)),
            SoftDeletePhase::Writing => SoftDeleteView { phase: SoftDeletePhase::Finished, ..self },
            SoftDeletePhase::Finished | SoftDeletePhase::Failed => self,
        }
    }

    /// The outcome of a soft delete that has ended: the outcome of its batch,
    /// or the failure to make the trash folder.
    pub open spec fn outcome(self) -> Result<BatchResultView, AppErrorView> {
        if self.phase is Failed {
            Err(AppErrorView::IoError(self.failure))
        } else {
            Ok(self.batch.outcome())
        }
    }
}

/// A step keeps the soft delete well formed and never changes its paths; once
/// the folder is made, it stays the folder of the soft delete.
pub proof fn lemma_soft_delete_step(d: SoftDeleteView, reply: FsReplyView)
    requires
        d.wf(),
    ensures
        d.advance(reply).wf(),
        d.advance(reply).trash_root == d.trash_root,
        d.advance(reply).timestamp == d.timestamp,
        d.advance(reply).batch.sources == d.batch.sources,
        d.advance(reply).batch.batch_id == d.batch.batch_id,
        d.has_made_folder() ==> d.advance(reply).has_made_folder() && d.advance(reply).trash_dir
            == d.trash_dir && d.advance(reply).slot == d.slot,
        d.finished() ==> d.advance(reply) == d,
{
    lemma_move_batch_step(d.batch, reply);
    if d.phase is MakingSlot && reply.failure() is Some && reply.is_taken() {
        let next = d.with_next_name();
        assert(next.slot.subrange(0, d.timestamp.len() as int) =~= d.slot.subrange(
            0,
            d.timestamp.len() as int,
        ));
    }
}

/// A name with one more mark comes later in dictionary order than the name
/// without it, so the newest folder of one second is the one that
/// `latest_of` finds.
pub proof fn lemma_marked_name_comes_later(name: Seq<char>)
    ensures
        text_le(name, name.push(mark())),
        !text_le(name.push(mark()), name),
{
    let longer = name.push(mark());
    assert(longer.subrange(0, name.len() as int) =~= name.subrange(0, name.len() as int));
    crate::text::lemma_text_le_skips_prefix(name, longer, name.len() as int);
    crate::text::lemma_text_le_skips_prefix(longer, name, name.len() as int);
    assert(name.subrange(name.len() as int, name.len() as int).len() == 0);
    assert(longer.subrange(name.len() as int, longer.len() as int).len() == 1);
}

/// A trash folder is never reused: a soft delete moves only into a folder
/// that it has made itself. Until the creation of a folder as one new
/// directory was answered as done, the soft delete asks for nothing but the
/// trash root and that creation. Where the name is taken, what stands there
/// is left alone: nothing is moved, and the creation is asked for again
/// under the next name, which is another path and comes later in dictionary
/// order. Any other failure of the creation ends the soft delete with
/// nothing moved. Whatever is moved goes into the folder under its own file
/// name.
pub proof fn lemma_soft_delete_uses_a_new_folder(d: SoftDeleteView, reply: FsReplyView)
    requires
        d.wf(),
    ensures
        d.phase is Preparing ==> d.pending() == Some(
            FsRequestView::CreateDirAll { path: d.trash_root },
        ),
        d.phase is MakingSlot ==> d.pending() == Some(
            FsRequestView::CreateDir { path: d.trash_dir },
        ),
        !d.has_made_folder() && d.advance(reply).has_made_folder() ==> d.phase is MakingSlot
            && reply.failure() is None && d.advance(reply).trash_dir == d.trash_dir,
        d.phase is MakingSlot && reply.is_taken() ==> {
            &&& d.advance(reply).phase is MakingSlot
            &&& d.advance(reply).slot == d.slot.push(mark())
            &&& d.advance(reply).trash_dir != d.trash_dir
            &&& d.advance(reply).pending() == Some(
                FsRequestView::CreateDir { path: d.advance(reply).trash_dir },
            )
            &&& d.advance(reply).batch.results.len() == 0
            &&& text_le(d.slot, d.advance(reply).slot)
            &&& !text_le(d.advance(reply).slot, d.slot)
        },
        d.phase is MakingSlot && reply.failure() is Some && !reply.is_taken() ==> {
            &&& d.advance(reply).phase is Failed
            &&& d.advance(reply).pending() is None
            &&& d.advance(reply).batch.results.len() == 0
            &&& d.advance(reply).outcome() == Err::<BatchResultView, AppErrorView>(
                AppErrorView::IoError(reply.failure()->0),
            )
        },
        !d.has_made_folder() ==> d.batch.results.len() == 0 && d.batch.moving is None,
        forall|i: int|
            0 <= i < d.batch.sources.len() ==> #[trigger] d.batch.targets[i] == joined(
                d.trash_dir,
                file_name_of(d.batch.sources[i])->0,
            ),
{
    lemma_soft_delete_step(d, reply);
    lemma_marked_name_comes_later(d.slot);
    if d.phase is MakingSlot && reply.is_taken() {
        let slot = d.slot.push(mark());
        assert(joined(d.trash_root, slot).len() == joined(d.trash_root, d.slot).len() + 1) by {
            if d.slot.len() > 0 {
                assert(slot[0] == d.slot[0]);
            }
        }
    }
}

/// The soft delete after a run of replies, one for each request in turn.
pub open spec fn soft_delete_run(d: SoftDeleteView, replies: Seq<FsReplyView>) -> SoftDeleteView
    decreases replies.len(),
{
    if replies.len() == 0 {
        d
    } else {
        soft_delete_run(d.advance(replies[0]), replies.subrange(1, replies.len() as int))
    }
}

/// Whatever follows, a folder that was made stays the folder of the soft
/// delete.
pub proof fn lemma_made_folder_stays(d: SoftDeleteView, replies: Seq<FsReplyView>)
    requires
        d.wf(),
        d.has_made_folder(),
    ensures
        soft_delete_run(d, replies).has_made_folder(),
        soft_delete_run(d, replies).trash_dir == d.trash_dir,
    decreases replies.len(),
{
    if replies.len() > 0 {
        lemma_soft_delete_step(d, replies[0]);
        lemma_made_folder_stays(d.advance(replies[0]), replies.subrange(1, replies.len() as int));
    }
}

/// Whatever the filesystem answers, a soft delete that has come to move
/// anything moves into a folder that this call created: at some request
/// before, it asked for that very folder to be created as one new directory
/// and was answered that it was done. Every run whose creations are in the
/// end granted therefore moves only into a folder of its own, and a folder
/// that was there before the call is never moved into.
pub proof fn lemma_folder_is_made_before_anything_moves(
    d: SoftDeleteView,
    replies: Seq<FsReplyView>,
)
    requires
        d.wf(),
        !d.has_made_folder(),
        soft_delete_run(d, replies).has_made_folder(),
    ensures
        exists|k: int|
            0 <= k < replies.len() && soft_delete_run(d, replies.subrange(0, k)).pending() == Some(
                FsRequestView::CreateDir { path: soft_delete_run(d, replies).trash_dir },
            ) && (#[trigger] replies[k]).failure() is None,
    decreases replies.len(),
{
    if replies.len() > 0 {
        let next = d.advance(replies[0]);
        let rest = replies.subrange(1, replies.len() as int);
        lemma_soft_delete_step(d, replies[0]);
        lemma_soft_delete_uses_a_new_folder(d, replies[0]);
        if next.has_made_folder() {
            lemma_made_folder_stays(next, rest);
            assert(replies.subrange(0, 0).len() == 0);
            assert(soft_delete_run(d, replies.subrange(0, 0)) == d);
        } else {
            lemma_folder_is_made_before_anything_moves(next, rest);
            let k = choose|k: int|
                0 <= k < rest.len() && soft_delete_run(next, rest.subrange(0, k)).pending()
                    == Some(
                    FsRequestView::CreateDir { path: soft_delete_run(next, rest).trash_dir },
                ) && (#[trigger] rest[k]).failure() is None;
            let upto = replies.subrange(0, k + 1);
            assert(upto[0] == replies[0]);
            assert(upto.subrange(1, upto.len() as int) =~= rest.subrange(0, k));
            assert(soft_delete_run(d, upto) == soft_delete_run(next, rest.subrange(0, k)));
            assert(replies[k + 1] == rest[k]);
        }
    }
}

/// The soft delete after `count` creations in a row were refused because the
/// name was taken.
pub open spec fn after_taken_names(d: SoftDeleteView, count: nat) -> SoftDeleteView
    decreases count,
{
    if count == 0 {
        d
    } else {
        after_taken_names(d, (count - 1) as nat).advance(
            FsReplyView::Taken { message: Seq::empty() },
        )
    }
}

/// Two soft deletes of one second get two folders: however many names of the
/// second are taken, the soft delete passes over them all and, once a
/// creation is granted, moves every path into the folder of the first free
/// name, the text of the time with one mark for each name passed over.
pub proof fn lemma_taken_names_are_passed_over(d: SoftDeleteView, count: nat)
    requires
        d.wf(),
        d.phase is MakingSlot,
    ensures
        after_taken_names(d, count).wf(),
        after_taken_names(d, count).trash_root == d.trash_root,
        after_taken_names(d, count).phase is MakingSlot,
        after_taken_names(d, count).slot.len() == d.slot.len() + count,
        d.slot.is_prefix_of(after_taken_names(d, count).slot),
        after_taken_names(d, count).batch.results.len() == 0,
        after_taken_names(d, count).batch.sources == d.batch.sources,
        after_taken_names(d, count).advance(FsReplyView::Done).has_made_folder(),
        after_taken_names(d, count).advance(FsReplyView::Done).trash_dir == joined(
            d.trash_root,
            after_taken_names(d, count).slot,
        ),
    decreases count,
{
    if count > 0 {
        let before = after_taken_names(d, (count - 1) as nat);
        lemma_taken_names_are_passed_over(d, (count - 1) as nat);
        let reply = FsReplyView::Taken { message: Seq::<char>::empty() };
        lemma_soft_delete_step(before, reply);
        lemma_soft_delete_uses_a_new_folder(before, reply);
        let now = before.advance(reply);
        assert(now.slot.subrange(0, d.slot.len() as int) =~= before.slot.subrange(
            0,
            d.slot.len() as int,
        ));
    }
    let here = after_taken_names(d, count);
    lemma_soft_delete_step(here, FsReplyView::Done);
    lemma_soft_delete_uses_a_new_folder(here, FsReplyView::Done);
}

/// The reply of a filesystem that grants whatever is asked: yes to a
/// question, no names to a listing, done to a change.
pub open spec fn granted(request: FsRequestView) -> FsReplyView {
    match request {
        FsRequestView::Exists { .. } | FsRequestView::IsDir { .. } => FsReplyView::Flag(true),
        FsRequestView::ReadDir { .. } | FsRequestView::ListDirs { .. } => FsReplyView::Names(
            Seq::empty(),
        ),
        _ => FsReplyView::Done,
    }
}

/// The soft delete after up to `steps` requests, each of them granted.
pub open spec fn soft_delete_granted(d: SoftDeleteView, steps: nat) -> SoftDeleteView
    decreases steps,
{
    if steps == 0 || d.pending() is None {
        d
    } else {
        soft_delete_granted(d.advance(granted(d.pending()->0)), (steps - 1) as nat)
    }
}

/// Every path of the batch so far was moved, and none is in hand.
pub open spec fn all_moved_so_far(d: SoftDeleteView) -> bool {
    &&& d.batch.moving is None
    &&& d.batch.failed == 0
    &&& d.batch.processed == d.batch.results.len()
    &&& forall|i: int|
        0 <= i < d.batch.results.len() ==> #[trigger] d.batch.results[i] == moved_item(
            d.batch.sources[i],
        )
}

/// A soft delete whose renames are all granted moves every path that is
/// left and ends well.
pub proof fn lemma_granted_moves_the_rest(d: SoftDeleteView)
    requires
        d.wf(),
        d.phase is Moving,
        all_moved_so_far(d),
    ensures
        ({
            let end = soft_delete_granted(
                d,
                (d.batch.sources.len() - d.batch.results.len() + 1) as nat,
            );
            &&& end.wf()
            &&& end.phase is Finished
            &&& all_moved_so_far(end)
            &&& end.batch.results.len() == d.batch.sources.len()
            &&& end.batch.sources == d.batch.sources
        }),
    decreases d.batch.sources.len() - d.batch.results.len(),
{
    let left = (d.batch.sources.len() - d.batch.results.len()) as nat;
    let request = d.pending()->0;
    let source = d.batch.sources[d.batch.cursor()];
    assert(request == FsRequestView::Rename { from: source, to: d.batch.targets[d.batch.cursor()] });
    let next = d.advance(granted(request));
    lemma_soft_delete_step(d, granted(request));
    assert(next.batch.results == d.batch.results.push(moved_item(source)));
    assert(all_moved_so_far(next));
    if next.phase is Moving {
        lemma_granted_moves_the_rest(next);
    } else if next.phase is Writing {
        let last = next.advance(granted(next.pending()->0));
        assert(last.phase is Finished);
        assert(last.pending() is None);
        assert(soft_delete_granted(last, (left - 2) as nat) == last) by {
            reveal_with_fuel(soft_delete_granted, 2);
        }
        assert(left == 1);
        reveal_with_fuel(soft_delete_granted, 3);
    } else {
        assert(next.phase is Finished);
        assert(next.pending() is None);
        reveal_with_fuel(soft_delete_granted, 3);
    }
}

/// Where the filesystem grants every request, a soft delete moves every
/// path: for paths that all have a file name, the soft delete makes the
/// trash root and its own new folder, renames each path into the folder,
/// writes the manifest, and ends with every item moved, none failed, and one
/// result for each path in the order of the input.
pub proof fn lemma_granted_soft_delete_moves_all(
    trash_root: Seq<char>,
    batch_id: Seq<char>,
    timestamp: Seq<char>,
    paths: Seq<Seq<char>>,
)
    requires
        all_named(paths),
    ensures
        ({
            let end = soft_delete_granted(
                SoftDeleteView::start(trash_root, batch_id, timestamp, paths),
                paths.len() + 3,
            );
            &&& end.phase is Finished
            &&& end.outcome() matches Ok(outcome) && outcome.success && outcome.processed
                == paths.len() && outcome.failed == 0 && outcome.batch_id == batch_id
                && outcome.results.len() == paths.len()
            &&& forall|i: int|
                0 <= i < paths.len() ==> #[trigger] end.batch.results[i] == moved_item(paths[i])
        }),
{
    let d0 = SoftDeleteView::start(trash_root, batch_id, timestamp, paths);
    assert(timestamp.subrange(0, timestamp.len() as int) =~= timestamp);
    let d1 = d0.advance(granted(d0.pending()->0));
    assert(d1.phase is MakingSlot);
    lemma_soft_delete_step(d0, granted(d0.pending()->0));
    let d2 = d1.advance(granted(d1.pending()->0));
    lemma_soft_delete_step(d1, granted(d1.pending()->0));
    assert(all_moved_so_far(d2));
    assert(d2.batch == d0.batch);
    if d2.phase is Moving {
        lemma_granted_moves_the_rest(d2);
        let end = soft_delete_granted(d2, (paths.len() + 1) as nat);
        assert(soft_delete_granted(d0, paths.len() + 3) == end) by {
            reveal_with_fuel(soft_delete_granted, 3);
        }
        lemma_soft_delete_batch_id(d2, (paths.len() + 1) as nat);
    } else if d2.phase is Writing {
        assert(paths.len() == 0);
        let d3 = d2.advance(granted(d2.pending()->0));
        assert(d3.phase is Finished);
        assert(d3.pending() is None);
        reveal_with_fuel(soft_delete_granted, 5);
    } else {
        assert(paths.len() == 0);
        assert(d2.pending() is None);
        reveal_with_fuel(soft_delete_granted, 5);
    }
}

/// However many requests are granted, the batch keeps its identifier.
pub proof fn lemma_soft_delete_batch_id(d: SoftDeleteView, steps: nat)
    requires
        d.wf(),
    ensures
        soft_delete_granted(d, steps).batch.batch_id == d.batch.batch_id,
        soft_delete_granted(d, steps).wf(),
    decreases steps,
{
    if steps > 0 && d.pending() is Some {
        let reply = granted(d.pending()->0);
        lemma_soft_delete_step(d, reply);
        lemma_move_batch_step(d.batch, reply);
        lemma_soft_delete_batch_id(d.advance(reply), (steps - 1) as nat);
    }
}

/// The outcome of a soft delete that went through accounts for every path:
/// one result per path, tallies that add up to the number of paths, and
/// success exactly when no item failed.
pub proof fn lemma_soft_delete_outcome(d: SoftDeleteView)
    requires
        d.wf(),
        d.phase is Finished,
    ensures
        d.outcome() matches Ok(outcome) && outcome.consistent() && outcome.processed
            + outcome.failed == d.batch.sources.len() && outcome.success == (outcome.failed == 0),
{
    lemma_move_batch_outcome(d.batch);
}

/// The trash under one application directory.
#[derive(Debug)]
pub struct TrashManager {
    trash_root: String,
}

impl View for TrashManager {
    type V = Seq<char>;

    /// The path of the trash root.
    closed spec fn view(&self) -> Seq<char> {
        self.trash_root@
    }
}

/// A soft delete under way.
pub struct SoftDelete {
    trash_root: String,
    slot: String,
    trash_dir: String,
    timestamp: String,
    phase: SoftDeletePhase,
    batch: MoveBatch,
    manifest: String,
    failure: String,
}

impl View for SoftDelete {
    type V = SoftDeleteView;

    closed spec fn view(&self) -> SoftDeleteView {
        SoftDeleteView {
            trash_root: self.trash_root@,
            slot: self.slot@,
            trash_dir: self.trash_dir@,
            timestamp: self.timestamp@,
            phase: self.phase,
            batch: self.batch@,
            manifest: self.manifest@,
            failure: self.failure@,
        }
    }
}

/// The original paths of the items that went well.
fn collect_moved(results: &Vec<BatchItemResult>) -> (paths: Vec<String>)
    ensures
        views(paths@) == moved_paths(views(results@)),
{
    let ghost all = views(results@);
    let mut paths: Vec<String> = Vec::new();
    let mut i: usize = 0;
    assert(all.subrange(0, 0) =~= Seq::<BatchItemResultView>::empty());
    assert(views(paths@) =~= Seq::<Seq<char>>::empty());
    while i < results.len()
        invariant
            i <= results.len(),
            all == views(results@),
            views(paths@) == moved_paths(all.subrange(0, i as int)),
        decreases results.len() - i,
    {
        let ghost before = views(paths@);
        let ghost upto = all.subrange(0, i + 1);
        assert(upto.drop_last() =~= all.subrange(0, i as int));
        assert(upto.last() == results@[i as int]@);
        if results[i].success {
            let p: String = results[i].path.clone();
            paths.push(p);
            assert(views(paths@) =~= before.push(p@));
        }
        i = i + 1;
    }
    assert(all.subrange(0, results.len() as int) =~= all);
    paths
}

impl SoftDelete {
    #[verifier::type_invariant]
    spec fn inv(self) -> bool {
        self@.wf()
    }

    /// Whether the soft delete has ended.
    pub fn is_finished(&self) -> (b: bool)
        ensures
            b == self@.finished(),
            self@.wf(),
    {
        proof {
            use_type_invariant(self);
        }
        match self.phase {
            SoftDeletePhase::Finished | SoftDeletePhase::Failed => true,
            _ => false,
        }
    }

    /// The path of the trash folder of this soft delete.
    pub fn trash_dir(&self) -> (dir: &String)
        ensures
            dir@ == self@.trash_dir,
    {
        &self.trash_dir
    }

    /// The request that the soft delete is waiting on; none once it has ended.
    pub fn pending(&self) -> (request: Option<FsRequest>)
        ensures
            request_view(request) == self@.pending(),
            self@.wf(),
    {
        proof {
            use_type_invariant(self);
        }
        match self.phase {
            SoftDeletePhase::Preparing => Some(
                FsRequest::CreateDirAll { path: self.trash_root.clone() },
            ),
            SoftDeletePhase::MakingSlot => Some(
                FsRequest::CreateDir { path: self.trash_dir.clone() },
            ),
            SoftDeletePhase::Moving => self.batch.pending(),
            SoftDeletePhase::Writing => Some(
                FsRequest::WriteFile {
                    path: join(self.trash_dir.as_str(), ".metadata.json"),
                    contents: self.manifest.clone(),
                },
            ),
            SoftDeletePhase::Finished | SoftDeletePhase::Failed => None,
        }
    }

    /// The soft delete with the given batch: moving while items are left,
    /// then on to the manifest.
    fn with_batch(
        trash_root: String,
        slot: String,
        trash_dir: String,
        timestamp: String,
        batch: MoveBatch,
        manifest: String,
        failure: String,
    ) -> (next: SoftDelete)
        requires
            batch@.wf(),
            !batch@.guarded,
            all_named(batch@.sources),
            is_marked(timestamp@, slot@),
            trash_dir@ == joined(trash_root@, slot@),
            batch@.targets == crate::fs::operations::move_targets(batch@.sources, trash_dir@),
        ensures
            next@ == (SoftDeleteView {
                trash_root: trash_root@,
                slot: slot@,
                trash_dir: trash_dir@,
                timestamp: timestamp@,
                phase: SoftDeletePhase::Moving,
                batch: batch@,
                manifest: manifest@,
                failure: failure@,
            }).with_batch(batch@),
            next@.wf(),
    {
        if batch.is_finished() {
            let moved: Vec<String> = collect_moved(batch.results());
            match json_object_pretty(
                "batch_id",
                batch.batch_id().as_str(),
                "timestamp",
                timestamp.as_str(),
                "items",
                &moved,
            ) {
                Some(text) => SoftDelete {
                    trash_root,
                    slot,
                    trash_dir,
                    timestamp,
                    phase: SoftDeletePhase::Writing,
                    batch,
                    manifest: text,
                    failure,
                },
                None => SoftDelete {
                    trash_root,
                    slot,
                    trash_dir,
                    timestamp,
                    phase: SoftDeletePhase::Finished,
                    batch,
                    manifest,
                    failure,
                },
            }
        } else {
            SoftDelete {
                trash_root,
                slot,
                trash_dir,
                timestamp,
                phase: SoftDeletePhase::Moving,
                batch,
                manifest,
                failure,
            }
        }
    }

    /// The soft delete after the reply to its pending request.
    pub fn advance(self, reply: FsReply) -> (next: SoftDelete)
        ensures
            next@ == self@.advance(reply@),
            next@.wf(),
    {
        proof {
            use_type_invariant(&self);
            lemma_soft_delete_step(self@, reply@);
        }
        let SoftDelete { trash_root, slot, trash_dir, timestamp, phase, batch, manifest, failure } =
            self;
        match phase {
            SoftDeletePhase::Preparing => match reply.failure() {
                None => SoftDelete {
                    trash_root,
                    slot,
                    trash_dir,
                    timestamp,
                    phase: SoftDeletePhase::MakingSlot,
                    batch,
                    manifest,
                    failure,
                },
                Some(message) => SoftDelete {
                    trash_root,
                    slot,
                    trash_dir,
                    timestamp,
                    phase: SoftDeletePhase::Failed,
                    batch,
                    manifest,
                    failure: message,
                },
            },
            SoftDeletePhase::MakingSlot => {
                let taken: bool = reply.is_taken();
                match reply.failure() {
                    None => SoftDelete::with_batch(
                        trash_root,
                        slot,
                        trash_dir,
                        timestamp,
                        batch,
                        manifest,
                        failure,
                    ),
                    Some(message) => {
                        if taken {
                            proof {
                                reveal_strlit("+");
                                assert("+"@ =~= seq![mark()]);
                            }
                            let slot: String = concat(slot.as_str(), "+");
                            assert(slot@ =~= self@.slot.push(mark()));
                            let trash_dir: String = join(trash_root.as_str(), slot.as_str());
                            let batch: MoveBatch = batch.retarget(trash_dir.as_str());
                            SoftDelete {
                                trash_root,
                                slot,
                                trash_dir,
                                timestamp,
                                phase: SoftDeletePhase::MakingSlot,
                                batch,
                                manifest,
                                failure,
                            }
                        } else {
                            SoftDelete {
                                trash_root,
                                slot,
                                trash_dir,
                                timestamp,
                                phase: SoftDeletePhase::Failed,
                                batch,
                                manifest,
                                failure: message,
                            }
                        }
                    },
                }
            },
            SoftDeletePhase::Moving => {
                let batch: MoveBatch = batch.advance(reply);
                SoftDelete::with_batch(
                    trash_root,
                    slot,
                    trash_dir,
                    timestamp,
                    batch,
                    manifest,
                    failure,
                )
            },
            SoftDeletePhase::Writing => SoftDelete {
                trash_root,
                slot,
                trash_dir,
                timestamp,
                phase: SoftDeletePhase::Finished,
                batch,
                manifest,
                failure,
            },
            SoftDeletePhase::Finished => SoftDelete {
                trash_root,
                slot,
                trash_dir,
                timestamp,
                phase: SoftDeletePhase::Finished,
                batch,
                manifest,
                failure,
            },
            SoftDeletePhase::Failed => SoftDelete {
                trash_root,
                slot,
                trash_dir,
                timestamp,
                phase: SoftDeletePhase::Failed,
                batch,
                manifest,
                failure,
            },
        }
    }

    /// The outcome, once the soft delete has ended; until then the soft
    /// delete itself comes back unchanged.
    pub fn finish(self) -> (r: Result<Result<BatchResult, AppError>, SoftDelete>)
        ensures
            r is Ok <==> self@.finished(),
            r matches Ok(Ok(outcome)) ==> {
                &&& self@.outcome() == Ok::<BatchResultView, AppErrorView>(outcome@)
                &&& outcome@.consistent()
                &&& outcome@.processed + outcome@.failed == self@.batch.sources.len()
            },
            r matches Ok(Err(e)) ==> self@.outcome() == Err::<BatchResultView, AppErrorView>(e@),
            r matches Err(d) ==> d@ == self@,
    {
        proof {
            use_type_invariant(&self);
        }
        match self.phase {
            SoftDeletePhase::Finished => {
                proof {
                    lemma_soft_delete_outcome(self@);
                }
                match self.batch.finish() {
                    Ok(outcome) => Ok(Ok(outcome)),
                    Err(_) => Ok(Err(AppError::Unknown(String::new()))),
                }
            },
            SoftDeletePhase::Failed => Ok(Err(AppError::IoError(self.failure))),
            _ => Err(self),
        }
    }
}

/// Where a restore stands.
#[derive(Debug, Clone, Copy)]
pub enum RestorePhase {
    /// Waiting to learn whether the trash folder exists.
    CheckingSlot,
    /// Waiting to learn whether the folder holds the entry of the path in hand.
    CheckingEntry,
    /// Waiting on the creation of the directories above the path in hand.
    MakingParent,
    /// Moving the entry back.
    Moving,
    /// Waiting on the removal of the trash folder.
    Cleaning,
    /// Ended with a count.
    Finished,
    /// Ended with an error.
    Failed,
}

/// Whether the directories above a path have to be made before an entry can
/// be put there: the path has a parent, and that is not the empty path.
pub open spec fn needs_parent(path: Seq<char>) -> bool {
    parent_of(path) matches Some(dir) && dir.len() > 0
}

/// A restore as contracts see it.
pub struct RestoreView {
    pub trash_dir: Seq<char>,
    pub paths: Seq<Seq<char>>,
    pub phase: RestorePhase,
    /// The number of entries moved back so far.
    pub restored: nat,
    /// The index of the path in hand.
    pub at: nat,
    pub moving: Option<TransferView>,
    pub error: Option<AppErrorView>,
}

impl RestoreView {
    /// A restore of `paths` from the folder `trash_dir`, before anything is
    /// asked.
    pub open spec fn start(trash_dir: Seq<char>, paths: Seq<Seq<char>>) -> RestoreView {
        RestoreView {
            trash_dir,
            paths,
            phase: RestorePhase::CheckingSlot,
            restored: 0,
            at: 0,
            moving: None,
            error: None,
        }
    }

    /// Where the entry of the path at index `i` lies in the trash folder.
    pub open spec fn entry(self, i: int) -> Seq<char> {
        joined(self.trash_dir, file_name_of(self.paths[i])->0)
    }

    /// The path in hand is one of the paths and has a file name while an
    /// entry is looked at or moved; no more entries were restored than paths
    /// were gone through.
    pub open spec fn wf(self) -> bool {
        &&& self.at <= self.paths.len()
        &&& self.restored <= self.at
        &&& (self.phase is CheckingSlot ==> self.at == 0)
        &&& (self.phase is CheckingEntry || self.phase is MakingParent || self.phase is Moving ==> {
            &&& self.at < self.paths.len()
            &&& all_named(self.paths)
        })
        &&& (self.phase is MakingParent ==> needs_parent(self.paths[self.at as int]))
        &&& (self.phase is Moving ==> {
            &&& self.moving matches Some(t)
            &&& t.wf()
            &&& !t.finished()
            &&& t.from == self.entry(self.at as int)
            &&& t.to == self.paths[self.at as int]
        })
        &&& (self.phase is Failed ==> self.error is Some)
    }

    /// The restore has ended.
    pub open spec fn finished(self) -> bool {
        self.phase is Finished || self.phase is Failed
    }

    /// The request that the restore is waiting on; none once it has ended.
    pub open spec fn pending(self) -> Option<FsRequestView> {
        match self.phase {
            RestorePhase::CheckingSlot => Some(FsRequestView::Exists { path: self.trash_dir }),
            RestorePhase::CheckingEntry => Some(
                FsRequestView::Exists { path: self.entry(self.at as int) },
            ),
            RestorePhase::MakingParent => Some(
                FsRequestView::CreateDirAll { path: parent_of(self.paths[self.at as int])->0 },
            ),
            RestorePhase::Moving => self.moving->0.pending(),
            RestorePhase::Cleaning => Some(FsRequestView::RemoveDir { path: self.trash_dir }),
            RestorePhase::Finished | RestorePhase::Failed => None,
        }
    }

    /// The restore, failed with the given error.
    pub open spec fn failed_with(self, error: AppErrorView) -> RestoreView {
        RestoreView { phase: RestorePhase::Failed, moving: None, error: Some(error), ..self }
    }

    /// The restore with the path at index `at` in hand, or, where no path is
    /// left, on to the removal of the folder.
    pub open spec fn seek(self, at: nat) -> RestoreView {
        RestoreView {
            phase: if at >= self.paths.len() {
                RestorePhase::Cleaning
            } else {
                RestorePhase::CheckingEntry
            },
            at,
            moving: None,
            ..self
        }
    }

    /// The restore with the entry of the path in hand on its way back.
    pub open spec fn moving_back(self) -> RestoreView {
        RestoreView {
            phase: RestorePhase::Moving,
            moving: Some(
                TransferView::start(self.entry(self.at as int), self.paths[self.at as int]),
            ),
            ..self
        }
    }

    /// The restore after the reply to its pending request. A missing folder
    /// ends it with `UndoFailed`, a path without a file name with
    /// `InvalidPath`, both before anything is changed. An entry that is not
    /// in the folder is passed over. A failure to make the directories above
    /// a path, or to move an entry, ends the restore with `IoError`. Whether
    /// the folder could be removed at the end changes nothing.
    pub open spec fn advance(self, reply: FsReplyView) -> RestoreView {
        match self.phase {
            RestorePhase::CheckingSlot => if !reply.flag() {
                self.failed_with(AppErrorView::UndoFailed("Trash folder not found"@))
            } else if !all_named(self.paths) {
                self.failed_with(AppErrorView::InvalidPath("Invalid file name"@))
            } else {
                self.seek(0)
            },
            RestorePhase::CheckingEntry => if !reply.flag() {
                self.seek(self.at + 1)
            } else if needs_parent(self.paths[self.at as int]) {
                RestoreView { phase: RestorePhase::MakingParent, ..self }
            } else {
                self.moving_back()
            },
            RestorePhase::MakingParent => match reply.failure() {
                None => self.moving_back(),
                Some(message) => self.failed_with(AppErrorView::IoError(message)),
            },
            RestorePhase::Moving => {
                let next = self.moving->0.advance(reply);
                if next.phase is Succeeded {
                    (RestoreView { restored: self.restored + 1, ..self }).seek(self.at + 1)
                } else if next.phase is Failed {
                    self.failed_with(AppErrorView::IoError(next.error))
                } else {
                    RestoreView { moving: Some(next), ..self }
                }
            },
            RestorePhase::Cleaning => RestoreView { phase: RestorePhase::Finished, ..self },
            RestorePhase::Finished | RestorePhase::Failed => self,
        }
    }

    /// The outcome of a restore that has ended.
    pub open spec fn outcome(self) -> Result<UndoResultView, AppErrorView> {
        if self.phase is Failed {
            Err(self.error->0)
        } else {
            Ok(
                UndoResultView {
                    success: true,
                    action: "DELETE"@,
                    items_restored: self.restored,
                    message: None,
                },
            )
        }
    }
}

/// A step keeps the restore well formed, never changes its folder or its
/// paths, and never takes a restored entry back; a restore that has ended
/// stays as it is.
pub proof fn lemma_restore_step(r: RestoreView, reply: FsReplyView)
    requires
        r.wf(),
    ensures
        r.advance(reply).wf(),
        r.advance(reply).trash_dir == r.trash_dir,
        r.advance(reply).paths == r.paths,
        r.advance(reply).restored >= r.restored,
        r.advance(reply).restored <= r.paths.len(),
        r.finished() ==> r.advance(reply) == r,
{
    if r.phase is Moving {
        lemma_transfer_step(r.moving->0, reply);
    }
}

/// An entry that is not in the folder is passed over: nothing is counted,
/// nothing fails, and the restore turns to the next path.
pub proof fn lemma_absent_entry_is_passed_over(r: RestoreView)
    requires
        r.wf(),
        r.phase is CheckingEntry,
    ensures
        r.advance(FsReplyView::Flag(false)).restored == r.restored,
        r.advance(FsReplyView::Flag(false)).at == r.at + 1,
        !(r.advance(FsReplyView::Flag(false)).phase is Failed),
        r.advance(FsReplyView::Flag(false)).moving is None,
{
}

/// The restore after a run of replies, one for each request in turn.
pub open spec fn restore_run(r: RestoreView, replies: Seq<FsReplyView>) -> RestoreView
    decreases replies.len(),
{
    if replies.len() == 0 {
        r
    } else {
        restore_run(r.advance(replies[0]), replies.subrange(1, replies.len() as int))
    }
}

/// A restore that finds none of the entries it still has to look for ends
/// well and counts nothing more: with every remaining entry answered as
/// absent, whatever the reply to the removal of the folder, the restore
/// finishes with the count it had.
pub proof fn lemma_restore_of_absent_entries(r: RestoreView, replies: Seq<FsReplyView>)
    requires
        r.wf(),
        r.phase is CheckingEntry || (r.phase is Cleaning && r.at == r.paths.len()),
        replies.len() == r.paths.len() - r.at + 1,
        forall|i: int| 0 <= i < replies.len() - 1 ==> !(#[trigger] replies[i]).flag(),
    ensures
        restore_run(r, replies).phase is Finished,
        restore_run(r, replies).restored == r.restored,
        restore_run(r, replies).outcome() == Ok::<UndoResultView, AppErrorView>(
            UndoResultView {
                success: true,
                action: "DELETE"@,
                items_restored: r.restored,
                message: None,
            },
        ),
    decreases r.paths.len() - r.at,
{
    let rest = replies.subrange(1, replies.len() as int);
    let next = r.advance(replies[0]);
    if r.phase is Cleaning {
        assert(rest.len() == 0);
        assert(restore_run(next, rest) == next);
    } else {
        lemma_restore_step(r, replies[0]);
        assert forall|i: int| 0 <= i < rest.len() - 1 implies !(#[trigger] rest[i]).flag() by {
            assert(rest[i] == replies[i + 1]);
        }
        lemma_restore_of_absent_entries(next, rest);
    }
}

/// Restoring twice is harmless: a restore from a folder that is there but
/// holds none of the entries of the paths, all of which have a file name,
/// restores nothing and ends well.
pub proof fn lemma_second_restore_restores_nothing(
    trash_dir: Seq<char>,
    paths: Seq<Seq<char>>,
    replies: Seq<FsReplyView>,
)
    requires
        all_named(paths),
        replies.len() == paths.len() + 2,
        replies[0].flag(),
        forall|i: int| 1 <= i <= paths.len() ==> !(#[trigger] replies[i]).flag(),
    ensures
        restore_run(RestoreView::start(trash_dir, paths), replies).outcome() == Ok::<
            UndoResultView,
            AppErrorView,
        >(UndoResultView { success: true, action: "DELETE"@, items_restored: 0, message: None }),
{
    let start = RestoreView::start(trash_dir, paths);
    let rest = replies.subrange(1, replies.len() as int);
    let next = start.advance(replies[0]);
    assert forall|i: int| 0 <= i < rest.len() - 1 implies !(#[trigger] rest[i]).flag() by {
        assert(rest[i] == replies[i + 1]);
    }
    lemma_restore_step(start, replies[0]);
    lemma_restore_of_absent_entries(next, rest);
}

/// The restore after up to `steps` requests, each of them granted.
pub open spec fn restore_granted(r: RestoreView, steps: nat) -> RestoreView
    decreases steps,
{
    if steps == 0 || r.pending() is None {
        r
    } else {
        restore_granted(r.advance(granted(r.pending()->0)), (steps - 1) as nat)
    }
}

/// A restore whose requests are all granted brings back every entry that is
/// left and ends well.
pub proof fn lemma_granted_restores_the_rest(r: RestoreView, steps: nat)
    requires
        r.wf(),
        all_named(r.paths),
        r.phase is CheckingEntry || (r.phase is Cleaning && r.at == r.paths.len()),
        steps >= 3 * (r.paths.len() - r.at) + 1,
    ensures
        restore_granted(r, steps).phase is Finished,
        restore_granted(r, steps).restored == r.restored + (r.paths.len() - r.at),
    decreases r.paths.len() - r.at,
{
    if r.phase is Cleaning {
        let end = r.advance(granted(r.pending()->0));
        assert(end.phase is Finished);
        assert(end.pending() is None);
        reveal_with_fuel(restore_granted, 2);
    } else {
        let probed = r.advance(granted(r.pending()->0));
        lemma_restore_step(r, granted(r.pending()->0));
        let moving = if probed.phase is MakingParent {
            probed.advance(granted(probed.pending()->0))
        } else {
            probed
        };
        if probed.phase is MakingParent {
            lemma_restore_step(probed, granted(probed.pending()->0));
        }
        assert(moving.phase is Moving);
        assert(moving.moving == Some(
            TransferView::start(r.entry(r.at as int), r.paths[r.at as int]),
        ));
        let request = moving.pending()->0;
        assert(request == FsRequestView::Rename {
            from: r.entry(r.at as int),
            to: r.paths[r.at as int],
        });
        let next = moving.advance(granted(request));
        lemma_restore_step(moving, granted(request));
        assert(next.restored == r.restored + 1);
        assert(next.at == r.at + 1);
        let used: nat = if probed.phase is MakingParent {
            3
        } else {
            2
        };
        assert(restore_granted(r, steps) == restore_granted(next, (steps - used) as nat)) by {
            reveal_with_fuel(restore_granted, 4);
        }
        lemma_granted_restores_the_rest(next, (steps - used) as nat);
    }
}

/// Where the filesystem grants every request, a restore brings every entry
/// back: for paths that all have a file name, the restore finds the folder
/// and each entry in it, makes the directories above each path where the
/// path has any, renames each entry back to its path, and ends well with as
/// many items restored as there are paths.
pub proof fn lemma_granted_restore_restores_all(
    trash_dir: Seq<char>,
    paths: Seq<Seq<char>>,
    steps: nat,
)
    requires
        all_named(paths),
        steps >= 3 * paths.len() + 2,
    ensures
        restore_granted(RestoreView::start(trash_dir, paths), steps).outcome() == Ok::<
            UndoResultView,
            AppErrorView,
        >(
            UndoResultView {
                success: true,
                action: "DELETE"@,
                items_restored: paths.len(),
                message: None,
            },
        ),
{
    let start = RestoreView::start(trash_dir, paths);
    let first = start.advance(granted(start.pending()->0));
    lemma_restore_step(start, granted(start.pending()->0));
    lemma_granted_restores_the_rest(first, (steps - 1) as nat);
}

/// A restore under way.
pub struct Restore {
    trash_dir: String,
    paths: Vec<String>,
    phase: RestorePhase,
    restored: usize,
    at: usize,
    moving: Option<Transfer>,
    error: Option<AppError>,
}

impl View for Restore {
    type V = RestoreView;

    closed spec fn view(&self) -> RestoreView {
        RestoreView {
            trash_dir: self.trash_dir@,
            paths: views(self.paths@),
            phase: self.phase,
            restored: self.restored as nat,
            at: self.at as nat,
            moving: match self.moving {
                Some(t) => Some(t@),
                None => None,
            },
            error: match self.error {
                Some(e) => Some(e@),
                None => None,
            },
        }
    }
}

/// Whether every path has a file name.
pub fn every_path_named(paths: &Vec<String>) -> (r: bool)
    ensures
        r == all_named(views(paths@)),
{
    let ghost all = views(paths@);
    let mut i: usize = 0;
    while i < paths.len()
        invariant
            i <= paths.len(),
            all == views(paths@),
            forall|j: int| 0 <= j < i ==> file_name_of(#[trigger] all[j]) is Some,
        decreases paths.len() - i,
    {
        assert(all[i as int] == paths@[i as int]@);
        if file_name(paths[i].as_str()).is_none() {
            return false;
        }
        i = i + 1;
    }
    true
}

impl Restore {
    #[verifier::type_invariant]
    spec fn inv(self) -> bool {
        self@.wf()
    }

    /// Whether the restore has ended.
    pub fn is_finished(&self) -> (b: bool)
        ensures
            b == self@.finished(),
            self@.wf(),
    {
        proof {
            use_type_invariant(self);
        }
        match self.phase {
            RestorePhase::Finished | RestorePhase::Failed => true,
            _ => false,
        }
    }

    /// Where the entry of the path at index `i` lies in the trash folder.
    fn entry_path(&self, i: usize) -> (p: String)
        requires
            i < self@.paths.len(),
            file_name_of(self@.paths[i as int]) is Some,
        ensures
            p@ == self@.entry(i as int),
    {
        assert(views(self.paths@)[i as int] == self.paths@[i as int]@);
        match file_name(self.paths[i].as_str()) {
            Some(name) => join(self.trash_dir.as_str(), name.as_str()),
            None => String::new(),
        }
    }

    /// The request that the restore is waiting on; none once it has ended.
    pub fn pending(&self) -> (request: Option<FsRequest>)
        ensures
            request_view(request) == self@.pending(),
            self@.wf(),
    {
        proof {
            use_type_invariant(self);
        }
        match self.phase {
            RestorePhase::CheckingSlot => Some(FsRequest::Exists { path: self.trash_dir.clone() }),
            RestorePhase::CheckingEntry => Some(FsRequest::Exists { path: self.entry_path(self.at) }),
            RestorePhase::MakingParent => {
                assert(views(self.paths@)[self.at as int] == self.paths@[self.at as int]@);
                match parent(self.paths[self.at].as_str()) {
                    Some(dir) => Some(FsRequest::CreateDirAll { path: dir }),
                    None => None,
                }
            },
            RestorePhase::Moving => match &self.moving {
                Some(t) => t.pending(),
                None => None,
            },
            RestorePhase::Cleaning => Some(FsRequest::RemoveDir { path: self.trash_dir.clone() }),
            RestorePhase::Finished | RestorePhase::Failed => None,
        }
    }

    /// The restore after the reply to its pending request.
    pub fn advance(self, reply: FsReply) -> (next: Restore)
        ensures
            next@ == self@.advance(reply@),
            next@.wf(),
    {
        proof {
            use_type_invariant(&self);
            lemma_restore_step(self@, reply@);
        }
        match self.phase {
            RestorePhase::CheckingSlot => {
                if !reply.flag() {
                    self.fail(AppError::UndoFailed("Trash folder not found".to_owned()))
                } else if !every_path_named(&self.paths) {
                    self.fail(AppError::InvalidPath("Invalid file name".to_owned()))
                } else {
                    self.seek(0, 0)
                }
            },
            RestorePhase::CheckingEntry => {
                assert(views(self.paths@)[self.at as int] == self.paths@[self.at as int]@);
                assert(self.at < self.paths.len());
                if !reply.flag() {
                    let at: usize = self.at + 1;
                    let restored: usize = self.restored;
                    self.seek(at, restored)
                } else {
                    let wants_parent: bool = match parent(self.paths[self.at].as_str()) {
                        Some(dir) => dir.as_str().unicode_len() > 0,
                        None => false,
                    };
                    if wants_parent {
                        let Restore { trash_dir, paths, phase, restored, at, moving, error } = self;
                        Restore {
                            trash_dir,
                            paths,
                            phase: RestorePhase::MakingParent,
                            restored,
                            at,
                            moving,
                            error,
                        }
                    } else {
                        self.move_back()
                    }
                }
            },
            RestorePhase::MakingParent => match reply.failure() {
                None => self.move_back(),
                Some(message) => self.fail(AppError::IoError(message)),
            },
            RestorePhase::Moving => {
                assert(self.at < self.paths.len());
                assert(self.restored <= self.at);
                let Restore { trash_dir, paths, phase, restored, at, moving, error } = self;
                let in_hand: Transfer = match moving {
                    Some(t) => t,
                    None => Transfer::start(String::new(), String::new()),
                };
                let next: Transfer = in_hand.advance(reply);
                if next.succeeded() {
                    let r = Restore {
                        trash_dir,
                        paths,
                        phase: RestorePhase::Cleaning,
                        restored: restored + 1,
                        at: at + 1,
                        moving: None,
                        error,
                    };
                    let at: usize = r.at;
                    let restored: usize = r.restored;
                    r.seek(at, restored)
                } else if next.is_finished() {
                    let e = AppError::IoError(next.error().clone());
                    Restore {
                        trash_dir,
                        paths,
                        phase: RestorePhase::Failed,
                        restored,
                        at,
                        moving: None,
                        error: Some(e),
                    }
                } else {
                    Restore {
                        trash_dir,
                        paths,
                        phase: RestorePhase::Moving,
                        restored,
                        at,
                        moving: Some(next),
                        error,
                    }
                }
            },
            RestorePhase::Cleaning => {
                let Restore { trash_dir, paths, phase, restored, at, moving, error } = self;
                Restore {
                    trash_dir,
                    paths,
                    phase: RestorePhase::Finished,
                    restored,
                    at,
                    moving,
                    error,
                }
            },
            RestorePhase::Finished | RestorePhase::Failed => self,
        }
    }

    /// The restore, failed with the given error.
    fn fail(self, e: AppError) -> (next: Restore)
        ensures
            next@ == self@.failed_with(e@),
    {
        proof {
            use_type_invariant(&self);
        }
        let Restore { trash_dir, paths, phase, restored, at, moving, error } = self;
        Restore {
            trash_dir,
            paths,
            phase: RestorePhase::Failed,
            restored,
            at,
            moving: None,
            error: Some(e),
        }
    }

    /// The restore with the path at index `at` in hand and `restored`
    /// entries counted.
    fn seek(self, at: usize, restored: usize) -> (next: Restore)
        requires
            at <= self@.paths.len(),
            restored <= at,
            at < self@.paths.len() ==> all_named(self@.paths),
        ensures
            next@ == (RestoreView { restored: restored as nat, ..self@ }).seek(at as nat),
    {
        let Restore { trash_dir, paths, phase, restored: _, at: _, moving, error } = self;
        let phase = if at >= paths.len() {
            RestorePhase::Cleaning
        } else {
            RestorePhase::CheckingEntry
        };
        Restore { trash_dir, paths, phase, restored, at, moving: None, error }
    }

    /// The restore with the entry of the path in hand on its way back.
    fn move_back(self) -> (next: Restore)
        requires
            self@.at < self@.paths.len(),
            all_named(self@.paths),
        ensures
            next@ == self@.moving_back(),
    {
        proof {
            use_type_invariant(&self);
        }
        assert(views(self.paths@)[self.at as int] == self.paths@[self.at as int]@);
        let from: String = self.entry_path(self.at);
        let to: String = self.paths[self.at].clone();
        let Restore { trash_dir, paths, phase, restored, at, moving, error } = self;
        Restore {
            trash_dir,
            paths,
            phase: RestorePhase::Moving,
            restored,
            at,
            moving: Some(Transfer::start(from, to)),
            error,
        }
    }

    /// The outcome, once the restore has ended; until then the restore
    /// itself comes back unchanged.
    pub fn finish(self) -> (r: Result<Result<UndoResult, AppError>, Restore>)
        ensures
            r is Ok <==> self@.finished(),
            r matches Ok(Ok(outcome)) ==> self@.outcome() == Ok::<UndoResultView, AppErrorView>(
                outcome@,
            ) && outcome@.items_restored <= self@.paths.len(),
            r matches Ok(Err(e)) ==> self@.outcome() == Err::<UndoResultView, AppErrorView>(e@),
            r matches Err(m) ==> m@ == self@,
    {
        proof {
            use_type_invariant(&self);
        }
        match self.phase {
            RestorePhase::Finished => Ok(
                Ok(
                    UndoResult {
                        success: true,
                        action: "DELETE".to_owned(),
                        items_restored: self.restored,
                        message: None,
                    },
                ),
            ),
            RestorePhase::Failed => match self.error {
                Some(e) => Ok(Err(e)),
                None => Ok(Err(AppError::Unknown(String::new()))),
            },
            _ => Err(self),
        }
    }
}

/// The greatest of the names in dictionary order, or nothing where there are
/// no names. Trash folders are named by their time, widest unit first, so
/// the greatest name is that of the newest folder.
pub open spec fn latest_of(names: Seq<Seq<char>>) -> Option<Seq<char>>
    decreases names.len(),
{
    if names.len() == 0 {
        None
    } else {
        match latest_of(names.drop_last()) {
            None => Some(names.last()),
            Some(best) => if text_le(names.last(), best) {
                Some(best)
            } else {
                Some(names.last())
            },
        }
    }
}

/// Dictionary order runs through: what comes before a text comes before
/// whatever that text comes before.
pub proof fn lemma_text_le_transitive(a: Seq<char>, b: Seq<char>, c: Seq<char>)
    requires
        text_le(a, b),
        text_le(b, c),
    ensures
        text_le(a, c),
    decreases a.len(),
{
    if a.len() > 0 && b.len() > 0 && c.len() > 0 {
        if a[0] == b[0] && b[0] == c[0] {
            lemma_text_le_transitive(
                a.subrange(1, a.len() as int),
                b.subrange(1, b.len() as int),
                c.subrange(1, c.len() as int),
            );
        }
    }
}

/// The latest name is one of the names, and none of them comes after it.
pub proof fn lemma_latest_is_greatest(names: Seq<Seq<char>>)
    ensures
        latest_of(names) is None <==> names.len() == 0,
        latest_of(names) matches Some(best) ==> names.contains(best) && forall|i: int|
            0 <= i < names.len() ==> text_le(#[trigger] names[i], best),
    decreases names.len(),
{
    if names.len() > 0 {
        let rest = names.drop_last();
        lemma_latest_is_greatest(rest);
        let last = names.last();
        let best = latest_of(names)->0;
        match latest_of(rest) {
            None => {
                lemma_text_order(last, last);
                assert(names[names.len() - 1] == best);
            },
            Some(prev) => {
                lemma_text_order(last, prev);
                lemma_text_order(last, last);
                let k = choose|k: int| 0 <= k < rest.len() && rest[k] == prev;
                assert(names[k] == prev);
                assert forall|i: int| 0 <= i < names.len() implies text_le(
                    #[trigger] names[i],
                    best,
                ) by {
                    if i < rest.len() {
                        assert(rest[i] == names[i]);
                        if !text_le(last, prev) {
                            lemma_text_le_transitive(names[i], prev, last);
                        }
                    }
                }
                if text_le(last, prev) {
                    assert(names[k] == best);
                } else {
                    assert(names[names.len() - 1] == best);
                }
            },
        }
    }
}

impl TrashManager {
    /// The trash of the application directory `app_root`: the folder
    /// `.trash` in it.
    pub fn new(app_root: &str) -> (trash: TrashManager)
        ensures
            trash@ == joined(app_root@, ".trash"@),
    {
        TrashManager { trash_root: join(app_root, ".trash") }
    }

    /// The trash whose root is the given path.
    pub fn at(trash_root: String) -> (trash: TrashManager)
        ensures
            trash@ == trash_root@,
    {
        TrashManager { trash_root }
    }

    /// The path of the trash root.
    pub fn trash_root(&self) -> (root: &String)
        ensures
            root@ == self@,
    {
        &self.trash_root
    }

    /// Starts the soft delete of `paths` under a fresh batch identifier, into
    /// a folder named by the second that the clock shows. A time that cannot
    /// be written as a name refuses the whole call, and so does a path
    /// without a file name, both before anything is asked of the filesystem.
    /// Which second the clock shows is not known here; whatever it shows, the
    /// folder is first asked for under the name of some second, and under the
    /// next name wherever a name is found taken.
    pub fn soft_delete(&self, paths: Vec<String>) -> (r: Result<SoftDelete, AppError>)
        ensures
            r matches Ok(d) ==> {
                &&& d@.wf()
                &&& all_named(views(paths@))
                &&& d@ == SoftDeleteView::start(
                    self@,
                    d@.batch.batch_id,
                    d@.timestamp,
                    views(paths@),
                )
                &&& exists|secs: i64| #[trigger]
                    pattern_text(secs, 0, slot_pattern()) == Some(d@.timestamp)
            },
            r matches Err(e) ==> e@ == AppErrorView::InvalidPath("Invalid file name"@) || e@
                == AppErrorView::Unknown("Time out of range"@),
            r matches Err(e) ==> (e@ == AppErrorView::InvalidPath("Invalid file name"@)
                ==> !all_named(views(paths@))),
            !all_named(views(paths@)) ==> r is Err,
    {
        let now: UnixTime = unix_now();
        self.soft_delete_at(paths, random_uuid_text(), now.secs)
    }

    /// Starts the soft delete of `paths` under the given batch identifier,
    /// into a new folder named by the second `now_secs`: under the text of
    /// that second, or, where that name is taken, the first free name that
    /// follows it.
    pub fn soft_delete_at(&self, paths: Vec<String>, batch_id: String, now_secs: i64) -> (r: Result<
        SoftDelete,
        AppError,
    >)
        ensures
            r is Ok <==> pattern_text(now_secs, 0, slot_pattern()) is Some && all_named(
                views(paths@),
            ),
            r matches Ok(d) ==> d@.wf() && d@ == SoftDeleteView::start(
                self@,
                batch_id@,
                pattern_text(now_secs, 0, slot_pattern())->0,
                views(paths@),
            ),
            r matches Err(e) ==> e@ == if pattern_text(now_secs, 0, slot_pattern()) is None {
                AppErrorView::Unknown("Time out of range"@)
            } else {
                AppErrorView::InvalidPath("Invalid file name"@)
            },
    {
        let timestamp: String = match slot_name(now_secs) {
            Some(t) => t,
            None => {
                return Err(AppError::Unknown("Time out of range".to_owned()));
            },
        };
        self.soft_delete_into(paths, batch_id, timestamp)
    }

    /// Starts the soft delete of `paths` under the given batch identifier,
    /// into a new folder under the trash root: the folder `timestamp`, or,
    /// where that name is taken, the first free name that follows it.
    pub fn soft_delete_into(&self, paths: Vec<String>, batch_id: String, timestamp: String) -> (r:
        Result<SoftDelete, AppError>)
        ensures
            r is Ok <==> all_named(views(paths@)),
            r matches Ok(d) ==> d@.wf() && d@ == SoftDeleteView::start(
                self@,
                batch_id@,
                timestamp@,
                views(paths@),
            ),
            r matches Err(e) ==> e@ == AppErrorView::InvalidPath("Invalid file name"@),
    {
        let trash_dir: String = join(self.trash_root.as_str(), timestamp.as_str());
        let batch: MoveBatch = match start_batch(batch_id, paths, trash_dir.as_str(), false) {
            Ok(b) => b,
            Err(e) => {
                return Err(e);
            },
        };
        Ok(
            SoftDelete {
                trash_root: self.trash_root.clone(),
                slot: timestamp.clone(),
                trash_dir,
                timestamp,
                phase: SoftDeletePhase::Preparing,
                batch,
                manifest: String::new(),
                failure: String::new(),
            },
        )
    }

    /// Starts the restore of the entries of `original_paths` from the trash
    /// folder `trash_folder`.
    pub fn restore_from_trash(&self, trash_folder: &str, original_paths: Vec<String>) -> (r:
        Restore)
        ensures
            r@ == RestoreView::start(joined(self@, trash_folder@), views(original_paths@)),
            r@.wf(),
    {
        Restore {
            trash_dir: join(self.trash_root.as_str(), trash_folder),
            paths: original_paths,
            phase: RestorePhase::CheckingSlot,
            restored: 0,
            at: 0,
            moving: None,
            error: None,
        }
    }

    /// The name of the newest trash folder among the names of the folders
    /// found under the trash root: the greatest in dictionary order.
    pub fn get_latest_trash_folder(&self, folders: &Vec<String>) -> (latest: Option<String>)
        ensures
            opt_view(latest) == latest_of(views(folders@)),
    {
        latest_name(folders)
    }
}

/// The greatest of the names in dictionary order.
pub fn latest_name(folders: &Vec<String>) -> (latest: Option<String>)
    ensures
        opt_view(latest) == latest_of(views(folders@)),
{
    let ghost names = views(folders@);
    if folders.len() == 0 {
        return None;
    }
    let mut best: usize = 0;
    let mut best_chars: Vec<char> = chars_of(folders[0].as_str());
    let mut i: usize = 1;
    assert(names[0] == folders@[0]@);
    assert(names.subrange(0, 1).drop_last() =~= Seq::<Seq<char>>::empty());
    assert(names.subrange(0, 1).last() == names[0]);
    assert(latest_of(names.subrange(0, 1).drop_last()) is None);
    while i < folders.len()
        invariant
            1 <= i <= folders.len(),
            best < i,
            names == views(folders@),
            best_chars@ == names[best as int],
            latest_of(names.subrange(0, i as int)) == Some(names[best as int]),
        decreases folders.len() - i,
    {
        assert(names[i as int] == folders@[i as int]@);
        let candidate: Vec<char> = chars_of(folders[i].as_str());
        let ghost upto = names.subrange(0, i + 1);
        assert(upto.drop_last() =~= names.subrange(0, i as int));
        assert(upto.last() == names[i as int]);
        if !text_at_most(&candidate, &best_chars) {
            best = i;
            best_chars = candidate;
        }
        i = i + 1;
    }
    assert(names.subrange(0, folders.len() as int) =~= names);
    assert(names[best as int] == folders@[best as int]@);
    Some(folders[best].clone())
}

} // verus!
