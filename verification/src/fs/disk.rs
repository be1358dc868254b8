//! What the requests of a move mean.
//!
//! The engine decides what to ask; what happens on the disk is up to who
//! carries the requests out. This module writes down the meaning that the
//! requests of a move are given: a disk is a map from paths to nodes, and
//! `respond` says how one request changes it and what it answers. Against
//! that meaning the moves can be followed to their end: a move across devices
//! leaves the file at its target with the bytes it had, and a move followed
//! by the move back leaves the disk as it was.
//!
//! Only the requests that a move of a file or the rename of an entry makes are
//! given a meaning here: the questions `Exists` and `IsDir`, and `Rename`,
//! `CopyFile` and `RemoveFile`. Any other request is answered as failed and
//! changes nothing.

use crate::fs::effects::{FsReplyView, FsRequestView};
use crate::fs::operations::{moved_item, MoveBatchView};
use crate::fs::paths::{
    file_name_of, is_tidy, joined, lemma_file_name_of_joined, lemma_file_name_plain,
    lemma_parent_of_joined, lemma_tidy_path_rebuilds, parent_of,
};
use crate::fs::transfer::{PathPairView, TransferView};
use vstd::prelude::*;

verus! {

/// What stands at a path: a file with its bytes, or a directory.
pub enum Node {
    File(Seq<u8>),
    Dir,
}

/// A disk: the nodes by their paths, and whether a rename can be made in one
/// step or fails because source and target lie on different devices.
pub struct Disk {
    pub nodes: Map<Seq<char>, Node>,
    pub one_device: bool,
}

/// The path is `base` itself or lies below it.
pub open spec fn at_or_under(path: Seq<char>, base: Seq<char>) -> bool {
    path == base || (base + seq!['/']).is_prefix_of(path)
}

/// The path that lies under `to` as `path` lies under `from`.
pub open spec fn rebased(path: Seq<char>, from: Seq<char>, to: Seq<char>) -> Seq<char> {
    to + path.subrange(from.len() as int, path.len() as int)
}

/// Nothing stands at the path or below it.
pub open spec fn is_free(nodes: Map<Seq<char>, Node>, path: Seq<char>) -> bool {
    forall|k: Seq<char>| !(#[trigger] nodes.contains_key(k) && at_or_under(k, path))
}

/// The directory above the path is there, or the path has none to speak of.
pub open spec fn has_room_above(nodes: Map<Seq<char>, Node>, path: Seq<char>) -> bool {
    parent_of(path) matches Some(dir) ==> dir.len() == 0 || (nodes.contains_key(dir)
        && nodes[dir] is Dir)
}

/// The nodes once the entry at `from`, with all that lies below it, stands at
/// `to`.
pub open spec fn renamed(
    nodes: Map<Seq<char>, Node>,
    from: Seq<char>,
    to: Seq<char>,
) -> Map<Seq<char>, Node> {
    Map::new(
        |k: Seq<char>|
            (nodes.contains_key(k) && !at_or_under(k, from)) || (at_or_under(k, to)
                && nodes.contains_key(rebased(k, to, from))),
        |k: Seq<char>|
            if at_or_under(k, to) && nodes.contains_key(rebased(k, to, from)) {
                nodes[rebased(k, to, from)]
            } else {
                nodes[k]
            },
    )
}

/// The answer to a request that cannot be carried out.
pub open spec fn refused() -> FsReplyView {
    FsReplyView::Failed { cross_device: false, message: "refused"@ }
}

/// The answer to a rename across devices.
pub open spec fn other_device() -> FsReplyView {
    FsReplyView::Failed { cross_device: true, message: "other device"@ }
}

/// The disk after one request, and the reply to it.
/// A rename needs one device, an entry at the source, nothing at the target
/// and a directory above the target; it moves the entry with all below it.
/// A copy needs a file at the source and a directory above the target; it
/// leaves the same bytes at the target.
/// A removal of a file needs a file at the path.
pub open spec fn respond(disk: Disk, request: FsRequestView) -> (Disk, FsReplyView) {
    match request {
        FsRequestView::Exists { path } => (disk, FsReplyView::Flag(disk.nodes.contains_key(path))),
        FsRequestView::IsDir { path } => (
            disk,
            FsReplyView::Flag(disk.nodes.contains_key(path) && disk.nodes[path] is Dir),
        ),
        FsRequestView::Rename { from, to } => if !disk.one_device {
            (disk, other_device())
        } else if disk.nodes.contains_key(from) && !disk.nodes.contains_key(to)
            && has_room_above(disk.nodes, to) {
            (Disk { nodes: renamed(disk.nodes, from, to), ..disk }, FsReplyView::Done)
        } else {
            (disk, refused())
        },
        FsRequestView::CopyFile { from, to } => if disk.nodes.contains_key(from)
            && disk.nodes[from] is File && has_room_above(disk.nodes, to) {
            (Disk { nodes: disk.nodes.insert(to, disk.nodes[from]), ..disk }, FsReplyView::Done)
        } else {
            (disk, refused())
        },
        FsRequestView::RemoveFile { path } => if disk.nodes.contains_key(path)
            && disk.nodes[path] is File {
            (Disk { nodes: disk.nodes.remove(path), ..disk }, FsReplyView::Done)
        } else {
            (disk, refused())
        },
        _ => (disk, refused()),
    }
}

/// A batch of moves and the disk after up to `steps` requests, each carried
/// out as `respond` says.
pub open spec fn carried_out(m: MoveBatchView, disk: Disk, steps: nat) -> (MoveBatchView, Disk)
    decreases steps,
{
    if steps == 0 || m.pending() is None {
        (m, disk)
    } else {
        let (next_disk, reply) = respond(disk, m.pending()->0);
        carried_out(m.advance(reply), next_disk, (steps - 1) as nat)
    }
}

/// What lies at or under a path lies at or under its new place once rebased,
/// and rebasing back gives the path again.
pub proof fn lemma_rebased_back(path: Seq<char>, from: Seq<char>, to: Seq<char>)
    requires
        at_or_under(path, from),
    ensures
        at_or_under(rebased(path, from, to), to),
        rebased(rebased(path, from, to), to, from) == path,
{
    let there = rebased(path, from, to);
    let tail = path.subrange(from.len() as int, path.len() as int);
    if path == from {
        assert(tail =~= Seq::<char>::empty());
        assert(there =~= to);
        assert(rebased(there, to, from) =~= path);
    } else {
        let lead = from + seq!['/'];
        assert(path.subrange(0, lead.len() as int) == lead);
        assert(path.subrange(0, lead.len() as int)[from.len() as int] == '/');
        assert(path[from.len() as int] == '/');
        assert forall|i: int| 0 <= i < from.len() implies path[i] == from[i] by {
            assert(path.subrange(0, lead.len() as int)[i] == lead[i]);
        }
        assert(there.subrange(0, (to.len() + 1) as int) =~= to + seq!['/']);
        assert(there.subrange(to.len() as int, there.len() as int) =~= tail);
        assert(rebased(there, to, from) =~= path);
    }
}

/// What a rename and the rename back leave at one path.
proof fn lemma_renamed_back_at(
    nodes: Map<Seq<char>, Node>,
    from: Seq<char>,
    to: Seq<char>,
    k: Seq<char>,
)
    requires
        is_free(nodes, to),
    ensures
        renamed(renamed(nodes, from, to), to, from).contains_key(k) == nodes.contains_key(k),
        nodes.contains_key(k) ==> renamed(renamed(nodes, from, to), to, from)[k] == nodes[k],
{
    let there = renamed(nodes, from, to);
    if at_or_under(k, from) {
        lemma_rebased_back(k, from, to);
        let k2 = rebased(k, from, to);
        assert(!(nodes.contains_key(k2) && at_or_under(k2, to)));
        assert(there.contains_key(k2) == nodes.contains_key(k));
        if nodes.contains_key(k) {
            assert(there[k2] == nodes[k]);
        }
        if at_or_under(k, to) {
            assert(!(nodes.contains_key(k) && at_or_under(k, to)));
        }
    } else {
        if at_or_under(k, to) {
            assert(!(nodes.contains_key(k) && at_or_under(k, to)));
        } else {
            assert(there.contains_key(k) == nodes.contains_key(k));
        }
    }
}

/// A rename and the rename back leave the nodes as they were: once an entry
/// was moved to a place where nothing stood, at it or below it, moving it
/// back restores every path and every node, the bytes of every file among
/// them.
pub proof fn lemma_renamed_back(nodes: Map<Seq<char>, Node>, from: Seq<char>, to: Seq<char>)
    requires
        is_free(nodes, to),
    ensures
        renamed(renamed(nodes, from, to), to, from) == nodes,
{
    let there = renamed(nodes, from, to);
    let back = renamed(there, to, from);
    assert forall|k: Seq<char>|
        #![trigger back.dom().contains(k)]
        #![trigger nodes.dom().contains(k)]
        (back.dom().contains(k) <==> nodes.dom().contains(k)) && (nodes.dom().contains(k)
            ==> back[k] == nodes[k]) by {
        lemma_renamed_back_at(nodes, from, to, k);
    }
    assert(back =~= nodes);
}

/// A move across devices leaves the file at its target with the bytes it
/// had, and the source is gone. For a file at `source`, a directory
/// `dest_dir` in tidy form that holds nothing of the file's name, and a disk
/// on which no rename can be made in one step: the batch that moves `source`
/// into `dest_dir` asks whether the target is taken, tries the rename, learns
/// that the source is no directory, copies it and removes it; then the batch
/// has ended with one item moved and none failed, the target holds the bytes
/// that the source held, nothing stands at the source, and every other path
/// is as it was.
pub proof fn lemma_move_across_devices_keeps_the_bytes(
    disk: Disk,
    batch_id: Seq<char>,
    source: Seq<char>,
    dest_dir: Seq<char>,
)
    requires
        !disk.one_device,
        file_name_of(source) is Some,
        disk.nodes.contains_key(source),
        disk.nodes[source] is File,
        is_tidy(dest_dir),
        dest_dir.len() == 0 || (disk.nodes.contains_key(dest_dir) && disk.nodes[dest_dir] is Dir),
        !disk.nodes.contains_key(joined(dest_dir, file_name_of(source)->0)),
    ensures
        ({
            let target = joined(dest_dir, file_name_of(source)->0);
            let (m, after) = carried_out(
                MoveBatchView::start(batch_id, seq![source], dest_dir),
                disk,
                5,
            );
            &&& m.finished()
            &&& m.outcome().success
            &&& m.outcome().processed == 1
            &&& m.outcome().failed == 0
            &&& m.outcome().results == seq![moved_item(source)]
            &&& after.nodes == disk.nodes.insert(target, disk.nodes[source]).remove(source)
            &&& source != target ==> after.nodes.contains_key(target) && after.nodes[target]
                == disk.nodes[source] && !after.nodes.contains_key(source)
        }),
{
    let name = file_name_of(source)->0;
    let target = joined(dest_dir, name);
    lemma_file_name_plain(source);
    lemma_parent_of_joined(dest_dir, name);
    let m0 = MoveBatchView::start(batch_id, seq![source], dest_dir);
    assert(m0.targets[0] == target);
    assert(m0.pending() == Some(FsRequestView::Exists { path: target }));
    let (d1, r1) = respond(disk, m0.pending()->0);
    let m1 = m0.advance(r1);
    assert(m1.moving == Some(TransferView::start(source, target)));
    assert(m1.pending() == Some(FsRequestView::Rename { from: source, to: target }));
    let (d2, r2) = respond(d1, m1.pending()->0);
    let m2 = m1.advance(r2);
    let only = seq![PathPairView { from: source, to: target }];
    assert(m2.moving->0.work == only);
    assert(only.last() == PathPairView { from: source, to: target });
    assert(only.drop_last() =~= Seq::<PathPairView>::empty());
    assert(m2.pending() == Some(FsRequestView::IsDir { path: source }));
    let (d3, r3) = respond(d2, m2.pending()->0);
    let m3 = m2.advance(r3);
    assert(m3.pending() == Some(FsRequestView::CopyFile { from: source, to: target }));
    let (d4, r4) = respond(d3, m3.pending()->0);
    assert(r4 is Done);
    let m4 = m3.advance(r4);
    assert(m4.pending() == Some(FsRequestView::RemoveFile { path: source }));
    let (d5, r5) = respond(d4, m4.pending()->0);
    let m5 = m4.advance(r5);
    if source != target {
        assert(r5 is Done);
    } else {
        assert(d4.nodes.contains_key(source) && d4.nodes[source] is File);
    }
    assert(m5.results =~= seq![moved_item(source)]);
    assert(m5.finished());
    reveal_with_fuel(carried_out, 6);
    assert(carried_out(m0, disk, 5) == (m5, d5));
}

/// A move and the move back leave the disk as it was. For an entry at the
/// tidy path `source`, a file or a directory with all below it, and a
/// directory `dest_dir` in tidy form under which nothing stands at the
/// entry's name or below it: the batch that moves `source` into `dest_dir`
/// moves it, the batch that then moves what arrived back into the parent of
/// `source` moves it too, and after both every path holds the node that it
/// held before, every file the bytes that it had.
pub proof fn lemma_move_there_and_back_restores_the_disk(
    disk: Disk,
    first_id: Seq<char>,
    second_id: Seq<char>,
    source: Seq<char>,
    dest_dir: Seq<char>,
)
    requires
        disk.one_device,
        is_tidy(source),
        file_name_of(source) is Some,
        disk.nodes.contains_key(source),
        is_tidy(dest_dir),
        dest_dir.len() == 0 || (disk.nodes.contains_key(dest_dir) && disk.nodes[dest_dir] is Dir),
        is_free(disk.nodes, joined(dest_dir, file_name_of(source)->0)),
        has_room_above(disk.nodes, source),
        parent_of(source) matches Some(dir) ==> !at_or_under(
            dir,
            joined(dest_dir, file_name_of(source)->0),
        ),
    ensures
        ({
            let arrived = joined(dest_dir, file_name_of(source)->0);
            let (there, moved_disk) = carried_out(
                MoveBatchView::start(first_id, seq![source], dest_dir),
                disk,
                2,
            );
            let (back, restored) = carried_out(
                MoveBatchView::start(second_id, seq![arrived], parent_of(source)->0),
                moved_disk,
                2,
            );
            &&& there.finished() && there.outcome().processed == 1 && there.outcome().failed == 0
            &&& moved_disk.nodes.contains_key(arrived)
            &&& moved_disk.nodes[arrived] == disk.nodes[source]
            &&& !moved_disk.nodes.contains_key(source)
            &&& back.finished() && back.outcome().processed == 1 && back.outcome().failed == 0
            &&& restored.nodes == disk.nodes
        }),
{
    let name = file_name_of(source)->0;
    let arrived = joined(dest_dir, name);
    lemma_file_name_plain(source);
    lemma_tidy_path_rebuilds(source);
    lemma_file_name_of_joined(dest_dir, name);
    lemma_parent_of_joined(dest_dir, name);
    let home = parent_of(source)->0;
    assert(!disk.nodes.contains_key(arrived)) by {
        assert(!(disk.nodes.contains_key(arrived) && at_or_under(arrived, arrived)));
    }
    assert(!at_or_under(source, arrived)) by {
        assert(!(disk.nodes.contains_key(source) && at_or_under(source, arrived)));
    }
    lemma_rename_moves_one(disk, first_id, source, dest_dir);
    let moved_nodes = renamed(disk.nodes, source, arrived);
    let moved_disk = Disk { nodes: moved_nodes, ..disk };
    lemma_rebased_back(arrived, arrived, source);
    assert(rebased(arrived, arrived, source) =~= source);
    assert(moved_nodes.contains_key(arrived));
    assert(moved_nodes[arrived] == disk.nodes[source]);
    assert(!moved_nodes.contains_key(source));
    assert(has_room_above(moved_nodes, source)) by {
        if home.len() > 0 {
            crate::fs::paths::lemma_plain_name_counts(name);
            lemma_shorter_is_not_under(home, source, name);
            assert(moved_nodes.contains_key(home));
            assert(moved_nodes[home] == disk.nodes[home]);
        }
    }
    lemma_rename_moves_one(moved_disk, second_id, arrived, home);
    lemma_renamed_back(disk.nodes, source, arrived);
}

/// One entry moved on one device: where the source is there, nothing stands
/// at the target and the directory above the target is there, the batch asks
/// whether the target is taken, makes the rename, and has ended with the one
/// item moved; the entry, with all below it, stands at the target.
pub proof fn lemma_rename_moves_one(
    disk: Disk,
    batch_id: Seq<char>,
    source: Seq<char>,
    dest_dir: Seq<char>,
)
    requires
        disk.one_device,
        file_name_of(source) is Some,
        disk.nodes.contains_key(source),
        !disk.nodes.contains_key(joined(dest_dir, file_name_of(source)->0)),
        has_room_above(disk.nodes, joined(dest_dir, file_name_of(source)->0)),
    ensures
        ({
            let target = joined(dest_dir, file_name_of(source)->0);
            let (m, after) = carried_out(
                MoveBatchView::start(batch_id, seq![source], dest_dir),
                disk,
                2,
            );
            &&& m.finished()
            &&& m.outcome().success
            &&& m.outcome().processed == 1
            &&& m.outcome().failed == 0
            &&& m.outcome().results == seq![moved_item(source)]
            &&& after == Disk { nodes: renamed(disk.nodes, source, target), ..disk }
        }),
{
    let target = joined(dest_dir, file_name_of(source)->0);
    let m0 = MoveBatchView::start(batch_id, seq![source], dest_dir);
    assert(m0.targets[0] == target);
    assert(m0.pending() == Some(FsRequestView::Exists { path: target }));
    let (d1, r1) = respond(disk, m0.pending()->0);
    let m1 = m0.advance(r1);
    assert(m1.moving == Some(TransferView::start(source, target)));
    assert(m1.pending() == Some(FsRequestView::Rename { from: source, to: target }));
    let (d2, r2) = respond(d1, m1.pending()->0);
    assert(r2 is Done);
    let m2 = m1.advance(r2);
    assert(m2.results =~= seq![moved_item(source)]);
    assert(m2.finished());
    reveal_with_fuel(carried_out, 3);
    assert(carried_out(m0, disk, 2) == (m2, d2));
}

/// A directory does not lie at or under an entry of its own.
pub proof fn lemma_shorter_is_not_under(dir: Seq<char>, entry: Seq<char>, name: Seq<char>)
    requires
        joined(dir, name) == entry,
        name.len() > 0,
        name[0] != '/',
    ensures
        !at_or_under(dir, entry),
{
    assert(entry.len() > dir.len());
    if at_or_under(dir, entry) {
        let lead = entry + seq!['/'];
        if dir != entry {
            assert(lead.len() <= dir.len());
        }
    }
}

} // verus!
