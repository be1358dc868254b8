//! Moving one entry from one path to another.
//!
//! The fast path is a rename. Where the rename fails because the two paths
//! lie on different devices, the entry is copied and the source removed: a
//! file in one step, a directory entry by entry from an explicit work list,
//! in the order in which a walk of the tree would meet the entries. Any other
//! failure ends the transfer with the message of the failure.

use crate::fs::effects::{FsReply, FsReplyView, FsRequest, FsRequestView};
use crate::fs::paths::{join, joined};
use crate::text::views;
use vstd::prelude::*;

verus! {

/// Where a transfer stands.
#[derive(Debug, Clone, Copy)]
pub enum TransferPhase {
    /// Waiting on the rename.
    Rename,
    /// Waiting to learn whether the source is a directory.
    ProbeRoot,
    /// Waiting to learn whether the entry on top of the work list is a
    /// directory.
    Probe,
    /// Waiting on the creation of the directory that mirrors the entry on top.
    MakeDir,
    /// Waiting on the names in the directory on top.
    List,
    /// Waiting on the copy of the file on top.
    CopyFile,
    /// Everything is copied; waiting on the removal of the source.
    RemoveSource,
    /// The entry is at its target.
    Succeeded,
    /// The transfer failed; the message tells why.
    Failed,
}

/// A source path and the path it is to arrive at.
#[derive(Debug)]
pub struct PathPair {
    pub from: String,
    pub to: String,
}

/// A pair of paths as contracts see it.
pub struct PathPairView {
    pub from: Seq<char>,
    pub to: Seq<char>,
}

impl View for PathPair {
    type V = PathPairView;

    open spec fn view(&self) -> PathPairView {
        PathPairView { from: self.from@, to: self.to@ }
    }
}

/// The entries of a directory as work to do: each name under the source and
/// under the target, the first name last so that it is taken up first.
pub open spec fn children(dir: PathPairView, names: Seq<Seq<char>>) -> Seq<PathPairView> {
    Seq::new(
        names.len(),
        |k: int|
            PathPairView {
                from: joined(dir.from, names[names.len() - 1 - k]),
                to: joined(dir.to, names[names.len() - 1 - k]),
            },
    )
}

/// The path reached from `base` by going down through the names of `rel`,
/// one after the other.
pub open spec fn under(base: Seq<char>, rel: Seq<Seq<char>>) -> Seq<char>
    decreases rel.len(),
{
    if rel.len() == 0 {
        base
    } else {
        joined(under(base, rel.drop_last()), rel.last())
    }
}

/// The pair stands for one place in the tree: its target lies under `to`
/// where its source lies under `from`.
pub open spec fn is_mirrored(from: Seq<char>, to: Seq<char>, pair: PathPairView) -> bool {
    exists|rel: Seq<Seq<char>>|
        pair.from == #[trigger] under(from, rel) && pair.to == under(to, rel)
}

/// A transfer as contracts see it.
pub struct TransferView {
    pub from: Seq<char>,
    pub to: Seq<char>,
    pub phase: TransferPhase,
    /// What is still to be copied; the last entry is the one in hand.
    pub work: Seq<PathPairView>,
    pub root_is_dir: bool,
    pub error: Seq<char>,
}

impl TransferView {
    /// A transfer that has not asked for anything yet.
    pub open spec fn start(from: Seq<char>, to: Seq<char>) -> TransferView {
        TransferView {
            from,
            to,
            phase: TransferPhase::Rename,
            work: Seq::empty(),
            root_is_dir: false,
            error: Seq::empty(),
        }
    }

    /// Every entry of the work list stands for one place in the tree: it is
    /// copied to where it lies under the target as it lies under the source.
    pub open spec fn mirrors(self) -> bool {
        forall|i: int|
            0 <= i < self.work.len() ==> is_mirrored(self.from, self.to, #[trigger] self.work[i])
    }

    /// While an entry is in hand, the work list holds it; the source is
    /// removed only once nothing is left to copy; and the work list mirrors
    /// the tree of the source under the target.
    pub open spec fn wf(self) -> bool {
        &&& match self.phase {
            TransferPhase::ProbeRoot
            | TransferPhase::Probe
            | TransferPhase::MakeDir
            | TransferPhase::List
            | TransferPhase::CopyFile => self.work.len() > 0,
            TransferPhase::RemoveSource => self.work.len() == 0,
            _ => true,
        }
        &&& self.mirrors()
    }

    /// The transfer has ended, well or badly.
    pub open spec fn finished(self) -> bool {
        self.phase is Succeeded || self.phase is Failed
    }

    /// The request that the transfer is waiting on; none once it has ended.
    pub open spec fn pending(self) -> Option<FsRequestView> {
        match self.phase {
            TransferPhase::Rename => Some(FsRequestView::Rename { from: self.from, to: self.to }),
            TransferPhase::ProbeRoot | TransferPhase::Probe => Some(
                FsRequestView::IsDir { path: self.work.last().from },
            ),
            TransferPhase::MakeDir => Some(
                FsRequestView::CreateDirAll { path: self.work.last().to },
            ),
            TransferPhase::List => Some(FsRequestView::ReadDir { path: self.work.last().from }),
            TransferPhase::CopyFile => Some(
                FsRequestView::CopyFile { from: self.work.last().from, to: self.work.last().to },
            ),
            TransferPhase::RemoveSource => if self.root_is_dir {
                Some(FsRequestView::RemoveDirAll { path: self.from })
            } else {
                Some(FsRequestView::RemoveFile { path: self.from })
            },
            TransferPhase::Succeeded | TransferPhase::Failed => None,
        }
    }

    /// The transfer, failed with the given message.
    pub open spec fn failed_with(self, message: Seq<char>) -> TransferView {
        TransferView { phase: TransferPhase::Failed, error: message, ..self }
    }

    /// The transfer with the given work left: the next entry is probed, or,
    /// where nothing is left, the source is removed.
    pub open spec fn with_work(self, work: Seq<PathPairView>) -> TransferView {
        TransferView {
            phase: if work.len() == 0 {
                TransferPhase::RemoveSource
            } else {
                TransferPhase::Probe
            },
            work,
            ..self
        }
    }

    /// The transfer after the reply to its pending request.
    pub open spec fn advance(self, reply: FsReplyView) -> TransferView {
        match self.phase {
            TransferPhase::Rename => match reply.failure() {
                None => TransferView { phase: TransferPhase::Succeeded, ..self },
                Some(message) => if reply.crosses_devices() {
                    TransferView {
                        phase: TransferPhase::ProbeRoot,
                        work: seq![PathPairView { from: self.from, to: self.to }],
                        ..self
                    }
                } else {
                    self.failed_with(message)
                },
            },
            TransferPhase::ProbeRoot => TransferView {
                phase: if reply.flag() {
                    TransferPhase::MakeDir
                } else {
                    TransferPhase::CopyFile
                },
                root_is_dir: reply.flag(),
                ..self
            },
            TransferPhase::Probe => TransferView {
                phase: if reply.flag() {
                    TransferPhase::MakeDir
                } else {
                    TransferPhase::CopyFile
                },
                ..self
            },
            TransferPhase::MakeDir => match reply.failure() {
                None => TransferView { phase: TransferPhase::List, ..self },
                Some(message) => self.failed_with(message),
            },
            TransferPhase::List => match reply.names() {
                Ok(names) => self.with_work(
                    self.work.drop_last() + children(self.work.last(), names),
                ),
                Err(message) => self.failed_with(message),
            },
            TransferPhase::CopyFile => match reply.failure() {
                None => self.with_work(self.work.drop_last()),
                Some(message) => self.failed_with(message),
            },
            TransferPhase::RemoveSource => match reply.failure() {
                None => TransferView { phase: TransferPhase::Succeeded, ..self },
                Some(message) => self.failed_with(message),
            },
            TransferPhase::Succeeded | TransferPhase::Failed => self,
        }
    }
}

/// A step keeps the transfer well formed and never changes its two paths; a
/// transfer that has ended stays as it is.
pub proof fn lemma_transfer_step(t: TransferView, reply: FsReplyView)
    requires
        t.wf(),
    ensures
        t.advance(reply).wf(),
        t.advance(reply).from == t.from,
        t.advance(reply).to == t.to,
        t.finished() ==> t.advance(reply) == t,
{
    let next = t.advance(reply);
    assert forall|i: int| 0 <= i < next.work.len() implies is_mirrored(
        t.from,
        t.to,
        #[trigger] next.work[i],
    ) by {
        match t.phase {
            TransferPhase::Rename => {
                if reply.failure() is Some && reply.crosses_devices() {
                    let none = Seq::<Seq<char>>::empty();
                    assert(next.work[i].from == under(t.from, none));
                    assert(next.work[i].to == under(t.to, none));
                } else {
                    assert(next.work[i] == t.work[i]);
                }
            },
            TransferPhase::List => {
                if reply.names() is Ok {
                    let names = reply.names()->Ok_0;
                    let rest = t.work.drop_last();
                    if i < rest.len() {
                        assert(next.work[i] == t.work[i]);
                    } else {
                        let dir = t.work.last();
                        assert(dir == t.work[t.work.len() - 1]);
                        let rel = choose|rel: Seq<Seq<char>>|
                            dir.from == #[trigger] under(t.from, rel) && dir.to == under(
                                t.to,
                                rel,
                            );
                        let k = i - rest.len();
                        let name = names[names.len() - 1 - k];
                        assert(next.work[i] == children(dir, names)[k]);
                        let deeper = rel.push(name);
                        assert(deeper.drop_last() =~= rel);
                        assert(next.work[i].from == under(t.from, deeper));
                        assert(next.work[i].to == under(t.to, deeper));
                    }
                } else {
                    assert(next.work[i] == t.work[i]);
                }
            },
            TransferPhase::CopyFile => {
                assert(next.work[i] == t.work[i]);
            },
            _ => {
                assert(next.work[i] == t.work[i]);
            },
        }
    }
}

/// What is copied is copied to its own place: a file is copied, and a
/// directory is made, at the path under the target that mirrors its path
/// under the source. So a tree arrives as the same tree, node by node.
pub proof fn lemma_copies_are_mirrored(t: TransferView)
    requires
        t.wf(),
    ensures
        t.pending() matches Some(FsRequestView::CopyFile { from, to }) ==> is_mirrored(
            t.from,
            t.to,
            PathPairView { from, to },
        ),
        t.pending() matches Some(FsRequestView::CreateDirAll { path }) ==> t.phase is MakeDir
            && path == t.work.last().to && is_mirrored(t.from, t.to, t.work.last()),
        t.pending() matches Some(FsRequestView::ReadDir { path }) ==> path == t.work.last().from
            && is_mirrored(t.from, t.to, t.work.last()),
{
    if t.work.len() > 0 {
        assert(t.work.last() == t.work[t.work.len() - 1]);
    }
}

/// The fallback for a directory: after a rename that fails across devices,
/// a source that is a directory is made anew at the target and read; its
/// entries become the work, each under the target where it lies under the
/// source; and a directory without entries is removed at once, with which
/// the transfer has ended well.
pub proof fn lemma_fallback_copies_directory(
    from: Seq<char>,
    to: Seq<char>,
    message: Seq<char>,
    names: Seq<Seq<char>>,
)
    ensures
        ({
            let renaming = TransferView::start(from, to);
            let probing = renaming.advance(FsReplyView::Failed { cross_device: true, message });
            let making = probing.advance(FsReplyView::Flag(true));
            let listing = making.advance(FsReplyView::Done);
            let copying = listing.advance(FsReplyView::Names(names));
            &&& probing.pending() == Some(FsRequestView::IsDir { path: from })
            &&& making.pending() == Some(FsRequestView::CreateDirAll { path: to })
            &&& listing.pending() == Some(FsRequestView::ReadDir { path: from })
            &&& copying.work == children(PathPairView { from, to }, names)
            &&& forall|k: int|
                0 <= k < names.len() ==> (#[trigger] copying.work[k]).from == joined(
                    from,
                    names[names.len() - 1 - k],
                ) && copying.work[k].to == joined(to, names[names.len() - 1 - k])
            &&& names.len() > 0 ==> copying.pending() == Some(
                FsRequestView::IsDir { path: joined(from, names[0]) },
            )
            &&& names.len() == 0 ==> copying.pending() == Some(
                FsRequestView::RemoveDirAll { path: from },
            ) && copying.advance(FsReplyView::Done).phase is Succeeded
        }),
{
    let renaming = TransferView::start(from, to);
    let probing = renaming.advance(FsReplyView::Failed { cross_device: true, message });
    let only = seq![PathPairView { from, to }];
    assert(probing.work == only);
    assert(only.last() == PathPairView { from, to });
    assert(only.drop_last() =~= Seq::<PathPairView>::empty());
    let making = probing.advance(FsReplyView::Flag(true));
    let listing = making.advance(FsReplyView::Done);
    let copying = listing.advance(FsReplyView::Names(names));
    assert(copying.work =~= children(PathPairView { from, to }, names));
    if names.len() > 0 {
        assert(copying.work.last() == copying.work[names.len() - 1]);
    }
}

/// Nothing is removed before everything is copied: the only requests that
/// remove anything name the source itself, and a transfer asks one of them
/// only when its work list is empty.
pub proof fn lemma_removal_comes_last(t: TransferView)
    requires
        t.wf(),
    ensures
        t.pending() matches Some(FsRequestView::RemoveFile { path }) ==> path == t.from
            && t.work.len() == 0,
        t.pending() matches Some(FsRequestView::RemoveDirAll { path }) ==> path == t.from
            && t.work.len() == 0,
        !(t.pending() matches Some(FsRequestView::RemoveDir { .. })),
{
}

/// Only a rename that fails across devices starts the copy; any other
/// failure of the rename ends the transfer with its message, and a rename
/// that succeeds ends it well.
pub proof fn lemma_rename_decides(from: Seq<char>, to: Seq<char>, reply: FsReplyView)
    ensures
        ({
            let next = TransferView::start(from, to).advance(reply);
            &&& reply is Done ==> next.phase is Succeeded
            &&& reply.crosses_devices() ==> next.phase is ProbeRoot
            &&& !(reply is Done) && !reply.crosses_devices() ==> next.phase is Failed && Some(
                next.error,
            ) == reply.failure()
        }),
{
}

/// The fallback for a file: after a rename that fails across devices, a
/// source that is no directory is copied to the target and then removed, and
/// with that the transfer has ended well.
pub proof fn lemma_fallback_copies_file(from: Seq<char>, to: Seq<char>, message: Seq<char>)
    ensures
        ({
            let renaming = TransferView::start(from, to);
            let probing = renaming.advance(FsReplyView::Failed { cross_device: true, message });
            let copying = probing.advance(FsReplyView::Flag(false));
            let removing = copying.advance(FsReplyView::Done);
            &&& renaming.pending() == Some(FsRequestView::Rename { from, to })
            &&& probing.pending() == Some(FsRequestView::IsDir { path: from })
            &&& copying.pending() == Some(FsRequestView::CopyFile { from, to })
            &&& removing.pending() == Some(FsRequestView::RemoveFile { path: from })
            &&& removing.advance(FsReplyView::Done).phase is Succeeded
        }),
{
    let renaming = TransferView::start(from, to);
    let probing = renaming.advance(FsReplyView::Failed { cross_device: true, message });
    let only = seq![PathPairView { from, to }];
    assert(probing.work == only);
    assert(only.last() == PathPairView { from, to });
    assert(only.drop_last() =~= Seq::<PathPairView>::empty());
}

/// One entry on its way from one path to another.
pub struct Transfer {
    from: String,
    to: String,
    phase: TransferPhase,
    work: Vec<PathPair>,
    root_is_dir: bool,
    error: String,
}

impl View for Transfer {
    type V = TransferView;

    closed spec fn view(&self) -> TransferView {
        TransferView {
            from: self.from@,
            to: self.to@,
            phase: self.phase,
            work: views(self.work@),
            root_is_dir: self.root_is_dir,
            error: self.error@,
        }
    }
}

/// The view of an optional request.
pub open spec fn request_view(o: Option<FsRequest>) -> Option<FsRequestView> {
    match o {
        Some(q) => Some(q@),
        None => None,
    }
}

impl Transfer {
    #[verifier::type_invariant]
    spec fn inv(self) -> bool {
        self@.wf()
    }

    /// A transfer of the entry at `from` to the path `to`.
    pub fn start(from: String, to: String) -> (t: Transfer)
        ensures
            t@ == TransferView::start(from@, to@),
    {
        let t = Transfer {
            from,
            to,
            phase: TransferPhase::Rename,
            work: Vec::new(),
            root_is_dir: false,
            error: String::new(),
        };
        assert(views(t.work@) =~= Seq::<PathPairView>::empty());
        t
    }

    /// Whether the transfer has ended.
    pub fn is_finished(&self) -> (b: bool)
        ensures
            b == self@.finished(),
    {
        match self.phase {
            TransferPhase::Succeeded | TransferPhase::Failed => true,
            _ => false,
        }
    }

    /// Whether the transfer has ended well.
    pub fn succeeded(&self) -> (b: bool)
        ensures
            b == (self@.phase is Succeeded),
    {
        match self.phase {
            TransferPhase::Succeeded => true,
            _ => false,
        }
    }

    /// The message of the failure, where the transfer failed.
    pub fn error(&self) -> (message: &String)
        ensures
            message@ == self@.error,
    {
        &self.error
    }

    /// The request that the transfer is waiting on; none once it has ended.
    pub fn pending(&self) -> (request: Option<FsRequest>)
        ensures
            request_view(request) == self@.pending(),
            self@.wf(),
    {
        proof {
            use_type_invariant(self);
        }
        let n: usize = self.work.len();
        match self.phase {
            TransferPhase::Rename => Some(
                FsRequest::Rename { from: self.from.clone(), to: self.to.clone() },
            ),
            TransferPhase::ProbeRoot | TransferPhase::Probe => {
                assert(views(self.work@).last() == self.work@[n - 1]@);
                Some(FsRequest::IsDir { path: self.work[n - 1].from.clone() })
            },
            TransferPhase::MakeDir => {
                assert(views(self.work@).last() == self.work@[n - 1]@);
                Some(FsRequest::CreateDirAll { path: self.work[n - 1].to.clone() })
            },
            TransferPhase::List => {
                assert(views(self.work@).last() == self.work@[n - 1]@);
                Some(FsRequest::ReadDir { path: self.work[n - 1].from.clone() })
            },
            TransferPhase::CopyFile => {
                assert(views(self.work@).last() == self.work@[n - 1]@);
                Some(
                    FsRequest::CopyFile {
                        from: self.work[n - 1].from.clone(),
                        to: self.work[n - 1].to.clone(),
                    },
                )
            },
            TransferPhase::RemoveSource => {
                if self.root_is_dir {
                    Some(FsRequest::RemoveDirAll { path: self.from.clone() })
                } else {
                    Some(FsRequest::RemoveFile { path: self.from.clone() })
                }
            },
            TransferPhase::Succeeded | TransferPhase::Failed => None,
        }
    }

    /// The transfer after the reply to its pending request.
    pub fn advance(self, reply: FsReply) -> (next: Transfer)
        ensures
            next@ == self@.advance(reply@),
            next@.wf(),
    {
        proof {
            use_type_invariant(&self);
            lemma_transfer_step(self@, reply@);
        }
        let Transfer { from, to, phase, work, root_is_dir, error } = self;
        match phase {
            TransferPhase::Rename => {
                let crosses: bool = reply.crosses_devices();
                match reply.failure() {
                    None => Transfer {
                        from,
                        to,
                        phase: TransferPhase::Succeeded,
                        work,
                        root_is_dir,
                        error,
                    },
                    Some(message) => {
                        if crosses {
                            let mut work: Vec<PathPair> = Vec::new();
                            work.push(PathPair { from: from.clone(), to: to.clone() });
                            assert(views(work@) =~= seq![PathPairView { from: from@, to: to@ }]);
                            Transfer {
                                from,
                                to,
                                phase: TransferPhase::ProbeRoot,
                                work,
                                root_is_dir,
                                error,
                            }
                        } else {
                            Transfer {
                                from,
                                to,
                                phase: TransferPhase::Failed,
                                work,
                                root_is_dir,
                                error: message,
                            }
                        }
                    },
                }
            },
            TransferPhase::ProbeRoot => {
                let is_dir: bool = reply.flag();
                Transfer {
                    from,
                    to,
                    phase: if is_dir {
                        TransferPhase::MakeDir
                    } else {
                        TransferPhase::CopyFile
                    },
                    work,
                    root_is_dir: is_dir,
                    error,
                }
            },
            TransferPhase::Probe => {
                let is_dir: bool = reply.flag();
                Transfer {
                    from,
                    to,
                    phase: if is_dir {
                        TransferPhase::MakeDir
                    } else {
                        TransferPhase::CopyFile
                    },
                    work,
                    root_is_dir,
                    error,
                }
            },
            TransferPhase::MakeDir => match reply.failure() {
                None => Transfer { from, to, phase: TransferPhase::List, work, root_is_dir, error },
                Some(message) => Transfer {
                    from,
                    to,
                    phase: TransferPhase::Failed,
                    work,
                    root_is_dir,
                    error: message,
                },
            },
            TransferPhase::List => match reply.names() {
                Ok(names) => {
                    let mut work: Vec<PathPair> = work;
                    let ghost before = views(work@);
                    let dir: PathPair = match work.pop() {
                        Some(d) => d,
                        None => PathPair { from: String::new(), to: String::new() },
                    };
                    assert(dir@ == before.last());
                    assert(views(work@) =~= before.drop_last());
                    let ghost kids = children(dir@, views(names@));
                    let n: usize = names.len();
                    let mut k: usize = 0;
                    while k < n
                        invariant
                            k <= n == names.len(),
                            kids == children(dir@, views(names@)),
                            views(work@) == before.drop_last() + kids.subrange(0, k as int),
                        decreases n - k,
                    {
                        let ghost so_far = views(work@);
                        assert(views(names@)[n - 1 - k] == names@[n - 1 - k]@);
                        let child = PathPair {
                            from: join(dir.from.as_str(), names[n - 1 - k].as_str()),
                            to: join(dir.to.as_str(), names[n - 1 - k].as_str()),
                        };
                        assert(child@ == kids[k as int]);
                        work.push(child);
                        assert(views(work@) =~= so_far.push(kids[k as int]));
                        assert(kids.subrange(0, k + 1) =~= kids.subrange(0, k as int).push(
                            kids[k as int],
                        ));
                        k = k + 1;
                    }
                    assert(kids.subrange(0, n as int) =~= kids);
                    let phase = if work.len() == 0 {
                        TransferPhase::RemoveSource
                    } else {
                        TransferPhase::Probe
                    };
                    Transfer { from, to, phase, work, root_is_dir, error }
                },
                Err(message) => Transfer {
                    from,
                    to,
                    phase: TransferPhase::Failed,
                    work,
                    root_is_dir,
                    error: message,
                },
            },
            TransferPhase::CopyFile => match reply.failure() {
                None => {
                    let mut work: Vec<PathPair> = work;
                    let ghost before = views(work@);
                    let _ = work.pop();
                    assert(views(work@) =~= before.drop_last());
                    let phase = if work.len() == 0 {
                        TransferPhase::RemoveSource
                    } else {
                        TransferPhase::Probe
                    };
                    Transfer { from, to, phase, work, root_is_dir, error }
                },
                Some(message) => Transfer {
                    from,
                    to,
                    phase: TransferPhase::Failed,
                    work,
                    root_is_dir,
                    error: message,
                },
            },
            TransferPhase::RemoveSource => match reply.failure() {
                None => Transfer {
                    from,
                    to,
                    phase: TransferPhase::Succeeded,
                    work,
                    root_is_dir,
                    error,
                },
                Some(message) => Transfer {
                    from,
                    to,
                    phase: TransferPhase::Failed,
                    work,
                    root_is_dir,
                    error: message,
                },
            },
            TransferPhase::Succeeded => Transfer {
                from,
                to,
                phase: TransferPhase::Succeeded,
                work,
                root_is_dir,
                error,
            },
            TransferPhase::Failed => Transfer {
                from,
                to,
                phase: TransferPhase::Failed,
                work,
                root_is_dir,
                error,
            },
        }
    }
}

} // verus!
