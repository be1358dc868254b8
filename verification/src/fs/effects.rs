//! What the engine asks of the filesystem, and what comes back.
//!
//! The engine never touches the disk. An operation that needs the filesystem
//! is a machine: it names the request it is waiting on, the caller carries
//! the request out and hands the reply back, and the machine moves on. The
//! two types here are the vocabulary of that exchange.

use crate::text::views;
use vstd::prelude::*;

verus! {

/// One request to the filesystem.
#[derive(Debug)]
pub enum FsRequest {
    /// Is there anything at the path? Answered by `Flag`.
    Exists { path: String },
    /// Is the path a directory? Answered by `Flag`.
    IsDir { path: String },
    /// The names of the entries of a directory. Answered by `Names`.
    ReadDir { path: String },
    /// The names of the entries of a directory that are directories
    /// themselves. Answered by `Names`.
    ListDirs { path: String },
    /// Rename `from` to `to` in one step.
    Rename { from: String, to: String },
    /// Copy the contents of the file `from` to `to`.
    CopyFile { from: String, to: String },
    /// Create one directory; its parent has to exist.
    CreateDir { path: String },
    /// Create a directory and every missing directory above it.
    CreateDirAll { path: String },
    /// Remove a file.
    RemoveFile { path: String },
    /// Remove an empty directory.
    RemoveDir { path: String },
    /// Remove a directory with all that is in it.
    RemoveDirAll { path: String },
    /// Write a file with the given contents.
    WriteFile { path: String, contents: String },
}

/// A request as contracts see it.
pub enum FsRequestView {
    Exists { path: Seq<char> },
    IsDir { path: Seq<char> },
    ReadDir { path: Seq<char> },
    ListDirs { path: Seq<char> },
    Rename { from: Seq<char>, to: Seq<char> },
    CopyFile { from: Seq<char>, to: Seq<char> },
    CreateDir { path: Seq<char> },
    CreateDirAll { path: Seq<char> },
    RemoveFile { path: Seq<char> },
    RemoveDir { path: Seq<char> },
    RemoveDirAll { path: Seq<char> },
    WriteFile { path: Seq<char>, contents: Seq<char> },
}

impl View for FsRequest {
    type V = FsRequestView;

    open spec fn view(&self) -> FsRequestView {
        match self {
            FsRequest::Exists { path } => FsRequestView::Exists { path: path@ },
            FsRequest::IsDir { path } => FsRequestView::IsDir { path: path@ },
            FsRequest::ReadDir { path } => FsRequestView::ReadDir { path: path@ },
            FsRequest::ListDirs { path } => FsRequestView::ListDirs { path: path@ },
            FsRequest::Rename { from, to } => FsRequestView::Rename { from: from@, to: to@ },
            FsRequest::CopyFile { from, to } => FsRequestView::CopyFile { from: from@, to: to@ },
            FsRequest::CreateDir { path } => FsRequestView::CreateDir { path: path@ },
            FsRequest::CreateDirAll { path } => FsRequestView::CreateDirAll { path: path@ },
            FsRequest::RemoveFile { path } => FsRequestView::RemoveFile { path: path@ },
            FsRequest::RemoveDir { path } => FsRequestView::RemoveDir { path: path@ },
            FsRequest::RemoveDirAll { path } => FsRequestView::RemoveDirAll { path: path@ },
            FsRequest::WriteFile { path, contents } => FsRequestView::WriteFile {
                path: path@,
                contents: contents@,
            },
        }
    }
}

impl FsRequestView {
    /// Whether carrying the request out can change the tree.
    pub open spec fn mutates(self) -> bool {
        !(self is Exists || self is IsDir || self is ReadDir || self is ListDirs)
    }
}

/// The reply to one request.
#[derive(Debug)]
pub enum FsReply {
    /// The answer to a yes-or-no question.
    Flag(bool),
    /// The change was made.
    Done,
    /// The names that were asked for.
    Names(Vec<String>),
    /// The request failed. `cross_device` says that a rename failed because
    /// the two paths lie on different devices.
    Failed { cross_device: bool, message: String },
    /// The change was not made because something stands at the path already.
    Taken { message: String },
}

/// A reply as contracts see it.
pub enum FsReplyView {
    Flag(bool),
    Done,
    Names(Seq<Seq<char>>),
    Failed { cross_device: bool, message: Seq<char> },
    Taken { message: Seq<char> },
}

impl View for FsReply {
    type V = FsReplyView;

    open spec fn view(&self) -> FsReplyView {
        match self {
            FsReply::Flag(b) => FsReplyView::Flag(*b),
            FsReply::Done => FsReplyView::Done,
            FsReply::Names(names) => FsReplyView::Names(views(names@)),
            FsReply::Failed { cross_device, message } => FsReplyView::Failed {
                cross_device: *cross_device,
                message: message@,
            },
            FsReply::Taken { message } => FsReplyView::Taken { message: message@ },
        }
    }
}

impl FsReplyView {
    /// The reply read as the answer to a yes-or-no question. Anything but a
    /// plain yes counts as no.
    pub open spec fn flag(self) -> bool {
        self == FsReplyView::Flag(true)
    }

    /// The reply read as the outcome of a change: nothing where it was made,
    /// else the message of the failure. A reply of another shape counts as a
    /// failure.
    pub open spec fn failure(self) -> Option<Seq<char>> {
        match self {
            FsReplyView::Done => None,
            FsReplyView::Failed { message, .. } => Some(message),
            FsReplyView::Taken { message } => Some(message),
            _ => Some("unexpected reply"@),
        }
    }

    /// Whether the reply reports a rename that failed across devices.
    pub open spec fn crosses_devices(self) -> bool {
        self matches FsReplyView::Failed { cross_device, .. } && cross_device
    }

    /// Whether the reply reports that something stands at the path already.
    pub open spec fn is_taken(self) -> bool {
        self is Taken
    }

    /// The reply read as a list of names, or the message of the failure.
    pub open spec fn names(self) -> Result<Seq<Seq<char>>, Seq<char>> {
        match self {
            FsReplyView::Names(names) => Ok(names),
            FsReplyView::Failed { message, .. } => Err(message),
            FsReplyView::Taken { message } => Err(message),
            _ => Err("unexpected reply"@),
        }
    }
}

impl FsReply {
    /// The reply read as the answer to a yes-or-no question.
    pub fn flag(&self) -> (b: bool)
        ensures
            b == self@.flag(),
    {
        match self {
            FsReply::Flag(b) => *b,
            _ => false,
        }
    }

    /// Whether the reply reports a rename that failed across devices.
    pub fn crosses_devices(&self) -> (b: bool)
        ensures
            b == self@.crosses_devices(),
    {
        match self {
            FsReply::Failed { cross_device, .. } => *cross_device,
            _ => false,
        }
    }

    /// Whether the reply reports that something stands at the path already.
    pub fn is_taken(&self) -> (b: bool)
        ensures
            b == self@.is_taken(),
    {
        match self {
            FsReply::Taken { .. } => true,
            _ => false,
        }
    }

    /// The reply read as the outcome of a change.
    pub fn failure(self) -> (f: Option<String>)
        ensures
            crate::text::opt_view(f) == self@.failure(),
    {
        match self {
            FsReply::Done => None,
            FsReply::Failed { message, .. } => Some(message),
            FsReply::Taken { message } => Some(message),
            _ => Some("unexpected reply".to_owned()),
        }
    }

    /// The reply read as a list of names.
    pub fn names(self) -> (r: Result<Vec<String>, String>)
        ensures
            match r {
                Ok(names) => self@.names() == Ok::<Seq<Seq<char>>, Seq<char>>(views(names@)),
                Err(message) => self@.names() == Err::<Seq<Seq<char>>, Seq<char>>(message@),
            },
    {
        match self {
            FsReply::Names(names) => Ok(names),
            FsReply::Failed { message, .. } => Err(message),
            FsReply::Taken { message } => Err(message),
            _ => Err("unexpected reply".to_owned()),
        }
    }
}

} // verus!
