//! What an upload asks of its surroundings, and what it is told in reply.
use vstd::prelude::*;

use crate::git::command::{CommandOutput, OutputView};
use crate::models::{AppResult, Failure, outcome};

verus! {

// ---------------------------------------------------------------------------------------------
// Requests
// ---------------------------------------------------------------------------------------------
/// Where a Git command is run: in the folder of the local repository, or in the folder above it.
#[derive(Clone, Copy, Debug, PartialEq, Eq, Structural)]
pub enum Place {
    Parent,
    Repository,
}

/// A request of an upload.
#[derive(Debug)]
pub enum Request {
    /// Create the folder above the local repository, and every folder above that one.
    CreateParent,
    /// Say whether the local repository's folder holds a `.git`.
    ProbeGitDirectory,
    /// Say whether the local repository's folder exists.
    ProbeDirectory,
    /// Begin to list the local repository's folder.
    OpenDirectory,
    /// Give the name of the next entry of the listing.
    NextEntry,
    /// Run Git with these arguments.
    Git { place: Place, arguments: Vec<String> },
    /// Follow this path to the file that it leads to.
    Resolve { path: String },
    /// Say whether the local repository's folder holds an entry of this name.
    ProbeDestination { name: String },
    /// Copy the file that a path was followed to, whose own path has these bytes, into the local
    /// repository's folder, under this name.
    Copy { source: Vec<u8>, name: String },
    /// Delete the file of this name from the local repository's folder.
    Remove { name: String },
}

/// The model of a [`Request`].
#[verifier::ext_equal]
pub enum RequestView {
    CreateParent,
    ProbeGitDirectory,
    ProbeDirectory,
    OpenDirectory,
    NextEntry,
    Git { place: Place, arguments: Seq<Seq<char>> },
    Resolve { path: Seq<char> },
    ProbeDestination { name: Seq<char> },
    Copy { source: Seq<u8>, name: Seq<char> },
    Remove { name: Seq<char> },
}

impl View for Request {
    type V = RequestView;

    open spec fn view(&self) -> RequestView {
        match self {
            Request::CreateParent => RequestView::CreateParent,
            Request::ProbeGitDirectory => RequestView::ProbeGitDirectory,
            Request::ProbeDirectory => RequestView::ProbeDirectory,
            Request::OpenDirectory => RequestView::OpenDirectory,
            Request::NextEntry => RequestView::NextEntry,
            Request::Git { place, arguments } => RequestView::Git {
                place: *place,
                arguments: arguments.deep_view(),
            },
            Request::Resolve { path } => RequestView::Resolve { path: path@ },
            Request::ProbeDestination { name } => RequestView::ProbeDestination { name: name@ },
            Request::Copy { source, name } => RequestView::Copy { source: source@, name: name@ },
            Request::Remove { name } => RequestView::Remove { name: name@ },
        }
    }
}

/// A Git command that is run in the local repository.
pub open spec fn in_repository(arguments: Seq<Seq<char>>) -> RequestView {
    RequestView::Git { place: Place::Repository, arguments }
}

// ---------------------------------------------------------------------------------------------
// Replies
// ---------------------------------------------------------------------------------------------
/// The file that a path leads to.
#[derive(Debug)]
pub struct Source {
    /// The bytes of the file's own path, which has no links in it.
    pub canonical: Vec<u8>,
    /// It is a regular file.
    pub is_file: bool,
    /// The last component of its path, if that is text.
    pub file_name: Option<String>,
}

/// The model of a [`Source`].
#[verifier::ext_equal]
pub struct SourceView {
    pub canonical: Seq<u8>,
    pub is_file: bool,
    pub file_name: Option<Seq<char>>,
}

impl View for Source {
    type V = SourceView;

    open spec fn view(&self) -> SourceView {
        SourceView {
            canonical: self.canonical@,
            is_file: self.is_file,
            file_name: match self.file_name {
                Some(name) => Some(name@),
                None => None,
            },
        }
    }
}

/// A reply to a [`Request`]. One that is not of the kind that the pending request asks for has no
/// effect.
#[derive(Debug)]
pub enum Reply {
    /// To `CreateParent`, `OpenDirectory`, `Copy` and `Remove`.
    Done(AppResult<()>),
    /// To `ProbeGitDirectory`, `ProbeDirectory` and `ProbeDestination`.
    Exists(bool),
    /// To `NextEntry`: the name, or nothing at the end of the listing.
    Entry(AppResult<Option<String>>),
    /// To `Git`: the output, or an error where Git could not be started.
    Git(AppResult<CommandOutput>),
    /// To `Resolve`: the file, or nothing where the path leads to none.
    Resolved(Option<Source>),
}

/// The model of a [`Reply`].
#[verifier::ext_equal]
pub enum ReplyView {
    Done(Result<(), Failure>),
    Exists(bool),
    Entry(Result<Option<Seq<char>>, Failure>),
    Git(Result<OutputView, Failure>),
    Resolved(Option<SourceView>),
}

impl View for Reply {
    type V = ReplyView;

    open spec fn view(&self) -> ReplyView {
        match self {
            Reply::Done(result) => ReplyView::Done(outcome(*result)),
            Reply::Exists(answer) => ReplyView::Exists(*answer),
            Reply::Entry(result) => ReplyView::Entry(
                match result {
                    Ok(Some(name)) => Ok(Some(name@)),
                    Ok(None) => Ok(None),
                    Err(error) => Err(error@),
                },
            ),
            Reply::Git(result) => ReplyView::Git(outcome(*result)),
            Reply::Resolved(source) => ReplyView::Resolved(
                match source {
                    Some(found) => Some(found@),
                    None => None,
                },
            ),
        }
    }
}

/// The reply is of the kind that the request asks for.
pub open spec fn answers(request: RequestView, reply: ReplyView) -> bool {
    match request {
        RequestView::CreateParent => reply is Done,
        RequestView::ProbeGitDirectory => reply is Exists,
        RequestView::ProbeDirectory => reply is Exists,
        RequestView::OpenDirectory => reply is Done,
        RequestView::NextEntry => reply is Entry,
        RequestView::Git { place, arguments } => reply is Git,
        RequestView::Resolve { path } => reply is Resolved,
        RequestView::ProbeDestination { name } => reply is Exists,
        RequestView::Copy { source, name } => reply is Done,
        RequestView::Remove { name } => reply is Done,
    }
}

} // verus!
