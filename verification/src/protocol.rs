//! What an operation asks of the system it runs on, and what the system
//! answers.

use crate::path::copied;
use crate::lookup::{Lookup, LookupView};
use vstd::prelude::*;

verus! {

/// One thing that an operation needs done before it can go on.
#[derive(Debug, PartialEq, Eq)]
pub enum Request {
    /// Say whether the path leads to something, links followed.
    Exists(Vec<u8>),
    /// Look the name up on the search path.
    Lookup(Vec<u8>),
    /// Give the absolute form of the path.
    Absolute(Vec<u8>),
    /// Create a symbolic link at `link` that points to `target`.
    Link { target: Vec<u8>, link: Vec<u8> },
    /// Delete the file or link at the path.
    Remove(Vec<u8>),
    /// Start listing the directory.
    Open(Vec<u8>),
    /// Give the next entry of the directory that is being listed.
    NextEntry(Vec<u8>),
    /// Tell the user that `name` is already found at `location` and is left
    /// alone.
    Report { name: Vec<u8>, location: Vec<u8> },
}

/// A `Request` with its paths and names as sequences of bytes.
pub enum RequestView {
    Exists(Seq<u8>),
    Lookup(Seq<u8>),
    Absolute(Seq<u8>),
    Link { target: Seq<u8>, link: Seq<u8> },
    Remove(Seq<u8>),
    Open(Seq<u8>),
    NextEntry(Seq<u8>),
    Report { name: Seq<u8>, location: Seq<u8> },
}

impl View for Request {
    type V = RequestView;

    open spec fn view(&self) -> RequestView {
        match *self {
            Request::Exists(path) => RequestView::Exists(path@),
            Request::Lookup(name) => RequestView::Lookup(name@),
            Request::Absolute(path) => RequestView::Absolute(path@),
            Request::Link { target, link } => RequestView::Link { target: target@, link: link@ },
            Request::Remove(path) => RequestView::Remove(path@),
            Request::Open(path) => RequestView::Open(path@),
            Request::NextEntry(path) => RequestView::NextEntry(path@),
            Request::Report { name, location } => RequestView::Report {
                name: name@,
                location: location@,
            },
        }
    }
}

/// What a step of a directory listing came to.
#[derive(Debug, PartialEq, Eq)]
pub enum Entry {
    /// The listing is at its end.
    End,
    /// The next entry could not be read.
    Unreadable,
    /// The next entry, by its full path.
    Found(Vec<u8>),
}

/// An `Entry` with its path as a sequence of bytes.
pub enum EntryView {
    End,
    Unreadable,
    Found(Seq<u8>),
}

impl View for Entry {
    type V = EntryView;

    open spec fn view(&self) -> EntryView {
        match *self {
            Entry::End => EntryView::End,
            Entry::Unreadable => EntryView::Unreadable,
            Entry::Found(path) => EntryView::Found(path@),
        }
    }
}

/// The answer to a `Request`.
#[derive(Debug, PartialEq, Eq)]
pub enum Reply {
    /// To `Exists`: whether the path leads to something.
    Exists(bool),
    /// To `Lookup`: how the lookup command ended.
    Lookup(Lookup),
    /// To `Absolute`: the absolute form, or `None` where there is none.
    Absolute(Option<Vec<u8>>),
    /// To `Link`: whether the link was created.
    Linked(bool),
    /// To `Remove`: whether the file was deleted.
    Removed(bool),
    /// To `Open`: whether the directory can be listed.
    Opened(bool),
    /// To `NextEntry`: the next step of the listing.
    Entry(Entry),
    /// To `Report`: the user was told.
    Reported,
}

/// A `Reply` with its paths as sequences of bytes.
pub enum ReplyView {
    Exists(bool),
    Lookup(LookupView),
    Absolute(Option<Seq<u8>>),
    Linked(bool),
    Removed(bool),
    Opened(bool),
    Entry(EntryView),
    Reported,
}

impl View for Reply {
    type V = ReplyView;

    open spec fn view(&self) -> ReplyView {
        match *self {
            Reply::Exists(found) => ReplyView::Exists(found),
            Reply::Lookup(outcome) => ReplyView::Lookup(outcome@),
            Reply::Absolute(Some(path)) => ReplyView::Absolute(Some(path@)),
            Reply::Absolute(None) => ReplyView::Absolute(None),
            Reply::Linked(done) => ReplyView::Linked(done),
            Reply::Removed(done) => ReplyView::Removed(done),
            Reply::Opened(done) => ReplyView::Opened(done),
            Reply::Entry(entry) => ReplyView::Entry(entry@),
            Reply::Reported => ReplyView::Reported,
        }
    }
}

/// Whether `reply` is an answer to `request`: each request has one kind of
/// reply.
pub open spec fn answers(request: RequestView, reply: ReplyView) -> bool {
    match (request, reply) {
        (RequestView::Exists(_), ReplyView::Exists(_)) => true,
        (RequestView::Lookup(_), ReplyView::Lookup(_)) => true,
        (RequestView::Absolute(_), ReplyView::Absolute(_)) => true,
        (RequestView::Link { .. }, ReplyView::Linked(_)) => true,
        (RequestView::Remove(_), ReplyView::Removed(_)) => true,
        (RequestView::Open(_), ReplyView::Opened(_)) => true,
        (RequestView::NextEntry(_), ReplyView::Entry(_)) => true,
        (RequestView::Report { .. }, ReplyView::Reported) => true,
        _ => false,
    }
}

/// Whether carrying out `request` changes the file system.
pub open spec fn mutates(request: RequestView) -> bool {
    request is Link || request is Remove
}

impl Request {
    /// Whether `reply` is an answer to this request.
    pub fn answered_by(&self, reply: &Reply) -> (fits: bool)
        ensures
            fits == answers(self@, reply@),
    {
        match (self, reply) {
            (Request::Exists(_), Reply::Exists(_)) => true,
            (Request::Lookup(_), Reply::Lookup(_)) => true,
            (Request::Absolute(_), Reply::Absolute(_)) => true,
            (Request::Link { .. }, Reply::Linked(_)) => true,
            (Request::Remove(_), Reply::Removed(_)) => true,
            (Request::Open(_), Reply::Opened(_)) => true,
            (Request::NextEntry(_), Reply::Entry(_)) => true,
            (Request::Report { .. }, Reply::Reported) => true,
            _ => false,
        }
    }

    /// Whether carrying out this request changes the file system.
    pub fn is_mutation(&self) -> (changes: bool)
        ensures
            changes == mutates(self@),
    {
        match self {
            Request::Link { .. } => true,
            Request::Remove(_) => true,
            _ => false,
        }
    }

    /// A request for the same thing.
    pub fn duplicate(&self) -> (copy: Request)
        ensures
            copy@ == self@,
    {
        match self {
            Request::Exists(path) => Request::Exists(copied(path)),
            Request::Lookup(name) => Request::Lookup(copied(name)),
            Request::Absolute(path) => Request::Absolute(copied(path)),
            Request::Link { target, link } => Request::Link {
                target: copied(target),
                link: copied(link),
            },
            Request::Remove(path) => Request::Remove(copied(path)),
            Request::Open(path) => Request::Open(copied(path)),
            Request::NextEntry(path) => Request::NextEntry(copied(path)),
            Request::Report { name, location } => Request::Report {
                name: copied(name),
                location: copied(location),
            },
        }
    }
}

} // verus!
