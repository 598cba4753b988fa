//! What can go wrong while links are added, removed or pruned.

use crate::path::copied;
use vstd::prelude::*;

verus! {

/// Why an operation stopped. Each kind carries the path or the name that it
/// stopped at.
#[derive(Debug, PartialEq, Eq)]
pub enum Error {
    /// The source path leads to nothing.
    SourceNotFound(Vec<u8>),
    /// The source path has no final component to name the link by.
    NameExtractionFailed(Vec<u8>),
    /// The search path could not be asked about the name.
    PathResolutionFailed(Vec<u8>),
    /// The source path has no absolute form.
    AbsolutePathResolutionFailed(Vec<u8>),
    /// The link could not be created.
    LinkCreationFailed { link: Vec<u8>, target: Vec<u8> },
    /// The name is nowhere on the search path.
    BinaryNotFound(Vec<u8>),
    /// The file that the name resolved to could not be deleted.
    RemovalFailed(Vec<u8>),
    /// The directory could not be listed.
    DirectoryReadFailed(Vec<u8>),
    /// An entry of the directory could not be read.
    DirectoryEntryFailed(Vec<u8>),
    /// A dangling entry could not be deleted.
    EntryRemovalFailed(Vec<u8>),
}

/// An `Error` with its paths and names as sequences of bytes.
pub enum ErrorView {
    SourceNotFound(Seq<u8>),
    NameExtractionFailed(Seq<u8>),
    PathResolutionFailed(Seq<u8>),
    AbsolutePathResolutionFailed(Seq<u8>),
    LinkCreationFailed { link: Seq<u8>, target: Seq<u8> },
    BinaryNotFound(Seq<u8>),
    RemovalFailed(Seq<u8>),
    DirectoryReadFailed(Seq<u8>),
    DirectoryEntryFailed(Seq<u8>),
    EntryRemovalFailed(Seq<u8>),
}

impl View for Error {
    type V = ErrorView;

    open spec fn view(&self) -> ErrorView {
        match *self {
            Error::SourceNotFound(path) => ErrorView::SourceNotFound(path@),
            Error::NameExtractionFailed(path) => ErrorView::NameExtractionFailed(path@),
            Error::PathResolutionFailed(name) => ErrorView::PathResolutionFailed(name@),
            Error::AbsolutePathResolutionFailed(path) => ErrorView::AbsolutePathResolutionFailed(
                path@,
            ),
            Error::LinkCreationFailed { link, target } => ErrorView::LinkCreationFailed {
                link: link@,
                target: target@,
            },
            Error::BinaryNotFound(name) => ErrorView::BinaryNotFound(name@),
            Error::RemovalFailed(path) => ErrorView::RemovalFailed(path@),
            Error::DirectoryReadFailed(path) => ErrorView::DirectoryReadFailed(path@),
            Error::DirectoryEntryFailed(path) => ErrorView::DirectoryEntryFailed(path@),
            Error::EntryRemovalFailed(path) => ErrorView::EntryRemovalFailed(path@),
        }
    }
}

impl Error {
    /// An error of the same kind about the same path or name.
    pub fn duplicate(&self) -> (copy: Error)
        ensures
            copy@ == self@,
    {
        match self {
            Error::SourceNotFound(path) => Error::SourceNotFound(copied(path)),
            Error::NameExtractionFailed(path) => Error::NameExtractionFailed(copied(path)),
            Error::PathResolutionFailed(name) => Error::PathResolutionFailed(copied(name)),
            Error::AbsolutePathResolutionFailed(path) => Error::AbsolutePathResolutionFailed(
                copied(path),
            ),
            Error::LinkCreationFailed { link, target } => Error::LinkCreationFailed {
                link: copied(link),
                target: copied(target),
            },
            Error::BinaryNotFound(name) => Error::BinaryNotFound(copied(name)),
            Error::RemovalFailed(path) => Error::RemovalFailed(copied(path)),
            Error::DirectoryReadFailed(path) => Error::DirectoryReadFailed(copied(path)),
            Error::DirectoryEntryFailed(path) => Error::DirectoryEntryFailed(copied(path)),
            Error::EntryRemovalFailed(path) => Error::EntryRemovalFailed(copied(path)),
        }
    }
}

} // verus!
