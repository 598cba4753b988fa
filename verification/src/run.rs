//! The three operations as runs: each asks the system for one thing at a
//! time and decides from the answer what comes next.

use crate::error::{Error, ErrorView};
use crate::lookup::{bin_path, resolution};
use crate::path::{copied, file_name, final_component, is_rooted, join, joined, SEPARATOR};
use crate::protocol::{answers, Entry, EntryView, Reply, ReplyView, Request, RequestView};
use vstd::prelude::*;

verus! {

/// Where a run stands: what it waits for, or how it ended.
#[derive(Debug, PartialEq, Eq)]
enum Stage {
    AddExists { source: Vec<u8> },
    AddLookup { source: Vec<u8>, name: Vec<u8> },
    AddReport { name: Vec<u8>, location: Vec<u8> },
    AddAbsolute { source: Vec<u8>, name: Vec<u8> },
    AddLink { target: Vec<u8>, link: Vec<u8> },
    RemoveLookup { name: Vec<u8> },
    RemoveDelete { path: Vec<u8> },
    PruneOpen,
    PruneNext,
    PruneExists { entry: Vec<u8> },
    PruneDelete { entry: Vec<u8> },
    Finished(Result<(), Error>),
}

/// Where a run stands, over sequences of bytes.
pub enum StageView {
    /// Adding: whether `source` exists is being asked.
    AddExists { source: Seq<u8> },
    /// Adding: `name`, the final component of `source`, is being looked up.
    AddLookup { source: Seq<u8>, name: Seq<u8> },
    /// Adding: the user is being told that `name` is found at `location`.
    AddReport { name: Seq<u8>, location: Seq<u8> },
    /// Adding: the absolute form of `source` is being asked.
    AddAbsolute { source: Seq<u8>, name: Seq<u8> },
    /// Adding: the link is being created.
    AddLink { target: Seq<u8>, link: Seq<u8> },
    /// Removing: `name` is being looked up.
    RemoveLookup { name: Seq<u8> },
    /// Removing: the file that the name resolved to is being deleted.
    RemoveDelete { path: Seq<u8> },
    /// Pruning: the listing of the directory is being started.
    PruneOpen,
    /// Pruning: the next entry is being asked.
    PruneNext,
    /// Pruning: whether `entry` still leads to something is being asked.
    PruneExists { entry: Seq<u8> },
    /// Pruning: the dangling `entry` is being deleted.
    PruneDelete { entry: Seq<u8> },
    /// The run is over.
    Finished(Result<(), ErrorView>),
}

impl View for Stage {
    type V = StageView;

    closed spec fn view(&self) -> StageView {
        match *self {
            Stage::AddExists { source } => StageView::AddExists { source: source@ },
            Stage::AddLookup { source, name } => StageView::AddLookup {
                source: source@,
                name: name@,
            },
            Stage::AddReport { name, location } => StageView::AddReport {
                name: name@,
                location: location@,
            },
            Stage::AddAbsolute { source, name } => StageView::AddAbsolute {
                source: source@,
                name: name@,
            },
            Stage::AddLink { target, link } => StageView::AddLink { target: target@, link: link@ },
            Stage::RemoveLookup { name } => StageView::RemoveLookup { name: name@ },
            Stage::RemoveDelete { path } => StageView::RemoveDelete { path: path@ },
            Stage::PruneOpen => StageView::PruneOpen,
            Stage::PruneNext => StageView::PruneNext,
            Stage::PruneExists { entry } => StageView::PruneExists { entry: entry@ },
            Stage::PruneDelete { entry } => StageView::PruneDelete { entry: entry@ },
            Stage::Finished(Ok(())) => StageView::Finished(Ok(())),
            Stage::Finished(Err(error)) => StageView::Finished(Err(error@)),
        }
    }
}

/// An operation under way.
///
/// A run owns the decisions of its operation and nothing else. Whoever
/// drives it takes the pending `request`, carries it out, and hands the
/// answer to `feed`, until the run has an `outcome`.
#[derive(Debug, PartialEq, Eq)]
pub struct Run {
    items: Vec<Vec<u8>>,
    taken: usize,
    directory: Vec<u8>,
    stage: Stage,
}

/// A run as a mathematical value.
pub struct RunView {
    /// The sources to add or the names to remove, in the order given.
    pub items: Seq<Seq<u8>>,
    /// How many of the items have been taken up.
    pub taken: nat,
    /// The directory that links are added to, or that is pruned.
    pub directory: Seq<u8>,
    /// Where the run stands.
    pub stage: StageView,
}

impl View for Run {
    type V = RunView;

    closed spec fn view(&self) -> RunView {
        RunView {
            items: self.items.deep_view(),
            taken: self.taken as nat,
            directory: self.directory@,
            stage: self.stage@,
        }
    }
}

impl RunView {
    /// The same run at another stage.
    pub open spec fn at(self, stage: StageView) -> RunView {
        RunView { stage, ..self }
    }

    /// The run when it takes up the next source to add: it ends well where
    /// none is left.
    pub open spec fn next_source(self) -> RunView {
        if self.taken < self.items.len() {
            RunView {
                taken: self.taken + 1,
                stage: StageView::AddExists { source: self.items[self.taken as int] },
                ..self
            }
        } else {
            self.at(StageView::Finished(Ok(())))
        }
    }

    /// The run when it takes up the next name to remove: it ends well where
    /// none is left.
    pub open spec fn next_name(self) -> RunView {
        if self.taken < self.items.len() {
            RunView {
                taken: self.taken + 1,
                stage: StageView::RemoveLookup { name: self.items[self.taken as int] },
                ..self
            }
        } else {
            self.at(StageView::Finished(Ok(())))
        }
    }

    /// What the run waits for; `None` once it is over.
    pub open spec fn pending(self) -> Option<RequestView> {
        match self.stage {
            StageView::AddExists { source } => Some(RequestView::Exists(source)),
            StageView::AddLookup { source, name } => Some(RequestView::Lookup(name)),
            StageView::AddReport { name, location } => Some(RequestView::Report { name, location }),
            StageView::AddAbsolute { source, name } => Some(RequestView::Absolute(source)),
            StageView::AddLink { target, link } => Some(RequestView::Link { target, link }),
            StageView::RemoveLookup { name } => Some(RequestView::Lookup(name)),
            StageView::RemoveDelete { path } => Some(RequestView::Remove(path)),
            StageView::PruneOpen => Some(RequestView::Open(self.directory)),
            StageView::PruneNext => Some(RequestView::NextEntry(self.directory)),
            StageView::PruneExists { entry } => Some(RequestView::Exists(entry)),
            StageView::PruneDelete { entry } => Some(RequestView::Remove(entry)),
            StageView::Finished(_) => None,
        }
    }

    /// How the run ended; `None` while it is under way.
    pub open spec fn outcome(self) -> Option<Result<(), ErrorView>> {
        match self.stage {
            StageView::Finished(outcome) => Some(outcome),
            _ => None,
        }
    }

    /// Whether the run takes `reply`: it is under way, and the reply answers
    /// what it waits for.
    pub open spec fn accepts(self, reply: ReplyView) -> bool {
        match self.pending() {
            Some(request) => answers(request, reply),
            None => false,
        }
    }

    /// The run after `reply`. A reply that the run does not take leaves it as
    /// it is. Every failure ends the run at once, with the items behind the
    /// failing one untouched.
    pub open spec fn step(self, reply: ReplyView) -> RunView {
        match (self.stage, reply) {
            (StageView::AddExists { source }, ReplyView::Exists(found)) => if !found {
                self.at(StageView::Finished(Err(ErrorView::SourceNotFound(source))))
            } else {
                match final_component(source) {
                    Some(name) => self.at(StageView::AddLookup { source, name }),
                    None => self.at(
                        StageView::Finished(Err(ErrorView::NameExtractionFailed(source))),
                    ),
                }
            },
            (StageView::AddLookup { source, name }, ReplyView::Lookup(outcome)) => match resolution(
                name,
                outcome,
            ) {
                Ok(Some(location)) => self.at(StageView::AddReport { name, location }),
                Ok(None) => self.at(StageView::AddAbsolute { source, name }),
                Err(error) => self.at(StageView::Finished(Err(error))),
            },
            (StageView::AddReport { name, location }, ReplyView::Reported) => self.next_source(),
            (StageView::AddAbsolute { source, name }, ReplyView::Absolute(form)) => match form {
                Some(target) if is_rooted(target) => self.at(
                    StageView::AddLink { target, link: joined(self.directory, name) },
                ),
                _ => self.at(
                    StageView::Finished(Err(ErrorView::AbsolutePathResolutionFailed(source))),
                ),
            },
            (StageView::AddLink { target, link }, ReplyView::Linked(done)) => if done {
                self.next_source()
            } else {
                self.at(StageView::Finished(Err(ErrorView::LinkCreationFailed { link, target })))
            },
            (StageView::RemoveLookup { name }, ReplyView::Lookup(outcome)) => match resolution(
                name,
                outcome,
            ) {
                Ok(Some(path)) => self.at(StageView::RemoveDelete { path }),
                Ok(None) => self.at(StageView::Finished(Err(ErrorView::BinaryNotFound(name)))),
                Err(error) => self.at(StageView::Finished(Err(error))),
            },
            (StageView::RemoveDelete { path }, ReplyView::Removed(done)) => if done {
                self.next_name()
            } else {
                self.at(StageView::Finished(Err(ErrorView::RemovalFailed(path))))
            },
            (StageView::PruneOpen, ReplyView::Opened(done)) => if done {
                self.at(StageView::PruneNext)
            } else {
                self.at(StageView::Finished(Err(ErrorView::DirectoryReadFailed(self.directory))))
            },
            (StageView::PruneNext, ReplyView::Entry(entry)) => match entry {
                EntryView::Found(path) => self.at(StageView::PruneExists { entry: path }),
                EntryView::End => self.at(StageView::Finished(Ok(()))),
                EntryView::Unreadable => self.at(
                    StageView::Finished(Err(ErrorView::DirectoryEntryFailed(self.directory))),
                ),
            },
            (StageView::PruneExists { entry }, ReplyView::Exists(found)) => if found {
                self.at(StageView::PruneNext)
            } else {
                self.at(StageView::PruneDelete { entry })
            },
            (StageView::PruneDelete { entry }, ReplyView::Removed(done)) => if done {
                self.at(StageView::PruneNext)
            } else {
                self.at(StageView::Finished(Err(ErrorView::EntryRemovalFailed(entry))))
            },
            _ => self,
        }
    }
}

/// The run that adds links to `sources`, in order, to `destination`.
pub open spec fn adding(sources: Seq<Seq<u8>>, destination: Seq<u8>) -> RunView {
    RunView {
        items: sources,
        taken: 0,
        directory: destination,
        stage: StageView::Finished(Ok(())),
    }.next_source()
}

/// The run that removes what `names` resolve to, in order.
pub open spec fn removing(names: Seq<Seq<u8>>) -> RunView {
    RunView {
        items: names,
        taken: 0,
        directory: Seq::empty(),
        stage: StageView::Finished(Ok(())),
    }.next_name()
}

/// The run that prunes `directory` of its dangling entries.
pub open spec fn pruning(directory: Seq<u8>) -> RunView {
    RunView { items: Seq::empty(), taken: 0, directory, stage: StageView::PruneOpen }
}

/// The bytes of an item are the same in both views of the items.
proof fn lemma_item_view(items: Vec<Vec<u8>>, at: int)
    requires
        0 <= at < items.len(),
    ensures
        items.deep_view()[at] == items@[at]@,
{
    assert(items@[at].deep_view() =~= items@[at]@);
}

impl Run {
    /// Takes up the next source, or ends the run where none is left.
    fn take_source(&mut self)
        ensures
            final(self)@ == old(self)@.next_source(),
    {
        if self.taken < self.items.len() {
            proof {
                lemma_item_view(self.items, self.taken as int);
            }
            let source = copied(&self.items[self.taken]);
            self.taken += 1;
            self.stage = Stage::AddExists { source };
        } else {
            self.stage = Stage::Finished(Ok(()));
        }
    }

    /// Takes up the next name, or ends the run where none is left.
    fn take_name(&mut self)
        ensures
            final(self)@ == old(self)@.next_name(),
    {
        if self.taken < self.items.len() {
            proof {
                lemma_item_view(self.items, self.taken as int);
            }
            let name = copied(&self.items[self.taken]);
            self.taken += 1;
            self.stage = Stage::RemoveLookup { name };
        } else {
            self.stage = Stage::Finished(Ok(()));
        }
    }

    /// What the run waits for; `None` once it is over.
    pub fn request(&self) -> (request: Option<Request>)
        ensures
            request.is_some() == self@.pending().is_some(),
            request matches Some(asked) ==> Some(asked@) == self@.pending(),
    {
        match &self.stage {
            Stage::AddExists { source } => Some(Request::Exists(copied(source))),
            Stage::AddLookup { source, name } => Some(Request::Lookup(copied(name))),
            Stage::AddReport { name, location } => Some(
                Request::Report { name: copied(name), location: copied(location) },
            ),
            Stage::AddAbsolute { source, name } => Some(Request::Absolute(copied(source))),
            Stage::AddLink { target, link } => Some(
                Request::Link { target: copied(target), link: copied(link) },
            ),
            Stage::RemoveLookup { name } => Some(Request::Lookup(copied(name))),
            Stage::RemoveDelete { path } => Some(Request::Remove(copied(path))),
            Stage::PruneOpen => Some(Request::Open(copied(&self.directory))),
            Stage::PruneNext => Some(Request::NextEntry(copied(&self.directory))),
            Stage::PruneExists { entry } => Some(Request::Exists(copied(entry))),
            Stage::PruneDelete { entry } => Some(Request::Remove(copied(entry))),
            Stage::Finished(_) => None,
        }
    }

    /// How the run ended; `None` while it is under way.
    pub fn outcome(&self) -> (outcome: Option<Result<(), Error>>)
        ensures
            outcome.is_some() == self@.outcome().is_some(),
            outcome matches Some(Ok(_)) ==> self@.outcome() == Some(Ok::<(), ErrorView>(())),
            outcome matches Some(Err(error)) ==> self@.outcome() == Some(
                Err::<(), ErrorView>(error@),
            ),
    {
        match &self.stage {
            Stage::Finished(Ok(())) => Some(Ok(())),
            Stage::Finished(Err(error)) => Some(Err(error.duplicate())),
            _ => None,
        }
    }

    /// Whether the run is over.
    pub fn is_finished(&self) -> (over: bool)
        ensures
            over == self@.outcome().is_some(),
            over == self@.pending().is_none(),
    {
        match &self.stage {
            Stage::Finished(_) => true,
            _ => false,
        }
    }

    /// Hands the run the answer to its pending request. The result says
    /// whether the run took it: a reply that answers something else, or that
    /// comes when the run is over, changes nothing.
    pub fn feed(&mut self, reply: Reply) -> (accepted: bool)
        ensures
            accepted == old(self)@.accepts(reply@),
            final(self)@ == old(self)@.step(reply@),
    {
        let mut stage = Stage::Finished(Ok(()));
        core::mem::swap(&mut self.stage, &mut stage);
        match (stage, reply) {
            (Stage::AddExists { source }, Reply::Exists(found)) => {
                if !found {
                    self.stage = Stage::Finished(Err(Error::SourceNotFound(source)));
                } else {
                    match file_name(&source) {
                        Some(name) => {
                            self.stage = Stage::AddLookup { source, name };
                        },
                        None => {
                            self.stage = Stage::Finished(Err(Error::NameExtractionFailed(source)));
                        },
                    }
                }
                true
            },
            (Stage::AddLookup { source, name }, Reply::Lookup(outcome)) => {
                match bin_path(&name, &outcome) {
                    Ok(Some(location)) => {
                        self.stage = Stage::AddReport { name, location };
                    },
                    Ok(None) => {
                        self.stage = Stage::AddAbsolute { source, name };
                    },
                    Err(error) => {
                        self.stage = Stage::Finished(Err(error));
                    },
                }
                true
            },
            (Stage::AddReport { name, location }, Reply::Reported) => {
                self.take_source();
                true
            },
            (Stage::AddAbsolute { source, name }, Reply::Absolute(form)) => {
                match form {
                    Some(target) => {
                        if target.len() > 0 && target[0] == SEPARATOR {
                            let link = join(&self.directory, &name);
                            self.stage = Stage::AddLink { target, link };
                        } else {
                            self.stage = Stage::Finished(
                                Err(Error::AbsolutePathResolutionFailed(source)),
                            );
                        }
                    },
                    None => {
                        self.stage = Stage::Finished(
                            Err(Error::AbsolutePathResolutionFailed(source)),
                        );
                    },
                }
                true
            },
            (Stage::AddLink { target, link }, Reply::Linked(done)) => {
                if done {
                    self.take_source();
                } else {
                    self.stage = Stage::Finished(Err(Error::LinkCreationFailed { link, target }));
                }
                true
            },
            (Stage::RemoveLookup { name }, Reply::Lookup(outcome)) => {
                match bin_path(&name, &outcome) {
                    Ok(Some(path)) => {
                        self.stage = Stage::RemoveDelete { path };
                    },
                    Ok(None) => {
                        self.stage = Stage::Finished(Err(Error::BinaryNotFound(name)));
                    },
                    Err(error) => {
                        self.stage = Stage::Finished(Err(error));
                    },
                }
                true
            },
            (Stage::RemoveDelete { path }, Reply::Removed(done)) => {
                if done {
                    self.take_name();
                } else {
                    self.stage = Stage::Finished(Err(Error::RemovalFailed(path)));
                }
                true
            },
            (Stage::PruneOpen, Reply::Opened(done)) => {
                if done {
                    self.stage = Stage::PruneNext;
                } else {
                    self.stage = Stage::Finished(
                        Err(Error::DirectoryReadFailed(copied(&self.directory))),
                    );
                }
                true
            },
            (Stage::PruneNext, Reply::Entry(entry)) => {
                match entry {
                    Entry::Found(path) => {
                        self.stage = Stage::PruneExists { entry: path };
                    },
                    Entry::End => {
                        self.stage = Stage::Finished(Ok(()));
                    },
                    Entry::Unreadable => {
                        self.stage = Stage::Finished(
                            Err(Error::DirectoryEntryFailed(copied(&self.directory))),
                        );
                    },
                }
                true
            },
            (Stage::PruneExists { entry }, Reply::Exists(found)) => {
                if found {
                    self.stage = Stage::PruneNext;
                } else {
                    self.stage = Stage::PruneDelete { entry };
                }
                true
            },
            (Stage::PruneDelete { entry }, Reply::Removed(done)) => {
                if done {
                    self.stage = Stage::PruneNext;
                } else {
                    self.stage = Stage::Finished(Err(Error::EntryRemovalFailed(entry)));
                }
                true
            },
            (stage, _) => {
                self.stage = stage;
                false
            },
        }
    }
}

/// Starts adding links: for each of `source_binaries`, in order, a link in
/// `destination_directory` under the source's own name, unless the search
/// path finds that name already.
pub fn add(source_binaries: Vec<Vec<u8>>, destination_directory: Vec<u8>) -> (run: Run)
    ensures
        run@ == adding(source_binaries.deep_view(), destination_directory@),
{
    let mut run = Run {
        items: source_binaries,
        taken: 0,
        directory: destination_directory,
        stage: Stage::Finished(Ok(())),
    };
    run.take_source();
    run
}

/// Starts removing: for each of `binaries`, in order, the file that the
/// search path resolves the name to is deleted.
pub fn remove(binaries: Vec<Vec<u8>>) -> (run: Run)
    ensures
        run@ == removing(binaries.deep_view()),
{
    let mut run = Run {
        items: binaries,
        taken: 0,
        directory: Vec::new(),
        stage: Stage::Finished(Ok(())),
    };
    run.take_name();
    run
}

/// Starts pruning `directory`: each entry that no longer leads to anything
/// is deleted, and every other entry is left alone.
pub fn prune(directory: Vec<u8>) -> (run: Run)
    ensures
        run@ == pruning(directory@),
{
    let run = Run { items: Vec::new(), taken: 0, directory, stage: Stage::PruneOpen };
    assert(run.items.deep_view() =~= Seq::<Seq<u8>>::empty());
    run
}

} // verus!
