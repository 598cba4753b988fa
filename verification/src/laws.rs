//! What holds of the runs, whatever the system answers.

use crate::error::ErrorView;
use crate::lookup::{resolution, LookupView};
use crate::path::{
    final_component, is_rooted, joined, law_final_component_is_plain, law_joined_name,
};
use crate::lookup::{FOUND, NOT_FOUND};
use crate::protocol::{answers, mutates, EntryView, ReplyView, RequestView};
use crate::run::{adding, pruning, removing, RunView, StageView};
use vstd::prelude::*;

verus! {

/// One request of a run, with the reply that answered it.
pub struct Exchange {
    pub request: RequestView,
    pub reply: ReplyView,
}

/// The run after `replies`, handed to it in order.
pub open spec fn fed(run: RunView, replies: Seq<ReplyView>) -> RunView
    decreases replies.len(),
{
    if replies.len() == 0 {
        run
    } else {
        fed(run, replies.drop_last()).step(replies.last())
    }
}

/// What passed between the run and the system while `replies` were handed
/// to it in order: each reply that the run took, with the request that it
/// answered.
pub open spec fn exchanges(run: RunView, replies: Seq<ReplyView>) -> Seq<Exchange>
    decreases replies.len(),
{
    if replies.len() == 0 {
        Seq::empty()
    } else {
        let before = exchanges(run, replies.drop_last());
        match fed(run, replies.drop_last()).pending() {
            Some(request) if answers(request, replies.last()) => before.push(
                Exchange { request, reply: replies.last() },
            ),
            _ => before,
        }
    }
}

/// Handing a run two sequences of replies one after the other is handing it
/// the two as one.
pub proof fn lemma_fed_in_two(run: RunView, first: Seq<ReplyView>, second: Seq<ReplyView>)
    ensures
        fed(run, first + second) == fed(fed(run, first), second),
        exchanges(run, first + second) == exchanges(run, first) + exchanges(
            fed(run, first),
            second,
        ),
    decreases second.len(),
{
    if second.len() == 0 {
        assert(first + second == first);
        assert(exchanges(run, first) + Seq::<Exchange>::empty() == exchanges(run, first));
    } else {
        let whole = first + second;
        assert(whole.drop_last() == first + second.drop_last());
        assert(whole.last() == second.last());
        lemma_fed_in_two(run, first, second.drop_last());
        let before = exchanges(fed(run, first), second.drop_last());
        match fed(fed(run, first), second.drop_last()).pending() {
            Some(request) => {
                if answers(request, second.last()) {
                    let exchange = Exchange { request, reply: second.last() };
                    assert((exchanges(run, first) + before).push(exchange) == exchanges(run, first)
                        + before.push(exchange));
                }
            },
            None => {},
        }
    }
}

/// A run that is over stays as it is, whatever it is handed: nothing comes
/// after the first failure, nor after the end.
pub proof fn law_finished_is_final(run: RunView, reply: ReplyView)
    requires
        run.outcome().is_some(),
    ensures
        !run.accepts(reply),
        run.step(reply) == run,
{
}

/// A reply changes a run exactly where the run takes it.
pub proof fn law_only_answers_count(run: RunView, reply: ReplyView)
    ensures
        !run.accepts(reply) ==> run.step(reply) == run,
        run.accepts(reply) ==> run.step(reply) != run,
{
}

/// Once a run is over, no further replies change it, and nothing more passes
/// between it and the system: the items behind a failure are never taken up.
pub proof fn law_nothing_after_the_end(
    run: RunView,
    replies: Seq<ReplyView>,
    more: Seq<ReplyView>,
)
    requires
        fed(run, replies).outcome().is_some(),
    ensures
        fed(run, replies + more) == fed(run, replies),
        exchanges(run, replies + more) == exchanges(run, replies),
{
    lemma_fed_in_two(run, replies, more);
    lemma_over_stays_over(fed(run, replies), more);
    assert(exchanges(run, replies) + Seq::<Exchange>::empty() == exchanges(run, replies));
}

proof fn lemma_over_stays_over(run: RunView, more: Seq<ReplyView>)
    requires
        run.outcome().is_some(),
    ensures
        fed(run, more) == run,
        exchanges(run, more) == Seq::<Exchange>::empty(),
    decreases more.len(),
{
    if more.len() > 0 {
        lemma_over_stays_over(run, more.drop_last());
    }
}

/// Adding one source that exists and whose name the search path does not
/// find: the run asks whether the source exists, looks its name up, asks for
/// its absolute form, creates a link to that absolute form, and ends well.
/// The link lies in the destination, under the source's own name.
pub proof fn law_add_links_new_name(
    source: Seq<u8>,
    destination: Seq<u8>,
    name: Seq<u8>,
    lookup: LookupView,
    target: Seq<u8>,
)
    requires
        final_component(source) == Some(name),
        resolution(name, lookup) == Ok::<Option<Seq<u8>>, ErrorView>(None),
        is_rooted(target),
    ensures
        ({
            let asked = adding(seq![source], destination);
            let looked = asked.step(ReplyView::Exists(true));
            let formed = looked.step(ReplyView::Lookup(lookup));
            let linked = formed.step(ReplyView::Absolute(Some(target)));
            let over = linked.step(ReplyView::Linked(true));
            &&& asked.pending() == Some(RequestView::Exists(source))
            &&& looked.pending() == Some(RequestView::Lookup(name))
            &&& formed.pending() == Some(RequestView::Absolute(source))
            &&& linked.pending() == Some(
                RequestView::Link { target, link: joined(destination, name) },
            )
            &&& over.outcome() == Some(Ok::<(), ErrorView>(()))
        }),
        final_component(joined(destination, name)) == Some(name),
{
    law_final_component_is_plain(source);
    law_joined_name(destination, name);
}

/// Adding one source that exists and whose name the search path already
/// finds: the run tells the user where, asks for nothing that changes the
/// file system, and ends well.
pub proof fn law_add_skips_found_name(
    source: Seq<u8>,
    destination: Seq<u8>,
    name: Seq<u8>,
    lookup: LookupView,
    location: Seq<u8>,
)
    requires
        final_component(source) == Some(name),
        resolution(name, lookup) == Ok::<Option<Seq<u8>>, ErrorView>(Some(location)),
    ensures
        ({
            let asked = adding(seq![source], destination);
            let looked = asked.step(ReplyView::Exists(true));
            let told = looked.step(ReplyView::Lookup(lookup));
            let over = told.step(ReplyView::Reported);
            &&& asked.pending() == Some(RequestView::Exists(source))
            &&& looked.pending() == Some(RequestView::Lookup(name))
            &&& told.pending() == Some(RequestView::Report { name, location })
            &&& over.outcome() == Some(Ok::<(), ErrorView>(()))
        }),
{
}

/// Removing one name that the search path does not find: the run looks the
/// name up, fails with `BinaryNotFound`, and has asked for nothing that
/// changes the file system.
pub proof fn law_remove_unknown_name_fails(name: Seq<u8>, lookup: LookupView)
    requires
        resolution(name, lookup) == Ok::<Option<Seq<u8>>, ErrorView>(None),
    ensures
        ({
            let asked = removing(seq![name]);
            let over = asked.step(ReplyView::Lookup(lookup));
            &&& asked.pending() == Some(RequestView::Lookup(name))
            &&& over.outcome() == Some(Err::<(), ErrorView>(ErrorView::BinaryNotFound(name)))
        }),
{
}

/// Removing one name that the search path resolves to `path`: the run looks
/// the name up, asks for the deletion of `path` and of nothing else, and ends
/// well once that is done.
pub proof fn law_remove_deletes_what_resolves(name: Seq<u8>, lookup: LookupView, path: Seq<u8>)
    requires
        resolution(name, lookup) == Ok::<Option<Seq<u8>>, ErrorView>(Some(path)),
    ensures
        ({
            let asked = removing(seq![name]);
            let found = asked.step(ReplyView::Lookup(lookup));
            let over = found.step(ReplyView::Removed(true));
            &&& asked.pending() == Some(RequestView::Lookup(name))
            &&& found.pending() == Some(RequestView::Remove(path))
            &&& over.outcome() == Some(Ok::<(), ErrorView>(()))
        }),
{
}

/// A lookup command that ran and ended with neither `FOUND` nor `NOT_FOUND`,
/// or with no exit code at all, has failed, whatever it wrote: that is never
/// read as "not found".
pub proof fn law_failed_lookup_is_no_answer(name: Seq<u8>, code: Option<i32>, output: Seq<u8>)
    requires
        code != Some(FOUND),
        code != Some(NOT_FOUND),
    ensures
        resolution(name, LookupView::Exited { code, output }) == Err::<
            Option<Seq<u8>>,
            ErrorView,
        >(ErrorView::PathResolutionFailed(name)),
{
}

/// Adding one source that exists, where the lookup of its name fails: the
/// run ends with `PathResolutionFailed` and has asked for no link.
pub proof fn law_add_stops_at_a_failed_lookup(
    source: Seq<u8>,
    destination: Seq<u8>,
    name: Seq<u8>,
    lookup: LookupView,
)
    requires
        final_component(source) == Some(name),
        resolution(name, lookup) is Err,
    ensures
        ({
            let asked = adding(seq![source], destination);
            let looked = asked.step(ReplyView::Exists(true));
            let over = looked.step(ReplyView::Lookup(lookup));
            &&& asked.pending() == Some(RequestView::Exists(source))
            &&& looked.pending() == Some(RequestView::Lookup(name))
            &&& over.outcome() == Some(
                Err::<(), ErrorView>(ErrorView::PathResolutionFailed(name)),
            )
        }),
{
}

/// Removing one name whose lookup fails: the run ends with
/// `PathResolutionFailed`, not with `BinaryNotFound`, and has asked for no
/// deletion.
pub proof fn law_remove_stops_at_a_failed_lookup(name: Seq<u8>, lookup: LookupView)
    requires
        resolution(name, lookup) is Err,
    ensures
        ({
            let asked = removing(seq![name]);
            let over = asked.step(ReplyView::Lookup(lookup));
            &&& asked.pending() == Some(RequestView::Lookup(name))
            &&& over.outcome() == Some(
                Err::<(), ErrorView>(ErrorView::PathResolutionFailed(name)),
            )
        }),
{
}

/// What holds of a run that adds, at every moment: it works on the items in
/// the order given, one at a time, and what it asks for belongs to the item
/// it works on. A link is asked for only under that item's own name, in the
/// destination, and only to a target that starts at the root. The run ends
/// well only when every item has been taken up, and an error speaks of the
/// item that the run stopped at.
pub open spec fn adds_in_order(run: RunView) -> bool {
    let current = run.items[run.taken - 1];
    &&& run.taken <= run.items.len()
    &&& match run.stage {
        StageView::AddExists { source } => run.taken > 0 && source == current,
        StageView::AddLookup { source, name } => run.taken > 0 && source == current
            && final_component(current) == Some(name),
        StageView::AddReport { name, location } => run.taken > 0 && final_component(current)
            == Some(name),
        StageView::AddAbsolute { source, name } => run.taken > 0 && source == current
            && final_component(current) == Some(name),
        StageView::AddLink { target, link } => run.taken > 0 && is_rooted(target) && (
        final_component(current) matches Some(name) && link == joined(run.directory, name)),
        StageView::Finished(Ok(_)) => run.taken == run.items.len(),
        StageView::Finished(Err(error)) => run.taken > 0 && match error {
            ErrorView::SourceNotFound(path) => path == current,
            ErrorView::NameExtractionFailed(path) => path == current && final_component(current)
                is None,
            ErrorView::PathResolutionFailed(name) => final_component(current) == Some(name),
            ErrorView::AbsolutePathResolutionFailed(path) => path == current,
            ErrorView::LinkCreationFailed { link, target } => is_rooted(target) && (
            final_component(current) matches Some(name) && link == joined(run.directory, name)),
            _ => false,
        },
        _ => false,
    }
}

/// A run that adds keeps to the order of its items, whatever it is answered.
pub proof fn law_add_keeps_order(
    sources: Seq<Seq<u8>>,
    destination: Seq<u8>,
    replies: Seq<ReplyView>,
)
    ensures
        adds_in_order(fed(adding(sources, destination), replies)),
    decreases replies.len(),
{
    if replies.len() > 0 {
        law_add_keeps_order(sources, destination, replies.drop_last());
        lemma_add_step_keeps_order(
            fed(adding(sources, destination), replies.drop_last()),
            replies.last(),
        );
    }
}

proof fn lemma_add_step_keeps_order(run: RunView, reply: ReplyView)
    requires
        adds_in_order(run),
    ensures
        adds_in_order(run.step(reply)),
{
}

/// What holds of a run that removes, at every moment: it works on the names
/// in the order given, one at a time. It ends well only when every name has
/// been taken up, and an error speaks of the name that the run stopped at, or
/// of the file that this name resolved to.
pub open spec fn removes_in_order(run: RunView) -> bool {
    let current = run.items[run.taken - 1];
    &&& run.taken <= run.items.len()
    &&& match run.stage {
        StageView::RemoveLookup { name } => run.taken > 0 && name == current,
        StageView::RemoveDelete { path } => run.taken > 0,
        StageView::Finished(Ok(_)) => run.taken == run.items.len(),
        StageView::Finished(Err(error)) => run.taken > 0 && match error {
            ErrorView::PathResolutionFailed(name) => name == current,
            ErrorView::BinaryNotFound(name) => name == current,
            ErrorView::RemovalFailed(path) => true,
            _ => false,
        },
        _ => false,
    }
}

/// A run that removes keeps to the order of its names, whatever it is
/// answered.
pub proof fn law_remove_keeps_order(names: Seq<Seq<u8>>, replies: Seq<ReplyView>)
    ensures
        removes_in_order(fed(removing(names), replies)),
    decreases replies.len(),
{
    if replies.len() > 0 {
        law_remove_keeps_order(names, replies.drop_last());
        lemma_remove_step_keeps_order(fed(removing(names), replies.drop_last()), replies.last());
    }
}

proof fn lemma_remove_step_keeps_order(run: RunView, reply: ReplyView)
    requires
        removes_in_order(run),
    ensures
        removes_in_order(run.step(reply)),
{
}

/// A run never changes its items nor its directory, and never goes back to
/// an item that it has taken up.
pub proof fn law_items_stay(run: RunView, replies: Seq<ReplyView>)
    ensures
        fed(run, replies).items == run.items,
        fed(run, replies).directory == run.directory,
        fed(run, replies).taken >= run.taken,
    decreases replies.len(),
{
    if replies.len() > 0 {
        law_items_stay(run, replies.drop_last());
    }
}

/// How many of the exchanges asked for a change to the file system.
pub open spec fn changes_asked(passed: Seq<Exchange>) -> nat
    decreases passed.len(),
{
    if passed.len() == 0 {
        0
    } else if mutates(passed.last().request) {
        changes_asked(passed.drop_last()) + 1
    } else {
        changes_asked(passed.drop_last())
    }
}

/// A run that adds asks for at most one change to the file system for each
/// source that it has taken up, and so for at most one for each source.
pub proof fn law_add_changes_at_most_once_per_source(
    sources: Seq<Seq<u8>>,
    destination: Seq<u8>,
    replies: Seq<ReplyView>,
)
    ensures
        changes_asked(exchanges(adding(sources, destination), replies)) <= fed(
            adding(sources, destination),
            replies,
        ).taken <= sources.len(),
{
    lemma_add_changes(sources, destination, replies);
    law_items_stay(adding(sources, destination), replies);
}

proof fn lemma_add_changes(sources: Seq<Seq<u8>>, destination: Seq<u8>, replies: Seq<ReplyView>)
    ensures
        ({
            let run = fed(adding(sources, destination), replies);
            let asked = changes_asked(exchanges(adding(sources, destination), replies));
            &&& adds_in_order(run)
            &&& asked <= run.taken
            &&& run.pending().is_some() ==> asked < run.taken
        }),
    decreases replies.len(),
{
    if replies.len() > 0 {
        let start = adding(sources, destination);
        let before = fed(start, replies.drop_last());
        lemma_add_changes(sources, destination, replies.drop_last());
        lemma_add_step_keeps_order(before, replies.last());
        let passed = exchanges(start, replies.drop_last());
        match before.pending() {
            Some(request) => {
                if answers(request, replies.last()) {
                    let exchange = Exchange { request, reply: replies.last() };
                    assert(passed.push(exchange).drop_last() == passed);
                }
            },
            None => {},
        }
    }
}

/// A run that removes asks for at most one change to the file system for
/// each name that it has taken up.
pub proof fn law_remove_changes_at_most_once_per_name(
    names: Seq<Seq<u8>>,
    replies: Seq<ReplyView>,
)
    ensures
        changes_asked(exchanges(removing(names), replies)) <= fed(removing(names), replies).taken
            <= names.len(),
{
    lemma_remove_changes(names, replies);
    law_items_stay(removing(names), replies);
}

proof fn lemma_remove_changes(names: Seq<Seq<u8>>, replies: Seq<ReplyView>)
    ensures
        ({
            let run = fed(removing(names), replies);
            let asked = changes_asked(exchanges(removing(names), replies));
            &&& removes_in_order(run)
            &&& asked <= run.taken
            &&& run.pending().is_some() ==> asked < run.taken
        }),
    decreases replies.len(),
{
    if replies.len() > 0 {
        let start = removing(names);
        let before = fed(start, replies.drop_last());
        lemma_remove_changes(names, replies.drop_last());
        lemma_remove_step_keeps_order(before, replies.last());
        let passed = exchanges(start, replies.drop_last());
        match before.pending() {
            Some(request) => {
                if answers(request, replies.last()) {
                    let exchange = Exchange { request, reply: replies.last() };
                    assert(passed.push(exchange).drop_last() == passed);
                }
            },
            None => {},
        }
    }
}

/// Whether `request` asks for a link to exactly the absolute form that the
/// exchange `before` it gave.
pub open spec fn links_what_was_formed(before: Exchange, request: RequestView) -> bool {
    request matches RequestView::Link { target, link } && before.request is Absolute
        && before.reply == ReplyView::Absolute(Some(target))
}

/// Whether `request` asks for the deletion of exactly the file that the
/// lookup in the exchange `before` it resolved a name to.
pub open spec fn removes_what_resolved(before: Exchange, request: RequestView) -> bool {
    request matches RequestView::Remove(path) && (before.request matches RequestView::Lookup(name)
        && (before.reply matches ReplyView::Lookup(outcome) && resolution(name, outcome) == Ok::<
        Option<Seq<u8>>,
        ErrorView,
    >(Some(path))))
}

/// Whether `request` asks for the deletion of exactly the path of which the
/// exchange `before` it said that it leads to nothing.
pub open spec fn removes_what_dangles(before: Exchange, request: RequestView) -> bool {
    request matches RequestView::Remove(path) && before.request == RequestView::Exists(path)
        && before.reply == ReplyView::Exists(false)
}

/// The only change that a run that adds asks for is a link, and it asks for
/// one only right after it was given the absolute form to link to.
pub proof fn law_add_only_links(
    sources: Seq<Seq<u8>>,
    destination: Seq<u8>,
    replies: Seq<ReplyView>,
    at: int,
)
    requires
        0 <= at < exchanges(adding(sources, destination), replies).len(),
        mutates(exchanges(adding(sources, destination), replies)[at].request),
    ensures
        at > 0,
        links_what_was_formed(
            exchanges(adding(sources, destination), replies)[at - 1],
            exchanges(adding(sources, destination), replies)[at].request,
        ),
{
    lemma_add_only_links(sources, destination, replies);
}

proof fn lemma_add_only_links(sources: Seq<Seq<u8>>, destination: Seq<u8>, replies: Seq<ReplyView>)
    ensures
        ({
            let run = fed(adding(sources, destination), replies);
            let passed = exchanges(adding(sources, destination), replies);
            &&& adds_in_order(run)
            &&& run.pending() matches Some(request) ==> (mutates(request) ==> passed.len() > 0
                && links_what_was_formed(passed.last(), request))
            &&& forall|at: int|
                0 <= at < passed.len() && mutates(#[trigger] passed[at].request) ==> at > 0
                    && links_what_was_formed(passed[at - 1], passed[at].request)
        }),
    decreases replies.len(),
{
    if replies.len() > 0 {
        let start = adding(sources, destination);
        lemma_add_only_links(sources, destination, replies.drop_last());
        lemma_add_step_keeps_order(fed(start, replies.drop_last()), replies.last());
    }
}

/// The only change that a run that removes asks for is a deletion, and it
/// asks for one only right after the lookup of a name resolved to the very
/// file to delete.
pub proof fn law_remove_only_what_resolved(names: Seq<Seq<u8>>, replies: Seq<ReplyView>, at: int)
    requires
        0 <= at < exchanges(removing(names), replies).len(),
        mutates(exchanges(removing(names), replies)[at].request),
    ensures
        at > 0,
        removes_what_resolved(
            exchanges(removing(names), replies)[at - 1],
            exchanges(removing(names), replies)[at].request,
        ),
{
    lemma_remove_only_what_resolved(names, replies);
}

proof fn lemma_remove_only_what_resolved(names: Seq<Seq<u8>>, replies: Seq<ReplyView>)
    ensures
        ({
            let run = fed(removing(names), replies);
            let passed = exchanges(removing(names), replies);
            &&& removes_in_order(run)
            &&& run.pending() matches Some(request) ==> (mutates(request) ==> passed.len() > 0
                && removes_what_resolved(passed.last(), request))
            &&& forall|at: int|
                0 <= at < passed.len() && mutates(#[trigger] passed[at].request) ==> at > 0
                    && removes_what_resolved(passed[at - 1], passed[at].request)
        }),
    decreases replies.len(),
{
    if replies.len() > 0 {
        let start = removing(names);
        lemma_remove_only_what_resolved(names, replies.drop_last());
        lemma_remove_step_keeps_order(fed(start, replies.drop_last()), replies.last());
    }
}

/// What holds of a run that prunes, at every moment: it is at one of the
/// stages of pruning, or over; it never takes up an item; and an error
/// speaks of the directory, or of the entry that could not be deleted.
pub open spec fn prunes(run: RunView) -> bool {
    match run.stage {
        StageView::PruneOpen => true,
        StageView::PruneNext => true,
        StageView::PruneExists { entry } => true,
        StageView::PruneDelete { entry } => true,
        StageView::Finished(Ok(_)) => true,
        StageView::Finished(Err(error)) => match error {
            ErrorView::DirectoryReadFailed(path) => path == run.directory,
            ErrorView::DirectoryEntryFailed(path) => path == run.directory,
            ErrorView::EntryRemovalFailed(path) => true,
            _ => false,
        },
        _ => false,
    }
}

/// Whether the exchange `listed` is the step of the listing of `directory`
/// that gave the very path of which `request` asks the deletion.
pub open spec fn removes_what_was_listed(
    directory: Seq<u8>,
    listed: Exchange,
    request: RequestView,
) -> bool {
    request matches RequestView::Remove(path) && listed.request == RequestView::NextEntry(
        directory,
    ) && listed.reply == ReplyView::Entry(EntryView::Found(path))
}

/// The only change that a run that prunes asks for is a deletion, and it
/// asks for one only of an entry that the listing of the directory has just
/// given, right after it was told that this very entry leads to nothing. An
/// entry that leads to something, be it a link or not, is never touched, nor
/// is anything that the listing did not give.
pub proof fn law_prune_only_what_dangles(directory: Seq<u8>, replies: Seq<ReplyView>, at: int)
    requires
        0 <= at < exchanges(pruning(directory), replies).len(),
        mutates(exchanges(pruning(directory), replies)[at].request),
    ensures
        at > 1,
        removes_what_dangles(
            exchanges(pruning(directory), replies)[at - 1],
            exchanges(pruning(directory), replies)[at].request,
        ),
        removes_what_was_listed(
            directory,
            exchanges(pruning(directory), replies)[at - 2],
            exchanges(pruning(directory), replies)[at].request,
        ),
{
    lemma_prune_only_what_dangles(directory, replies);
}

proof fn lemma_prune_only_what_dangles(directory: Seq<u8>, replies: Seq<ReplyView>)
    ensures
        ({
            let run = fed(pruning(directory), replies);
            let passed = exchanges(pruning(directory), replies);
            &&& prunes(run)
            &&& run.directory == directory
            &&& run.stage matches StageView::PruneExists { entry } ==> passed.len() > 0
                && removes_what_was_listed(directory, passed.last(), RequestView::Remove(entry))
            &&& run.pending() matches Some(request) ==> (mutates(request) ==> passed.len() > 1
                && removes_what_dangles(passed.last(), request) && removes_what_was_listed(
                directory,
                passed[passed.len() - 2],
                request,
            ))
            &&& forall|at: int|
                0 <= at < passed.len() && mutates(#[trigger] passed[at].request) ==> at > 1
                    && removes_what_dangles(passed[at - 1], passed[at].request)
                    && removes_what_was_listed(directory, passed[at - 2], passed[at].request)
        }),
    decreases replies.len(),
{
    if replies.len() > 0 {
        lemma_prune_only_what_dangles(directory, replies.drop_last());
    }
}

/// How many replies a run that adds still takes at most: four for each
/// source that it has not taken up, and those that the source it works on
/// still needs.
pub open spec fn add_budget(run: RunView) -> int {
    4 * (run.items.len() - run.taken) + match run.stage {
        StageView::AddExists { source } => 4int,
        StageView::AddLookup { source, name } => 3,
        StageView::AddAbsolute { source, name } => 2,
        StageView::AddLink { target, link } => 1,
        StageView::AddReport { name, location } => 1,
        _ => 0,
    }
}

/// A run that adds comes to its end: it takes at most four replies for each
/// source, whatever it is answered.
pub proof fn law_add_ends(sources: Seq<Seq<u8>>, destination: Seq<u8>, replies: Seq<ReplyView>)
    ensures
        exchanges(adding(sources, destination), replies).len() + add_budget(
            fed(adding(sources, destination), replies),
        ) <= 4 * sources.len(),
        exchanges(adding(sources, destination), replies).len() <= 4 * sources.len(),
    decreases replies.len(),
{
    law_add_keeps_order(sources, destination, replies);
    law_items_stay(adding(sources, destination), replies);
    if replies.len() > 0 {
        law_add_ends(sources, destination, replies.drop_last());
        law_add_keeps_order(sources, destination, replies.drop_last());
        law_items_stay(adding(sources, destination), replies.drop_last());
    }
}

/// How many replies a run that removes still takes at most: two for each
/// name that it has not taken up, and those that the name it works on still
/// needs.
pub open spec fn remove_budget(run: RunView) -> int {
    2 * (run.items.len() - run.taken) + match run.stage {
        StageView::RemoveLookup { name } => 2int,
        StageView::RemoveDelete { path } => 1,
        _ => 0,
    }
}

/// A run that removes comes to its end: it takes at most two replies for
/// each name, whatever it is answered.
pub proof fn law_remove_ends(names: Seq<Seq<u8>>, replies: Seq<ReplyView>)
    ensures
        exchanges(removing(names), replies).len() + remove_budget(fed(removing(names), replies))
            <= 2 * names.len(),
        exchanges(removing(names), replies).len() <= 2 * names.len(),
    decreases replies.len(),
{
    law_remove_keeps_order(names, replies);
    law_items_stay(removing(names), replies);
    if replies.len() > 0 {
        law_remove_ends(names, replies.drop_last());
        law_remove_keeps_order(names, replies.drop_last());
        law_items_stay(removing(names), replies.drop_last());
    }
}

} // verus!
