//! Pruning, told over the entries of the directory that is pruned.

use crate::error::ErrorView;
use crate::laws::{exchanges, fed, lemma_fed_in_two, Exchange};
use crate::protocol::{EntryView, ReplyView, RequestView};
use crate::run::{pruning, RunView, StageView};
use vstd::prelude::*;

verus! {

/// One entry of a directory as pruning sees it: its path, and whether the
/// path leads to something. A link whose target is gone leads to nothing;
/// a link whose target is there, and anything that is no link, does.
pub struct Listed {
    pub path: Seq<u8>,
    pub live: bool,
}

/// The entries that lead to something, in the order of the directory: what
/// the directory holds once it is pruned. Deleting an entry that leads to
/// nothing takes nothing from what another entry leads to, so each of them
/// leads to something afterwards as before.
pub open spec fn kept(entries: Seq<Listed>) -> Seq<Listed>
    decreases entries.len(),
{
    if entries.len() == 0 {
        Seq::empty()
    } else if entries.last().live {
        kept(entries.drop_last()).push(entries.last())
    } else {
        kept(entries.drop_last())
    }
}

/// The paths of the entries that lead to nothing, in the order of the
/// directory.
pub open spec fn dangling(entries: Seq<Listed>) -> Seq<Seq<u8>>
    decreases entries.len(),
{
    if entries.len() == 0 {
        Seq::empty()
    } else if entries.last().live {
        dangling(entries.drop_last())
    } else {
        dangling(entries.drop_last()).push(entries.last().path)
    }
}

/// What the system answers while a run that prunes deals with one entry,
/// where the deletion of a dangling entry succeeds.
pub open spec fn entry_replies(entry: Listed) -> Seq<ReplyView> {
    if entry.live {
        seq![ReplyView::Entry(EntryView::Found(entry.path)), ReplyView::Exists(true)]
    } else {
        seq![
            ReplyView::Entry(EntryView::Found(entry.path)),
            ReplyView::Exists(false),
            ReplyView::Removed(true),
        ]
    }
}

/// What the system answers while a run that prunes goes through `entries`.
pub open spec fn walk_replies(entries: Seq<Listed>) -> Seq<ReplyView>
    decreases entries.len(),
{
    if entries.len() == 0 {
        Seq::empty()
    } else {
        walk_replies(entries.drop_last()) + entry_replies(entries.last())
    }
}

/// What the system answers to a run that prunes a directory which can be
/// listed and holds `entries`: the listing starts, the entries come one by
/// one, and the listing ends.
pub open spec fn listing_replies(entries: Seq<Listed>) -> Seq<ReplyView> {
    seq![ReplyView::Opened(true)] + walk_replies(entries) + seq![ReplyView::Entry(EntryView::End)]
}

/// The paths that were deleted in the exchanges, in order.
pub open spec fn deleted(passed: Seq<Exchange>) -> Seq<Seq<u8>>
    decreases passed.len(),
{
    if passed.len() == 0 {
        Seq::empty()
    } else {
        match (passed.last().request, passed.last().reply) {
            (RequestView::Remove(path), ReplyView::Removed(true)) => deleted(
                passed.drop_last(),
            ).push(path),
            _ => deleted(passed.drop_last()),
        }
    }
}

proof fn lemma_deleted_in_two(first: Seq<Exchange>, second: Seq<Exchange>)
    ensures
        deleted(first + second) == deleted(first) + deleted(second),
    decreases second.len(),
{
    if second.len() == 0 {
        assert(first + second == first);
        assert(deleted(first) + Seq::<Seq<u8>>::empty() == deleted(first));
    } else {
        let whole = first + second;
        assert(whole.drop_last() == first + second.drop_last());
        assert(whole.last() == second.last());
        lemma_deleted_in_two(first, second.drop_last());
        match (second.last().request, second.last().reply) {
            (RequestView::Remove(path), ReplyView::Removed(true)) => {
                assert((deleted(first) + deleted(second.drop_last())).push(path) == deleted(first)
                    + deleted(second.drop_last()).push(path));
            },
            _ => {},
        }
    }
}

/// What a single exchange deleted.
proof fn lemma_deleted_one(exchange: Exchange)
    ensures
        deleted(seq![exchange]) == match (exchange.request, exchange.reply) {
            (RequestView::Remove(path), ReplyView::Removed(true)) => seq![path],
            _ => Seq::<Seq<u8>>::empty(),
        },
{
    let passed = seq![exchange];
    assert(passed.drop_last() == Seq::<Exchange>::empty());
    assert(deleted(Seq::<Exchange>::empty()) == Seq::<Seq<u8>>::empty());
    match (exchange.request, exchange.reply) {
        (RequestView::Remove(path), ReplyView::Removed(true)) => {
            assert(Seq::<Seq<u8>>::empty().push(path) == seq![path]);
        },
        _ => {},
    }
}

/// One reply, handed to a run that takes it.
proof fn lemma_fed_one(run: RunView, reply: ReplyView)
    requires
        run.accepts(reply),
    ensures
        fed(run, seq![reply]) == run.step(reply),
        exchanges(run, seq![reply]) == seq![Exchange { request: run.pending().unwrap(), reply }],
{
    let replies = seq![reply];
    assert(replies.drop_last() == Seq::<ReplyView>::empty());
    assert(fed(run, replies.drop_last()) == run);
    assert(exchanges(run, replies.drop_last()) == Seq::<Exchange>::empty());
    assert(Seq::<Exchange>::empty().push(Exchange { request: run.pending().unwrap(), reply })
        == seq![Exchange { request: run.pending().unwrap(), reply }]);
}

/// A run that waits for the next entry deals with one entry and waits for
/// the next again; it has deleted the entry exactly where it leads to
/// nothing.
proof fn lemma_one_entry(run: RunView, entry: Listed)
    requires
        run.stage == StageView::PruneNext,
    ensures
        fed(run, entry_replies(entry)) == run,
        deleted(exchanges(run, entry_replies(entry))) == if entry.live {
            Seq::<Seq<u8>>::empty()
        } else {
            seq![entry.path]
        },
{
    let found = ReplyView::Entry(EntryView::Found(entry.path));
    let asked = run.step(found);
    lemma_fed_one(run, found);
    let first = exchanges(run, seq![found]);
    lemma_deleted_one(first[0]);
    if entry.live {
        let there = ReplyView::Exists(true);
        lemma_fed_one(asked, there);
        lemma_fed_in_two(run, seq![found], seq![there]);
        assert(entry_replies(entry) == seq![found] + seq![there]);
        let second = exchanges(asked, seq![there]);
        lemma_deleted_one(second[0]);
        lemma_deleted_in_two(first, second);
        assert(asked.step(there) == run);
    } else {
        let gone = ReplyView::Exists(false);
        let done = ReplyView::Removed(true);
        let doomed = asked.step(gone);
        lemma_fed_one(asked, gone);
        lemma_fed_one(doomed, done);
        lemma_fed_in_two(run, seq![found], seq![gone]);
        lemma_fed_in_two(run, seq![found] + seq![gone], seq![done]);
        assert(entry_replies(entry) == seq![found] + seq![gone] + seq![done]);
        let second = exchanges(asked, seq![gone]);
        let third = exchanges(doomed, seq![done]);
        lemma_deleted_one(second[0]);
        lemma_deleted_one(third[0]);
        lemma_deleted_in_two(first, second);
        lemma_deleted_in_two(first + second, third);
        assert(doomed.step(done) == run);
    }
}

/// A run that waits for the next entry goes through `entries` and waits for
/// the next again; it has deleted exactly those that lead to nothing.
proof fn lemma_walk(run: RunView, entries: Seq<Listed>)
    requires
        run.stage == StageView::PruneNext,
    ensures
        fed(run, walk_replies(entries)) == run,
        deleted(exchanges(run, walk_replies(entries))) == dangling(entries),
    decreases entries.len(),
{
    if entries.len() > 0 {
        let before = walk_replies(entries.drop_last());
        let last = entry_replies(entries.last());
        lemma_walk(run, entries.drop_last());
        lemma_one_entry(run, entries.last());
        lemma_fed_in_two(run, before, last);
        lemma_deleted_in_two(exchanges(run, before), exchanges(run, last));
        if entries.last().live {
            assert(dangling(entries.drop_last()) + Seq::<Seq<u8>>::empty() == dangling(
                entries.drop_last(),
            ));
        } else {
            assert(dangling(entries.drop_last()) + seq![entries.last().path] == dangling(
                entries.drop_last(),
            ).push(entries.last().path));
        }
    }
}

/// Pruning a directory that can be listed, where each deletion succeeds: the
/// run ends well, and it has deleted exactly the entries that lead to
/// nothing, each once, in the order of the directory. What is left is
/// `kept(entries)`.
pub proof fn law_prune_deletes_the_dangling(directory: Seq<u8>, entries: Seq<Listed>)
    ensures
        fed(pruning(directory), listing_replies(entries)).outcome() == Some(
            Ok::<(), ErrorView>(()),
        ),
        deleted(exchanges(pruning(directory), listing_replies(entries))) == dangling(entries),
{
    let start = pruning(directory);
    let opened = ReplyView::Opened(true);
    let end = ReplyView::Entry(EntryView::End);
    let walking = start.step(opened);
    let walk = walk_replies(entries);
    lemma_fed_one(start, opened);
    lemma_walk(walking, entries);
    lemma_fed_one(walking, end);
    lemma_fed_in_two(start, seq![opened], walk);
    lemma_fed_in_two(start, seq![opened] + walk, seq![end]);
    let first = exchanges(start, seq![opened]);
    let second = exchanges(walking, walk);
    let third = exchanges(walking, seq![end]);
    lemma_deleted_one(first[0]);
    lemma_deleted_one(third[0]);
    lemma_deleted_in_two(first, second);
    lemma_deleted_in_two(first + second, third);
    assert(Seq::<Seq<u8>>::empty() + dangling(entries) + Seq::<Seq<u8>>::empty() == dangling(
        entries,
    ));
}

/// Every entry that pruning keeps leads to something.
proof fn lemma_kept_is_live(entries: Seq<Listed>)
    ensures
        forall|at: int| 0 <= at < kept(entries).len() ==> (#[trigger] kept(entries)[at]).live,
    decreases entries.len(),
{
    if entries.len() > 0 {
        let before = kept(entries.drop_last());
        lemma_kept_is_live(entries.drop_last());
        assert forall|at: int| 0 <= at < kept(entries).len() implies (#[trigger] kept(
            entries,
        )[at]).live by {
            if at < before.len() {
                assert(kept(entries)[at] == before[at]);
            }
        }
    }
}

/// A directory whose entries all lead to something is kept whole, and none of
/// its entries dangles.
proof fn lemma_all_live(entries: Seq<Listed>)
    requires
        forall|at: int| 0 <= at < entries.len() ==> (#[trigger] entries[at]).live,
    ensures
        kept(entries) == entries,
        dangling(entries) == Seq::<Seq<u8>>::empty(),
    decreases entries.len(),
{
    if entries.len() > 0 {
        let shorter = entries.drop_last();
        assert forall|at: int| 0 <= at < shorter.len() implies (#[trigger] shorter[at]).live by {
            assert(shorter[at] == entries[at]);
        }
        lemma_all_live(shorter);
        assert(entries.last().live);
        assert(shorter.push(entries.last()) == entries);
    }
}

/// Pruning twice is pruning once: a second run over what the first left
/// ends well, deletes nothing, and leaves the directory as the first left
/// it.
pub proof fn law_prune_is_idempotent(directory: Seq<u8>, entries: Seq<Listed>)
    ensures
        fed(pruning(directory), listing_replies(kept(entries))).outcome() == Some(
            Ok::<(), ErrorView>(()),
        ),
        deleted(exchanges(pruning(directory), listing_replies(kept(entries)))) == Seq::<
            Seq<u8>,
        >::empty(),
        kept(kept(entries)) == kept(entries),
{
    lemma_kept_is_live(entries);
    lemma_all_live(kept(entries));
    law_prune_deletes_the_dangling(directory, kept(entries));
}

} // verus!
