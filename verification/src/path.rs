//! Paths as byte strings, read the way a Unix system reads them.

use vstd::prelude::*;

verus! {

/// The byte that separates the components of a path.
pub const SEPARATOR: u8 = 0x2f;

/// The byte of which the components `.` and `..` are made.
pub const DOT: u8 = 0x2e;

/// Whether `path` ends in a component that names nothing of its own: it is
/// empty after a separator, or it is a lone `.`.
pub open spec fn ends_idle(path: Seq<u8>) -> bool {
    path.len() > 0 && (path.last() == SEPARATOR || (path.last() == DOT && (path.len() == 1
        || path[path.len() - 2] == SEPARATOR)))
}

/// `path` without the separators and `.` components at its end.
pub open spec fn trimmed(path: Seq<u8>) -> Seq<u8>
    decreases path.len(),
{
    if ends_idle(path) {
        trimmed(path.drop_last())
    } else {
        path
    }
}

/// The longest suffix of `path` that holds no separator.
pub open spec fn last_part(path: Seq<u8>) -> Seq<u8>
    decreases path.len(),
{
    if path.len() == 0 || path.last() == SEPARATOR {
        Seq::empty()
    } else {
        last_part(path.drop_last()).push(path.last())
    }
}

/// The name that a path gives to what it leads to: its last component once
/// trailing separators and `.` components are set aside. A path that has no
/// component left, or whose last one is `..`, names nothing.
pub open spec fn final_component(path: Seq<u8>) -> Option<Seq<u8>> {
    let part = last_part(trimmed(path));
    if part.len() == 0 || part == seq![DOT, DOT] {
        None
    } else {
        Some(part)
    }
}

/// Where the second path is put behind the first: a `name` that starts at
/// the root stands alone, and a separator comes between the two where `base`
/// is not empty and does not end in one.
pub open spec fn joined(base: Seq<u8>, name: Seq<u8>) -> Seq<u8> {
    if is_rooted(name) {
        name
    } else if base.len() > 0 && base.last() != SEPARATOR {
        base.push(SEPARATOR) + name
    } else {
        base + name
    }
}

/// Whether `path` starts at the root of the file system.
pub open spec fn is_rooted(path: Seq<u8>) -> bool {
    path.len() > 0 && path[0] == SEPARATOR
}

/// Trimming looks only at the end of a path: any prefix that still holds the
/// trimmed path trims to the same.
proof fn lemma_trimmed_prefix(path: Seq<u8>, end: int)
    requires
        0 <= end <= path.len(),
        forall|k: int| end <= k <= path.len() ==> k == end || ends_idle(#[trigger] path.subrange(0, k)),
    ensures
        trimmed(path) == trimmed(path.subrange(0, end)),
    decreases path.len() - end,
{
    assert(path.subrange(0, path.len() as int) == path);
    if end < path.len() {
        assert(ends_idle(path.subrange(0, path.len() as int)));
        let shorter = path.drop_last();
        assert forall|k: int| end <= k <= shorter.len() implies k == end || ends_idle(
            #[trigger] shorter.subrange(0, k),
        ) by {
            assert(shorter.subrange(0, k) == path.subrange(0, k));
        }
        lemma_trimmed_prefix(shorter, end);
        assert(shorter.subrange(0, end) == path.subrange(0, end));
    }
}

/// The last part of a path that ends in a run without separators is that run
/// behind the last part of what stands before it.
proof fn lemma_last_part_run(path: Seq<u8>, start: int)
    requires
        0 <= start <= path.len(),
        forall|k: int| start <= k < path.len() ==> path[k] != SEPARATOR,
    ensures
        last_part(path) == last_part(path.subrange(0, start)) + path.subrange(
            start,
            path.len() as int,
        ),
    decreases path.len() - start,
{
    if start == path.len() {
        assert(path.subrange(0, start) == path);
        assert(path.subrange(start, path.len() as int) == Seq::<u8>::empty());
        assert(last_part(path) + Seq::<u8>::empty() == last_part(path));
    } else {
        let shorter = path.drop_last();
        lemma_last_part_run(shorter, start);
        assert(shorter.subrange(0, start) == path.subrange(0, start));
        assert(shorter.subrange(start, shorter.len() as int).push(path.last()) == path.subrange(
            start,
            path.len() as int,
        ));
        assert((last_part(shorter.subrange(0, start)) + shorter.subrange(
            start,
            shorter.len() as int,
        )).push(path.last()) == last_part(path.subrange(0, start)) + path.subrange(
            start,
            path.len() as int,
        ));
    }
}

/// Nothing idle is left at the end of a trimmed path.
proof fn lemma_trimmed_ends_busy(path: Seq<u8>)
    ensures
        !ends_idle(trimmed(path)),
    decreases path.len(),
{
    if ends_idle(path) {
        lemma_trimmed_ends_busy(path.drop_last());
    }
}

/// A name that `final_component` gives is a plain name: it is not empty,
/// holds no separator, and is neither `.` nor `..`.
pub proof fn law_final_component_is_plain(path: Seq<u8>)
    ensures
        final_component(path) matches Some(name) ==> is_plain(name),
{
    let kept = trimmed(path);
    lemma_last_part_plain(kept);
    lemma_trimmed_ends_busy(path);
    if last_part(kept) == seq![DOT] {
        assert(last_part(kept)[0] == DOT);
        assert(last_part(kept.drop_last()).push(kept.last()).len() == 1);
        assert(last_part(kept.drop_last()).len() == 0);
        if kept.len() > 1 {
            assert(kept.drop_last().last() == kept[kept.len() - 2]);
        }
    }
}

/// Whether `name` can name an entry of a directory: it is not empty, holds
/// no separator, and is neither `.` nor `..`.
pub open spec fn is_plain(name: Seq<u8>) -> bool {
    name.len() > 0 && !name.contains(SEPARATOR) && name != seq![DOT] && name != seq![DOT, DOT]
}

/// A plain name that is joined to a directory is the final component of the
/// path that results: the entry lies in that directory under that name.
pub proof fn law_joined_name(base: Seq<u8>, name: Seq<u8>)
    requires
        is_plain(name),
    ensures
        !is_rooted(name),
        final_component(joined(base, name)) == Some(name),
{
    assert(name.contains(name[0]));
    let head = if base.len() > 0 && base.last() != SEPARATOR {
        base.push(SEPARATOR)
    } else {
        base
    };
    let whole = head + name;
    assert(joined(base, name) == whole);
    assert(whole.last() == name.last());
    assert(name.contains(name.last()));
    if name.len() == 1 {
        assert(name == seq![name[0]]);
    } else {
        assert(whole[whole.len() - 2] == name[name.len() - 2]);
        assert(name.contains(name[name.len() - 2]));
    }
    assert(!ends_idle(whole));
    assert(trimmed(whole) == whole);
    assert forall|k: int| head.len() <= k < whole.len() implies whole[k] != SEPARATOR by {
        assert(whole[k] == name[k - head.len()]);
        assert(name.contains(name[k - head.len()]));
    }
    lemma_last_part_run(whole, head.len() as int);
    assert(whole.subrange(0, head.len() as int) == head);
    assert(whole.subrange(head.len() as int, whole.len() as int) == name);
    assert(last_part(head) == Seq::<u8>::empty());
    assert(Seq::<u8>::empty() + name == name);
}

/// A vector with the same bytes.
pub fn copied(bytes: &Vec<u8>) -> (copy: Vec<u8>)
    ensures
        copy@ == bytes@,
{
    bytes.clone()
}

proof fn lemma_last_part_plain(path: Seq<u8>)
    ensures
        !last_part(path).contains(SEPARATOR),
    decreases path.len(),
{
    if path.len() == 0 || path.last() == SEPARATOR {
        assert(!Seq::<u8>::empty().contains(SEPARATOR));
    } else {
        lemma_last_part_plain(path.drop_last());
        let before = last_part(path.drop_last());
        assert forall|i: int| 0 <= i < before.push(path.last()).len() implies before.push(
            path.last(),
        )[i] != SEPARATOR by {
            if i < before.len() {
                assert(before.contains(before[i]));
            }
        }
    }
}

/// The bytes of `path` from `start` up to `end`, as a vector of their own.
fn slice_of(path: &Vec<u8>, start: usize, end: usize) -> (part: Vec<u8>)
    requires
        start <= end <= path.len(),
    ensures
        part@ == path@.subrange(start as int, end as int),
{
    let mut part: Vec<u8> = Vec::new();
    let mut at: usize = start;
    while at < end
        invariant
            start <= at <= end <= path.len(),
            part@ == path@.subrange(start as int, at as int),
        decreases end - at,
    {
        part.push(path[at]);
        at += 1;
        assert(part@ == path@.subrange(start as int, at as int));
    }
    part
}

/// The final component of `path`, as the system would name the file that the
/// path leads to; `None` where the path has none.
pub fn file_name(path: &Vec<u8>) -> (name: Option<Vec<u8>>)
    ensures
        name.is_some() == final_component(path@).is_some(),
        name matches Some(bytes) ==> Some(bytes@) == final_component(path@),
{
    let mut end: usize = path.len();
    while end > 0 && (path[end - 1] == SEPARATOR || (path[end - 1] == DOT && (end == 1 || path[end
        - 2] == SEPARATOR)))
        invariant
            end <= path.len(),
            forall|k: int|
                end <= k <= path.len() ==> k == end || ends_idle(#[trigger] path@.subrange(0, k)),
        decreases end,
    {
        assert(ends_idle(path@.subrange(0, end as int)));
        end -= 1;
    }
    let mut start: usize = end;
    while start > 0 && path[start - 1] != SEPARATOR
        invariant
            start <= end <= path.len(),
            forall|k: int| start <= k < end ==> path@[k] != SEPARATOR,
        decreases start,
    {
        start -= 1;
    }
    proof {
        let kept = path@.subrange(0, end as int);
        lemma_trimmed_prefix(path@, end as int);
        assert(!ends_idle(kept));
        assert(trimmed(kept) == kept);
        lemma_last_part_run(kept, start as int);
        assert(kept.subrange(0, start as int) == path@.subrange(0, start as int));
        assert(kept.subrange(start as int, end as int) == path@.subrange(start as int, end as int));
        assert(last_part(path@.subrange(0, start as int)) == Seq::<u8>::empty());
        assert(last_part(kept) == path@.subrange(start as int, end as int));
    }
    if start == end {
        return None;
    }
    if end - start == 2 && path[start] == DOT && path[start + 1] == DOT {
        assert(path@.subrange(start as int, end as int) == seq![DOT, DOT]);
        return None;
    }
    let part = slice_of(path, start, end);
    proof {
        if part@ == seq![DOT, DOT] {
            assert(part@[0] == DOT && part@[1] == DOT);
        }
    }
    Some(part)
}

/// `name` put behind `base`, as the system joins two paths.
pub fn join(base: &Vec<u8>, name: &Vec<u8>) -> (path: Vec<u8>)
    ensures
        path@ == joined(base@, name@),
{
    let mut path: Vec<u8> = Vec::new();
    if !(name.len() > 0 && name[0] == SEPARATOR) {
        let mut at: usize = 0;
        while at < base.len()
            invariant
                at <= base.len(),
                path@ == base@.subrange(0, at as int),
            decreases base.len() - at,
        {
            path.push(base[at]);
            at += 1;
            assert(path@ == base@.subrange(0, at as int));
        }
        assert(base@.subrange(0, base.len() as int) == base@);
        if base.len() > 0 && base[base.len() - 1] != SEPARATOR {
            path.push(SEPARATOR);
        }
    }
    let ghost head = path@;
    let mut at: usize = 0;
    while at < name.len()
        invariant
            at <= name.len(),
            path@ == head + name@.subrange(0, at as int),
        decreases name.len() - at,
    {
        path.push(name[at]);
        at += 1;
        assert(path@ == head + name@.subrange(0, at as int));
    }
    assert(name@.subrange(0, name.len() as int) == name@);
    assert(Seq::<u8>::empty() + name@ == name@);
    path
}

} // verus!
