//! What holds of the registry's operations, stated over the model.

use crate::model::{
    RecentFileView, bounded, capacity, distinct_paths, keep_marked, lacks_path, lemma_keep_marked,
    lemma_without_path, well_formed, with_entries, with_entry, without_path,
};
use vstd::prelude::*;

verus! {

/// An insertion leaves at most `capacity()` entries, whatever the registry
/// held, puts the entry in front, and keeps the paths pairwise distinct
/// where they were.
pub proof fn lemma_add_keeps_invariant(s: Seq<RecentFileView>, entry: RecentFileView)
    ensures
        1 <= with_entry(s, entry).len() <= capacity(),
        with_entry(s, entry)[0] == entry,
        distinct_paths(s) ==> well_formed(with_entry(s, entry)),
{
    let rest = without_path(s, entry.path);
    let all = seq![entry] + rest;
    lemma_without_path(s, entry.path);
    assert(all[0] == entry);
    if distinct_paths(s) {
        assert forall|i: int, j: int| 0 <= i < j < all.len() implies all[i].path
            != all[j].path by {
            assert(all[j] == rest[j - 1]);
            if i > 0 {
                assert(all[i] == rest[i - 1]);
            }
        }
        assert(distinct_paths(bounded(all)));
    }
}

/// After any number of insertions the paths are pairwise distinct where they
/// were at the start, and the registry is within its capacity where it was
/// at the start or at least one entry went in.
pub proof fn lemma_insertions_keep_invariant(s: Seq<RecentFileView>, entries: Seq<RecentFileView>)
    requires
        distinct_paths(s),
    ensures
        distinct_paths(with_entries(s, entries)),
        (s.len() <= capacity() || entries.len() > 0) ==> with_entries(s, entries).len()
            <= capacity(),
    decreases entries.len(),
{
    if entries.len() > 0 {
        lemma_insertions_keep_invariant(s, entries.drop_last());
        lemma_add_keeps_invariant(with_entries(s, entries.drop_last()), entries.last());
    }
}

/// Starting from the empty registry, any number of insertions gives a
/// well-formed registry.
pub proof fn lemma_insertions_from_empty(entries: Seq<RecentFileView>)
    ensures
        well_formed(with_entries(Seq::empty(), entries)),
{
    lemma_insertions_keep_invariant(Seq::empty(), entries);
}

/// Where the paths are pairwise distinct, an entry at an unmarked position
/// is gone after the marked ones were kept: no entry left has its path.
pub proof fn lemma_unmarked_entry_omitted(s: Seq<RecentFileView>, mask: Seq<bool>, at: int)
    requires
        distinct_paths(s),
        0 <= at < s.len(),
        !(at < mask.len() && mask[at]),
    ensures
        lacks_path(keep_marked(s, mask), s[at].path),
    decreases s.len(),
{
    let front = s.drop_last();
    let rest = keep_marked(front, mask);
    lemma_keep_marked(front, mask);
    if at == s.len() - 1 {
        assert forall|k: int| 0 <= k < rest.len() implies (#[trigger] rest[k]).path
            != s[at].path by {
            let j = choose|j: int| 0 <= j < front.len() && front[j] == rest[k];
            assert(s[j] == rest[k]);
        }
    } else {
        assert forall|i: int, j: int| 0 <= i < j < front.len() implies front[i].path
            != front[j].path by {
            assert(front[i] == s[i] && front[j] == s[j]);
        }
        assert(front[at] == s[at]);
        lemma_unmarked_entry_omitted(front, mask, at);
    }
}

/// An entry at a marked position is still there after the marked ones were
/// kept.
pub proof fn lemma_marked_entry_kept(s: Seq<RecentFileView>, mask: Seq<bool>, at: int)
    requires
        0 <= at < s.len(),
        at < mask.len() && mask[at],
    ensures
        keep_marked(s, mask).contains(s[at]),
    decreases s.len(),
{
    let front = s.drop_last();
    let rest = keep_marked(front, mask);
    if at == s.len() - 1 {
        assert(rest.push(s.last())[rest.len() as int] == s[at]);
    } else {
        lemma_marked_entry_kept(front, mask, at);
        let k = choose|k: int| 0 <= k < rest.len() && rest[k] == front[at];
        assert(keep_marked(s, mask)[k] == s[at]);
    }
}

/// The entry just added or touched is the first of the registry.
pub proof fn lemma_touched_is_first(s: Seq<RecentFileView>, entry: RecentFileView)
    ensures
        with_entry(s, entry).len() > 0,
        with_entry(s, entry).first() == entry,
{
    lemma_add_keeps_invariant(s, entry);
}

/// Where every position is marked, keeping the marked ones keeps all: a
/// record whose files are all found loads as it was written.
pub proof fn lemma_all_marked_keeps_all(s: Seq<RecentFileView>, mask: Seq<bool>)
    requires
        s.len() <= mask.len(),
        forall|i: int| 0 <= i < s.len() ==> mask[i],
    ensures
        keep_marked(s, mask) == s,
    decreases s.len(),
{
    if s.len() == 0 {
        assert(keep_marked(s, mask) =~= s);
    } else {
        lemma_all_marked_keeps_all(s.drop_last(), mask);
        assert(s.drop_last().push(s.last()) =~= s);
    }
}

/// Where the first position is marked, the first entry is still the first
/// after the marked ones were kept.
pub proof fn lemma_first_marked_stays_first(s: Seq<RecentFileView>, mask: Seq<bool>)
    requires
        s.len() > 0,
        mask.len() > 0 && mask[0],
    ensures
        keep_marked(s, mask).len() > 0,
        keep_marked(s, mask).first() == s.first(),
    decreases s.len(),
{
    let front = s.drop_last();
    if front.len() == 0 {
        assert(keep_marked(front, mask) =~= Seq::<RecentFileView>::empty());
    } else {
        lemma_first_marked_stays_first(front, mask);
        assert(front.first() == s.first());
    }
}

/// An entry that was added or touched is the first of what the next load
/// lists, provided that its file is still found: loading the registry just
/// written, with the first position marked, puts that entry in front.
pub proof fn lemma_added_entry_is_listed_first(
    s: Seq<RecentFileView>,
    entry: RecentFileView,
    found: Seq<bool>,
)
    requires
        found.len() > 0 && found[0],
    ensures
        keep_marked(with_entry(s, entry), found).len() > 0,
        keep_marked(with_entry(s, entry), found).first() == entry,
{
    lemma_add_keeps_invariant(s, entry);
    lemma_first_marked_stays_first(with_entry(s, entry), found);
}

/// Removing a path twice gives what removing it once gives.
pub proof fn lemma_remove_twice(s: Seq<RecentFileView>, path: Seq<char>)
    ensures
        without_path(without_path(s, path), path) == without_path(s, path),
{
    lemma_without_path(s, path);
    lemma_without_path(without_path(s, path), path);
}

/// Removing a path that the registry does not hold changes nothing.
pub proof fn lemma_remove_absent(s: Seq<RecentFileView>, path: Seq<char>)
    requires
        lacks_path(s, path),
    ensures
        without_path(s, path) == s,
{
    lemma_without_path(s, path);
}

/// Adding `a`, then `b` with another path, then an entry with the path of
/// `a` again, to the empty registry leaves the last of the three in front
/// and `b` behind it: the path of `a` is held once.
pub proof fn lemma_touch_moves_to_front(a: RecentFileView, b: RecentFileView, again: RecentFileView)
    requires
        a.path != b.path,
        again.path == a.path,
    ensures
        with_entries(Seq::empty(), seq![a, b, again]) == seq![again, b],
{
    let none = Seq::<RecentFileView>::empty();
    let three = seq![a, b, again];
    let two = seq![a, b];
    let one = seq![a];
    assert(three.drop_last() =~= two);
    assert(two.drop_last() =~= one);
    assert(one.drop_last() =~= none);
    reveal_with_fuel(with_entries, 4);
    assert(with_entries(none, one) == with_entry(none, a));
    assert(with_entries(none, two) == with_entry(with_entries(none, one), b));
    assert(with_entries(none, three) == with_entry(with_entries(none, two), again));
    assert(without_path(none, a.path) =~= none);
    assert(with_entry(none, a) =~= one);
    lemma_remove_absent(one, b.path);
    let ba = seq![b, a];
    assert(with_entry(one, b) =~= ba);
    let only_b = seq![b];
    assert(ba.drop_last() =~= only_b);
    assert(only_b.drop_last() =~= none);
    reveal_with_fuel(without_path, 3);
    assert(without_path(only_b, again.path) =~= only_b);
    assert(without_path(ba, again.path) =~= only_b);
    assert(with_entry(ba, again) =~= seq![again, b]);
}

/// The last `capacity()` entries of `entries`, the last one first.
pub open spec fn newest_first(entries: Seq<RecentFileView>) -> Seq<RecentFileView> {
    let held = if entries.len() > capacity() {
        capacity()
    } else {
        entries.len()
    };
    Seq::new(held, |i: int| entries[entries.len() - 1 - i])
}

/// Adding entries with pairwise distinct paths to the empty registry leaves
/// the most recently added ones, as many as the capacity admits, the newest
/// first: the oldest are evicted first.
pub proof fn lemma_distinct_insertions_keep_newest(entries: Seq<RecentFileView>)
    requires
        distinct_paths(entries),
    ensures
        with_entries(Seq::empty(), entries) == newest_first(entries),
    decreases entries.len(),
{
    let none = Seq::<RecentFileView>::empty();
    if entries.len() == 0 {
        assert(newest_first(entries) =~= none);
    } else {
        let front = entries.drop_last();
        let last = entries.last();
        assert forall|i: int, j: int| 0 <= i < j < front.len() implies front[i].path
            != front[j].path by {
            assert(front[i] == entries[i] && front[j] == entries[j]);
        }
        lemma_distinct_insertions_keep_newest(front);
        let held = newest_first(front);
        assert forall|i: int| 0 <= i < held.len() implies (#[trigger] held[i]).path
            != last.path by {
            assert(held[i] == entries[front.len() - 1 - i]);
        }
        lemma_remove_absent(held, last.path);
        assert(with_entry(held, last) =~= newest_first(entries));
    }
}

} // verus!
