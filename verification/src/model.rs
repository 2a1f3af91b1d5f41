//! The mathematical model of the registry: entries as plain values, and the
//! registry as a sequence of them with the most recently used entry first.

use vstd::prelude::*;

verus! {

/// An instant as whole seconds since the Unix epoch and the nanoseconds
/// within that second.
#[derive(Clone, Copy, Debug, PartialEq, Eq, Structural)]
pub struct Timestamp {
    pub secs: i64,
    pub nanos: u32,
}

/// What an entry is: its four fields as plain values.
pub struct RecentFileView {
    pub name: Seq<char>,
    pub path: Seq<char>,
    pub last_modified: Timestamp,
    pub preview: Option<Seq<char>>,
}

/// The largest number of entries a registry holds after an insertion.
pub const MAX_RECENT_FILES: usize = 10;

/// `MAX_RECENT_FILES` as a number of the model.
pub open spec fn capacity() -> nat {
    MAX_RECENT_FILES as nat
}

/// The entries of `s` whose path is not `path`, in their order.
pub open spec fn without_path(s: Seq<RecentFileView>, path: Seq<char>) -> Seq<RecentFileView>
    decreases s.len(),
{
    if s.len() == 0 {
        Seq::empty()
    } else if s.last().path == path {
        without_path(s.drop_last(), path)
    } else {
        without_path(s.drop_last(), path).push(s.last())
    }
}

/// The entries of `s` at the positions that `mask` marks, in their order. A
/// position beyond the end of `mask` counts as unmarked.
pub open spec fn keep_marked(s: Seq<RecentFileView>, mask: Seq<bool>) -> Seq<RecentFileView>
    decreases s.len(),
{
    if s.len() == 0 {
        Seq::empty()
    } else if s.len() <= mask.len() && mask[s.len() - 1] {
        keep_marked(s.drop_last(), mask).push(s.last())
    } else {
        keep_marked(s.drop_last(), mask)
    }
}

/// The first `capacity()` entries of `s`.
pub open spec fn bounded(s: Seq<RecentFileView>) -> Seq<RecentFileView> {
    if s.len() > capacity() {
        s.take(capacity() as int)
    } else {
        s
    }
}

/// The registry after `entry` was added or touched: every entry with its path
/// leaves, `entry` goes to the front, and the oldest entries beyond the
/// capacity fall off the back.
pub open spec fn with_entry(s: Seq<RecentFileView>, entry: RecentFileView) -> Seq<RecentFileView> {
    bounded(seq![entry] + without_path(s, entry.path))
}

/// The registry after each of `entries` was added in turn, the first one first.
pub open spec fn with_entries(s: Seq<RecentFileView>, entries: Seq<RecentFileView>) -> Seq<
    RecentFileView,
>
    decreases entries.len(),
{
    if entries.len() == 0 {
        s
    } else {
        with_entry(with_entries(s, entries.drop_last()), entries.last())
    }
}

/// No two entries of `s` share a path.
pub open spec fn distinct_paths(s: Seq<RecentFileView>) -> bool {
    forall|i: int, j: int| 0 <= i < j < s.len() ==> s[i].path != s[j].path
}

/// No entry of `s` has the path `path`.
pub open spec fn lacks_path(s: Seq<RecentFileView>, path: Seq<char>) -> bool {
    forall|i: int| 0 <= i < s.len() ==> (#[trigger] s[i]).path != path
}

/// Every entry of `sub` is an entry of `s`.
pub open spec fn drawn_from(sub: Seq<RecentFileView>, s: Seq<RecentFileView>) -> bool {
    forall|k: int| 0 <= k < sub.len() ==> s.contains(#[trigger] sub[k])
}

/// The registry's invariant: within the capacity, and no path twice.
pub open spec fn well_formed(s: Seq<RecentFileView>) -> bool {
    s.len() <= capacity() && distinct_paths(s)
}

/// Removing a path leaves entries of the sequence only, none with that path,
/// keeps distinct paths distinct, and changes nothing where the path is absent.
pub proof fn lemma_without_path(s: Seq<RecentFileView>, path: Seq<char>)
    ensures
        without_path(s, path).len() <= s.len(),
        lacks_path(without_path(s, path), path),
        drawn_from(without_path(s, path), s),
        distinct_paths(s) ==> distinct_paths(without_path(s, path)),
        lacks_path(s, path) ==> without_path(s, path) == s,
    decreases s.len(),
{
    if s.len() > 0 {
        let front = s.drop_last();
        let rest = without_path(front, path);
        lemma_without_path(front, path);
        assert forall|k: int| 0 <= k < rest.len() implies s.contains(#[trigger] rest[k]) by {
            let j = choose|j: int| 0 <= j < front.len() && front[j] == rest[k];
            assert(s[j] == rest[k]);
        }
        if s.last().path != path {
            assert(s.contains(s.last()));
            if distinct_paths(s) {
                assert(distinct_paths(front)) by {
                    assert forall|i: int, j: int| 0 <= i < j < front.len() implies front[i].path
                        != front[j].path by {
                        assert(front[i] == s[i] && front[j] == s[j]);
                    }
                }
                assert forall|k: int| 0 <= k < rest.len() implies (#[trigger] rest[k]).path
                    != s.last().path by {
                    let j = choose|j: int| 0 <= j < front.len() && front[j] == rest[k];
                    assert(s[j] == rest[k]);
                }
            }
        } else if distinct_paths(s) {
            assert forall|i: int, j: int| 0 <= i < j < front.len() implies front[i].path
                != front[j].path by {
                assert(front[i] == s[i] && front[j] == s[j]);
            }
        }
        if lacks_path(s, path) {
            assert forall|i: int| 0 <= i < front.len() implies (#[trigger] front[i]).path
                != path by {
                assert(front[i] == s[i]);
            }
            assert(s.last() == s[s.len() - 1]);
            assert(rest.push(s.last()) =~= s);
        }
    }
}

/// Keeping the marked positions leaves entries of the sequence only and keeps
/// distinct paths distinct.
pub proof fn lemma_keep_marked(s: Seq<RecentFileView>, mask: Seq<bool>)
    ensures
        keep_marked(s, mask).len() <= s.len(),
        drawn_from(keep_marked(s, mask), s),
        distinct_paths(s) ==> distinct_paths(keep_marked(s, mask)),
    decreases s.len(),
{
    if s.len() > 0 {
        let front = s.drop_last();
        let rest = keep_marked(front, mask);
        lemma_keep_marked(front, mask);
        assert forall|k: int| 0 <= k < rest.len() implies s.contains(#[trigger] rest[k]) by {
            let j = choose|j: int| 0 <= j < front.len() && front[j] == rest[k];
            assert(s[j] == rest[k]);
        }
        assert(s.contains(s.last()));
        if distinct_paths(s) {
            assert forall|i: int, j: int| 0 <= i < j < front.len() implies front[i].path
                != front[j].path by {
                assert(front[i] == s[i] && front[j] == s[j]);
            }
            assert forall|k: int| 0 <= k < rest.len() implies (#[trigger] rest[k]).path
                != s.last().path by {
                let j = choose|j: int| 0 <= j < front.len() && front[j] == rest[k];
                assert(s[j] == rest[k]);
            }
        }
    }
}

} // verus!
