//! The children of the hub directory as they were read, kept in the order of
//! their names and found by name.

use vstd::prelude::*;
use crate::error::{HubError, IoAction};
use crate::name::suffix;
use crate::probe::{size_under, HeadState, Node, Timestamp};
use crate::text::{ends_with, lex_lt, lex_lt_irreflexive, lex_lt_transitive};

verus! {

/// The name of the head reference file in a repository.
pub const HEAD_NAME: &'static str = "HEAD";

/// The name of the object database in a repository.
pub const OBJECTS_NAME: &'static str = "objects";

/// The name of the refs directory in a repository.
pub const REFS_NAME: &'static str = "refs";

/// What a look at one child of the hub directory shows of its kind.
#[derive(Debug, Clone, Copy, PartialEq, Eq, Structural)]
pub struct Layout {
    /// The child is a directory.
    pub is_dir: bool,
    /// It holds something called `HEAD_NAME`.
    pub has_head: bool,
    /// It holds something called `OBJECTS_NAME`.
    pub has_objects: bool,
    /// It holds something called `REFS_NAME`.
    pub has_refs: bool,
}

/// One child of the hub directory, as it was read.
#[derive(Debug, PartialEq, Eq)]
pub struct Entry {
    /// Its file name.
    pub name: String,
    /// Its kind.
    pub layout: Layout,
    /// The tree below it.
    pub tree: Node,
    /// When it was last modified, where that could be read.
    pub modified: Option<Timestamp>,
    /// Where its head reference leads.
    pub head: HeadState,
}

impl Layout {
    /// The layout of a bare repository: a directory with head reference,
    /// object database and refs.
    pub open spec fn bare() -> Layout {
        Layout { is_dir: true, has_head: true, has_objects: true, has_refs: true }
    }

    /// Head reference, object database and refs are all there.
    pub open spec fn complete(self) -> bool {
        self.has_head && self.has_objects && self.has_refs
    }
}

/// The names in `entries` ascend strictly.
pub open spec fn sorted(entries: Seq<Entry>) -> bool {
    forall|i: int, j: int|
        0 <= i < j < entries.len() ==> lex_lt(
            (#[trigger] entries[i]).name@,
            (#[trigger] entries[j]).name@,
        )
}

/// Some entry of `entries` has the name `stored`.
pub open spec fn holds(entries: Seq<Entry>, stored: Seq<char>) -> bool {
    exists|i: int| 0 <= i < entries.len() && (#[trigger] entries[i]).name@ == stored
}

/// An index at which `entries` has the name `stored`.
pub open spec fn place(entries: Seq<Entry>, stored: Seq<char>) -> int {
    choose|i: int| 0 <= i < entries.len() && (#[trigger] entries[i]).name@ == stored
}

/// The entries by their names.
pub open spec fn by_name(entries: Seq<Entry>) -> Map<Seq<char>, Entry> {
    Map::new(|stored: Seq<char>| holds(entries, stored), |stored: Seq<char>| entries[place(entries, stored)])
}

/// In sorted entries a name stands at one index only.
pub proof fn place_is_unique(entries: Seq<Entry>, i: int)
    requires
        sorted(entries),
        0 <= i < entries.len(),
    ensures
        holds(entries, entries[i].name@),
        place(entries, entries[i].name@) == i,
{
    let j = place(entries, entries[i].name@);
    lex_lt_irreflexive(entries[i].name@);
    if j < i {
        assert(lex_lt(entries[j].name@, entries[i].name@));
    } else if i < j {
        assert(lex_lt(entries[i].name@, entries[j].name@));
    }
}

/// Putting an entry between the names before it and the names after it keeps
/// the order and adds the entry under its name.
pub proof fn insert_keeps_order(entries: Seq<Entry>, at: int, entry: Entry)
    requires
        sorted(entries),
        0 <= at <= entries.len(),
        forall|i: int| 0 <= i < at ==> lex_lt((#[trigger] entries[i]).name@, entry.name@),
        forall|i: int| at <= i < entries.len() ==> lex_lt(entry.name@, (#[trigger] entries[i]).name@),
    ensures
        sorted(entries.insert(at, entry)),
        !holds(entries, entry.name@),
        by_name(entries.insert(at, entry)) == by_name(entries).insert(entry.name@, entry),
{
    let after = entries.insert(at, entry);
    assert forall|i: int, j: int| 0 <= i < j < after.len() implies lex_lt(
        (#[trigger] after[i]).name@,
        (#[trigger] after[j]).name@,
    ) by {
        if j < at {
            assert(after[i] == entries[i] && after[j] == entries[j]);
        } else if j == at {
            assert(after[i] == entries[i]);
        } else if i < at {
            assert(after[i] == entries[i] && after[j] == entries[j - 1]);
            if j - 1 == at {
                lex_lt_transitive(entries[i].name@, entry.name@, entries[j - 1].name@);
            }
        } else if i == at {
            assert(after[j] == entries[j - 1]);
        } else {
            assert(after[i] == entries[i - 1] && after[j] == entries[j - 1]);
        }
    }
    lex_lt_irreflexive(entry.name@);
    assert(!holds(entries, entry.name@));
    assert forall|n: Seq<char>| holds(after, n) <==> (holds(entries, n) || n == entry.name@) by {
        if holds(after, n) {
            let k = place(after, n);
            if k < at {
                assert(entries[k].name@ == n);
            } else if k > at {
                assert(entries[k - 1].name@ == n);
            }
        }
        if holds(entries, n) {
            let k = place(entries, n);
            if k < at {
                assert(after[k].name@ == n);
            } else {
                assert(after[k + 1].name@ == n);
            }
        }
        if n == entry.name@ {
            assert(after[at].name@ == n);
        }
    }
    assert forall|n: Seq<char>| holds(after, n) implies #[trigger] by_name(after)[n] == by_name(
        entries,
    ).insert(entry.name@, entry)[n] by {
        let k = place(after, n);
        place_is_unique(after, k);
        if k < at {
            assert(after[k] == entries[k]);
            place_is_unique(entries, k);
        } else if k > at {
            assert(after[k] == entries[k - 1]);
            place_is_unique(entries, k - 1);
        }
    }
    assert(by_name(after) =~= by_name(entries).insert(entry.name@, entry));
}

/// Putting an entry in the place of one with the same name keeps the order
/// and puts the entry under that name.
pub proof fn replace_keeps_order(entries: Seq<Entry>, at: int, entry: Entry)
    requires
        sorted(entries),
        0 <= at < entries.len(),
        entry.name@ == entries[at].name@,
    ensures
        sorted(entries.update(at, entry)),
        by_name(entries.update(at, entry)) == by_name(entries).insert(entry.name@, entry),
{
    let after = entries.update(at, entry);
    assert forall|i: int, j: int| 0 <= i < j < after.len() implies lex_lt(
        (#[trigger] after[i]).name@,
        (#[trigger] after[j]).name@,
    ) by {
        assert(after[i].name@ == entries[i].name@ && after[j].name@ == entries[j].name@);
    }
    assert forall|n: Seq<char>| holds(after, n) <==> holds(entries, n) by {
        if holds(after, n) {
            let k = place(after, n);
            assert(entries[k].name@ == n);
        }
        if holds(entries, n) {
            let k = place(entries, n);
            assert(after[k].name@ == n);
        }
    }
    place_is_unique(entries, at);
    assert forall|n: Seq<char>| holds(after, n) implies #[trigger] by_name(after)[n] == by_name(
        entries,
    ).insert(entry.name@, entry)[n] by {
        let k = place(after, n);
        place_is_unique(after, k);
        assert(entries[k].name@ == n);
        place_is_unique(entries, k);
    }
    assert(by_name(after) =~= by_name(entries).insert(entry.name@, entry));
}

/// Taking an entry out keeps the order and removes its name.
pub proof fn remove_keeps_order(entries: Seq<Entry>, at: int)
    requires
        sorted(entries),
        0 <= at < entries.len(),
    ensures
        sorted(entries.remove(at)),
        by_name(entries.remove(at)) == by_name(entries).remove(entries[at].name@),
{
    let after = entries.remove(at);
    let gone = entries[at].name@;
    assert forall|i: int, j: int| 0 <= i < j < after.len() implies lex_lt(
        (#[trigger] after[i]).name@,
        (#[trigger] after[j]).name@,
    ) by {
        let oi = if i < at { i } else { i + 1 };
        let oj = if j < at { j } else { j + 1 };
        assert(after[i] == entries[oi] && after[j] == entries[oj]);
    }
    place_is_unique(entries, at);
    assert forall|n: Seq<char>| holds(after, n) <==> (holds(entries, n) && n != gone) by {
        if holds(after, n) {
            let k = place(after, n);
            let ok = if k < at { k } else { k + 1 };
            assert(entries[ok].name@ == n);
            place_is_unique(entries, ok);
        }
        if holds(entries, n) && n != gone {
            let k = place(entries, n);
            if k < at {
                assert(after[k].name@ == n);
            } else {
                assert(after[k - 1].name@ == n);
            }
        }
    }
    assert forall|n: Seq<char>| holds(after, n) implies #[trigger] by_name(after)[n] == by_name(
        entries,
    )[n] by {
        let k = place(after, n);
        place_is_unique(after, k);
        let ok = if k < at { k } else { k + 1 };
        assert(after[k] == entries[ok]);
        place_is_unique(entries, ok);
    }
    assert(by_name(after) =~= by_name(entries).remove(gone));
}

/// An entry that a listing shows: a directory whose name carries the suffix.
pub open spec fn listed(entry: Entry) -> bool {
    entry.layout.is_dir && ends_with(entry.name@, suffix())
}

/// `listed`, as a value.
pub open spec fn is_listed() -> spec_fn(Entry) -> bool {
    |entry: Entry| listed(entry)
}

/// The name of an entry, as a function.
pub open spec fn name_of() -> spec_fn(Entry) -> Seq<char> {
    |entry: Entry| entry.name@
}

/// Why nothing can be said of `entry`, if so: its size cannot be had, or else
/// the time of its last change.
pub open spec fn info_fault(entry: Entry) -> Option<HubError> {
    if !(size_under(entry.tree) matches Some(bytes) && bytes <= u64::MAX) {
        Some(HubError::IoFailure(IoAction::MeasureSize))
    } else if entry.modified is None {
        Some(HubError::IoFailure(IoAction::ReadModified))
    } else {
        None
    }
}

/// An entry that a detailed listing shows.
pub open spec fn has_info() -> spec_fn(Entry) -> bool {
    |entry: Entry| listed(entry) && info_fault(entry) is None
}

/// A repository that was made a moment ago: its layout is that of a bare
/// repository, and nothing in it was read yet.
pub open spec fn fresh(entry: Entry, stored: Seq<char>) -> bool {
    &&& entry.name@ == stored
    &&& entry.layout == Layout::bare()
    &&& entry.tree == Node::Unread
    &&& entry.modified is None
    &&& entry.head == HeadState::Unavailable
}

} // verus!
