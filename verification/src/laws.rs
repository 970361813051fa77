//! What holds of the registry and of the remotes whatever they hold.

use vstd::prelude::*;
use crate::error::HubError;
use crate::entry::{
    by_name, holds, info_fault, is_listed, listed, place, place_is_unique, sorted, Entry,
};
use crate::hub::{matcher, LocalGitHub};
use crate::name::{forbidden, forbidden_char_is_a_fault, normalized, normalized_is_stable, valid_name};
use crate::remote::{
    distinct, position, position_is_unique, push_label, shown, shown_all, with_push_url,
    with_remote, without_remote, RemoteView,
};
use crate::text::{lex_lt, lowered, occurs_in};

verus! {

/// Once a repository was asked for under a valid name, a child is stored for
/// the name, and asking for it again fails because it exists.
pub proof fn create_then_exists(hub: LocalGitHub, name: Seq<char>, after: LocalGitHub)
    requires
        hub.wf(),
        valid_name(name),
        hub.after_create(name, after),
    ensures
        after.stores(name),
        after.create_fault(name) == Some(HubError::AlreadyExists),
{
}

/// A name that holds a forbidden character is refused as invalid, and the
/// registry stays as it was.
pub proof fn forbidden_name_is_refused(hub: LocalGitHub, name: Seq<char>, c: char, after: LocalGitHub)
    requires
        name.contains(c),
        forbidden().contains(c),
        hub.after_create(name, after),
    ensures
        hub.create_fault(name) matches Some(HubError::InvalidName(_)),
        after == hub,
{
    forbidden_char_is_a_fault(name, c);
}

/// A name may be given with the suffix or without it: the same child is meant.
pub proof fn suffix_is_optional(hub: LocalGitHub, name: Seq<char>)
    ensures
        hub.stores(normalized(name)) == hub.stores(name),
        hub.path_of(normalized(normalized(name))) == hub.path_of(normalized(name)),
        hub.delete_fault(normalized(name)) == hub.delete_fault(name),
        hub.lookup_fault(normalized(name)) == hub.lookup_fault(name),
{
    normalized_is_stable(name);
}

/// Of a hub directory that does not exist the listing is empty.
pub proof fn uninitialized_lists_nothing(hub: LocalGitHub)
    requires
        hub.wf(),
        !hub.initialized(),
    ensures
        hub.listing() == Seq::<Seq<char>>::empty(),
        forall|pattern: Seq<char>| #[trigger] hub.found_by(pattern) == Seq::<Seq<char>>::empty(),
{
    assert(hub.entries() =~= Seq::<Entry>::empty());
    assert(hub.entries().filter(is_listed()) =~= Seq::<Entry>::empty()) by {
        hub.entries().lemma_filter_len(is_listed());
    }
    assert(hub.listing() =~= Seq::<Seq<char>>::empty());
    assert forall|pattern: Seq<char>| #[trigger]
        hub.found_by(pattern) == Seq::<Seq<char>>::empty() by {
        hub.listing().lemma_filter_len(matcher(pattern));
        assert(hub.found_by(pattern) =~= Seq::<Seq<char>>::empty());
    }
}

/// A repository that was made a moment ago can be deleted, and is then not
/// stored any more: the children are those of before it was made.
pub proof fn delete_after_create(
    hub: LocalGitHub,
    name: Seq<char>,
    made: LocalGitHub,
    after: LocalGitHub,
)
    requires
        hub.wf(),
        hub.create_fault(name) is None,
        hub.created(name, made),
        made.after_delete(name, after),
    ensures
        made.delete_fault(name) is None,
        !after.stores(name),
        after@ == hub@,
{
    assert(after@ =~= hub@);
}

/// Once what was read of a repository that was made has been taken in, what
/// is said of the repository is said of what was read.
pub proof fn info_follows_refresh(
    hub: LocalGitHub,
    name: Seq<char>,
    made: LocalGitHub,
    read: Entry,
    after: LocalGitHub,
)
    requires
        hub.wf(),
        hub.create_fault(name) is None,
        hub.created(name, made),
        read.name@ == normalized(name),
        after@ == made@.insert(read.name@, read),
    ensures
        made@.contains_key(read.name@),
        after.stores(name),
        after.stored_for(name) == read,
        after.lookup_fault(name) == info_fault(read),
{
}

/// A child that lacks the layout of a bare repository is not deleted: the
/// request fails, and the registry stays as it was.
pub proof fn unfit_child_is_kept(hub: LocalGitHub, name: Seq<char>, after: LocalGitHub)
    requires
        hub.wf(),
        hub.stores(name),
        !hub.stored_for(name).layout.complete(),
        hub.after_delete(name, after),
    ensures
        hub.delete_fault(name) == Some(HubError::InvalidRepository),
        after == hub,
{
}

/// What a filter keeps of sorted entries is sorted, and every entry it keeps
/// is one of them.
proof fn kept_entries_are_sorted(entries: Seq<Entry>, keep: spec_fn(Entry) -> bool)
    requires
        sorted(entries),
    ensures
        sorted(entries.filter(keep)),
        forall|k: int|
            0 <= k < entries.filter(keep).len() ==> holds(
                entries,
                (#[trigger] entries.filter(keep)[k]).name@,
            ) && by_name(entries)[entries.filter(keep)[k].name@] == entries.filter(keep)[k],
    decreases entries.len(),
{
    let kept = entries.filter(keep);
    if entries.len() == 0 {
        entries.lemma_filter_len(keep);
    } else {
        let front = entries.drop_last();
        let last = entries.last();
        assert(entries =~= front.push(last));
        kept_entries_are_sorted(front, keep);
        front.lemma_filter_push(last, keep);
        let front_kept = front.filter(keep);
        assert forall|k: int| 0 <= k < front_kept.len() implies lex_lt(
            (#[trigger] front_kept[k]).name@,
            last.name@,
        ) && holds(entries, front_kept[k].name@) && by_name(entries)[front_kept[k].name@]
            == front_kept[k] by {
            let n = front_kept[k].name@;
            let i = place(front, n);
            place_is_unique(front, i);
            assert(front[i] == entries[i]);
            assert(entries[entries.len() - 1] == last);
            place_is_unique(entries, i);
        }
        place_is_unique(entries, entries.len() - 1);
    }
}

/// The listing ascends strictly, and it holds the names of the directories
/// among the children that carry the suffix, and no others.
pub proof fn listing_is_sorted_and_complete(hub: LocalGitHub)
    requires
        hub.wf(),
    ensures
        forall|i: int, j: int|
            0 <= i < j < hub.listing().len() ==> lex_lt(
                #[trigger] hub.listing()[i],
                #[trigger] hub.listing()[j],
            ),
        forall|stored: Seq<char>| #[trigger]
            hub.listing().contains(stored) <==> hub@.contains_key(stored) && listed(hub@[stored]),
{
    let entries = hub.entries();
    let kept = entries.filter(is_listed());
    kept_entries_are_sorted(entries, is_listed());
    entries.filter_lemma(is_listed());
    assert forall|stored: Seq<char>| #[trigger]
        hub.listing().contains(stored) <==> hub@.contains_key(stored) && listed(
            hub@[stored],
        ) by {
        if hub.listing().contains(stored) {
            let k = choose|k: int| 0 <= k < hub.listing().len() && hub.listing()[k] == stored;
            assert(kept[k].name@ == stored);
            assert(is_listed()(kept[k]));
        }
        if hub@.contains_key(stored) && listed(hub@[stored]) {
            let i = place(entries, stored);
            assert(is_listed()(entries[i]));
            assert(kept.contains(entries[i]));
            let k = choose|k: int| 0 <= k < kept.len() && kept[k] == entries[i];
            assert(hub.listing()[k] == stored);
        }
    }
    assert forall|i: int, j: int| 0 <= i < j < hub.listing().len() implies lex_lt(
        #[trigger] hub.listing()[i],
        #[trigger] hub.listing()[j],
    ) by {
        assert(lex_lt(kept[i].name@, kept[j].name@));
    }
}

/// What a filter keeps of an ascending sequence of names ascends.
proof fn kept_names_ascend(names: Seq<Seq<char>>, keep: spec_fn(Seq<char>) -> bool)
    requires
        forall|i: int, j: int|
            0 <= i < j < names.len() ==> lex_lt(#[trigger] names[i], #[trigger] names[j]),
    ensures
        forall|i: int, j: int|
            0 <= i < j < names.filter(keep).len() ==> lex_lt(
                #[trigger] names.filter(keep)[i],
                #[trigger] names.filter(keep)[j],
            ),
        forall|k: int|
            0 <= k < names.filter(keep).len() ==> names.contains(#[trigger] names.filter(keep)[k]),
    decreases names.len(),
{
    if names.len() == 0 {
        names.lemma_filter_len(keep);
    } else {
        let front = names.drop_last();
        let last = names.last();
        assert(names =~= front.push(last));
        kept_names_ascend(front, keep);
        front.lemma_filter_push(last, keep);
        let front_kept = front.filter(keep);
        assert forall|k: int| 0 <= k < front_kept.len() implies lex_lt(
            #[trigger] front_kept[k],
            last,
        ) && names.contains(front_kept[k]) by {
            let i = choose|i: int| 0 <= i < front.len() && front[i] == front_kept[k];
            assert(names[i] == front_kept[k]);
            assert(names[names.len() - 1] == last);
        }
        assert(names[names.len() - 1] == last);
    }
}

/// A repository that was made is listed under its stored name, and one that
/// was deleted is not listed any more.
pub proof fn listing_follows_create_and_delete(
    hub: LocalGitHub,
    name: Seq<char>,
    after: LocalGitHub,
)
    requires
        hub.wf(),
    ensures
        hub.create_fault(name) is None && hub.created(name, after) ==> after.listing().contains(
            normalized(name),
        ),
        hub.delete_fault(name) is None && hub.deleted(name, after) ==> !after.listing().contains(
            normalized(name),
        ),
{
    normalized_is_stable(name);
    if after.wf() {
        listing_is_sorted_and_complete(after);
    }
}

/// A search gives the names of the listing that hold the pattern, both in
/// lower case, and no others, in the order of the listing.
pub proof fn search_is_a_filter(hub: LocalGitHub, pattern: Seq<char>)
    requires
        hub.wf(),
    ensures
        forall|stored: Seq<char>| #[trigger]
            hub.found_by(pattern).contains(stored) <==> hub.listing().contains(stored)
                && occurs_in(lowered(stored), lowered(pattern)),
        forall|i: int, j: int|
            0 <= i < j < hub.found_by(pattern).len() ==> lex_lt(
                #[trigger] hub.found_by(pattern)[i],
                #[trigger] hub.found_by(pattern)[j],
            ),
{
    let listing = hub.listing();
    let keep = matcher(pattern);
    listing_is_sorted_and_complete(hub);
    kept_names_ascend(listing, keep);
    listing.filter_lemma(keep);
    assert forall|stored: Seq<char>| #[trigger]
        hub.found_by(pattern).contains(stored) <==> listing.contains(stored) && occurs_in(
            lowered(stored),
            lowered(pattern),
        ) by {
        if hub.found_by(pattern).contains(stored) {
            let k = choose|k: int|
                0 <= k < listing.filter(keep).len() && listing.filter(keep)[k] == stored;
            assert(keep(listing.filter(keep)[k]));
        }
        if listing.contains(stored) && occurs_in(lowered(stored), lowered(pattern)) {
            let i = choose|i: int| 0 <= i < listing.len() && listing[i] == stored;
            assert(keep(listing[i]));
        }
    }
}

/// A search does not tell patterns apart that are the same in lower case.
pub proof fn search_ignores_case(hub: LocalGitHub, pattern: Seq<char>, other: Seq<char>)
    requires
        lowered(pattern) == lowered(other),
    ensures
        hub.found_by(pattern) == hub.found_by(other),
{
    assert(matcher(pattern) =~= matcher(other));
}

/// A remote that was added is listed last, with the name and the URL it was
/// added with.
pub proof fn added_remote_is_listed(remotes: Seq<RemoteView>, name: Seq<char>, url: Seq<char>)
    ensures
        shown_all(with_remote(remotes, name, url)) == shown_all(remotes).push((name, url)),
{
    let after = with_remote(remotes, name, url);
    assert(after.drop_last() =~= remotes);
    assert(shown(after.last()) =~= seq![(name, url)]);
    assert(shown_all(after) =~= shown_all(remotes).push((name, url)));
}

/// A remote that was added and then given another URL to push to is listed
/// with the name and the URL it was added with, and right after that with its
/// push label and the push URL.
pub proof fn push_url_is_listed_after(
    remotes: Seq<RemoteView>,
    name: Seq<char>,
    url: Seq<char>,
    push: Seq<char>,
)
    requires
        distinct(remotes),
        position(remotes, name) is None,
        push != url,
    ensures
        shown_all(with_push_url(with_remote(remotes, name, url), name, push)) == shown_all(
            remotes,
        ).push((name, url)).push((push_label(name), push)),
{
    let added = with_remote(remotes, name, url);
    let last = remotes.len() as int;
    assert(distinct(added)) by {
        assert forall|i: int, j: int| 0 <= i < j < added.len() implies (#[trigger] added[i]).name
            != (#[trigger] added[j]).name by {
            if j == last {
                assert(remotes[i].name != name);
            } else {
                assert(added[i] == remotes[i] && added[j] == remotes[j]);
            }
        }
    }
    position_is_unique(added, last);
    let after = with_push_url(added, name, push);
    assert(after.drop_last() =~= remotes);
    assert(shown(after.last()) =~= seq![(name, url), (push_label(name), push)]);
    assert(shown_all(after) =~= shown_all(remotes).push((name, url)).push(
        (push_label(name), push),
    ));
}

/// A push URL that is given to a remote changes nothing else: the remote
/// keeps its place, its name and its URL, and the other remotes stay.
pub proof fn push_url_keeps_the_rest(
    remotes: Seq<RemoteView>,
    name: Seq<char>,
    push: Seq<char>,
    at: int,
)
    requires
        distinct(remotes),
        position(remotes, name) == Some(at),
    ensures
        with_push_url(remotes, name, push).len() == remotes.len(),
        with_push_url(remotes, name, push)[at].name == name,
        with_push_url(remotes, name, push)[at].url == remotes[at].url,
        with_push_url(remotes, name, push)[at].push_url == Some(push),
        forall|j: int|
            0 <= j < remotes.len() && j != at ==> #[trigger] with_push_url(remotes, name, push)[j]
                == remotes[j],
        distinct(with_push_url(remotes, name, push)),
{
    let after = with_push_url(remotes, name, push);
    assert forall|i: int, j: int| 0 <= i < j < after.len() implies (#[trigger] after[i]).name
        != (#[trigger] after[j]).name by {
        assert(after[i].name == remotes[i].name && after[j].name == remotes[j].name);
    }
}

/// A second push URL takes the place of the first.
pub proof fn second_push_url_replaces_first(
    remotes: Seq<RemoteView>,
    name: Seq<char>,
    first: Seq<char>,
    second: Seq<char>,
)
    requires
        distinct(remotes),
    ensures
        with_push_url(with_push_url(remotes, name, first), name, second) == with_push_url(
            remotes,
            name,
            second,
        ),
{
    let once = with_push_url(remotes, name, first);
    match position(remotes, name) {
        Some(at) => {
            push_url_keeps_the_rest(remotes, name, first, at);
            position_is_unique(once, at);
            assert(with_push_url(once, name, second) =~= with_push_url(remotes, name, second));
        },
        None => {
            let last = remotes.len() as int;
            assert forall|i: int, j: int| 0 <= i < j < once.len() implies (#[trigger] once[i]).name
                != (#[trigger] once[j]).name by {
                if j == last {
                    assert(remotes[i].name != name);
                } else {
                    assert(once[i] == remotes[i] && once[j] == remotes[j]);
                }
            }
            position_is_unique(once, last);
            assert(with_push_url(once, name, second) =~= with_push_url(remotes, name, second));
        },
    }
}

/// A remote that was removed is not there any more.
pub proof fn removed_remote_is_gone(remotes: Seq<RemoteView>, name: Seq<char>)
    requires
        distinct(remotes),
    ensures
        position(without_remote(remotes, name), name) is None,
        distinct(without_remote(remotes, name)),
{
    match position(remotes, name) {
        Some(at) => {
            let after = remotes.remove(at);
            assert forall|i: int| 0 <= i < after.len() implies (#[trigger] after[i]).name
                != name by {
                let o = if i < at { i } else { i + 1 };
                assert(after[i] == remotes[o]);
            }
            assert forall|i: int, j: int| 0 <= i < j < after.len() implies (#[trigger] after[i]).name
                != (#[trigger] after[j]).name by {
                let oi = if i < at { i } else { i + 1 };
                let oj = if j < at { j } else { j + 1 };
                assert(after[i] == remotes[oi] && after[j] == remotes[oj]);
            }
        },
        None => {},
    }
}

} // verus!
