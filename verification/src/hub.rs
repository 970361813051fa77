//! The registry: what is known of the hub directory and of the repositories
//! directly under it, and the operations that create, find, list and delete them.

use vstd::prelude::*;
use crate::entry::{
    by_name, fresh, has_info, info_fault, insert_keeps_order, is_listed, name_of,
    listed, place_is_unique, remove_keeps_order, replace_keeps_order, sorted, Entry, Layout,
};
use crate::error::{HubError, IoAction};
use crate::name::{check_name, name_fault, normalize, normalized, suffix};
use crate::probe::{commits_of, get_commit_count, get_dir_size, size_under, HeadState, Node, Timestamp};
use crate::text::{
    chars_of, contains_text, has_suffix, join, joined, lex_lt, lex_lt_total, lex_lt_transitive,
    lowered, occurs_in, precedes, same_chars, to_lower,
};

verus! {

/// What is known of one repository.
#[derive(Debug, Clone, PartialEq, Eq)]
pub struct RepoInfo {
    /// The name under which it is stored, suffix included.
    pub name: String,
    /// Its path.
    pub path: String,
    /// The size of its files together, in bytes.
    pub size: u64,
    /// When its directory was last modified.
    pub modified: Timestamp,
    /// The number of its commits, where its head reference names one.
    pub commits: Option<usize>,
}

/// The registry of one hub directory.
///
/// It holds the path of the directory, whether the directory exists, and its
/// children in the order of their names. No two children share a name.
pub struct LocalGitHub {
    hub_path: String,
    present: bool,
    entries: Vec<Entry>,
}

/// `info` says of `entry`, a child of the directory `root`, what is known of it.
pub open spec fn describes(info: RepoInfo, root: Seq<char>, entry: Entry) -> bool {
    &&& info.name@ == entry.name@
    &&& info.path@ == joined(root, entry.name@)
    &&& size_under(entry.tree) == Some(info.size as nat)
    &&& entry.modified == Some(info.modified)
    &&& info.commits == commits_of(entry.head)
}

/// The characters of a string, as a function.
pub open spec fn text_of() -> spec_fn(String) -> Seq<char> {
    |s: String| s@
}

/// The test that a name holds `pattern`, both taken in lower case.
pub open spec fn matcher(pattern: Seq<char>) -> spec_fn(Seq<char>) -> bool {
    |stored: Seq<char>| occurs_in(lowered(stored), lowered(pattern))
}

/// The name of the hub directory under the home directory.
pub open spec fn default_dir() -> Seq<char> {
    ".local-git-hub"@
}

/// The directory that stands for a home directory that is not known.
pub open spec fn here() -> Seq<char> {
    "."@
}

impl LocalGitHub {
    /// The path of the hub directory.
    pub closed spec fn root(&self) -> Seq<char> {
        self.hub_path@
    }

    /// The hub directory exists.
    pub closed spec fn initialized(&self) -> bool {
        self.present
    }

    /// The children of the hub directory, in the order of their names.
    pub closed spec fn entries(&self) -> Seq<Entry> {
        self.entries@
    }

    /// The children of the hub directory by their names.
    pub open spec fn view(&self) -> Map<Seq<char>, Entry> {
        by_name(self.entries())
    }

    /// The names ascend strictly, and a directory that is not there has no children.
    pub open spec fn wf(&self) -> bool {
        &&& sorted(self.entries())
        &&& !self.initialized() ==> self.entries().len() == 0
    }

    /// The registry of a hub directory at `hub_path` that does not exist yet.
    pub fn new(hub_path: &str) -> (hub: LocalGitHub)
        ensures
            hub.wf(),
            hub.root() == hub_path@,
            !hub.initialized(),
            hub.entries().len() == 0,
    {
        LocalGitHub { hub_path: hub_path.to_owned(), present: false, entries: Vec::new() }
    }

    /// The registry of a hub directory at `hub_path` that exists and in which
    /// nothing was found so far.
    pub fn opened(hub_path: &str) -> (hub: LocalGitHub)
        ensures
            hub.wf(),
            hub.root() == hub_path@,
            hub.initialized(),
            hub.entries().len() == 0,
    {
        LocalGitHub { hub_path: hub_path.to_owned(), present: true, entries: Vec::new() }
    }

    /// Sees to it that the hub directory exists. Returns whether it has to be
    /// made now; the children stay as they are.
    pub fn init(&mut self) -> (made: bool)
        requires
            old(self).wf(),
        ensures
            final(self).wf(),
            final(self).initialized(),
            final(self).root() == old(self).root(),
            final(self).entries() == old(self).entries(),
            made == !old(self).initialized(),
    {
        let made = !self.present;
        self.present = true;
        made
    }

    /// The index of the entry named `stored`, if there is one.
    fn find(&self, stored: &Vec<char>) -> (at: Option<usize>)
        requires
            self.wf(),
        ensures
            match at {
                Some(i) => i < self.entries().len() && self.entries()[i as int].name@ == stored@
                    && self@.contains_key(stored@) && self@[stored@] == self.entries()[i as int],
                None => !self@.contains_key(stored@),
            },
    {
        let mut i: usize = 0;
        while i < self.entries.len()
            invariant
                i <= self.entries@.len(),
                self.wf(),
                forall|j: int| 0 <= j < i ==> (#[trigger] self.entries@[j]).name@ != stored@,
            decreases self.entries@.len() - i,
        {
            let here = chars_of(self.entries[i].name.as_str());
            if same_chars(&here, stored) {
                proof {
                    place_is_unique(self.entries@, i as int);
                }
                return Some(i);
            }
            i += 1;
        }
        None
    }

    /// The index before which an entry named `stored` belongs.
    fn slot(&self, stored: &Vec<char>) -> (at: usize)
        requires
            self.wf(),
            !self@.contains_key(stored@),
        ensures
            at <= self.entries().len(),
            forall|i: int| 0 <= i < at ==> lex_lt((#[trigger] self.entries()[i]).name@, stored@),
            forall|i: int|
                at <= i < self.entries().len() ==> lex_lt(
                    stored@,
                    (#[trigger] self.entries()[i]).name@,
                ),
    {
        let mut at: usize = 0;
        while at < self.entries.len()
            invariant
                at <= self.entries@.len(),
                self.wf(),
                !self@.contains_key(stored@),
                forall|i: int| 0 <= i < at ==> lex_lt((#[trigger] self.entries@[i]).name@, stored@),
            decreases self.entries@.len() - at,
        {
            let here = chars_of(self.entries[at].name.as_str());
            if !precedes(&here, stored) {
                proof {
                    let first = self.entries@[at as int].name@;
                    lex_lt_total(first, stored@);
                    assert(first != stored@);
                    assert forall|i: int| at <= i < self.entries@.len() implies lex_lt(
                        stored@,
                        (#[trigger] self.entries@[i]).name@,
                    ) by {
                        if i > at {
                            lex_lt_transitive(stored@, first, self.entries@[i].name@);
                        }
                    }
                }
                return at;
            }
            at += 1;
        }
        at
    }

    /// Takes note of a child that was found in the hub directory, which
    /// therefore exists. Returns whether the child was taken; one whose name
    /// is known already is not, and nothing changes.
    pub fn record(&mut self, entry: Entry) -> (taken: bool)
        requires
            old(self).wf(),
        ensures
            final(self).wf(),
            final(self).root() == old(self).root(),
            taken == !old(self)@.contains_key(entry.name@),
            taken ==> final(self).initialized() && final(self)@ == old(self)@.insert(
                entry.name@,
                entry,
            ),
            !taken ==> *final(self) == *old(self),
    {
        let stored = chars_of(entry.name.as_str());
        if self.find(&stored).is_some() {
            return false;
        }
        let at = self.slot(&stored);
        proof {
            insert_keeps_order(self.entries@, at as int, entry);
        }
        self.entries.insert(at, entry);
        self.present = true;
        true
    }

    /// Takes what was read anew of a child that is stored: the entry takes
    /// the place of the one of its name, and everything else stays. Returns
    /// whether the name was stored; where it was not, nothing changes.
    pub fn refresh(&mut self, entry: Entry) -> (known: bool)
        requires
            old(self).wf(),
        ensures
            final(self).wf(),
            final(self).root() == old(self).root(),
            final(self).initialized() == old(self).initialized(),
            known == old(self)@.contains_key(entry.name@),
            known ==> final(self)@ == old(self)@.insert(entry.name@, entry),
            !known ==> *final(self) == *old(self),
    {
        let stored = chars_of(entry.name.as_str());
        match self.find(&stored) {
            None => false,
            Some(at) => {
                proof {
                    replace_keeps_order(self.entries@, at as int, entry);
                }
                self.entries.set(at, entry);
                true
            },
        }
    }
}

impl LocalGitHub {
    /// The names that a listing shows, in their order.
    pub open spec fn listing(&self) -> Seq<Seq<char>> {
        self.entries().filter(is_listed()).map_values(name_of())
    }

    /// The names of the listing that hold `pattern`, whatever the case of the letters.
    pub open spec fn found_by(&self, pattern: Seq<char>) -> Seq<Seq<char>> {
        self.listing().filter(matcher(pattern))
    }

    /// The path of the child named `stored`.
    pub open spec fn path_of(&self, stored: Seq<char>) -> Seq<char> {
        joined(self.root(), stored)
    }

    /// The hub directory has a child stored for `name`.
    pub open spec fn stores(&self, name: Seq<char>) -> bool {
        self@.contains_key(normalized(name))
    }

    /// The child stored for `name`.
    pub open spec fn stored_for(&self, name: Seq<char>) -> Entry {
        self@[normalized(name)]
    }

    /// Why no repository called `name` can be made, if so: the name breaks a
    /// rule, or else a child is stored for it already.
    pub open spec fn create_fault(&self, name: Seq<char>) -> Option<HubError> {
        match name_fault(name) {
            Some(fault) => Some(HubError::InvalidName(fault)),
            None => if self.stores(name) {
                Some(HubError::AlreadyExists)
            } else {
                None
            },
        }
    }

    /// `after` is this registry with a repository called `name` made in it:
    /// the hub directory exists, and its children are those of before and a
    /// fresh repository stored for `name`.
    pub open spec fn created(&self, name: Seq<char>, after: LocalGitHub) -> bool {
        &&& after.wf()
        &&& after.root() == self.root()
        &&& after.initialized()
        &&& after.stores(name)
        &&& fresh(after.stored_for(name), normalized(name))
        &&& after@ == self@.insert(normalized(name), after.stored_for(name))
    }

    /// `after` is this registry once a repository called `name` was asked
    /// for: with the repository where nothing stood against it, else unchanged.
    pub open spec fn after_create(&self, name: Seq<char>, after: LocalGitHub) -> bool {
        if self.create_fault(name) is None {
            self.created(name, after)
        } else {
            after == *self
        }
    }

    /// Why the repository called `name` cannot be deleted, if so: no child is
    /// stored for it, or else the child lacks the layout of a bare repository.
    pub open spec fn delete_fault(&self, name: Seq<char>) -> Option<HubError> {
        if !self.stores(name) {
            Some(HubError::NotFound)
        } else if !self.stored_for(name).layout.complete() {
            Some(HubError::InvalidRepository)
        } else {
            None
        }
    }

    /// `after` is this registry without the child stored for `name`.
    pub open spec fn deleted(&self, name: Seq<char>, after: LocalGitHub) -> bool {
        &&& after.wf()
        &&& after.root() == self.root()
        &&& after.initialized() == self.initialized()
        &&& after@ == self@.remove(normalized(name))
    }

    /// `after` is this registry once the repository called `name` was to be
    /// deleted: without it where nothing stood against it, else unchanged.
    pub open spec fn after_delete(&self, name: Seq<char>, after: LocalGitHub) -> bool {
        if self.delete_fault(name) is None {
            self.deleted(name, after)
        } else {
            after == *self
        }
    }

    /// Why nothing can be said of the repository called `name`, if so: no
    /// child is stored for it, or else what was read of it does not suffice.
    pub open spec fn lookup_fault(&self, name: Seq<char>) -> Option<HubError> {
        if !self.stores(name) {
            Some(HubError::NotFound)
        } else {
            info_fault(self.stored_for(name))
        }
    }

    /// Whether a listing shows `entry`.
    fn shows(entry: &Entry) -> (shown: bool)
        ensures
            shown == listed(*entry),
    {
        if !entry.layout.is_dir {
            return false;
        }
        let chars = chars_of(entry.name.as_str());
        let tail: Vec<char> = vec!['.', 'g', 'i', 't'];
        assert(tail@ =~= suffix());
        has_suffix(&chars, &tail)
    }

    /// Tests `name` against the naming rules.
    pub fn validate_repo_name(&self, name: &str) -> (r: Result<(), HubError>)
        ensures
            r == match name_fault(name@) {
                Some(fault) => Err::<(), HubError>(HubError::InvalidName(fault)),
                None => Ok(()),
            },
    {
        match check_name(name) {
            Some(fault) => Err(HubError::InvalidName(fault)),
            None => Ok(()),
        }
    }

    /// Whether `entry` has what every bare repository has: head reference,
    /// object database and refs.
    pub fn is_valid_git_repo(&self, entry: &Entry) -> (valid: bool)
        ensures
            valid == entry.layout.complete(),
    {
        entry.layout.has_head && entry.layout.has_objects && entry.layout.has_refs
    }

    /// Whether the hub directory has a child stored for `name`.
    pub fn repo_exists(&self, name: &str) -> (found: bool)
        requires
            self.wf(),
        ensures
            found == self.stores(name@),
    {
        let stored = normalize(name);
        let chars = chars_of(stored.as_str());
        self.find(&chars).is_some()
    }

    /// The path of the child stored for `name`.
    pub fn get_repo_path(&self, name: &str) -> (r: Result<String, HubError>)
        requires
            self.wf(),
        ensures
            match r {
                Ok(path) => self.stores(name@) && path@ == self.path_of(normalized(name@)),
                Err(e) => !self.stores(name@) && e == HubError::NotFound,
            },
    {
        let stored = normalize(name);
        let chars = chars_of(stored.as_str());
        match self.find(&chars) {
            Some(_) => Ok(join(self.hub_path.as_str(), stored.as_str())),
            None => Err(HubError::NotFound),
        }
    }

    /// Makes a repository called `name`. Returns the path at which it is to be
    /// laid out on disk, which also makes the hub directory where it is missing.
    ///
    /// A name that breaks a rule is refused, and so is one that is stored
    /// already; in both cases nothing changes. Of the new repository nothing
    /// was read yet: `refresh` takes in what is read of it once it is laid out.
    pub fn create_repo(&mut self, name: &str) -> (r: Result<String, HubError>)
        requires
            old(self).wf(),
        ensures
            final(self).wf(),
            match r {
                Ok(path) => old(self).create_fault(name@) is None && path@ == old(self).path_of(
                    normalized(name@),
                ),
                Err(e) => old(self).create_fault(name@) == Some(e),
            },
            old(self).after_create(name@, *final(self)),
    {
        match check_name(name) {
            Some(fault) => {
                return Err(HubError::InvalidName(fault));
            },
            None => {},
        }
        let stored = normalize(name);
        let chars = chars_of(stored.as_str());
        if self.find(&chars).is_some() {
            return Err(HubError::AlreadyExists);
        }
        let path = join(self.hub_path.as_str(), stored.as_str());
        let entry = Entry {
            name: stored,
            layout: Layout { is_dir: true, has_head: true, has_objects: true, has_refs: true },
            tree: Node::Unread,
            modified: None,
            head: HeadState::Unavailable,
        };
        let _ = self.record(entry);
        Ok(path)
    }

    /// Deletes the repository stored for `name`. Returns the path of the tree
    /// that is to be removed from disk.
    ///
    /// A child that lacks the layout of a bare repository is never deleted.
    pub fn delete_repo(&mut self, name: &str) -> (r: Result<String, HubError>)
        requires
            old(self).wf(),
        ensures
            final(self).wf(),
            match r {
                Ok(path) => old(self).delete_fault(name@) is None && path@ == old(self).path_of(
                    normalized(name@),
                ),
                Err(e) => old(self).delete_fault(name@) == Some(e),
            },
            old(self).after_delete(name@, *final(self)),
    {
        let stored = normalize(name);
        let chars = chars_of(stored.as_str());
        match self.find(&chars) {
            None => Err(HubError::NotFound),
            Some(at) => {
                if !self.is_valid_git_repo(&self.entries[at]) {
                    return Err(HubError::InvalidRepository);
                }
                let path = join(self.hub_path.as_str(), stored.as_str());
                proof {
                    remove_keeps_order(self.entries@, at as int);
                }
                let _ = self.entries.remove(at);
                Ok(path)
            },
        }
    }

    /// What is known of `entry`, a child of the hub directory.
    fn info_of(&self, entry: &Entry) -> (r: Result<RepoInfo, HubError>)
        ensures
            match r {
                Ok(info) => info_fault(*entry) is None && describes(info, self.root(), *entry),
                Err(e) => info_fault(*entry) == Some(e),
            },
    {
        let size = match get_dir_size(&entry.tree) {
            Ok(size) => size,
            Err(e) => {
                return Err(e);
            },
        };
        let modified = match entry.modified {
            Some(modified) => modified,
            None => {
                return Err(HubError::IoFailure(IoAction::ReadModified));
            },
        };
        Ok(
            RepoInfo {
                name: entry.name.clone(),
                path: join(self.hub_path.as_str(), entry.name.as_str()),
                size,
                modified,
                commits: get_commit_count(&entry.head),
            },
        )
    }

    /// What is known of the repository stored for `name`.
    pub fn get_repo_info(&self, name: &str) -> (r: Result<RepoInfo, HubError>)
        requires
            self.wf(),
        ensures
            match r {
                Ok(info) => self.lookup_fault(name@) is None && describes(
                    info,
                    self.root(),
                    self.stored_for(name@),
                ),
                Err(e) => self.lookup_fault(name@) == Some(e),
            },
    {
        let stored = normalize(name);
        let chars = chars_of(stored.as_str());
        match self.find(&chars) {
            None => Err(HubError::NotFound),
            Some(at) => self.info_of(&self.entries[at]),
        }
    }

    /// The names of the directories under the hub directory that carry the
    /// suffix, in ascending order; none where the hub directory does not exist.
    pub fn list_repos(&self) -> (names: Vec<String>)
        requires
            self.wf(),
        ensures
            names@.map_values(text_of()) == self.listing(),
            !self.initialized() ==> names@.len() == 0,
    {
        let mut names: Vec<String> = Vec::new();
        let mut i: usize = 0;
        assert(self.entries@.take(0) =~= Seq::<Entry>::empty());
        assert(names@.map_values(text_of()) =~= Seq::<Seq<char>>::empty());
        while i < self.entries.len()
            invariant
                i <= self.entries@.len(),
                names@.map_values(text_of()) == self.entries@.take(i as int).filter(
                    is_listed(),
                ).map_values(name_of()),
            decreases self.entries@.len() - i,
        {
            let entry = &self.entries[i];
            let ghost before = self.entries@.take(i as int);
            proof {
                self.entries@.lemma_take_succ_push(i as int);
                before.lemma_filter_push(*entry, is_listed());
            }
            if Self::shows(entry) {
                proof {
                    before.filter(is_listed()).lemma_push_map_commute(name_of(), *entry);
                    names@.lemma_push_map_commute(text_of(), entry.name);
                }
                names.push(entry.name.clone());
            }
            i += 1;
        }
        assert(self.entries@.take(i as int) =~= self.entries@);
        names
    }

    /// What is known of each repository of the listing, in the order of the
    /// listing. A repository of which it cannot be said is left out.
    pub fn list_repos_with_info(&self) -> (infos: Vec<RepoInfo>)
        requires
            self.wf(),
        ensures
            infos@.len() == self.entries().filter(has_info()).len(),
            forall|k: int|
                0 <= k < infos@.len() ==> describes(
                    #[trigger] infos@[k],
                    self.root(),
                    self.entries().filter(has_info())[k],
                ),
    {
        let mut infos: Vec<RepoInfo> = Vec::new();
        let mut i: usize = 0;
        assert(self.entries@.take(0) =~= Seq::<Entry>::empty());
        while i < self.entries.len()
            invariant
                i <= self.entries@.len(),
                infos@.len() == self.entries@.take(i as int).filter(has_info()).len(),
                forall|k: int|
                    0 <= k < infos@.len() ==> describes(
                        #[trigger] infos@[k],
                        self.root(),
                        self.entries@.take(i as int).filter(has_info())[k],
                    ),
            decreases self.entries@.len() - i,
        {
            let entry = &self.entries[i];
            let ghost before = self.entries@.take(i as int);
            proof {
                self.entries@.lemma_take_succ_push(i as int);
                before.lemma_filter_push(*entry, has_info());
            }
            if Self::shows(entry) {
                match self.info_of(entry) {
                    Ok(info) => {
                        infos.push(info);
                    },
                    Err(_) => {},
                }
            }
            i += 1;
        }
        assert(self.entries@.take(i as int) =~= self.entries@);
        infos
    }

    /// The names of the listing that hold `pattern`, whatever the case of the
    /// letters, in the order of the listing.
    pub fn search_repos(&self, pattern: &str) -> (names: Vec<String>)
        requires
            self.wf(),
        ensures
            names@.map_values(text_of()) == self.found_by(pattern@),
    {
        let all = self.list_repos();
        let wanted = to_lower(pattern);
        let mut names: Vec<String> = Vec::new();
        let mut i: usize = 0;
        let ghost listing = self.listing();
        assert(listing.take(0) =~= Seq::<Seq<char>>::empty());
        assert(names@.map_values(text_of()) =~= Seq::<Seq<char>>::empty());
        while i < all.len()
            invariant
                i <= all@.len(),
                all@.map_values(text_of()) == listing,
                wanted@ == lowered(pattern@),
                names@.map_values(text_of()) == listing.take(i as int).filter(matcher(pattern@)),
            decreases all@.len() - i,
        {
            let lower = to_lower(all[i].as_str());
            proof {
                assert(listing[i as int] == all@[i as int]@);
                listing.lemma_take_succ_push(i as int);
                listing.take(i as int).lemma_filter_push(listing[i as int], matcher(pattern@));
            }
            if name_matches(lower.as_str(), wanted.as_str()) {
                proof {
                    names@.lemma_push_map_commute(text_of(), all@[i as int]);
                }
                names.push(all[i].clone());
            }
            i += 1;
        }
        assert(listing.take(i as int) =~= listing);
        names
    }
}

/// The path of the hub directory: the one that was asked for, else the
/// default directory under the home directory, else under the current one.
pub fn get_hub_path(cli_path: Option<String>, home: Option<String>) -> (path: String)
    ensures
        path@ == match cli_path {
            Some(p) => p@,
            None => joined(
                match home {
                    Some(h) => h@,
                    None => here(),
                },
                default_dir(),
            ),
        },
{
    match cli_path {
        Some(p) => p,
        None => match home {
            Some(h) => join(h.as_str(), ".local-git-hub"),
            None => join(".", ".local-git-hub"),
        },
    }
}

/// Whether a name holds a pattern, both given in lower case.
pub fn name_matches(lowered_name: &str, lowered_pattern: &str) -> (found: bool)
    ensures
        found == occurs_in(lowered_name@, lowered_pattern@),
{
    let hay = chars_of(lowered_name);
    let needle = chars_of(lowered_pattern);
    contains_text(&hay, &needle)
}

} // verus!
