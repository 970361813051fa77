//! The remotes of a working repository: adding one that points at the hub,
//! giving one a second place to push to, listing and removing them.

use vstd::prelude::*;
use crate::error::HubError;
use crate::text::same_text;

verus! {

/// A remote as the configuration of a working repository holds it.
#[derive(Debug, Clone, PartialEq, Eq)]
pub struct Remote {
    /// Its name.
    pub name: String,
    /// The URL it fetches from, and pushes to unless `push_url` says otherwise.
    pub url: Option<String>,
    /// The URL it pushes to, where one is set apart.
    pub push_url: Option<String>,
}

/// A remote, with texts as sequences of characters.
pub struct RemoteView {
    pub name: Seq<char>,
    pub url: Option<Seq<char>>,
    pub push_url: Option<Seq<char>>,
}

/// The characters of a string that may be missing.
pub open spec fn text_or_none(s: Option<String>) -> Option<Seq<char>> {
    match s {
        Some(s) => Some(s@),
        None => None,
    }
}

impl View for Remote {
    type V = RemoteView;

    open spec fn view(&self) -> RemoteView {
        RemoteView {
            name: self.name@,
            url: text_or_none(self.url),
            push_url: text_or_none(self.push_url),
        }
    }
}

/// The view of a remote, as a function.
pub open spec fn remote_view() -> spec_fn(Remote) -> RemoteView {
    |r: Remote| r@
}

/// The configuration of the working repository that was looked for: whether
/// one was found, and its remotes in the order in which they were found. No
/// two remotes share a name.
pub struct WorkingRepo {
    found: bool,
    remotes: Vec<Remote>,
}

/// The operations on the remotes of a working repository.
pub struct RemoteManager;

/// The name under which the push URL of the remote `name` is listed.
pub open spec fn push_label(name: Seq<char>) -> Seq<char> {
    name + " (push)"@
}

/// The key under which the configuration holds the push URL of the remote `name`.
pub open spec fn push_url_key_of(name: Seq<char>) -> Seq<char> {
    "remote."@ + name + ".pushurl"@
}

/// The pairs of name and URL that a listing shows for one remote: none for a
/// remote without URL; else its name with its URL and, where its push URL is
/// another one, its push label with the push URL.
pub open spec fn shown(remote: RemoteView) -> Seq<(Seq<char>, Seq<char>)> {
    match remote.url {
        None => seq![],
        Some(url) => match remote.push_url {
            Some(push) if push != url => seq![(remote.name, url), (push_label(remote.name), push)],
            _ => seq![(remote.name, url)],
        },
    }
}

/// The pairs that a listing shows for `remotes`, remote after remote.
pub open spec fn shown_all(remotes: Seq<RemoteView>) -> Seq<(Seq<char>, Seq<char>)>
    decreases remotes.len(),
{
    if remotes.len() == 0 {
        seq![]
    } else {
        shown_all(remotes.drop_last()) + shown(remotes.last())
    }
}

/// A pair of strings as a pair of texts, as a function.
pub open spec fn pair_view() -> spec_fn((String, String)) -> (Seq<char>, Seq<char>) {
    |p: (String, String)| (p.0@, p.1@)
}

/// The index of the remote called `name`, if there is one.
pub open spec fn position(remotes: Seq<RemoteView>, name: Seq<char>) -> Option<int> {
    if exists|i: int| 0 <= i < remotes.len() && (#[trigger] remotes[i]).name == name {
        Some(choose|i: int| 0 <= i < remotes.len() && (#[trigger] remotes[i]).name == name)
    } else {
        None
    }
}

/// No two of `remotes` share a name.
pub open spec fn distinct(remotes: Seq<RemoteView>) -> bool {
    forall|i: int, j: int|
        0 <= i < j < remotes.len() ==> (#[trigger] remotes[i]).name != (#[trigger] remotes[j]).name
}

/// `remotes` and after them a remote called `name` with the URL `url` alone.
pub open spec fn with_remote(remotes: Seq<RemoteView>, name: Seq<char>, url: Seq<char>) -> Seq<
    RemoteView,
> {
    remotes.push(RemoteView { name, url: Some(url), push_url: None })
}

/// `remotes` with `url` as the push URL of the remote called `name`: the
/// remote keeps its place and its URL, and one that was not there stands at
/// the end, with the push URL alone.
pub open spec fn with_push_url(remotes: Seq<RemoteView>, name: Seq<char>, url: Seq<char>) -> Seq<
    RemoteView,
> {
    match position(remotes, name) {
        Some(i) => remotes.update(i, RemoteView { name, url: remotes[i].url, push_url: Some(url) }),
        None => remotes.push(RemoteView { name, url: None, push_url: Some(url) }),
    }
}

/// `remotes` without the remote called `name`.
pub open spec fn without_remote(remotes: Seq<RemoteView>, name: Seq<char>) -> Seq<RemoteView> {
    match position(remotes, name) {
        Some(i) => remotes.remove(i),
        None => remotes,
    }
}

/// Among distinct remotes, the remote at an index is the one its name leads to.
pub proof fn position_is_unique(remotes: Seq<RemoteView>, i: int)
    requires
        distinct(remotes),
        0 <= i < remotes.len(),
    ensures
        position(remotes, remotes[i].name) == Some(i),
{
}

impl WorkingRepo {
    /// A working repository was found.
    pub closed spec fn found(&self) -> bool {
        self.found
    }

    /// Its remotes, in the order in which they are held.
    pub closed spec fn view(&self) -> Seq<RemoteView> {
        self.remotes@.map_values(remote_view())
    }

    /// No two remotes share a name, and where no repository was found there are none.
    pub open spec fn wf(&self) -> bool {
        &&& distinct(self@)
        &&& !self.found() ==> self@.len() == 0
    }

    /// Why no remote called `name` can be added, if so: there is no working
    /// repository, or else a remote has the name already.
    pub open spec fn add_remote_fault(&self, name: Seq<char>) -> Option<HubError> {
        if !self.found() {
            Some(HubError::NotFound)
        } else if position(self@, name) is Some {
            Some(HubError::AlreadyExists)
        } else {
            None
        }
    }

    /// Why `url` cannot become the push URL of the remote called `name`, if
    /// so: there is no working repository, or else the remote has `url` as its
    /// URL or as its push URL already.
    pub open spec fn push_url_fault(&self, name: Seq<char>, url: Seq<char>) -> Option<HubError> {
        if !self.found() {
            Some(HubError::NotFound)
        } else {
            match position(self@, name) {
                Some(i) => if self@[i].url == Some(url) || self@[i].push_url == Some(url) {
                    Some(HubError::RedundantPushUrl)
                } else {
                    None
                },
                None => None,
            }
        }
    }

    /// Why the remote called `name` cannot be removed, if so: it is not there.
    pub open spec fn remove_fault(&self, name: Seq<char>) -> Option<HubError> {
        if position(self@, name) is None {
            Some(HubError::NotFound)
        } else {
            None
        }
    }

    /// Why the remotes cannot be listed, if so: there is no working repository.
    pub open spec fn list_fault(&self) -> Option<HubError> {
        if !self.found() {
            Some(HubError::NotFound)
        } else {
            None
        }
    }

    /// What is known where no working repository was found.
    pub fn missing() -> (repo: WorkingRepo)
        ensures
            repo.wf(),
            !repo.found(),
            repo@.len() == 0,
    {
        WorkingRepo { found: false, remotes: Vec::new() }
    }

    /// A working repository in which no remote was found so far.
    pub fn opened() -> (repo: WorkingRepo)
        ensures
            repo.wf(),
            repo.found(),
            repo@.len() == 0,
    {
        WorkingRepo { found: true, remotes: Vec::new() }
    }

    /// The index of the remote called `name`, if there is one.
    fn find(&self, name: &str) -> (at: Option<usize>)
        requires
            self.wf(),
        ensures
            match at {
                Some(i) => i < self@.len() && position(self@, name@) == Some(i as int)
                    && self.remotes@[i as int]@ == self@[i as int],
                None => position(self@, name@) is None,
            },
    {
        let mut i: usize = 0;
        while i < self.remotes.len()
            invariant
                i <= self.remotes@.len(),
                self.wf(),
                forall|j: int| 0 <= j < i ==> (#[trigger] self@[j]).name != name@,
            decreases self.remotes@.len() - i,
        {
            if same_text(self.remotes[i].name.as_str(), name) {
                proof {
                    position_is_unique(self@, i as int);
                }
                return Some(i);
            }
            i += 1;
        }
        None
    }

    /// Takes note of a remote that was found in the configuration of the
    /// working repository. Returns whether it was taken; one whose name is
    /// known already, or one of a repository that was not found, is not, and
    /// nothing changes.
    pub fn record(&mut self, remote: Remote) -> (taken: bool)
        requires
            old(self).wf(),
        ensures
            final(self).wf(),
            final(self).found() == old(self).found(),
            taken == (old(self).found() && position(old(self)@, remote.name@) is None),
            taken ==> final(self)@ == old(self)@.push(remote@),
            !taken ==> *final(self) == *old(self),
    {
        if !self.found {
            return false;
        }
        if self.find(remote.name.as_str()).is_some() {
            return false;
        }
        proof {
            self.remotes@.lemma_push_map_commute(remote_view(), remote);
        }
        self.remotes.push(remote);
        true
    }
}

/// Whether `text` is there and holds the characters of `other`.
fn is_text(text: &Option<String>, other: &str) -> (r: bool)
    ensures
        r == (text_or_none(*text) == Some(other@)),
{
    match text {
        Some(t) => same_text(t.as_str(), other),
        None => false,
    }
}

/// The key under which the configuration holds the push URL of the remote
/// called `remote_name`.
pub fn push_url_key(remote_name: &str) -> (key: String)
    ensures
        key@ == push_url_key_of(remote_name@),
{
    let mut key = "remote.".to_owned();
    key.append(remote_name);
    key.append(".pushurl");
    key
}

impl RemoteManager {
    /// Adds a remote called `remote_name` that fetches from and pushes to
    /// `hub_repo_path`. A name that a remote has already is refused.
    pub fn add_local_remote(repo: &mut WorkingRepo, remote_name: &str, hub_repo_path: &str) -> (r:
        Result<(), HubError>)
        requires
            old(repo).wf(),
        ensures
            final(repo).wf(),
            final(repo).found() == old(repo).found(),
            match r {
                Ok(_) => old(repo).add_remote_fault(remote_name@) is None && final(repo)@
                    == with_remote(old(repo)@, remote_name@, hub_repo_path@),
                Err(e) => old(repo).add_remote_fault(remote_name@) == Some(e) && *final(repo)
                    == *old(repo),
            },
    {
        if !repo.found {
            return Err(HubError::NotFound);
        }
        if repo.find(remote_name).is_some() {
            return Err(HubError::AlreadyExists);
        }
        let remote = Remote {
            name: remote_name.to_owned(),
            url: Some(hub_repo_path.to_owned()),
            push_url: None,
        };
        proof {
            repo.remotes@.lemma_push_map_commute(remote_view(), remote);
        }
        repo.remotes.push(remote);
        Ok(())
    }

    /// Gives the remote called `remote_name` the push URL `hub_repo_path`,
    /// in place of an earlier one; its URL stays. A remote that is not there
    /// comes into being with the push URL alone.
    ///
    /// The push URL has to differ from the URL of the remote and from the push
    /// URL it has: one that does not is refused as redundant.
    pub fn add_push_url(repo: &mut WorkingRepo, remote_name: &str, hub_repo_path: &str) -> (r:
        Result<(), HubError>)
        requires
            old(repo).wf(),
        ensures
            final(repo).wf(),
            final(repo).found() == old(repo).found(),
            match r {
                Ok(_) => {
                    &&& old(repo).push_url_fault(remote_name@, hub_repo_path@) is None
                    &&& final(repo)@ == with_push_url(old(repo)@, remote_name@, hub_repo_path@)
                },
                Err(e) => old(repo).push_url_fault(remote_name@, hub_repo_path@) == Some(e)
                    && *final(repo) == *old(repo),
            },
    {
        if !repo.found {
            return Err(HubError::NotFound);
        }
        match repo.find(remote_name) {
            Some(at) => {
                if is_text(&repo.remotes[at].url, hub_repo_path) || is_text(
                    &repo.remotes[at].push_url,
                    hub_repo_path,
                ) {
                    return Err(HubError::RedundantPushUrl);
                }
                let ghost before = repo@;
                let old_remote = repo.remotes.remove(at);
                let remote = Remote {
                    name: old_remote.name,
                    url: old_remote.url,
                    push_url: Some(hub_repo_path.to_owned()),
                };
                repo.remotes.insert(at, remote);
                assert(repo@ =~= before.update(
                    at as int,
                    RemoteView {
                        name: remote_name@,
                        url: before[at as int].url,
                        push_url: Some(hub_repo_path@),
                    },
                ));
                Ok(())
            },
            None => {
                let remote = Remote {
                    name: remote_name.to_owned(),
                    url: None,
                    push_url: Some(hub_repo_path.to_owned()),
                };
                proof {
                    repo.remotes@.lemma_push_map_commute(remote_view(), remote);
                }
                repo.remotes.push(remote);
                Ok(())
            },
        }
    }

    /// The remotes as pairs of name and URL, in the order in which they are
    /// held; a remote whose push URL is another one than its URL is followed
    /// at once by a pair of its push label and the push URL.
    pub fn list_remotes(repo: &WorkingRepo) -> (r: Result<Vec<(String, String)>, HubError>)
        requires
            repo.wf(),
        ensures
            match r {
                Ok(pairs) => repo.list_fault() is None && pairs@.map_values(pair_view())
                    == shown_all(repo@),
                Err(e) => repo.list_fault() == Some(e),
            },
    {
        if !repo.found {
            return Err(HubError::NotFound);
        }
        let mut pairs: Vec<(String, String)> = Vec::new();
        let mut i: usize = 0;
        assert(repo@.take(0) =~= Seq::<RemoteView>::empty());
        assert(pairs@.map_values(pair_view()) =~= Seq::<(Seq<char>, Seq<char>)>::empty());
        while i < repo.remotes.len()
            invariant
                i <= repo.remotes@.len(),
                repo.remotes@.len() == repo@.len(),
                pairs@.map_values(pair_view()) == shown_all(repo@.take(i as int)),
            decreases repo.remotes@.len() - i,
        {
            let remote = &repo.remotes[i];
            proof {
                assert(repo@.take(i + 1).drop_last() =~= repo@.take(i as int));
                assert(repo@.take(i + 1).last() == remote@);
            }
            match &remote.url {
                None => {},
                Some(url) => {
                    proof {
                        pairs@.lemma_push_map_commute(pair_view(), (remote.name, *url));
                    }
                    pairs.push((remote.name.clone(), url.clone()));
                    match &remote.push_url {
                        None => {},
                        Some(push) => {
                            if !same_text(push.as_str(), url.as_str()) {
                                let mut label = remote.name.clone();
                                label.append(" (push)");
                                proof {
                                    pairs@.lemma_push_map_commute(pair_view(), (label, *push));
                                }
                                pairs.push((label, push.clone()));
                            }
                        },
                    }
                },
            }
            assert(pairs@.map_values(pair_view()) =~= shown_all(repo@.take(i as int)) + shown(
                remote@,
            ));
            i += 1;
        }
        assert(repo@.take(i as int) =~= repo@);
        Ok(pairs)
    }

    /// Removes the remote called `remote_name` with all that is configured for it.
    pub fn remove_remote(repo: &mut WorkingRepo, remote_name: &str) -> (r: Result<(), HubError>)
        requires
            old(repo).wf(),
        ensures
            final(repo).wf(),
            final(repo).found() == old(repo).found(),
            match r {
                Ok(_) => old(repo).remove_fault(remote_name@) is None && final(repo)@
                    == without_remote(old(repo)@, remote_name@),
                Err(e) => {
                    &&& old(repo).remove_fault(remote_name@) == Some(e)
                    &&& *final(repo) == *old(repo)
                },
            },
    {
        match repo.find(remote_name) {
            Some(at) => {
                let ghost before = repo@;
                let _ = repo.remotes.remove(at);
                assert(repo@ =~= before.remove(at as int));
                Ok(())
            },
            None => Err(HubError::NotFound),
        }
    }
}

} // verus!
