use local_git_hub::error::{HubError, IoAction, NameFault};
use local_git_hub::entry::{Entry, Layout, HEAD_NAME, OBJECTS_NAME, REFS_NAME};
use local_git_hub::hub::{get_hub_path, name_matches, LocalGitHub, RepoInfo};
use local_git_hub::probe::{HeadState, Node, Timestamp};

const BARE: Layout = Layout { is_dir: true, has_head: true, has_objects: true, has_refs: true };

const PLAIN_DIR: Layout =
    Layout { is_dir: true, has_head: false, has_objects: false, has_refs: false };

const PLAIN_FILE: Layout =
    Layout { is_dir: false, has_head: false, has_objects: false, has_refs: false };

fn unread(name: &str, layout: Layout) -> Entry {
    Entry {
        name: name.to_string(),
        layout,
        tree: Node::Unread,
        modified: None,
        head: HeadState::Unavailable,
    }
}

fn empty_repository(name: &str, secs: i64) -> Entry {
    Entry {
        name: name.to_string(),
        layout: BARE,
        tree: Node::Dir(vec![
            Node::File(23),
            Node::File(66),
            Node::File(73),
            Node::Dir(vec![Node::Dir(vec![]), Node::Dir(vec![])]),
            Node::Dir(vec![Node::Dir(vec![]), Node::Dir(vec![])]),
        ]),
        modified: Some(Timestamp { secs, nanos: 500 }),
        head: HeadState::Unresolved,
    }
}

fn hub_with(names: &[&str]) -> LocalGitHub {
    let mut hub = LocalGitHub::opened("/tmp/hub");
    for name in names {
        assert!(hub.record(unread(name, BARE)));
    }
    hub
}

#[test]
fn created_repository_exists_and_cannot_be_created_again() {
    let mut hub = LocalGitHub::new("/tmp/hub");
    assert!(!hub.repo_exists("proj"));
    assert_eq!(hub.create_repo("proj"), Ok("/tmp/hub/proj.git".to_string()));
    assert!(hub.repo_exists("proj"));
    assert!(hub.repo_exists("proj.git"));
    assert_eq!(hub.create_repo("proj"), Err(HubError::AlreadyExists));
    assert_eq!(hub.create_repo("proj.git"), Err(HubError::AlreadyExists));
    assert_eq!(hub.list_repos(), vec!["proj.git".to_string()]);
}

#[test]
fn creating_with_the_suffix_stores_the_name_unchanged() {
    let mut hub = LocalGitHub::new("/tmp/hub");
    assert_eq!(hub.create_repo("proj.git"), Ok("/tmp/hub/proj.git".to_string()));
    assert!(hub.repo_exists("proj"));
    assert_eq!(hub.list_repos(), vec!["proj.git".to_string()]);
}

#[test]
fn creating_makes_the_hub_directory() {
    let mut hub = LocalGitHub::new("/tmp/hub");
    assert_eq!(hub.create_repo("proj"), Ok("/tmp/hub/proj.git".to_string()));
    assert!(!hub.init());
}

#[test]
fn forbidden_characters_create_nothing() {
    for c in ['/', '\\', ':', '*', '?', '"', '<', '>', '|'] {
        let mut hub = hub_with(&["kept.git"]);
        let name = format!("pro{}j", c);
        assert_eq!(
            hub.create_repo(&name),
            Err(HubError::InvalidName(NameFault::ForbiddenChar(c)))
        );
        assert!(!hub.repo_exists(&name));
        assert_eq!(hub.list_repos(), vec!["kept.git".to_string()]);
    }
}

#[test]
fn invalid_names_create_nothing() {
    let mut hub = LocalGitHub::new("/tmp/hub");
    assert_eq!(hub.create_repo(""), Err(HubError::InvalidName(NameFault::Empty)));
    assert_eq!(hub.create_repo("."), Err(HubError::InvalidName(NameFault::Reserved)));
    assert_eq!(hub.create_repo(".."), Err(HubError::InvalidName(NameFault::Reserved)));
    assert_eq!(
        hub.create_repo(&"n".repeat(256)),
        Err(HubError::InvalidName(NameFault::TooLong))
    );
    assert!(hub.list_repos().is_empty());
    assert!(hub.init());
}

#[test]
fn a_file_of_the_name_stands_in_the_way() {
    let mut hub = LocalGitHub::opened("/tmp/hub");
    assert!(hub.record(unread("proj.git", PLAIN_FILE)));
    assert_eq!(hub.create_repo("proj"), Err(HubError::AlreadyExists));
    assert!(hub.repo_exists("proj"));
    assert!(hub.list_repos().is_empty());
}

#[test]
fn uninitialized_hub_lists_nothing() {
    let hub = LocalGitHub::new("/nowhere/hub");
    assert_eq!(hub.list_repos(), Vec::<String>::new());
    assert_eq!(hub.search_repos("a"), Vec::<String>::new());
    assert_eq!(hub.search_repos(""), Vec::<String>::new());
    assert_eq!(hub.list_repos_with_info(), Vec::<RepoInfo>::new());
    assert!(!hub.repo_exists("a"));
}

#[test]
fn init_makes_the_directory_once() {
    let mut hub = LocalGitHub::new("/tmp/hub");
    assert!(hub.init());
    assert!(!hub.init());
    assert!(hub.list_repos().is_empty());
    let mut found = LocalGitHub::opened("/tmp/hub");
    assert!(!found.init());
}

#[test]
fn init_keeps_the_children() {
    let mut hub = hub_with(&["a.git", "b.git"]);
    assert!(!hub.init());
    assert_eq!(hub.list_repos(), vec!["a.git".to_string(), "b.git".to_string()]);
}

#[test]
fn deleting_a_fresh_repository_removes_it() {
    let mut hub = LocalGitHub::new("/tmp/hub");
    assert_eq!(hub.create_repo("proj"), Ok("/tmp/hub/proj.git".to_string()));
    assert_eq!(hub.delete_repo("proj"), Ok("/tmp/hub/proj.git".to_string()));
    assert!(!hub.repo_exists("proj"));
    assert!(hub.list_repos().is_empty());
    assert_eq!(hub.delete_repo("proj"), Err(HubError::NotFound));
}

#[test]
fn deleting_leaves_the_others() {
    let mut hub = hub_with(&["a.git", "b.git", "c.git"]);
    assert_eq!(hub.delete_repo("b.git"), Ok("/tmp/hub/b.git".to_string()));
    assert_eq!(hub.list_repos(), vec!["a.git".to_string(), "c.git".to_string()]);
    assert!(hub.repo_exists("a"));
    assert!(!hub.repo_exists("b"));
    assert!(hub.repo_exists("c"));
}

#[test]
fn a_directory_that_is_no_repository_is_never_deleted() {
    let mut hub = LocalGitHub::opened("/tmp/hub");
    assert!(hub.record(unread("notes.git", PLAIN_DIR)));
    assert_eq!(hub.delete_repo("notes"), Err(HubError::InvalidRepository));
    assert!(hub.repo_exists("notes"));
    assert_eq!(hub.list_repos(), vec!["notes.git".to_string()]);
    for (has_head, has_objects, has_refs) in
        [(false, true, true), (true, false, true), (true, true, false)]
    {
        let mut hub = LocalGitHub::opened("/tmp/hub");
        let layout = Layout { is_dir: true, has_head, has_objects, has_refs };
        assert!(hub.record(unread("half.git", layout)));
        assert_eq!(hub.delete_repo("half"), Err(HubError::InvalidRepository));
        assert!(hub.repo_exists("half"));
    }
}

#[test]
fn deleting_what_is_not_there_is_not_found() {
    let mut hub = hub_with(&["a.git"]);
    assert_eq!(hub.delete_repo("b"), Err(HubError::NotFound));
    assert_eq!(hub.list_repos(), vec!["a.git".to_string()]);
    let mut none = LocalGitHub::new("/tmp/hub");
    assert_eq!(none.delete_repo("a"), Err(HubError::NotFound));
}

#[test]
fn structural_check_wants_head_objects_and_refs() {
    let hub = LocalGitHub::new("/tmp/hub");
    assert!(hub.is_valid_git_repo(&unread("a.git", BARE)));
    assert!(!hub.is_valid_git_repo(&unread("a.git", PLAIN_DIR)));
    let no_refs = Layout { is_dir: true, has_head: true, has_objects: true, has_refs: false };
    assert!(!hub.is_valid_git_repo(&unread("a.git", no_refs)));
}

#[test]
fn listing_is_sorted_and_shows_suffixed_directories_only() {
    let mut hub = LocalGitHub::opened("/tmp/hub");
    assert!(hub.record(unread("b.git", BARE)));
    assert!(hub.record(unread("notes", PLAIN_DIR)));
    assert!(hub.record(unread("a.git", BARE)));
    assert!(hub.record(unread("file.git", PLAIN_FILE)));
    assert!(hub.record(unread("c.git", PLAIN_DIR)));
    assert!(hub.record(unread("B.git", BARE)));
    assert!(hub.record(unread(".git", BARE)));
    assert!(hub.record(unread("a.gitx", BARE)));
    let expected: Vec<String> =
        [".git", "B.git", "a.git", "b.git", "c.git"].iter().map(|s| s.to_string()).collect();
    assert_eq!(hub.list_repos(), expected);
    let mut by_std = expected.clone();
    by_std.sort();
    assert_eq!(by_std, expected);
}

#[test]
fn a_name_is_recorded_once() {
    let mut hub = LocalGitHub::new("/tmp/hub");
    assert!(hub.record(unread("a.git", BARE)));
    assert!(!hub.record(unread("a.git", PLAIN_DIR)));
    assert_eq!(hub.delete_repo("a"), Ok("/tmp/hub/a.git".to_string()));
    assert!(!hub.init());
}

#[test]
fn search_ignores_case_and_keeps_the_order() {
    let hub = hub_with(&["zeta.git", "MyProject.git", "proj.git", "other.git", "APROJ2.git"]);
    let expected: Vec<String> =
        ["APROJ2.git", "MyProject.git", "proj.git"].iter().map(|s| s.to_string()).collect();
    assert_eq!(hub.search_repos("proj"), expected);
    assert_eq!(hub.search_repos("PROJ"), expected);
    assert_eq!(hub.search_repos("pRoJ"), expected);
    assert_eq!(hub.search_repos("myp"), vec!["MyProject.git".to_string()]);
    assert_eq!(hub.search_repos("nothing"), Vec::<String>::new());
}

#[test]
fn search_for_nothing_gives_the_listing() {
    let hub = hub_with(&["b.git", "a.git"]);
    assert_eq!(hub.search_repos(""), hub.list_repos());
    assert_eq!(hub.search_repos(".GIT"), hub.list_repos());
}

#[test]
fn search_lowers_letters_beyond_ascii() {
    let hub = hub_with(&["Ärger.git", "ärmel.git", "plain.git"]);
    let expected: Vec<String> = ["Ärger.git", "ärmel.git"].iter().map(|s| s.to_string()).collect();
    assert_eq!(hub.search_repos("ÄR"), expected);
    assert_eq!(hub.search_repos("är"), expected);
}

#[test]
fn search_passes_over_what_is_not_listed() {
    let mut hub = LocalGitHub::opened("/tmp/hub");
    assert!(hub.record(unread("proj.git", PLAIN_FILE)));
    assert!(hub.record(unread("project", BARE)));
    assert!(hub.record(unread("proj2.git", BARE)));
    assert_eq!(hub.search_repos("proj"), vec!["proj2.git".to_string()]);
}

#[test]
fn names_match_by_occurrence() {
    assert!(name_matches("myproject.git", "proj"));
    assert!(name_matches("myproject.git", ""));
    assert!(!name_matches("myproject.git", "Proj"));
    assert!(!name_matches("proj", "proj.git"));
}

#[test]
fn path_is_given_for_what_exists() {
    let hub = hub_with(&["proj.git"]);
    assert_eq!(hub.get_repo_path("proj"), Ok("/tmp/hub/proj.git".to_string()));
    assert_eq!(hub.get_repo_path("proj.git"), Ok("/tmp/hub/proj.git".to_string()));
    assert_eq!(hub.get_repo_path("other"), Err(HubError::NotFound));
    let slash = {
        let mut hub = LocalGitHub::opened("/tmp/hub/");
        assert!(hub.record(unread("proj.git", BARE)));
        hub
    };
    assert_eq!(slash.get_repo_path("proj"), Ok("/tmp/hub/proj.git".to_string()));
}

#[test]
fn info_gives_what_was_read() {
    let mut hub = LocalGitHub::opened("/tmp/hub");
    let mut entry = empty_repository("proj.git", 1_700_000_000);
    entry.head = HeadState::Walked(42);
    assert!(hub.record(entry));
    let info = hub.get_repo_info("proj").unwrap();
    assert_eq!(
        info,
        RepoInfo {
            name: "proj.git".to_string(),
            path: "/tmp/hub/proj.git".to_string(),
            size: 162,
            modified: Timestamp { secs: 1_700_000_000, nanos: 500 },
            commits: Some(42),
        }
    );
}

#[test]
fn info_of_what_is_not_there_is_not_found() {
    let hub = hub_with(&["a.git"]);
    assert_eq!(hub.get_repo_info("b"), Err(HubError::NotFound));
}

#[test]
fn info_fails_where_the_disk_was_not_read() {
    let mut hub = LocalGitHub::opened("/tmp/hub");
    assert!(hub.record(unread("a.git", BARE)));
    assert_eq!(hub.get_repo_info("a"), Err(HubError::IoFailure(IoAction::MeasureSize)));
    let mut no_time = empty_repository("b.git", 5);
    no_time.modified = None;
    assert!(hub.record(no_time));
    assert_eq!(hub.get_repo_info("b"), Err(HubError::IoFailure(IoAction::ReadModified)));
    let mut neither = empty_repository("c.git", 5);
    neither.modified = None;
    neither.tree = Node::Dir(vec![Node::Unread]);
    assert!(hub.record(neither));
    assert_eq!(hub.get_repo_info("c"), Err(HubError::IoFailure(IoAction::MeasureSize)));
}

#[test]
fn info_of_a_file_has_size_zero() {
    let mut hub = LocalGitHub::opened("/tmp/hub");
    let mut entry = empty_repository("f.git", 9);
    entry.layout = PLAIN_FILE;
    entry.tree = Node::File(1234);
    assert!(hub.record(entry));
    let info = hub.get_repo_info("f").unwrap();
    assert_eq!(info.size, 0);
    assert_eq!(info.commits, None);
}

#[test]
fn detailed_listing_skips_what_cannot_be_read() {
    let mut hub = LocalGitHub::opened("/tmp/hub");
    assert!(hub.record(empty_repository("c.git", 3)));
    assert!(hub.record(unread("b.git", BARE)));
    assert!(hub.record(empty_repository("a.git", 1)));
    assert!(hub.record(empty_repository("notes", 4)));
    let mut file = empty_repository("file.git", 5);
    file.layout = PLAIN_FILE;
    assert!(hub.record(file));
    let infos = hub.list_repos_with_info();
    let names: Vec<&str> = infos.iter().map(|i| i.name.as_str()).collect();
    assert_eq!(names, vec!["a.git", "c.git"]);
    assert_eq!(infos[0].path, "/tmp/hub/a.git");
    assert_eq!(infos[0].size, 162);
    assert_eq!(infos[0].modified, Timestamp { secs: 1, nanos: 500 });
    assert_eq!(infos[0].commits, None);
    assert_eq!(infos[1].modified, Timestamp { secs: 3, nanos: 500 });
    assert_eq!(hub.list_repos(), vec!["a.git".to_string(), "b.git".to_string(), "c.git".to_string()]);
}

#[test]
fn scenario_create_inspect_delete() {
    let mut hub = LocalGitHub::new("/tmp/hub");
    assert_eq!(hub.create_repo("proj"), Ok("/tmp/hub/proj.git".to_string()));
    assert!(hub.repo_exists("proj"));

    let on_disk = empty_repository("proj.git", 1_700_000_000);
    assert!(hub.is_valid_git_repo(&on_disk));
    assert!(hub.refresh(on_disk));
    let info = hub.get_repo_info("proj").unwrap();
    assert!(info.size > 0);
    assert_eq!(info.size, 162);
    assert_eq!(info.commits, None);
    assert_eq!(info.path, "/tmp/hub/proj.git");
    assert_eq!(hub.delete_repo("proj"), Ok("/tmp/hub/proj.git".to_string()));
    assert!(!hub.repo_exists("proj"));
}

#[test]
fn info_waits_for_what_is_read_of_a_new_repository() {
    let mut hub = LocalGitHub::new("/tmp/hub");
    assert_eq!(hub.create_repo("proj"), Ok("/tmp/hub/proj.git".to_string()));
    assert_eq!(hub.get_repo_info("proj"), Err(HubError::IoFailure(IoAction::MeasureSize)));
    assert!(hub.list_repos_with_info().is_empty());
    assert!(hub.refresh(empty_repository("proj.git", 7)));
    assert_eq!(hub.list_repos_with_info().len(), 1);
}

#[test]
fn refresh_replaces_one_entry_and_keeps_the_rest() {
    let mut hub = hub_with(&["c.git", "a.git", "b.git"]);
    let mut read = empty_repository("b.git", 11);
    read.head = HeadState::Walked(5);
    assert!(hub.refresh(read));
    assert_eq!(
        hub.list_repos(),
        vec!["a.git".to_string(), "b.git".to_string(), "c.git".to_string()]
    );
    let info = hub.get_repo_info("b").unwrap();
    assert_eq!(info.commits, Some(5));
    assert_eq!(info.modified, Timestamp { secs: 11, nanos: 500 });
    assert_eq!(hub.get_repo_info("a"), Err(HubError::IoFailure(IoAction::MeasureSize)));
    assert_eq!(hub.get_repo_info("c"), Err(HubError::IoFailure(IoAction::MeasureSize)));
    let mut plain = unread("b.git", PLAIN_DIR);
    plain.tree = Node::Dir(vec![]);
    assert!(hub.refresh(plain));
    assert_eq!(hub.delete_repo("b"), Err(HubError::InvalidRepository));
}

#[test]
fn refresh_of_an_unknown_name_changes_nothing() {
    let mut hub = hub_with(&["a.git"]);
    assert!(!hub.refresh(empty_repository("b.git", 3)));
    assert!(!hub.repo_exists("b"));
    assert_eq!(hub.list_repos(), vec!["a.git".to_string()]);
    let mut none = LocalGitHub::new("/tmp/hub");
    assert!(!none.refresh(empty_repository("a.git", 3)));
    assert!(none.init());
}

#[test]
fn info_of_a_refused_walk_has_no_commits() {
    let mut hub = LocalGitHub::opened("/tmp/hub");
    let mut entry = empty_repository("r.git", 2);
    entry.head = HeadState::Refused;
    assert!(hub.record(entry));
    assert_eq!(hub.get_repo_info("r").unwrap().commits, None);
}

#[test]
fn hub_path_is_the_given_one_or_the_default() {
    assert_eq!(
        get_hub_path(Some("/srv/hub".to_string()), Some("/home/u".to_string())),
        "/srv/hub"
    );
    assert_eq!(get_hub_path(None, Some("/home/u".to_string())), "/home/u/.local-git-hub");
    assert_eq!(get_hub_path(None, Some("/home/u/".to_string())), "/home/u/.local-git-hub");
    assert_eq!(get_hub_path(None, None), "./.local-git-hub");
    assert_eq!(get_hub_path(Some(String::new()), None), "");
}

#[test]
fn structural_check_looks_for_the_usual_names() {
    assert_eq!(HEAD_NAME, "HEAD");
    assert_eq!(OBJECTS_NAME, "objects");
    assert_eq!(REFS_NAME, "refs");
}
