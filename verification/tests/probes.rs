use local_git_hub::error::{HubError, IoAction};
use local_git_hub::probe::{get_commit_count, get_dir_size, measure, HeadState, Node};

#[test]
fn sizes_of_files_are_summed_through_directories() {
    let tree = Node::Dir(vec![
        Node::File(10),
        Node::Dir(vec![Node::File(5), Node::Dir(vec![]), Node::File(7)]),
        Node::File(1),
    ]);
    assert_eq!(get_dir_size(&tree), Ok(23));
    assert_eq!(measure(&tree), Some(23));
}

#[test]
fn an_empty_directory_has_size_zero() {
    assert_eq!(get_dir_size(&Node::Dir(vec![])), Ok(0));
}

#[test]
fn what_is_no_directory_has_nothing_under_it() {
    assert_eq!(get_dir_size(&Node::File(99)), Ok(0));
    assert_eq!(measure(&Node::File(99)), Some(99));
}

#[test]
fn an_unread_place_leaves_the_size_open() {
    let failed = Err(HubError::IoFailure(IoAction::MeasureSize));
    assert_eq!(get_dir_size(&Node::Unread), failed);
    let tree = Node::Dir(vec![Node::File(4), Node::Dir(vec![Node::Unread]), Node::File(4)]);
    assert_eq!(get_dir_size(&tree), failed);
    assert_eq!(measure(&tree), None);
}

#[test]
fn a_sum_that_does_not_fit_leaves_the_size_open() {
    let fits = Node::Dir(vec![Node::File(u64::MAX - 1), Node::File(1)]);
    assert_eq!(get_dir_size(&fits), Ok(u64::MAX));
    let too_much = Node::Dir(vec![Node::File(u64::MAX), Node::Dir(vec![Node::File(1)])]);
    assert_eq!(get_dir_size(&too_much), Err(HubError::IoFailure(IoAction::MeasureSize)));
}

#[test]
fn commits_are_counted_where_the_head_names_one() {
    assert_eq!(get_commit_count(&HeadState::Walked(3)), Some(3));
    assert_eq!(get_commit_count(&HeadState::Walked(1)), Some(1));
    assert_eq!(get_commit_count(&HeadState::Walked(0)), Some(0));
}

#[test]
fn commits_are_absent_where_the_head_names_none() {
    assert_eq!(get_commit_count(&HeadState::Unresolved), None);
    assert_eq!(get_commit_count(&HeadState::NotACommit), None);
    assert_eq!(get_commit_count(&HeadState::Unavailable), None);
}

#[test]
fn commits_are_absent_where_the_walk_could_not_start() {
    assert_eq!(get_commit_count(&HeadState::Refused), None);
}
