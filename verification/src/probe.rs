//! What was read of one repository on disk, and what is derived from it: the
//! size of its files and the number of its commits.

use vstd::prelude::*;
use crate::error::{HubError, IoAction};

verus! {

/// A point in time, counted from the start of 1970 (UTC).
#[derive(Debug, Clone, Copy, PartialEq, Eq, Structural)]
pub struct Timestamp {
    /// Whole seconds.
    pub secs: i64,
    /// The part of a second, in nanoseconds.
    pub nanos: u32,
}

/// What a walk of a directory tree found at one place.
#[derive(Debug, PartialEq, Eq)]
pub enum Node {
    /// Something that is no directory, with its size in bytes.
    File(u64),
    /// A directory, with what was found in it.
    Dir(Vec<Node>),
    /// A place that was not read, or could not be.
    Unread,
}

/// What following the head reference of a repository led to.
#[derive(Debug, Clone, Copy, PartialEq, Eq, Structural)]
pub enum HeadState {
    /// The repository was not opened or could not be, or no walk of its history could be set up.
    Unavailable,
    /// The head reference resolves to nothing, as in a repository without commits.
    Unresolved,
    /// The head reference resolves to an object that is no commit.
    NotACommit,
    /// The head reference resolves to a commit that the walk refused as its
    /// start: nothing was walked.
    Refused,
    /// The head reference resolves to a commit; the walk from it met this many commits.
    Walked(usize),
}

/// The bytes of a node: the size of a file, the bytes of all nodes of a
/// directory; nothing if some place in it was not read.
pub open spec fn node_bytes(node: Node) -> Option<nat>
    decreases node, 0nat,
{
    match node {
        Node::File(size) => Some(size as nat),
        Node::Dir(children) => bytes_of_first(children@, children@.len()),
        Node::Unread => None,
    }
}

/// The bytes of the first `count` of `nodes` together.
pub open spec fn bytes_of_first(nodes: Seq<Node>, count: nat) -> Option<nat>
    decreases nodes, count,
{
    if count == 0 || count > nodes.len() {
        Some(0)
    } else {
        match (bytes_of_first(nodes, (count - 1) as nat), node_bytes(nodes[count - 1])) {
            (Some(before), Some(here)) => Some(before + here),
            _ => None,
        }
    }
}

/// The size of what lies under `tree`: the bytes of its files where it is a
/// directory, nothing where it is none.
pub open spec fn size_under(tree: Node) -> Option<nat> {
    match tree {
        Node::File(_) => Some(0),
        Node::Dir(_) => node_bytes(tree),
        Node::Unread => None,
    }
}

/// The number of commits that `head` stands for: the commits that a walk
/// met, and no number where nothing was walked.
pub open spec fn commits_of(head: HeadState) -> Option<usize> {
    match head {
        HeadState::Walked(count) => Some(count),
        _ => None,
    }
}

/// If the first `count` nodes cannot be measured, or take more than `bound`
/// bytes, then so do all of them.
proof fn bytes_grow(nodes: Seq<Node>, count: nat, bound: nat)
    requires
        count <= nodes.len(),
        match bytes_of_first(nodes, count) {
            Some(b) => b > bound,
            None => true,
        },
    ensures
        match bytes_of_first(nodes, nodes.len()) {
            Some(b) => b > bound,
            None => true,
        },
    decreases nodes.len() - count,
{
    if count < nodes.len() {
        bytes_grow(nodes, count + 1, bound);
    }
}

/// The bytes of `node`, where every place in it was read and the sum fits.
pub fn measure(node: &Node) -> (bytes: Option<u64>)
    ensures
        bytes == match node_bytes(*node) {
            Some(b) => if b <= u64::MAX { Some(b as u64) } else { None },
            None => None,
        },
    decreases node,
{
    match node {
        Node::File(size) => Some(*size),
        Node::Unread => None,
        Node::Dir(children) => {
            let mut total: u64 = 0;
            let mut i: usize = 0;
            while i < children.len()
                invariant
                    i <= children@.len(),
                    *node == Node::Dir(*children),
                    bytes_of_first(children@, i as nat) == Some(total as nat),
                decreases children@.len() - i,
            {
                let here = measure(&children[i]);
                match here {
                    None => {
                        proof {
                            bytes_grow(children@, (i + 1) as nat, u64::MAX as nat);
                        }
                        return None;
                    },
                    Some(h) => {
                        if h > u64::MAX - total {
                            proof {
                                bytes_grow(children@, (i + 1) as nat, u64::MAX as nat);
                            }
                            return None;
                        }
                        total = total + h;
                    },
                }
                i += 1;
            }
            Some(total)
        },
    }
}

/// The size of the repository whose tree is `tree`.
pub fn get_dir_size(tree: &Node) -> (size: Result<u64, HubError>)
    ensures
        size == match size_under(*tree) {
            Some(b) => if b <= u64::MAX {
                Ok(b as u64)
            } else {
                Err(HubError::IoFailure(IoAction::MeasureSize))
            },
            None => Err(HubError::IoFailure(IoAction::MeasureSize)),
        },
{
    match tree {
        Node::File(_) => Ok(0),
        Node::Unread => Err(HubError::IoFailure(IoAction::MeasureSize)),
        Node::Dir(_) => match measure(tree) {
            Some(bytes) => Ok(bytes),
            None => Err(HubError::IoFailure(IoAction::MeasureSize)),
        },
    }
}

/// The number of commits of a repository whose head reference led to `head`:
/// the commits that the walk met, and no number where the head reference
/// names no commit or the history could not be walked.
pub fn get_commit_count(head: &HeadState) -> (commits: Option<usize>)
    ensures
        commits == commits_of(*head),
{
    match head {
        HeadState::Walked(count) => Some(*count),
        _ => None,
    }
}

} // verus!
