//! The rules for repository names, and the suffix that every stored name carries.

use vstd::prelude::*;
use vstd::utf8::encode_utf8;
use crate::error::NameFault;
use crate::text::{chars_of, contains_char, ends_with, has_suffix};

verus! {

/// The suffix that marks a directory as a bare repository.
pub open spec fn suffix() -> Seq<char> {
    seq!['.', 'g', 'i', 't']
}

/// The characters that no name may hold, in the order in which they are looked for.
pub open spec fn forbidden() -> Seq<char> {
    seq!['/', '\\', ':', '*', '?', '"', '<', '>', '|']
}

/// The most bytes a name may take.
pub const MAX_NAME_BYTES: usize = 255;

/// The first character of `forbidden()`, from index `from` on, that `name` holds.
pub open spec fn first_forbidden(name: Seq<char>, from: int) -> Option<char>
    decreases forbidden().len() - from,
{
    if from < 0 || from >= forbidden().len() {
        None
    } else if name.contains(forbidden()[from]) {
        Some(forbidden()[from])
    } else {
        first_forbidden(name, from + 1)
    }
}

/// The rule that `name` breaks, if it breaks one. The rules are tried in this
/// order: not empty, no forbidden character, not `.` or `..`, at most 255 bytes.
pub open spec fn name_fault(name: Seq<char>) -> Option<NameFault> {
    if name.len() == 0 {
        Some(NameFault::Empty)
    } else if first_forbidden(name, 0) is Some {
        Some(NameFault::ForbiddenChar(first_forbidden(name, 0)->0))
    } else if name == seq!['.'] || name == seq!['.', '.'] {
        Some(NameFault::Reserved)
    } else if encode_utf8(name).len() > MAX_NAME_BYTES {
        Some(NameFault::TooLong)
    } else {
        None
    }
}

/// `name` may be given to a new repository.
pub open spec fn valid_name(name: Seq<char>) -> bool {
    name_fault(name) is None
}

/// The name under which a repository called `name` is stored: `name` itself if
/// it carries the suffix, else `name` with the suffix appended.
pub open spec fn normalized(name: Seq<char>) -> Seq<char> {
    if ends_with(name, suffix()) {
        name
    } else {
        name + suffix()
    }
}

/// The rule that `name` breaks, if it breaks one.
pub fn check_name(name: &str) -> (fault: Option<NameFault>)
    ensures
        fault == name_fault(name@),
{
    let chars = chars_of(name);
    if chars.len() == 0 {
        return Some(NameFault::Empty);
    }
    let list: Vec<char> = vec!['/', '\\', ':', '*', '?', '"', '<', '>', '|'];
    assert(list@ =~= forbidden());
    let mut k: usize = 0;
    while k < list.len()
        invariant
            k <= list@.len(),
            list@ == forbidden(),
            chars@ == name@,
            chars@.len() > 0,
            first_forbidden(chars@, 0) == first_forbidden(chars@, k as int),
        decreases list@.len() - k,
    {
        if contains_char(&chars, list[k]) {
            return Some(NameFault::ForbiddenChar(list[k]));
        }
        k += 1;
    }
    assert(first_forbidden(chars@, k as int) is None);
    if chars.len() <= 2 && chars[0] == '.' && (chars.len() == 1 || chars[1] == '.') {
        assert(chars@ =~= seq!['.'] || chars@ =~= seq!['.', '.']);
        return Some(NameFault::Reserved);
    }
    assert(chars@ != seq!['.'] && chars@ != seq!['.', '.']) by {
        if chars@ == seq!['.'] {
            assert(chars@.len() == 1 && chars@[0] == '.');
        }
        if chars@ == seq!['.', '.'] {
            assert(chars@.len() == 2 && chars@[0] == '.' && chars@[1] == '.');
        }
    }
    if name.as_bytes().len() > MAX_NAME_BYTES {
        return Some(NameFault::TooLong);
    }
    None
}

/// The name under which a repository called `name` is stored.
pub fn normalize(name: &str) -> (stored: String)
    ensures
        stored@ == normalized(name@),
{
    let chars = chars_of(name);
    let tail: Vec<char> = vec!['.', 'g', 'i', 't'];
    assert(tail@ =~= suffix());
    let mut stored = name.to_owned();
    if !has_suffix(&chars, &tail) {
        proof {
            reveal_strlit(".git");
            assert(".git"@ =~= suffix());
        }
        stored.append(".git");
    }
    stored
}

/// A stored name carries the suffix, and storing it again changes nothing.
pub proof fn normalized_is_stable(name: Seq<char>)
    ensures
        ends_with(normalized(name), suffix()),
        normalized(normalized(name)) == normalized(name),
{
    if !ends_with(name, suffix()) {
        let n = name + suffix();
        assert(n.subrange(n.len() - suffix().len(), n.len() as int) =~= suffix());
    }
}

/// A name that holds a forbidden character breaks a rule.
pub proof fn forbidden_char_is_a_fault(name: Seq<char>, c: char)
    requires
        name.contains(c),
        forbidden().contains(c),
    ensures
        name_fault(name) is Some,
{
    let k = choose|k: int| 0 <= k < forbidden().len() && forbidden()[k] == c;
    first_forbidden_finds(name, 0, k);
}

/// If `name` holds the character at index `k` of the list, looking from `from <= k`
/// on finds a character.
proof fn first_forbidden_finds(name: Seq<char>, from: int, k: int)
    requires
        0 <= from <= k < forbidden().len(),
        name.contains(forbidden()[k]),
    ensures
        first_forbidden(name, from) is Some,
    decreases k - from,
{
    if from < k && !name.contains(forbidden()[from]) {
        first_forbidden_finds(name, from + 1, k);
    }
}

} // verus!
