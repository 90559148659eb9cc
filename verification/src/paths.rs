//! Paths as text. Joining, the parent and the final component are those of
//! the platform's `std::path`; stem and extension are computed here, on a
//! file name.

use vstd::prelude::*;
use crate::text::{chars_of, text_view};

verus! {

/// `rel` appended to the path `base`; an absolute `rel` takes its place.
pub uninterp spec fn joined_path(base: Seq<char>, rel: Seq<char>) -> Seq<char>;

/// The final component of `path`: the name of the file or directory it
/// points to. A path that ends in `..`, or that has no component, has none.
pub uninterp spec fn file_name_of(path: Seq<char>) -> Option<Seq<char>>;

/// `path` without its final component, if it has one.
pub uninterp spec fn parent_of(path: Seq<char>) -> Option<Seq<char>>;

/// Calls `Path::join` of std on two paths given as text. Both are valid
/// UTF-8, so the joined path is too and nothing is lost in turning it back
/// into a `String`. The contract names the result `joined_path`.
#[verifier::external_body]
pub(crate) fn join(base: &str, rel: &str) -> (r: String)
    ensures
        r@ == joined_path(base@, rel@),
{
    std::path::Path::new(base).join(rel).to_string_lossy().into_owned()
}

/// Calls `Path::file_name` of std. The contract names the result
/// `file_name_of`.
#[verifier::external_body]
pub(crate) fn file_name(path: &str) -> (r: Option<String>)
    ensures
        r.is_some() == file_name_of(path@).is_some(),
        r matches Some(n) ==> file_name_of(path@) == Some(n@),
{
    match std::path::Path::new(path).file_name() {
        Some(name) => Some(name.to_string_lossy().into_owned()),
        None => None,
    }
}

/// Calls `Path::parent` of std. The contract names the result `parent_of`
/// and adds that a parent is shorter than the path: it is the path cut off
/// before its final component.
#[verifier::external_body]
pub(crate) fn parent(path: &str) -> (r: Option<String>)
    ensures
        r.is_some() == parent_of(path@).is_some(),
        r matches Some(p) ==> parent_of(path@) == Some(p@) && p@.len() < path@.len(),
{
    match std::path::Path::new(path).parent() {
        Some(dir) => Some(dir.to_string_lossy().into_owned()),
        None => None,
    }
}

/// Calls `dirs::home_dir`, which asks the environment and the system for
/// the home directory of the user. A home directory whose path is no
/// Unicode text cannot be handed on as text and counts as unknown. Nothing
/// is promised of the outcome.
#[verifier::external_body]
pub(crate) fn home_dir() -> (r: Option<String>)
{
    match dirs::home_dir() {
        Some(dir) => match dir.into_os_string().into_string() {
            Ok(text) => Some(text),
            Err(_) => None,
        },
        None => None,
    }
}

/// The directory that holds `path`: its parent, which is shorter than the
/// path.
pub open spec fn directory_of(path: Seq<char>) -> Option<Seq<char>> {
    match parent_of(path) {
        Some(dir) => if dir.len() < path.len() {
            Some(dir)
        } else {
            None
        },
        None => None,
    }
}

/// The directory that holds `path`, if there is one.
pub fn directory(path: &str) -> (r: Option<String>)
    ensures
        text_view(r) == directory_of(path@),
{
    parent(path)
}

/// The final component of `path`, if it has one: the name of the file or
/// directory that it points to.
pub fn final_component(path: &str) -> (r: Option<String>)
    ensures
        text_view(r) == file_name_of(path@),
{
    file_name(path)
}

/// The place of the last `.` in `name`, or -1 if it has none.
pub open spec fn last_dot(name: Seq<char>) -> int
    decreases name.len(),
{
    if name.len() == 0 {
        -1
    } else if name.last() == '.' {
        name.len() - 1
    } else {
        last_dot(name.drop_last())
    }
}

/// Whether the file name `name` has an extension: a `.` that is not its
/// first character splits it, and the name is not `..`.
pub open spec fn has_extension(name: Seq<char>) -> bool {
    last_dot(name) > 0 && name != seq!['.', '.']
}

/// The file name `name` without its extension.
pub open spec fn stem_of(name: Seq<char>) -> Seq<char> {
    if has_extension(name) {
        name.take(last_dot(name))
    } else {
        name
    }
}

/// The extension of the file name `name`: what follows its last `.`.
pub open spec fn extension_of(name: Seq<char>) -> Option<Seq<char>> {
    if has_extension(name) {
        Some(name.skip(last_dot(name) + 1))
    } else {
        None
    }
}

proof fn lemma_last_dot(name: Seq<char>, k: int)
    requires
        -1 <= k < name.len(),
        k >= 0 ==> name[k] == '.',
        forall|j: int| k < j < name.len() ==> name[j] != '.',
    ensures
        last_dot(name) == k,
    decreases name.len(),
{
    if name.len() > 0 && k < name.len() - 1 {
        lemma_last_dot(name.drop_last(), k);
    }
}

/// Where the extension of `name` begins, if it has one: the place of the
/// `.` that splits it.
fn split_point(name: &Vec<char>) -> (r: Option<usize>)
    ensures
        r.is_some() == has_extension(name@),
        r matches Some(k) ==> k == last_dot(name@) && 0 < k < name.len(),
{
    let mut k: usize = name.len();
    while k > 0 && name[k - 1] != '.'
        invariant
            k <= name.len(),
            forall|j: int| k <= j < name.len() ==> name@[j] != '.',
        decreases k,
    {
        k = k - 1;
    }
    proof {
        lemma_last_dot(name@, k - 1);
    }
    if k <= 1 {
        return None;
    }
    if name.len() == 2 && name[0] == '.' {
        proof {
            assert(name@ =~= seq!['.', '.']);
        }
        return None;
    }
    proof {
        if name@ == seq!['.', '.'] {
            assert(seq!['.', '.'].len() == 2);
            assert(seq!['.', '.'][0] == '.');
        }
    }
    Some(k - 1)
}

/// The stem of a file name: the name up to its last `.`. A name without a
/// `.`, one whose only `.` comes first, and `..` are their own stem.
pub fn file_stem(name: &str) -> (r: String)
    ensures
        r@ == stem_of(name@),
{
    let chars = chars_of(name);
    match split_point(&chars) {
        Some(k) => {
            proof {
                assert(name@.subrange(0, k as int) == name@.take(k as int));
            }
            name.substring_char(0, k).to_owned()
        },
        None => name.to_owned(),
    }
}

/// The extension of a file name: what follows its last `.`, where the stem
/// before it is not empty.
pub fn file_extension(name: &str) -> (r: Option<String>)
    ensures
        r.is_some() == extension_of(name@).is_some(),
        r matches Some(e) ==> extension_of(name@) == Some(e@),
{
    let chars = chars_of(name);
    match split_point(&chars) {
        Some(k) => {
            proof {
                assert(name@.subrange(k + 1, name@.len() as int) == name@.skip(k + 1));
            }
            Some(name.substring_char(k + 1, chars.len()).to_owned())
        },
        None => None,
    }
}

} // verus!
