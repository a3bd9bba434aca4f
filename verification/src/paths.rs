//! Paths as text. What only the platform's path rules decide (where a file
//! name starts, how two paths join, what the parent of a path is) is asked of
//! `std::path`; the extension of a file name is worked out here.

use vstd::prelude::*;

verus! {

/// What `Path::join` makes of `base` and `name` under the path rules of the
/// platform the library is built for.
pub uninterp spec fn joined_path(base: Seq<char>, name: Seq<char>) -> Seq<char>;

/// What `Path::file_name` finds in `path`: its final component, if it has one.
pub uninterp spec fn file_name_of(path: Seq<char>) -> Option<Seq<char>>;

/// What `Path::parent` finds for `path`: the path without its final component,
/// if there is one.
pub uninterp spec fn parent_of(path: Seq<char>) -> Option<Seq<char>>;

/// Calls `Path::join`. Trusted: the result is a function of the two texts,
/// which the contract names `joined_path` and says no more of.
#[verifier::external_body]
pub(crate) fn join_path(base: &str, name: &str) -> (r: String)
    ensures
        r@ == joined_path(base@, name@),
{
    std::path::Path::new(base).join(name).to_string_lossy().into_owned()
}

/// Calls `Path::file_name`. Trusted: the result is a function of the text,
/// which the contract names `file_name_of` and says no more of.
#[verifier::external_body]
pub(crate) fn file_name(path: &str) -> (r: Option<String>)
    ensures
        r is Some == file_name_of(path@) is Some,
        r is Some ==> Some(r->0@) == file_name_of(path@),
{
    match std::path::Path::new(path).file_name() {
        Some(name) => Some(name.to_string_lossy().into_owned()),
        None => None,
    }
}

/// Calls `Path::parent`. Trusted: the result is a function of the text, which
/// the contract names `parent_of` and says no more of.
#[verifier::external_body]
pub(crate) fn parent(path: &str) -> (r: Option<String>)
    ensures
        r is Some == parent_of(path@) is Some,
        r is Some ==> Some(r->0@) == parent_of(path@),
{
    match std::path::Path::new(path).parent() {
        Some(dir) => Some(dir.to_string_lossy().into_owned()),
        None => None,
    }
}

/// `i` is the position of the last dot of `name`.
pub open spec fn is_last_dot(name: Seq<char>, i: int) -> bool {
    &&& 0 <= i < name.len()
    &&& name[i] == '.'
    &&& forall|j: int| i < j < name.len() ==> name[j] != '.'
}

/// The extension of a file name: what follows its last dot, unless the name
/// has no dot or its only dot comes first.
pub open spec fn extension_of_name(name: Seq<char>) -> Option<Seq<char>> {
    if exists|i: int| 0 < i && is_last_dot(name, i) {
        let i = choose|i: int| 0 < i && is_last_dot(name, i);
        Some(name.skip(i + 1))
    } else {
        None
    }
}

/// The extension of the file that `path` names.
pub open spec fn extension_of(path: Seq<char>) -> Option<Seq<char>> {
    match file_name_of(path) {
        Some(name) => extension_of_name(name),
        None => None,
    }
}

/// The file name under which `path` is shown and searched: its final
/// component, or the empty text where it has none.
pub open spec fn shown_name(path: Seq<char>) -> Seq<char> {
    match file_name_of(path) {
        Some(name) => name,
        None => Seq::empty(),
    }
}

/// The extension of a file name, without the dot.
pub fn extension_of_file_name(name: &str) -> (r: Option<String>)
    ensures
        r is Some == extension_of_name(name@) is Some,
        r is Some ==> Some(r->0@) == extension_of_name(name@),
{
    let chars = crate::text::chars_of(name);
    let mut i: usize = chars.len();
    while i > 0 && chars[i - 1] != '.'
        invariant
            chars@ == name@,
            i <= chars.len(),
            forall|j: int| i <= j < name@.len() ==> name@[j] != '.',
        decreases i,
    {
        i -= 1;
    }
    if i > 1 {
        let dot: usize = i - 1;
        assert(0 < dot && is_last_dot(name@, dot as int));
        let ghost chosen = choose|k: int| 0 < k && is_last_dot(name@, k);
        assert(chosen == dot);
        let tail = name.substring_char(i, chars.len());
        assert(tail@ =~= name@.skip(dot + 1));
        Some(String::from_str(tail))
    } else {
        assert forall|k: int| 0 < k implies !is_last_dot(name@, k) by {
            if is_last_dot(name@, k) && i == 1 {
                assert(name@[0] == '.');
            }
        }
        None
    }
}

/// The extension of the file that `path` names, without the dot.
pub fn extension(path: &str) -> (r: Option<String>)
    ensures
        r is Some == extension_of(path@) is Some,
        r is Some ==> Some(r->0@) == extension_of(path@),
{
    match file_name(path) {
        Some(name) => extension_of_file_name(name.as_str()),
        None => None,
    }
}

/// The name under which `path` is shown and searched.
pub fn display_name(path: &str) -> (r: String)
    ensures
        r@ == shown_name(path@),
{
    match file_name(path) {
        Some(name) => name,
        None => String::new(),
    }
}

} // verus!
