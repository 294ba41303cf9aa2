//! Path syntax, read by the standard library.
//!
//! The library never takes a path apart itself. What it asks about the text of
//! a path, its parent, its file name and what the file name is made of, is put
//! to `std::path::Path`. Where a path ends and its last component begins is
//! known to the proofs only by name; how a file name falls into stem and
//! extension is stated.

use vstd::prelude::*;

verus! {

/// The parent of the path written `path`, as `std::path::Path::parent` gives it
/// under the path syntax of the platform the crate is built for: the path
/// without its final component, or `None` where there is no such component.
pub uninterp spec fn path_parent(path: Seq<char>) -> Option<Seq<char>>;

/// The file name of the path written `path`, as `std::path::Path::file_name`
/// gives it under the path syntax of the platform the crate is built for: the
/// final component of the path, or `None` where the path ends in `..` or has
/// no component.
pub uninterp spec fn path_file_name(path: Seq<char>) -> Option<Seq<char>>;

/// The position of the last dot in `name`, if it holds one.
pub open spec fn last_dot(name: Seq<char>) -> Option<int>
    decreases name.len(),
{
    if name.len() == 0 {
        None
    } else if name.last() == '.' {
        Some(name.len() - 1)
    } else {
        last_dot(name.drop_last())
    }
}

/// The extension of a file name: what follows its last dot. A name without a
/// dot has none, and neither has a name whose only dot is the one it begins
/// with.
pub open spec fn extension_in(name: Seq<char>) -> Option<Seq<char>> {
    match last_dot(name) {
        Some(dot) => if dot == 0 {
            None
        } else {
            Some(name.skip(dot + 1))
        },
        None => None,
    }
}

/// The stem of a file name: what precedes its last dot, or the whole name
/// where it has no extension.
pub open spec fn stem_in(name: Seq<char>) -> Seq<char> {
    match last_dot(name) {
        Some(dot) => if dot == 0 {
            name
        } else {
            name.take(dot)
        },
        None => name,
    }
}

/// The extension of the path written `path`: that of its file name.
pub open spec fn path_extension(path: Seq<char>) -> Option<Seq<char>> {
    match path_file_name(path) {
        Some(name) => extension_in(name),
        None => None,
    }
}

/// The stem of the path written `path`: that of its file name.
pub open spec fn path_file_stem(path: Seq<char>) -> Option<Seq<char>> {
    match path_file_name(path) {
        Some(name) => Some(stem_in(name)),
        None => None,
    }
}

/// Whether an extension, taken as empty where there is none, is exactly the
/// wanted one.
pub open spec fn spec_is_extension(extension: Option<Seq<char>>, wanted: Seq<char>) -> bool {
    match extension {
        Some(e) => e == wanted,
        None => wanted.len() == 0,
    }
}

/// Compares an extension, taken as empty where there is none, with the wanted
/// one. Nothing is folded: the two are the same text or they differ.
pub fn is_extension(extension: &Option<String>, wanted: &String) -> (same: bool)
    ensures
        same == spec_is_extension(extension.deep_view(), wanted@),
{
    match extension {
        Some(e) => *e == *wanted,
        None => wanted.as_str().is_empty(),
    }
}

/// The last dot of a name is a dot of the name, and no dot follows it; a name
/// has no last dot only if it holds no dot at all.
pub proof fn lemma_last_dot(name: Seq<char>)
    ensures
        match last_dot(name) {
            Some(dot) => {
                &&& 0 <= dot < name.len()
                &&& name[dot] == '.'
                &&& forall|i: int| dot < i < name.len() ==> name[i] != '.'
            },
            None => forall|i: int| 0 <= i < name.len() ==> name[i] != '.',
        },
    decreases name.len(),
{
    if name.len() > 0 && name.last() != '.' {
        lemma_last_dot(name.drop_last());
        assert forall|i: int| 0 <= i < name.len() - 1 implies name[i] == name.drop_last()[i] by {}
    }
}

/// A name falls into its stem and its extension: where it has an extension,
/// the name is the stem, a dot and the extension, and the extension holds no
/// dot; where it has none, the name is its own stem.
pub proof fn lemma_name_is_stem_and_extension(name: Seq<char>)
    ensures
        match extension_in(name) {
            Some(extension) => {
                &&& name == stem_in(name) + seq!['.'] + extension
                &&& stem_in(name).len() > 0
                &&& forall|i: int| 0 <= i < extension.len() ==> extension[i] != '.'
            },
            None => stem_in(name) == name,
        },
{
    lemma_last_dot(name);
    match extension_in(name) {
        Some(extension) => {
            assert(name =~= stem_in(name) + seq!['.'] + extension);
        },
        None => {},
    }
}

/// A name written as a stem, a dot and an extension without a dot has that
/// stem and that extension, provided that the stem is not empty.
pub proof fn lemma_dotted_name(stem: Seq<char>, extension: Seq<char>)
    requires
        stem.len() > 0,
        forall|i: int| 0 <= i < extension.len() ==> extension[i] != '.',
    ensures
        extension_in(stem + seq!['.'] + extension) == Some(extension),
        stem_in(stem + seq!['.'] + extension) == stem,
{
    let name = stem + seq!['.'] + extension;
    lemma_last_dot(name);
    assert(name[stem.len() as int] == '.');
    let dot = last_dot(name).unwrap();
    if dot > stem.len() {
        assert(name[dot] == extension[dot - stem.len() - 1]);
    }
    assert(dot == stem.len());
    assert(name.skip(dot + 1) =~= extension);
    assert(name.take(dot) =~= stem);
}

/// Calls `std::path::Path::parent` on the path written `path`.
///
/// Trusted: the result is the text of the parent that the standard library
/// finds, which depends on `path` alone. A parent of a path given as text is
/// itself text, so nothing is lost in handing it back as a `String`.
#[verifier::external_body]
pub(crate) fn parent_of(path: &str) -> (parent: Option<String>)
    ensures
        parent.deep_view() == path_parent(path@),
{
    std::path::Path::new(path).parent().map(|p| p.to_string_lossy().into_owned())
}

/// Calls `std::path::Path::file_name` on the path written `path`.
///
/// Trusted: the result is the text of the file name that the standard library
/// finds, which depends on `path` alone. A file name of a path given as text
/// is itself text, so nothing is lost in handing it back as a `String`.
#[verifier::external_body]
pub(crate) fn file_name_of(path: &str) -> (name: Option<String>)
    ensures
        name.deep_view() == path_file_name(path@),
{
    std::path::Path::new(path).file_name().map(|n| n.to_string_lossy().into_owned())
}

/// Calls `std::path::Path::extension` on the path written `path`.
///
/// Trusted: the standard library takes the extension from the file name of
/// the path. There is none where there is no file name, where the file name
/// holds no dot, and where its only dot is the one it begins with; otherwise
/// it is the part of the file name after its last dot.
#[verifier::external_body]
pub(crate) fn extension_of(path: &str) -> (extension: Option<String>)
    ensures
        extension.deep_view() == path_extension(path@),
{
    std::path::Path::new(path).extension().map(|e| e.to_string_lossy().into_owned())
}

/// Calls `std::path::Path::file_stem` on the path written `path`.
///
/// Trusted: the standard library takes the stem from the file name of the
/// path. There is none where there is no file name. It is the whole file name
/// where that holds no dot or only the dot it begins with; otherwise it is the
/// part of the file name before its last dot.
#[verifier::external_body]
pub(crate) fn file_stem_of(path: &str) -> (stem: Option<String>)
    ensures
        stem.deep_view() == path_file_stem(path@),
{
    std::path::Path::new(path).file_stem().map(|s| s.to_string_lossy().into_owned())
}

} // verus!
