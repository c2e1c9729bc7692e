//! File-system paths as text, and what the standard library reads in them.
//!
//! A path is held as a `String`. The parsing of a path is left to
//! `std::path`: each function here that asks it a question is trusted to
//! hand back std's answer. On the platform that the library is built for,
//! that answer is a function of the path's text alone, and gets a name of
//! its own below.

use vstd::prelude::*;
use std::path::{Component, Path, PathBuf};
use path_slash::PathExt;

verus! {

/// A component of a path, as a mathematical value.
pub enum Segment {
    /// A drive or share prefix, as written.
    Prefix(Seq<char>),
    /// The root directory, as written.
    RootDir(Seq<char>),
    /// `.`
    CurDir,
    /// `..`
    ParentDir,
    /// A file or directory name.
    Normal(Seq<char>),
}

/// A component of a path.
#[derive(Debug)]
pub enum PathComponent {
    /// A drive or share prefix, as written.
    Prefix(String),
    /// The root directory, as written.
    RootDir(String),
    /// `.`
    CurDir,
    /// `..`
    ParentDir,
    /// A file or directory name.
    Normal(String),
}

impl View for PathComponent {
    type V = Segment;

    open spec fn view(&self) -> Segment {
        match self {
            PathComponent::Prefix(text) => Segment::Prefix(text@),
            PathComponent::RootDir(text) => Segment::RootDir(text@),
            PathComponent::CurDir => Segment::CurDir,
            PathComponent::ParentDir => Segment::ParentDir,
            PathComponent::Normal(text) => Segment::Normal(text@),
        }
    }
}

/// The components that `std::path::Path::components` finds in `path`.
pub uninterp spec fn path_components(path: Seq<char>) -> Seq<Segment>;

/// `path` after `std::path::PathBuf::set_extension` with the empty
/// extension.
pub uninterp spec fn path_without_extension(path: Seq<char>) -> Seq<char>;

/// What `std::path::Path::strip_prefix` leaves of `path` behind `base`, if
/// `base` is a prefix of it.
pub uninterp spec fn path_strip_prefix(path: Seq<char>, base: Seq<char>) -> Option<Seq<char>>;

/// What `std::path::Path::file_stem` finds in `path`.
pub uninterp spec fn path_file_stem(path: Seq<char>) -> Option<Seq<char>>;

/// `path` as `path_slash::PathExt::to_slash` writes it, with `/` between
/// the components.
pub uninterp spec fn slash_form(path: Seq<char>) -> Seq<char>;

/// The views of `parts`, in order.
pub open spec fn segments_of(parts: Seq<PathComponent>) -> Seq<Segment> {
    parts.map_values(|part: PathComponent| part@)
}

/// `std::path::Path::components` on the path that `path` spells. The
/// components come out in order, each as std names it; the text of a name or
/// a prefix is the component's own. Nothing else is claimed of them.
#[verifier::external_body]
pub(crate) fn components(path: &str) -> (parts: Vec<PathComponent>)
    ensures
        segments_of(parts@) == path_components(path@),
{
    let mut parts = Vec::new();
    for component in Path::new(path).components() {
        let text = component.as_os_str().to_string_lossy().into_owned();
        parts.push(
            match component {
                Component::Prefix(_) => PathComponent::Prefix(text),
                Component::RootDir => PathComponent::RootDir(text),
                Component::CurDir => PathComponent::CurDir,
                Component::ParentDir => PathComponent::ParentDir,
                Component::Normal(_) => PathComponent::Normal(text),
            },
        );
    }
    parts
}

/// `std::path::PathBuf::set_extension` with the empty extension, on the
/// path that `path` spells: the path without the extension of its file name.
#[verifier::external_body]
pub(crate) fn without_extension(path: &str) -> (stripped: String)
    ensures
        stripped@ == path_without_extension(path@),
{
    let mut buffer = PathBuf::from(path);
    buffer.set_extension("");
    buffer.to_string_lossy().into_owned()
}

/// `std::path::Path::strip_prefix`: the rest of `path` behind `base`, or
/// nothing where `base` is no prefix of `path`.
#[verifier::external_body]
pub(crate) fn strip_prefix(path: &str, base: &str) -> (rest: Option<String>)
    ensures
        match rest {
            Some(text) => path_strip_prefix(path@, base@) == Some(text@),
            None => path_strip_prefix(path@, base@) is None,
        },
{
    match Path::new(path).strip_prefix(base) {
        Ok(rest) => Some(rest.to_string_lossy().into_owned()),
        Err(_) => None,
    }
}

/// `std::path::Path::file_stem`: the file name without its extension, or
/// nothing where the path has no file name.
#[verifier::external_body]
pub(crate) fn file_stem(path: &str) -> (stem: Option<String>)
    ensures
        match stem {
            Some(text) => path_file_stem(path@) == Some(text@),
            None => path_file_stem(path@) is None,
        },
{
    match Path::new(path).file_stem() {
        Some(stem) => Some(stem.to_string_lossy().into_owned()),
        None => None,
    }
}

/// `path_slash::PathExt::to_slash` on the path that `path` spells. A path
/// made from text is valid Unicode, for which `to_slash` always has an
/// answer; the answer is a function of the text.
#[verifier::external_body]
pub(crate) fn to_slash(path: &str) -> (slashed: Option<String>)
    ensures
        slashed is Some,
        slashed->0@ == slash_form(path@),
{
    match Path::new(path).to_slash() {
        Some(slashed) => Some(slashed.into_owned()),
        None => None,
    }
}

/// Whether the components of two paths are the same.
pub fn same_components(a: &Vec<PathComponent>, b: &Vec<PathComponent>) -> (same: bool)
    ensures
        same == (segments_of(a@) == segments_of(b@)),
{
    if a.len() != b.len() {
        assert(segments_of(a@).len() != segments_of(b@).len());
        return false;
    }
    let mut i: usize = 0;
    while i < a.len()
        invariant
            i <= a.len(),
            a.len() == b.len(),
            forall|j: int| 0 <= j < i ==> a@[j]@ == b@[j]@,
        decreases a.len() - i,
    {
        let same = match (&a[i], &b[i]) {
            (PathComponent::Prefix(x), PathComponent::Prefix(y)) => *x == *y,
            (PathComponent::RootDir(x), PathComponent::RootDir(y)) => *x == *y,
            (PathComponent::CurDir, PathComponent::CurDir) => true,
            (PathComponent::ParentDir, PathComponent::ParentDir) => true,
            (PathComponent::Normal(x), PathComponent::Normal(y)) => *x == *y,
            _ => false,
        };
        if !same {
            assert(segments_of(a@)[i as int] != segments_of(b@)[i as int]);
            return false;
        }
        i += 1;
    }
    assert(segments_of(a@) =~= segments_of(b@));
    true
}

} // verus!
