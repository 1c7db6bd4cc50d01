use vstd::prelude::*;

verus! {

/// A failure to determine whether a path exists (permissions, unreadable
/// metadata): carried to the caller as a typed value instead of stopping the
/// process, and distinct from "the path does not exist".
#[derive(Debug)]
pub struct AccessError {
    /// The text of the underlying filesystem error.
    pub message: String,
}

/// Relies on std::path::Path::is_dir: true exactly when the path could be
/// read and names an existing directory (after following symlinks).  The
/// answer depends on the state of the disk at call time.
#[verifier::external_body]
pub(crate) fn path_is_dir(s: &str) -> bool {
    std::path::Path::new(s).is_dir()
}

/// Relies on std::path::Path::is_file: true exactly when the path could be
/// read and names an existing regular file (after following symlinks).  The
/// answer depends on the state of the disk at call time.
#[verifier::external_body]
pub(crate) fn path_is_file(s: &str) -> bool {
    std::path::Path::new(s).is_file()
}

/// Relies on std::path::Path::try_exists: Ok holds whether the path exists
/// on disk at call time; Err means existence could not be determined.
#[verifier::external_body]
pub(crate) fn path_try_exists(s: &str) -> Result<bool, AccessError> {
    match std::path::Path::new(s).try_exists() {
        Ok(b) => Ok(b),
        Err(e) => Err(AccessError { message: format!("{}", e) }),
    }
}

/// What std::path::Path::parent yields for a path string: the path without
/// its final component, or nothing for a root or an empty path.  The result
/// depends on the path string alone, read with the path syntax of the
/// platform this library is built for.
pub uninterp spec fn parent_of(s: Seq<char>) -> Option<Seq<char>>;

/// Relies on std::path::Path::parent, whose result this names `parent_of`.
#[verifier::external_body]
pub(crate) fn path_parent(s: &str) -> (r: Option<String>)
    ensures
        match r {
            Some(p) => parent_of(s@) == Some(p@),
            None => parent_of(s@) is None,
        },
{
    match std::path::Path::new(s).parent() {
        Some(p) => Some(p.to_string_lossy().into_owned()),
        None => None,
    }
}

/// What std::path::Path::file_name yields for a path string: its final
/// component, or nothing when the path ends in a root, a prefix, or "..".
/// The result depends on the path string alone, read with the path syntax
/// of the platform this library is built for.
pub uninterp spec fn file_name_of(s: Seq<char>) -> Option<Seq<char>>;

/// Relies on std::path::Path::file_name, whose result this names
/// `file_name_of`.
#[verifier::external_body]
pub(crate) fn path_file_name(s: &str) -> (r: Option<String>)
    ensures
        match r {
            Some(p) => file_name_of(s@) == Some(p@),
            None => file_name_of(s@) is None,
        },
{
    match std::path::Path::new(s).file_name() {
        Some(p) => Some(p.to_string_lossy().into_owned()),
        None => None,
    }
}

/// What the filesystem reported about one candidate path, at check time.
pub struct PathFacts {
    /// The candidate names an existing directory.
    pub is_dir: bool,
    /// The candidate names an existing regular file.
    pub is_file: bool,
    /// The candidate without its final component, as the path syntax reads.
    pub parent: Option<String>,
    /// That parent names an existing directory.
    pub parent_is_dir: bool,
}

/// Gathers the filesystem's view of `candidate`: directory and file flags
/// for the path itself, its parent path, and whether that parent is an
/// existing directory.
pub fn observe_path(candidate: &str) -> (f: PathFacts)
    ensures
        match f.parent {
            Some(p) => parent_of(candidate@) == Some(p@),
            None => parent_of(candidate@) is None,
        },
{
    let is_dir = path_is_dir(candidate);
    let is_file = path_is_file(candidate);
    let parent = path_parent(candidate);
    let parent_is_dir = match &parent {
        Some(p) => path_is_dir(p.as_str()),
        None => false,
    };
    PathFacts { is_dir, is_file, parent, parent_is_dir }
}

} // verus!
