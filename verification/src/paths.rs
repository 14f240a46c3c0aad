//! The checks that keep file uploads and downloads inside the configured
//! roots.
//!
//! What the file system says about a path (whether it exists, its canonical
//! form) is found out by the caller; these functions decide on it.
use vstd::prelude::*;
use crate::error::Error;
use crate::state::{join_path, path_join};

verus! {

/// Whether a `..` component starts at index `i` of a path.
pub open spec fn parent_at(p: Seq<char>, i: int) -> bool {
    &&& 0 <= i
    &&& i + 2 <= p.len()
    &&& p[i] == '.'
    &&& p[i + 1] == '.'
    &&& (i == 0 || p[i - 1] == '/')
    &&& (i + 2 == p.len() || p[i + 2] == '/')
}

/// Whether a path has a parent-directory (`..`) component.
pub open spec fn has_parent_dir(p: Seq<char>) -> bool {
    exists|i: int| parent_at(p, i)
}

/// Whether a path has a parent-directory (`..`) component.
pub fn has_parent_component(path: &str) -> (r: bool)
    ensures
        r == has_parent_dir(path@),
{
    let n = path.unicode_len();
    let mut i: usize = 0;
    while i < n && i + 1 < n
        invariant
            n == path@.len(),
            i <= n,
            forall|j: int| 0 <= j < i ==> !parent_at(path@, j),
        decreases n - i,
    {
        if path.get_char(i) == '.' && path.get_char(i + 1) == '.' && (i == 0 || path.get_char(i - 1) == '/')
            && (i + 2 == n || path.get_char(i + 2) == '/') {
            assert(parent_at(path@, i as int));
            return true;
        }
        i = i + 1;
    }
    assert forall|j: int| !parent_at(path@, j) by {
        if 0 <= j && j + 2 <= path@.len() {
            assert(j < i);
        }
    }
    false
}

/// Refuses a path with a parent-directory component.
pub fn check_path_components(path: &str) -> (r: Result<(), Error>)
    ensures
        has_parent_dir(path@) <==> r is Err,
        r matches Err(e) ==> e matches Error::InvalidPath(m) && m@
            == "Parent-directory components are not allowed"@,
{
    if has_parent_component(path) {
        Err(Error::InvalidPath(String::from_str("Parent-directory components are not allowed")))
    } else {
        Ok(())
    }
}

/// Whether a path is absolute (on Unix: it starts at the root).
pub open spec fn is_absolute(p: Seq<char>) -> bool {
    p.len() > 0 && p[0] == '/'
}

/// The absolute form of a path: itself where absolute, else the path
/// joined to the working directory.
pub open spec fn absolute_of(p: Seq<char>, cwd: Seq<char>) -> Seq<char> {
    if is_absolute(p) {
        p
    } else {
        path_join(cwd, p)
    }
}

/// The absolute form of a path, against the working directory `cwd`.
pub fn absolute_path(path: &str, cwd: &str) -> (r: String)
    ensures
        r@ == absolute_of(path@, cwd@),
{
    if path.unicode_len() > 0 && path.get_char(0) == '/' {
        String::from_str(path)
    } else {
        join_path(cwd, path)
    }
}

/// What `Path::starts_with` says of a path and a base: whether the base's
/// components are the first components of the path.
pub uninterp spec fn path_prefix(path: Seq<char>, base: Seq<char>) -> bool;

/// Whether `base` is a prefix of `path`, whole components only, with
/// `std::path::Path::starts_with`. The contract claims the result is
/// [`path_prefix`] of the two.
#[verifier::external_body]
fn path_starts_with(path: &str, base: &str) -> (r: bool)
    ensures
        r == path_prefix(path@, base@),
{
    std::path::Path::new(path).starts_with(base)
}

/// Whether a root was resolved and lies over the path.
pub open spec fn root_covers(root: Option<Seq<char>>, path: Seq<char>) -> bool {
    match root {
        Some(r) => path_prefix(path, r),
        None => false,
    }
}

/// Whether some root that could be resolved lies over the path.
pub open spec fn inside_roots(path: Seq<char>, roots: Seq<Option<Seq<char>>>) -> bool {
    exists|i: int| 0 <= i < roots.len() && #[trigger] root_covers(roots[i], path)
}

/// The model of a list of resolved roots (`None` for a root that could not
/// be resolved).
pub open spec fn roots_view(v: Seq<Option<String>>) -> Seq<Option<Seq<char>>> {
    Seq::new(
        v.len(),
        |i: int|
            match v[i] {
                Some(s) => Some(s@),
                None => None,
            },
    )
}

/// The refusal of a path outside every allowed root.
pub open spec fn outside_roots_message(path: Seq<char>) -> Seq<char> {
    "Path is outside configured allowed roots: "@ + path
}

/// Accepts a (resolved) path only where it lies under one of the allowed
/// roots; `resolved_roots` holds each root resolved, or `None` where it could
/// not be.
pub fn ensure_path_allowed(path: &str, resolved_roots: &Vec<Option<String>>) -> (r: Result<(), Error>)
    ensures
        r is Ok <==> inside_roots(path@, roots_view(resolved_roots@)),
        r matches Err(e) ==> e matches Error::InvalidPath(m) && m@ == outside_roots_message(path@),
{
    let ghost roots = roots_view(resolved_roots@);
    let mut i: usize = 0;
    while i < resolved_roots.len()
        invariant
            i <= resolved_roots.len(),
            roots == roots_view(resolved_roots@),
            forall|j: int| 0 <= j < i ==> !#[trigger] root_covers(roots[j], path@),
        decreases resolved_roots.len() - i,
    {
        match &resolved_roots[i] {
            Some(root) => {
                if path_starts_with(path, root.as_str()) {
                    assert(roots[i as int] == Some(root@));
                    assert(root_covers(roots[i as int], path@));
                    return Ok(());
                }
            },
            None => {},
        }
        i = i + 1;
    }
    let mut m = String::from_str("Path is outside configured allowed roots: ");
    m.append(path);
    Err(Error::InvalidPath(m))
}

/// The refusal of a path with a parent-directory component.
pub open spec fn parent_dir_refusal(e: Error) -> bool {
    e matches Error::InvalidPath(m) && m@ == "Parent-directory components are not allowed"@
}

/// Accepts an upload path. `path` is the path as given; `resolution` is its
/// canonical form on disk, or the error met while resolving it; and
/// `is_regular_file` tells whether the canonical path names a regular file.
/// A path with a `..` component is refused whatever its resolution; then a
/// resolution error is returned as it came; then the file must be a regular
/// file under one of the allowed roots (`resolved_roots`, each root resolved,
/// or `None` where it could not be), and its canonical path is returned.
pub fn validate_file_path(
    path: &str,
    resolution: Result<String, Error>,
    is_regular_file: bool,
    resolved_roots: &Vec<Option<String>>,
) -> (r: Result<String, Error>)
    ensures
        has_parent_dir(path@) ==> (r matches Err(e) && parent_dir_refusal(e)),
        !has_parent_dir(path@) ==> match resolution {
            Err(e) => r == Err::<String, Error>(e),
            Ok(canonical) => {
                &&& r is Ok <==> is_regular_file && inside_roots(canonical@, roots_view(resolved_roots@))
                &&& r matches Ok(p) ==> p@ == canonical@
                &&& !is_regular_file ==> (r matches Err(Error::InvalidPath(m)) && m@
                    == "Upload path is not a regular file: "@ + canonical@)
                &&& is_regular_file && !inside_roots(canonical@, roots_view(resolved_roots@)) ==> (r matches Err(
                    Error::InvalidPath(m),
                ) && m@ == outside_roots_message(canonical@))
            },
        },
{
    check_path_components(path)?;
    let canonical = resolution?;
    if !is_regular_file {
        let mut m = String::from_str("Upload path is not a regular file: ");
        m.append(canonical.as_str());
        return Err(Error::InvalidPath(m));
    }
    match ensure_path_allowed(canonical.as_str(), resolved_roots) {
        Ok(()) => Ok(canonical),
        Err(e) => Err(e),
    }
}

/// Accepts a download directory. `path` is the path as given and
/// `resolution` its resolved form (through its nearest existing ancestor
/// where it does not exist yet), or the error met while resolving it. A path
/// with a `..` component is refused whatever its resolution; then a
/// resolution error is returned as it came; then the resolved path must lie
/// under one of the allowed roots, and is returned.
pub fn validate_directory_path(
    path: &str,
    resolution: Result<String, Error>,
    resolved_roots: &Vec<Option<String>>,
) -> (r: Result<String, Error>)
    ensures
        has_parent_dir(path@) ==> (r matches Err(e) && parent_dir_refusal(e)),
        !has_parent_dir(path@) ==> match resolution {
            Err(e) => r == Err::<String, Error>(e),
            Ok(resolved) => {
                &&& r is Ok <==> inside_roots(resolved@, roots_view(resolved_roots@))
                &&& r matches Ok(p) ==> p@ == resolved@
                &&& r matches Err(e) ==> e matches Error::InvalidPath(m) && m@ == outside_roots_message(resolved@)
            },
        },
{
    check_path_components(path)?;
    let resolved = resolution?;
    match ensure_path_allowed(resolved.as_str(), resolved_roots) {
        Ok(()) => Ok(resolved),
        Err(e) => Err(e),
    }
}

} // verus!
