//! Paths of repositories: upstream names, display paths, and the checks that
//! keep git inside the authorized workspace.
use vstd::prelude::*;

use crate::git::types::{GitError, GitErrorV};
use crate::text::{
    before_first, chars_of, extend_chars, find_char, lemma_before_first_found, replace_char,
    replace_char_chars, slice_range, string_of_all,
};
use crate::workspace::{path_starts_with, path_within, WorkspaceEnv, WorkspaceRegistry};

verus! {

/// The remote and branch of an upstream such as `origin/main`: split at the
/// first `/`; without one, the whole name is the branch.
pub open spec fn upstream_parts(u: Seq<char>) -> (Option<Seq<char>>, Option<Seq<char>>) {
    if u.contains('/') {
        let head = before_first(u, '/');
        (Some(head), Some(u.subrange(head.len() as int + 1, u.len() as int)))
    } else {
        (None, Some(u))
    }
}

/// Splits an upstream name into remote and branch.
pub fn split_upstream(upstream: &str) -> (r: (Option<String>, Option<String>))
    ensures
        (crate::git::types::opt_view(r.0), crate::git::types::opt_view(r.1)) == upstream_parts(
            upstream@,
        ),
{
    let u = chars_of(upstream);
    let n = u.len();
    match find_char(u.as_slice(), 0, '/') {
        Some(k) => {
            proof {
                lemma_before_first_found(u@, '/', k as int);
                assert(u@.contains('/'));
            }
            (
                Some(string_of_all(slice_range(u.as_slice(), 0, k).as_slice())),
                Some(string_of_all(slice_range(u.as_slice(), k + 1, n).as_slice())),
            )
        },
        None => {
            assert(!u@.contains('/'));
            (None, Some(String::from_str(upstream)))
        },
    }
}

/// An upstream that names a remote is that remote, a `/` and the branch, and
/// the remote holds no `/`.
pub proof fn lemma_upstream_roundtrip(u: Seq<char>)
    ensures
        upstream_parts(u).1 is Some,
        upstream_parts(u).0 matches Some(remote) ==> {
            &&& remote + seq!['/'] + upstream_parts(u).1->0 == u
            &&& !remote.contains('/')
        },
        upstream_parts(u).0 is None ==> upstream_parts(u).1 == Some(u),
{
    if u.contains('/') {
        let k = choose|k: int| 0 <= k < u.len() && u[k] == '/';
        let first = first_slash(u, k);
        lemma_before_first_found(u, '/', first);
        assert(u.subrange(0, first) + seq!['/'] + u.subrange(first + 1, u.len() as int) =~= u);
        assert(!u.subrange(0, first).contains('/')) by {
            if u.subrange(0, first).contains('/') {
                let j = choose|j: int| 0 <= j < first && u.subrange(0, first)[j] == '/';
                assert(u[j] == '/');
            }
        }
    }
}

proof fn first_slash(u: Seq<char>, k: int) -> (f: int)
    requires
        0 <= k < u.len(),
        u[k] == '/',
    ensures
        0 <= f <= k,
        u[f] == '/',
        forall|j: int| 0 <= j < f ==> u[j] != '/',
    decreases k,
{
    if exists|j: int| 0 <= j < k && u[j] == '/' {
        let j = choose|j: int| 0 <= j < k && u[j] == '/';
        first_slash(u, j)
    } else {
        k
    }
}

/// A path as the panels show it: every `\` turned into `/`.
pub fn display_path(path: &str) -> (r: String)
    ensures
        r@ == replace_char(path@, '\\', '/'),
{
    normalize_git_path(path)
}

/// A path as git expects it: every `\` turned into `/`.
pub fn normalize_git_path(path: &str) -> (r: String)
    ensures
        r@ == replace_char(path@, '\\', '/'),
{
    let c = chars_of(path);
    string_of_all(replace_char_chars(c.as_slice(), '\\', '/').as_slice())
}

/// A displayed path holds no `\`, and displaying it again changes nothing.
pub proof fn lemma_display_path_normal(p: Seq<char>)
    ensures
        !replace_char(p, '\\', '/').contains('\\'),
        replace_char(replace_char(p, '\\', '/'), '\\', '/') == replace_char(p, '\\', '/'),
{
    let d = replace_char(p, '\\', '/');
    assert(replace_char(d, '\\', '/') =~= d);
}

/// A directory a git operation runs in.
#[derive(Debug)]
pub struct ResolvedGitDirectory {
    pub workspace: WorkspaceEnv,
    /// The path handed to git.
    pub git_path: String,
    /// The canonical local path.
    pub local_path: String,
}

/// The directory `path` names, given whether it is a directory and what
/// canonicalizing it gave: git gets the path itself (slashes normalized) in
/// WSL, the canonical path otherwise.
pub fn canonical_dir(
    path: &str,
    workspace: &WorkspaceEnv,
    is_dir: bool,
    canonical: Result<String, String>,
) -> (r: Result<ResolvedGitDirectory, GitError>)
    ensures
        !is_dir ==> (r matches Err(e) && e@ == GitErrorV::NotADirectory(path@)),
        is_dir ==> (match canonical {
            Err(msg) => r matches Err(e) && e@ == GitErrorV::Io(msg@),
            Ok(local) => r matches Ok(d) && d.local_path@ == local@ && (d.workspace is Wsl
                <==> workspace is Wsl) && (d.workspace is Wsl ==> d.workspace->distro@
                == workspace->distro@) && d.git_path@ == if workspace is Wsl {
                replace_char(path@, '\\', '/')
            } else {
                replace_char(local@, '\\', '/')
            },
        }),
{
    if !is_dir {
        return Err(GitError::NotADirectory(String::from_str(path)));
    }
    let local_path = match canonical {
        Ok(p) => p,
        Err(msg) => return Err(GitError::Io(msg)),
    };
    let git_path = if workspace.is_wsl() {
        normalize_git_path(path)
    } else {
        display_path(local_path.as_str())
    };
    Ok(ResolvedGitDirectory { workspace: workspace.duplicate(), git_path, local_path })
}

/// Whether a path lies inside one of the registry's roots.
pub open spec fn authorized(registry: Set<Seq<char>>, path: Seq<char>) -> bool {
    exists|root: Seq<char>| registry.contains(root) && path_within(path, root)
}

/// The directory, if it lies inside an authorized workspace.
pub fn authorized_repo_root(
    registry: &WorkspaceRegistry,
    canonical: Result<ResolvedGitDirectory, GitError>,
) -> (r: Result<ResolvedGitDirectory, GitError>)
    ensures
        match canonical {
            Err(e) => r matches Err(f) && f@ == e@,
            Ok(d) => if authorized(registry@, d.local_path@) {
                r matches Ok(x) && x == d
            } else {
                r matches Err(f) && f@ == GitErrorV::PathOutsideWorkspace(d.local_path@)
            },
        },
{
    let d = canonical?;
    if !registry.is_authorized(d.local_path.as_str()) {
        return Err(GitError::PathOutsideWorkspace(d.local_path.clone()));
    }
    Ok(d)
}

/// What is left of `path` below `base` (`Path::strip_prefix` on canonical
/// `/`-separated paths), or `None` when `path` is not below `base`.
pub open spec fn strip_path_prefix(path: Seq<char>, base: Seq<char>) -> Option<Seq<char>> {
    if !path_within(path, base) {
        None
    } else if base.len() == 0 {
        Some(path)
    } else if path.len() == base.len() {
        Some(Seq::empty())
    } else if base.last() == '/' {
        Some(path.subrange(base.len() as int, path.len() as int))
    } else {
        Some(path.subrange(base.len() as int + 1, path.len() as int))
    }
}

fn strip_prefix_chars(path: &[char], base: &[char]) -> (r: Option<Vec<char>>)
    ensures
        match r {
            Some(v) => strip_path_prefix(path@, base@) == Some(v@),
            None => strip_path_prefix(path@, base@) is None,
        },
{
    if !path_starts_with(path, base) {
        return None;
    }
    let n = path.len();
    if base.len() == 0 {
        Some(slice_range(path, 0, n))
    } else if n == base.len() {
        Some(Vec::new())
    } else if base[base.len() - 1] == '/' {
        Some(slice_range(path, base.len(), n))
    } else {
        Some(slice_range(path, base.len() + 1, n))
    }
}

/// The repository-relative spelling of a path git is given: relative to the
/// root when it lies below it, else the path itself; with `/` separators.
pub open spec fn pathspec_of(repo_root: Seq<char>, absolute: Seq<char>) -> Seq<char> {
    match strip_path_prefix(absolute, repo_root) {
        Some(rel) => replace_char(rel, '\\', '/'),
        None => replace_char(absolute, '\\', '/'),
    }
}

/// The path git gets for `absolute` inside `repo_root`.
pub fn pathspec(repo_root: &str, absolute: &str) -> (r: String)
    ensures
        r@ == pathspec_of(repo_root@, absolute@),
{
    let root = chars_of(repo_root);
    let abs = chars_of(absolute);
    match strip_prefix_chars(abs.as_slice(), root.as_slice()) {
        Some(rel) => string_of_all(replace_char_chars(rel.as_slice(), '\\', '/').as_slice()),
        None => string_of_all(replace_char_chars(abs.as_slice(), '\\', '/').as_slice()),
    }
}

/// What canonicalizing a path gave.
#[derive(Debug)]
pub enum Canonicalized {
    Path(String),
    NotFound,
    Failed(String),
}

/// `Path::join` of a canonical directory and a file name.
pub open spec fn join_path(dir: Seq<char>, name: Seq<char>) -> Seq<char> {
    if dir.len() > 0 && dir.last() == '/' {
        dir + name
    } else {
        dir + seq!['/'] + name
    }
}

/// The path `rel` names inside `repo_root`, which must stay inside it: the
/// canonical path of `repo_root/rel` when it exists; when it does not, the
/// canonical path of its parent joined with its file name.
pub open spec fn within_repo(
    repo_root: Seq<char>,
    rel: Seq<char>,
    joined: Canonicalized,
    parent: Option<(Result<String, String>, Option<String>)>,
) -> Result<Seq<char>, GitErrorV> {
    if rel.len() == 0 {
        Err(GitErrorV::InvalidPath(rel))
    } else {
        match joined {
            Canonicalized::Path(p) => if path_within(p@, repo_root) {
                Ok(p@)
            } else {
                Err(GitErrorV::PathOutsideWorkspace(p@))
            },
            Canonicalized::Failed(m) => Err(GitErrorV::Io(m@)),
            Canonicalized::NotFound => match parent {
                None => Err(GitErrorV::InvalidPath(rel)),
                Some((Err(m), _)) => Err(GitErrorV::Io(m@)),
                Some((Ok(pp), name)) => if !path_within(pp@, repo_root) {
                    Err(GitErrorV::PathOutsideWorkspace(pp@))
                } else {
                    match name {
                        None => Err(GitErrorV::InvalidPath(rel)),
                        Some(n) => Ok(join_path(pp@, n@)),
                    }
                },
            },
        }
    }
}

/// Decides where `rel` lies inside `repo_root`, from the outcome of
/// canonicalizing `repo_root/rel` and, when that did not exist, of
/// canonicalizing its parent (with the file name).
pub fn resolve_within_repo(
    repo_root: &str,
    rel: &str,
    joined: Canonicalized,
    parent: Option<(Result<String, String>, Option<String>)>,
) -> (r: Result<String, GitError>)
    ensures
        match r {
            Ok(p) => within_repo(repo_root@, rel@, joined, parent) == Ok::<Seq<char>, GitErrorV>(p@),
            Err(e) => within_repo(repo_root@, rel@, joined, parent) == Err::<Seq<char>, GitErrorV>(e@),
        },
{
    let rel_chars = chars_of(rel);
    if rel_chars.len() == 0 {
        return Err(GitError::InvalidPath(String::from_str(rel)));
    }
    let root = chars_of(repo_root);
    match joined {
        Canonicalized::Path(p) => {
            let pc = chars_of(p.as_str());
            if path_starts_with(pc.as_slice(), root.as_slice()) {
                Ok(p)
            } else {
                Err(GitError::PathOutsideWorkspace(p))
            }
        },
        Canonicalized::Failed(m) => Err(GitError::Io(m)),
        Canonicalized::NotFound => match parent {
            None => Err(GitError::InvalidPath(String::from_str(rel))),
            Some((Err(m), _)) => Err(GitError::Io(m)),
            Some((Ok(pp), name)) => {
                let pc = chars_of(pp.as_str());
                if !path_starts_with(pc.as_slice(), root.as_slice()) {
                    return Err(GitError::PathOutsideWorkspace(pp));
                }
                match name {
                    None => Err(GitError::InvalidPath(String::from_str(rel))),
                    Some(n) => {
                        let ghost pv = pp@;
                        let mut out = pc;
                        if !(out.len() > 0 && out[out.len() - 1] == '/') {
                            out.push('/');
                            assert(out@ =~= pv + seq!['/']);
                        }
                        extend_chars(&mut out, chars_of(n.as_str()).as_slice());
                        assert(out@ =~= join_path(pv, n@));
                        Ok(string_of_all(out.as_slice()))
                    },
                }
            },
        },
    }
}

} // verus!
