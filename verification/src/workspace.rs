//! Workspace roots, the workspace environment (local or WSL), and the WSL
//! helpers that interpret what `wsl.exe` prints.
use vstd::prelude::*;

use crate::text::{
    after_last, after_last_chars, ascii_lower_char, chars_of, find_char, is_ws, join, join_chars,
    line_pieces, line_pieces_chars, lower, strings_view, trim, trim_bounds, trim_chars,
    utf16_lossy, utf16_lossy_string, utf8_lossy, utf8_lossy_string, views, words, words_chars,
    extend_chars, matches_at, replace_char, replace_char_chars, slice_range, starts_with,
    string_of_all, trim_start_char, trim_start_char_len,
};

verus! {

// ------------------------------------------------------------------
// Registry of authorized workspace roots
// ------------------------------------------------------------------

/// Whether `path` lies at or below `base`, comparing whole path components of
/// canonical, `/`-separated paths (a canonical path has no `.` or `..`
/// components, no repeated separators and no trailing separator).
pub open spec fn path_within(path: Seq<char>, base: Seq<char>) -> bool {
    starts_with(path, base) && (base.len() == 0 || path.len() == base.len() || base.last() == '/'
        || path[base.len() as int] == '/')
}

/// Whether `path` lies at or below `base` (see `path_within`).
pub fn path_starts_with(path: &[char], base: &[char]) -> (r: bool)
    ensures
        r == path_within(path@, base@),
{
    if base.len() > path.len() {
        return false;
    }
    if !matches_at(path, base, 0) {
        return false;
    }
    assert(path@.subrange(0, base@.len() as int) == base@);
    base.len() == 0 || path.len() == base.len() || base[base.len() - 1] == '/' || path[base.len()]
        == '/'
}

/// The set of canonical directories the user has opened as workspaces.
pub struct WorkspaceRegistry {
    roots: Vec<String>,
}

impl View for WorkspaceRegistry {
    type V = Set<Seq<char>>;

    closed spec fn view(&self) -> Set<Seq<char>> {
        Set::new(|p: Seq<char>| exists|i: int| 0 <= i < self.roots@.len() && self.roots@[i]@ == p)
    }
}

impl WorkspaceRegistry {
    /// No root is held twice.
    #[verifier::type_invariant]
    closed spec fn no_duplicates(self) -> bool {
        forall|i: int, j: int|
            0 <= i < j < self.roots@.len() ==> self.roots@[i]@ != self.roots@[j]@
    }

    /// An empty registry.
    pub fn new() -> (r: Self)
        ensures
            r@ == Set::<Seq<char>>::empty(),
    {
        let r = WorkspaceRegistry { roots: Vec::new() };
        assert(r@ =~= Set::<Seq<char>>::empty());
        r
    }

    /// The roots, in the order they were first authorized.
    pub fn roots(&self) -> (r: Vec<String>)
        ensures
            forall|p: Seq<char>|
                self@.contains(p) <==> exists|i: int| 0 <= i < r@.len() && r@[i]@ == p,
    {
        let mut out: Vec<String> = Vec::new();
        let mut i: usize = 0;
        while i < self.roots.len()
            invariant
                i <= self.roots@.len(),
                out@.len() == i,
                forall|k: int| 0 <= k < i ==> out@[k]@ == self.roots@[k]@,
            decreases self.roots.len() - i,
        {
            out.push(self.roots[i].clone());
            i = i + 1;
        }
        assert forall|p: Seq<char>| self@.contains(p) <==> exists|k: int|
            0 <= k < out@.len() && out@[k]@ == p by {
            if self@.contains(p) {
                let k = choose|k: int| 0 <= k < self.roots@.len() && self.roots@[k]@ == p;
                assert(out@[k]@ == p);
            }
            if exists|k: int| 0 <= k < out@.len() && out@[k]@ == p {
                let k = choose|k: int| 0 <= k < out@.len() && out@[k]@ == p;
                assert(self.roots@[k]@ == p);
            }
        }
        out
    }

    /// Records an already canonicalized directory as an authorized root and
    /// hands it back (the registry is a set: adding a root twice changes
    /// nothing).
    pub fn authorize(&mut self, canonical: &str) -> (r: String)
        ensures
            final(self)@ == old(self)@.insert(canonical@),
            r@ == canonical@,
    {
        proof {
            use_type_invariant(&*self);
        }
        let ghost old_view = self@;
        let ghost old_roots = self.roots@;
        let c = String::from_str(canonical);
        let present = self.holds(&c);
        if present {
            assert(self@ =~= old_view.insert(canonical@));
        } else {
            let mut roots = Vec::new();
            std::mem::swap(&mut roots, &mut self.roots);
            roots.push(String::from_str(canonical));
            assert(roots@.len() == old_roots.len() + 1);
            assert forall|i: int, j: int| 0 <= i < j < roots@.len() implies roots@[i]@
                != roots@[j]@ by {
                if j < old_roots.len() {
                    assert(roots@[i] == old_roots[i] && roots@[j] == old_roots[j]);
                } else {
                    assert(roots@[i] == old_roots[i]);
                }
            }
            self.roots = roots;
            assert forall|p: Seq<char>| self@.contains(p) <==> old_view.insert(canonical@).contains(p) by {
                if old_view.contains(p) {
                    let k = choose|k: int| 0 <= k < old_roots.len() && old_roots[k]@ == p;
                    assert(self.roots@[k]@ == p);
                }
                if p == canonical@ {
                    assert(self.roots@[old_roots.len() as int]@ == p);
                }
                if self@.contains(p) {
                    let k = choose|k: int| 0 <= k < self.roots@.len() && self.roots@[k]@ == p;
                    if k < old_roots.len() {
                        assert(old_roots[k]@ == p);
                    }
                }
            }
            assert(self@ =~= old_view.insert(canonical@));
        }
        c
    }

    fn holds(&self, c: &String) -> (r: bool)
        ensures
            r == self@.contains(c@),
    {
        let mut i: usize = 0;
        while i < self.roots.len()
            invariant
                i <= self.roots@.len(),
                forall|k: int| 0 <= k < i ==> self.roots@[k]@ != c@,
            decreases self.roots.len() - i,
        {
            if self.roots[i] == *c {
                return true;
            }
            i = i + 1;
        }
        assert(!self@.contains(c@)) by {
            if self@.contains(c@) {
                let k = choose|k: int| 0 <= k < self.roots@.len() && self.roots@[k]@ == c@;
                assert(self.roots@[k]@ != c@);
            }
        }
        false
    }

    /// Whether `target` lies at or below one of the authorized roots.
    pub fn is_authorized(&self, target: &str) -> (r: bool)
        ensures
            r == exists|root: Seq<char>| self@.contains(root) && path_within(target@, root),
    {
        let t = chars_of(target);
        let mut i: usize = 0;
        while i < self.roots.len()
            invariant
                i <= self.roots@.len(),
                t@ == target@,
                forall|k: int| 0 <= k < i ==> !path_within(target@, self.roots@[k]@),
            decreases self.roots.len() - i,
        {
            let root = chars_of(self.roots[i].as_str());
            if path_starts_with(t.as_slice(), root.as_slice()) {
                assert(self@.contains(self.roots@[i as int]@));
                return true;
            }
            i = i + 1;
        }
        assert forall|root: Seq<char>| self@.contains(root) implies !path_within(target@, root) by {
            let k = choose|k: int| 0 <= k < self.roots@.len() && self.roots@[k]@ == root;
        }
        false
    }
}

/// Authorizing a root makes it, and everything below it, authorized, and
/// keeps every earlier authorization.
pub proof fn lemma_authorize_grants(
    before: Set<Seq<char>>,
    after: Set<Seq<char>>,
    root: Seq<char>,
    target: Seq<char>,
)
    requires
        after == before.insert(root),
    ensures
        path_within(target, root) ==> exists|r: Seq<char>| after.contains(r) && path_within(
            target,
            r,
        ),
        (exists|r: Seq<char>| before.contains(r) && path_within(target, r)) ==> exists|
            r: Seq<char>,
        | after.contains(r) && path_within(target, r),
{
    if path_within(target, root) {
        assert(after.contains(root));
    }
    if exists|r: Seq<char>| before.contains(r) && path_within(target, r) {
        let r = choose|r: Seq<char>| before.contains(r) && path_within(target, r);
        assert(after.contains(r));
    }
}

/// The roots after authorizing each of `roots` in turn.
pub open spec fn after_authorizing(reg: Set<Seq<char>>, roots: Seq<Seq<char>>) -> Set<Seq<char>>
    decreases roots.len(),
{
    if roots.len() == 0 {
        reg
    } else {
        after_authorizing(reg.insert(roots[0]), roots.drop_first())
    }
}

/// Authorizing more roots never removes one.
pub proof fn lemma_after_authorizing_grows(reg: Set<Seq<char>>, roots: Seq<Seq<char>>, r: Seq<char>)
    requires
        reg.contains(r),
    ensures
        after_authorizing(reg, roots).contains(r),
    decreases roots.len(),
{
    if roots.len() > 0 {
        lemma_after_authorizing_grows(reg.insert(roots[0]), roots.drop_first(), r);
    }
}

/// Once `c` is authorized, every path at or below it stays authorized,
/// whatever roots are authorized after it.
pub proof fn lemma_authorized_stays(
    reg: Set<Seq<char>>,
    c: Seq<char>,
    later: Seq<Seq<char>>,
    target: Seq<char>,
)
    requires
        path_within(target, c),
    ensures
        exists|r: Seq<char>| after_authorizing(reg.insert(c), later).contains(r) && path_within(
            target,
            r,
        ),
{
    lemma_after_authorizing_grows(reg.insert(c), later, c);
}

/// Every canonical path lies within itself: a freshly authorized root is
/// itself authorized.
pub proof fn lemma_path_within_reflexive(p: Seq<char>)
    ensures
        path_within(p, p),
{
    assert(p.subrange(0, p.len() as int) =~= p);
}

/// Authorizes the cwd and the home directory (each already canonicalized;
/// one that could not be found or canonicalized is skipped).
pub fn bootstrap_registry(
    registry: &mut WorkspaceRegistry,
    cwd: Option<String>,
    home: Option<String>,
)
    ensures
        final(registry)@ == old(registry)@.union(
            match cwd {
                Some(c) => set![c@],
                None => Set::<Seq<char>>::empty(),
            },
        ).union(
            match home {
                Some(h) => set![h@],
                None => Set::<Seq<char>>::empty(),
            },
        ),
{
    let ghost start = registry@;
    match cwd {
        Some(c) => {
            registry.authorize(c.as_str());
        },
        None => {},
    }
    let ghost mid = registry@;
    match home {
        Some(h) => {
            registry.authorize(h.as_str());
        },
        None => {},
    }
    assert(registry@ =~= start.union(
        match cwd {
            Some(c) => set![c@],
            None => Set::<Seq<char>>::empty(),
        },
    ).union(
        match home {
            Some(h) => set![h@],
            None => Set::<Seq<char>>::empty(),
        },
    ));
}

/// Authorizes a directory given the outcome of canonicalizing it, and answers
/// its canonical form with `\` separators turned to `/`; a failed
/// canonicalization is answered with its message and authorizes nothing.
pub fn workspace_authorize(
    registry: &mut WorkspaceRegistry,
    canonical: Result<String, String>,
) -> (r: Result<String, String>)
    ensures
        match canonical {
            Ok(c) => final(registry)@ == old(registry)@.insert(c@) && (r matches Ok(s) && s@
                == replace_char(c@, '\\', '/')),
            Err(e) => final(registry)@ == old(registry)@ && (r matches Err(f) && f@ == e@),
        },
{
    match canonical {
        Ok(c) => {
            let root = registry.authorize(c.as_str());
            let chars = chars_of(root.as_str());
            let fixed = replace_char_chars(chars.as_slice(), '\\', '/');
            Ok(string_of_all(fixed.as_slice()))
        },
        Err(e) => Err(e),
    }
}

/// Authorizes the current directory given the outcome of reading and
/// canonicalizing it (see `workspace_authorize`).
pub fn workspace_current_dir(
    registry: &mut WorkspaceRegistry,
    canonical_cwd: Result<String, String>,
) -> (r: Result<String, String>)
    ensures
        match canonical_cwd {
            Ok(c) => final(registry)@ == old(registry)@.insert(c@) && (r matches Ok(s) && s@
                == replace_char(c@, '\\', '/')),
            Err(e) => final(registry)@ == old(registry)@ && (r matches Err(f) && f@ == e@),
        },
{
    workspace_authorize(registry, canonical_cwd)
}

// ------------------------------------------------------------------
// Workspace environment
// ------------------------------------------------------------------

/// Where a workspace lives: on the local machine or inside a WSL distribution.
#[derive(Debug)]
pub enum WorkspaceEnv {
    Local,
    Wsl { distro: String },
}

impl WorkspaceEnv {
    /// The given environment, or `Local` when none is given.
    pub fn from_option(workspace: Option<Self>) -> (r: Self)
        ensures
            r == (match workspace {
                Some(w) => w,
                None => WorkspaceEnv::Local,
            }),
    {
        match workspace {
            Some(w) => w,
            None => WorkspaceEnv::Local,
        }
    }

    /// Whether this is a WSL workspace.
    pub fn is_wsl(&self) -> (r: bool)
        ensures
            r == (self is Wsl),
    {
        match self {
            WorkspaceEnv::Wsl { .. } => true,
            WorkspaceEnv::Local => false,
        }
    }

    /// A copy of this environment.
    pub fn duplicate(&self) -> (r: Self)
        ensures
            r is Wsl <==> self is Wsl,
            r is Wsl ==> r->distro@ == self->distro@,
    {
        match self {
            WorkspaceEnv::Wsl { distro } => WorkspaceEnv::Wsl { distro: distro.clone() },
            WorkspaceEnv::Local => WorkspaceEnv::Local,
        }
    }
}

impl Default for WorkspaceEnv {
    fn default() -> (r: Self)
        ensures
            r is Local,
    {
        WorkspaceEnv::Local
    }
}

// ------------------------------------------------------------------
// WSL paths
// ------------------------------------------------------------------

/// The Windows form of a Linux path inside a distribution: separators turned
/// to `\`, leading separators dropped.
pub open spec fn unc_tail(path: Seq<char>) -> Seq<char> {
    replace_char(trim_start_char(replace_char(path, '\\', '/'), '/'), '/', '\\')
}

/// `\\wsl.localhost\<distro>\<path>`.
pub open spec fn unc_primary(distro: Seq<char>, path: Seq<char>) -> Seq<char> {
    "\\\\wsl.localhost\\"@ + distro + "\\"@ + unc_tail(path)
}

/// `\\wsl$\<distro>\<path>`, the older share name.
pub open spec fn unc_fallback(distro: Seq<char>, path: Seq<char>) -> Seq<char> {
    "\\\\wsl$\\"@ + distro + "\\"@ + unc_tail(path)
}

fn unc_path(prefix: &str, distro: &str, path: &str) -> (r: String)
    ensures
        r@ == prefix@ + distro@ + "\\"@ + unc_tail(path@),
{
    let p = chars_of(path);
    let norm = replace_char_chars(p.as_slice(), '\\', '/');
    let start = trim_start_char_len(norm.as_slice(), '/');
    let rest = slice_range(norm.as_slice(), start, norm.len());
    let tail = replace_char_chars(rest.as_slice(), '/', '\\');
    let mut out = chars_of(prefix);
    let d = chars_of(distro);
    extend_chars(&mut out, d.as_slice());
    let sep = chars_of("\\");
    extend_chars(&mut out, sep.as_slice());
    extend_chars(&mut out, tail.as_slice());
    string_of_all(out.as_slice())
}

/// The primary UNC path through which Windows reaches `path` inside `distro`;
/// whether it exists is what `wsl_path_to_unc` needs to know.
pub fn wsl_unc_primary(distro: &str, path: &str) -> (r: String)
    ensures
        r@ == unc_primary(distro@, path@),
{
    unc_path("\\\\wsl.localhost\\", distro, path)
}

/// The UNC path for `path` inside `distro`: the `wsl.localhost` share when it
/// exists, else the older `wsl$` share.
pub fn wsl_path_to_unc(distro: &str, path: &str, primary_exists: bool) -> (r: String)
    ensures
        r@ == if primary_exists {
            unc_primary(distro@, path@)
        } else {
            unc_fallback(distro@, path@)
        },
{
    if primary_exists {
        unc_path("\\\\wsl.localhost\\", distro, path)
    } else {
        unc_path("\\\\wsl$\\", distro, path)
    }
}

/// The local path to use for `path`: on Windows a WSL path goes through the
/// distribution's UNC share; otherwise the path is used as it is.
pub fn resolve_path(path: &str, workspace: &WorkspaceEnv, on_windows: bool, primary_exists: bool) -> (r: String)
    ensures
        r@ == (match workspace {
            WorkspaceEnv::Wsl { distro } => if on_windows {
                if primary_exists {
                    unc_primary(distro@, path@)
                } else {
                    unc_fallback(distro@, path@)
                }
            } else {
                path@
            },
            WorkspaceEnv::Local => path@,
        }),
{
    match workspace {
        WorkspaceEnv::Wsl { distro } => {
            if on_windows {
                wsl_path_to_unc(distro.as_str(), path, primary_exists)
            } else {
                String::from_str(path)
            }
        },
        WorkspaceEnv::Local => String::from_str(path),
    }
}

// ------------------------------------------------------------------
// Output of wsl.exe
// ------------------------------------------------------------------

/// Whether the bytes begin with the UTF-16 little-endian byte order mark.
pub open spec fn has_utf16_bom(b: Seq<u8>) -> bool {
    b.len() >= 2 && b[0] == 0xff && b[1] == 0xfe
}

/// How many bytes at odd positions are zero.
pub open spec fn odd_nul_count(b: Seq<u8>) -> nat
    decreases b.len(),
{
    if b.len() == 0 {
        0
    } else {
        odd_nul_count(b.drop_last()) + if (b.len() - 1) % 2 == 1 && b.last() == 0 {
            1nat
        } else {
            0nat
        }
    }
}

/// An even number of at least four bytes where at least half of the
/// high bytes of the 16-bit units are zero: text that looks like UTF-16LE.
pub open spec fn looks_utf16le(b: Seq<u8>) -> bool {
    b.len() >= 4 && b.len() % 2 == 0 && odd_nul_count(b) * 2 >= b.len() / 2
}

/// The little-endian 16-bit units of `b` (a trailing odd byte is dropped).
pub open spec fn le_units(b: Seq<u8>) -> Seq<u16> {
    Seq::new(b.len() / 2, |i: int| (b[2 * i] + 256 * b[2 * i + 1]) as u16)
}

/// The text of a command's output: UTF-16LE (after any byte order mark) when
/// it has the mark or looks like UTF-16LE, else UTF-8 with replacement.
pub open spec fn decoded_output(b: Seq<u8>) -> Seq<char> {
    if has_utf16_bom(b) {
        utf16_lossy(le_units(b.skip(2)))
    } else if looks_utf16le(b) {
        utf16_lossy(le_units(b))
    } else {
        utf8_lossy(b)
    }
}

fn looks_utf16le_bytes(bytes: &[u8]) -> (r: bool)
    ensures
        r == looks_utf16le(bytes@),
{
    let n = bytes.len();
    if n < 4 || n % 2 != 0 {
        return false;
    }
    let mut count: usize = 0;
    let mut i: usize = 0;
    while i < n
        invariant
            n == bytes@.len(),
            i <= n,
            count == odd_nul_count(bytes@.take(i as int)),
            count <= i,
        decreases n - i,
    {
        assert(bytes@.take(i + 1).drop_last() =~= bytes@.take(i as int));
        if i % 2 == 1 && bytes[i] == 0 {
            count = count + 1;
        }
        i = i + 1;
    }
    assert(bytes@.take(n as int) =~= bytes@);
    count >= (n / 2 + 1) / 2
}

/// Decodes the output of a Windows command, which may be UTF-16LE (as
/// `wsl.exe` prints) or UTF-8.
pub fn decode_command_output(bytes: &[u8]) -> (r: String)
    ensures
        r@ == decoded_output(bytes@),
{
    let bom = bytes.len() >= 2 && bytes[0] == 0xff && bytes[1] == 0xfe;
    if bom || looks_utf16le_bytes(bytes) {
        let start: usize = if bom {
            2
        } else {
            0
        };
        let ghost rest = bytes@.skip(start as int);
        let n = bytes.len();
        let count = (n - start) / 2;
        let mut units: Vec<u16> = Vec::new();
        let mut i: usize = 0;
        while i < count
            invariant
                n == bytes@.len(),
                start <= n,
                count == (n - start) / 2,
                rest == bytes@.skip(start as int),
                i <= count,
                units@ =~= le_units(rest).take(i as int),
            decreases count - i,
        {
            let j = start + 2 * i;
            let lo = bytes[j] as u16;
            let hi = bytes[j + 1] as u16;
            units.push(lo + hi * 256);
            assert(rest[2 * i as int] == bytes@[j as int]);
            assert(rest[2 * i + 1] == bytes@[j + 1]);
            i = i + 1;
        }
        assert(le_units(rest).take(count as int) =~= le_units(rest));
        if !bom {
            assert(rest =~= bytes@);
        }
        utf16_lossy_string(units.as_slice())
    } else {
        utf8_lossy_string(bytes)
    }
}

/// `Some(trim(raw))` unless that is empty.
pub open spec fn normalized_shell(raw: Seq<char>) -> Option<Seq<char>> {
    if trim(raw).len() == 0 {
        None
    } else {
        Some(trim(raw))
    }
}

/// The login shell named by a passwd entry (its last `:`-separated field), or
/// by a line that is only a path.
pub open spec fn passwd_shell(raw: Seq<char>) -> Option<Seq<char>> {
    let line = trim(raw);
    if line.len() == 0 {
        None
    } else {
        normalized_shell(
            if line.contains(':') {
                after_last(line, ':')
            } else {
                line
            },
        )
    }
}

fn normalize_wsl_shell_chars(raw: &[char]) -> (r: Option<String>)
    ensures
        r is Some <==> normalized_shell(raw@) is Some,
        r matches Some(s) ==> normalized_shell(raw@) == Some(s@),
{
    let t = trim_chars(raw);
    if t.len() == 0 {
        None
    } else {
        Some(string_of_all(t.as_slice()))
    }
}

/// The shell of a `getent passwd` line.
pub fn parse_passwd_shell(raw: &str) -> (r: Option<String>)
    ensures
        r is Some <==> passwd_shell(raw@) is Some,
        r matches Some(s) ==> passwd_shell(raw@) == Some(s@),
{
    let chars = chars_of(raw);
    let line = trim_chars(chars.as_slice());
    if line.len() == 0 {
        return None;
    }
    let shell = match find_char(line.as_slice(), 0, ':') {
        Some(k) => {
            assert(line@[k as int] == ':');
            assert(line@.contains(':'));
            after_last_chars(line.as_slice(), ':')
        },
        None => {
            assert(!line@.contains(':'));
            line
        },
    };
    normalize_wsl_shell_chars(shell.as_slice())
}

/// A trimmed shell path, or `None` when nothing is left.
pub fn normalize_wsl_shell(raw: &str) -> (r: Option<String>)
    ensures
        r is Some <==> normalized_shell(raw@) is Some,
        r matches Some(s) ==> normalized_shell(raw@) == Some(s@),
{
    let chars = chars_of(raw);
    normalize_wsl_shell_chars(chars.as_slice())
}

/// Where the shell of a WSL distribution was learned from.
#[derive(Clone, Copy, Debug, PartialEq, Eq, Structural)]
pub enum WslShellSource {
    Passwd,
    Env,
    Fallback,
}

/// The shell to start in a WSL distribution, and where it was learned from.
#[derive(Clone, Debug, PartialEq, Eq)]
pub struct WslShellResolution {
    pub path: String,
    pub source: WslShellSource,
}

/// The shell chosen from the passwd entry and `$SHELL`: the passwd entry
/// first, then `$SHELL`, then `/bin/bash`.
pub open spec fn resolved_shell(passwd: Seq<char>, shell_env: Seq<char>) -> (Seq<char>, WslShellSource) {
    match passwd_shell(passwd) {
        Some(p) => (p, WslShellSource::Passwd),
        None => match normalized_shell(shell_env) {
            Some(p) => (p, WslShellSource::Env),
            None => ("/bin/bash"@, WslShellSource::Fallback),
        },
    }
}

/// The chosen shell is never empty and never has surrounding whitespace; it
/// comes from `$SHELL` only when the passwd entry names none, and is the
/// `/bin/bash` fallback only when neither does.
pub proof fn lemma_resolved_shell_usable(passwd: Seq<char>, shell_env: Seq<char>)
    ensures
        resolved_shell(passwd, shell_env).0.len() > 0,
        resolved_shell(passwd, shell_env).0.len() > 0 ==> !is_ws(resolved_shell(passwd, shell_env).0[0])
            && !is_ws(resolved_shell(passwd, shell_env).0.last()),
        resolved_shell(passwd, shell_env).1 == WslShellSource::Passwd <==> passwd_shell(passwd) is Some,
        resolved_shell(passwd, shell_env).1 == WslShellSource::Fallback <==> (passwd_shell(passwd)
            is None && normalized_shell(shell_env) is None),
{
    reveal_strlit("/bin/bash");
    let r = resolved_shell(passwd, shell_env).0;
    match passwd_shell(passwd) {
        Some(p) => {
            let line = trim(passwd);
            let x = if line.contains(':') { after_last(line, ':') } else { line };
            crate::text::lemma_trim_ends(x);
        },
        None => match normalized_shell(shell_env) {
            Some(p) => {
                crate::text::lemma_trim_ends(shell_env);
            },
            None => {},
        },
    }
}

/// Chooses the WSL shell from the outputs of the passwd and `$SHELL` probes.
pub fn resolve_wsl_shell_from_outputs(passwd: &str, shell_env: &str) -> (r: WslShellResolution)
    ensures
        (r.path@, r.source) == resolved_shell(passwd@, shell_env@),
{
    if let Some(path) = parse_passwd_shell(passwd) {
        return WslShellResolution { path, source: WslShellSource::Passwd };
    }
    if let Some(path) = normalize_wsl_shell(shell_env) {
        return WslShellResolution { path, source: WslShellSource::Env };
    }
    WslShellResolution { path: String::from_str("/bin/bash"), source: WslShellSource::Fallback }
}

/// Chooses the WSL shell once both probes have run; a failed probe fails the
/// whole resolution (the passwd probe's failure first).
pub fn resolve_wsl_shell(passwd: Result<String, String>, shell_env: Result<String, String>) -> (r: Result<WslShellResolution, String>)
    ensures
        (match (passwd, shell_env) {
            (Err(e), _) => r matches Err(f) && f@ == e@,
            (Ok(_), Err(e)) => r matches Err(f) && f@ == e@,
            (Ok(p), Ok(s)) => r matches Ok(res) && (res.path@, res.source) == resolved_shell(p@, s@),
        }),
{
    let p = passwd?;
    let s = shell_env?;
    Ok(resolve_wsl_shell_from_outputs(p.as_str(), s.as_str()))
}

/// The shell to start whatever the probes gave: the resolved one, or
/// `/bin/bash` (marked as the fallback) when resolving failed.
pub fn shell_or_fallback(resolved: Result<WslShellResolution, String>) -> (r: WslShellResolution)
    ensures
        match resolved {
            Ok(res) => r.path@ == res.path@ && r.source == res.source,
            Err(_) => r.path@ == "/bin/bash"@ && r.source == WslShellSource::Fallback,
        },
{
    match resolved {
        Ok(res) => res,
        Err(_) => WslShellResolution {
            path: String::from_str("/bin/bash"),
            source: WslShellSource::Fallback,
        },
    }
}

/// The script that prints the passwd entry of the current user.
pub open spec fn passwd_probe_script() -> Seq<char> {
    "getent passwd \"$(id -un)\" 2>/dev/null || true"@
}

/// The script that prints `$SHELL`.
pub open spec fn shell_env_probe_script() -> Seq<char> {
    "printf %s \"${SHELL:-}\""@
}

/// The script that prints `$HOME`.
pub open spec fn home_probe_script() -> Seq<char> {
    "printf %s \"$HOME\""@
}

/// `wsl.exe -d <distro> --exec sh -lc <script>`.
pub open spec fn wsl_sh_args(distro: Seq<char>, script: Seq<char>) -> Seq<Seq<char>> {
    seq!["-d"@, distro, "--exec"@, "sh"@, "-lc"@, script]
}

fn sh_args(distro: &str, script: &str) -> (r: Vec<String>)
    ensures
        strings_view(r@) == wsl_sh_args(distro@, script@),
{
    let mut v: Vec<String> = Vec::new();
    v.push(String::from_str("-d"));
    v.push(String::from_str(distro));
    v.push(String::from_str("--exec"));
    v.push(String::from_str("sh"));
    v.push(String::from_str("-lc"));
    v.push(String::from_str(script));
    assert(strings_view(v@) =~= wsl_sh_args(distro@, script@));
    v
}

/// The arguments of the probe that prints the user's passwd entry.
pub fn passwd_probe_args(distro: &str) -> (r: Vec<String>)
    ensures
        strings_view(r@) == wsl_sh_args(distro@, passwd_probe_script()),
{
    sh_args(distro, "getent passwd \"$(id -un)\" 2>/dev/null || true")
}

/// The arguments of the probe that prints `$SHELL`.
pub fn shell_env_probe_args(distro: &str) -> (r: Vec<String>)
    ensures
        strings_view(r@) == wsl_sh_args(distro@, shell_env_probe_script()),
{
    sh_args(distro, "printf %s \"${SHELL:-}\"")
}

/// The arguments of the probe that prints `$HOME`.
pub fn home_probe_args(distro: &str) -> (r: Vec<String>)
    ensures
        strings_view(r@) == wsl_sh_args(distro@, home_probe_script()),
{
    sh_args(distro, "printf %s \"$HOME\"")
}

/// The script that prints `$ZDOTDIR`.
pub open spec fn zdotdir_probe_script() -> Seq<char> {
    "printf %s \"${ZDOTDIR:-}\""@
}

/// The arguments of the probe that prints the user's `$ZDOTDIR`.
pub fn zdotdir_probe_args(distro: &str) -> (r: Vec<String>)
    ensures
        strings_view(r@) == wsl_sh_args(distro@, zdotdir_probe_script()),
{
    sh_args(distro, "printf %s \"${ZDOTDIR:-}\"")
}

/// The user's own `ZDOTDIR` from the output of its probe: the trimmed
/// output, when the probe ran and printed something.
pub fn wsl_user_zdotdir(output: Result<String, String>) -> (r: Option<String>)
    ensures
        match output {
            Ok(out) => match r {
                Some(d) => trim(out@).len() > 0 && d@ == trim(out@),
                None => trim(out@).len() == 0,
            },
            Err(_) => r is None,
        },
{
    match output {
        Err(_) => None,
        Ok(out) => {
            let t = trim_chars(chars_of(out.as_str()).as_slice());
            if t.len() == 0 {
                None
            } else {
                Some(string_of_all(t.as_slice()))
            }
        },
    }
}

/// The arguments that list the installed distributions.
pub fn list_probe_args() -> (r: Vec<String>)
    ensures
        strings_view(r@) == seq!["--list"@, "--verbose"@],
{
    let mut v: Vec<String> = Vec::new();
    v.push(String::from_str("--list"));
    v.push(String::from_str("--verbose"));
    assert(strings_view(v@) =~= seq!["--list"@, "--verbose"@]);
    v
}

/// What a run of `wsl.exe` yields: its decoded output on success, else its
/// decoded, trimmed error output.
pub fn run_wsl_result(success: bool, stdout: &[u8], stderr: &[u8]) -> (r: Result<String, String>)
    ensures
        success ==> (r matches Ok(s) && s@ == decoded_output(stdout@)),
        !success ==> (r matches Err(e) && e@ == trim(decoded_output(stderr@))),
{
    if success {
        Ok(decode_command_output(stdout))
    } else {
        let err = decode_command_output(stderr);
        let chars = chars_of(err.as_str());
        let t = trim_chars(chars.as_slice());
        Err(string_of_all(t.as_slice()))
    }
}

/// A WSL distribution as `wsl --list --verbose` reports it.
#[derive(Clone, Debug)]
pub struct WslDistro {
    pub name: String,
    pub default: bool,
    pub running: bool,
}

/// The distribution a line of `wsl --list --verbose` describes: a leading `*`
/// marks the default; the last two columns are state and version, the rest is
/// the name.
pub open spec fn distro_row(raw: Seq<char>) -> Option<(Seq<char>, bool, bool)> {
    let line = trim(raw);
    if line.len() == 0 {
        None
    } else {
        let parts = words(trim(crate::text::trim_start_char(line, '*')), false);
        if parts.len() < 3 {
            None
        } else {
            Some(
                (
                    join(parts.take(parts.len() - 2), " "@),
                    line[0] == '*',
                    lower(parts[parts.len() - 2]) == lower("Running"@),
                ),
            )
        }
    }
}

/// The distributions the given lines describe, in order.
pub open spec fn distro_rows(lines: Seq<Seq<char>>) -> Seq<(Seq<char>, bool, bool)>
    decreases lines.len(),
{
    if lines.len() == 0 {
        Seq::empty()
    } else {
        let prev = distro_rows(lines.drop_last());
        match distro_row(lines.last()) {
            Some(d) => prev.push(d),
            None => prev,
        }
    }
}

/// The distributions listed in the output of `wsl --list --verbose` (whose
/// first line is a header).
pub open spec fn listed_distros(out: Seq<char>) -> Seq<(Seq<char>, bool, bool)> {
    let lines = line_pieces(out);
    if lines.len() == 0 {
        Seq::empty()
    } else {
        distro_rows(lines.skip(1))
    }
}

pub open spec fn distros_view(v: Seq<WslDistro>) -> Seq<(Seq<char>, bool, bool)> {
    Seq::new(v.len(), |i: int| (v[i].name@, v[i].default, v[i].running))
}

fn eq_ignore_ascii_case(a: &[char], b: &[char]) -> (r: bool)
    ensures
        r == (lower(a@) == lower(b@)),
{
    if a.len() != b.len() {
        assert(lower(a@).len() != lower(b@).len());
        return false;
    }
    let mut i: usize = 0;
    while i < a.len()
        invariant
            a@.len() == b@.len(),
            i <= a@.len(),
            forall|k: int| 0 <= k < i ==> lower(a@)[k] == lower(b@)[k],
        decreases a.len() - i,
    {
        if ascii_lower_char(a[i]) != ascii_lower_char(b[i]) {
            assert(lower(a@)[i as int] != lower(b@)[i as int]);
            return false;
        }
        i = i + 1;
    }
    assert(lower(a@) =~= lower(b@));
    true
}

fn parse_distro_line(raw: &[char]) -> (r: Option<WslDistro>)
    ensures
        match r {
            Some(d) => distro_row(raw@) == Some((d.name@, d.default, d.running)),
            None => distro_row(raw@) is None,
        },
{
    let line = trim_chars(raw);
    if line.len() == 0 {
        return None;
    }
    let default = line[0] == '*';
    let k = crate::text::trim_start_char_len(line.as_slice(), '*');
    let (a, b) = trim_bounds(line.as_slice(), k, line.len());
    let rest = crate::text::slice_range(line.as_slice(), a, b);
    let parts = words_chars(rest.as_slice(), false);
    if parts.len() < 3 {
        return None;
    }
    let state_idx = parts.len() - 2;
    let name = join_chars(&parts, state_idx, chars_of(" ").as_slice());
    let running = eq_ignore_ascii_case(parts[state_idx].as_slice(), chars_of("Running").as_slice());
    assert(views(parts@)[state_idx as int] == parts@[state_idx as int]@);
    Some(WslDistro { name: string_of_all(name.as_slice()), default, running })
}

/// The distributions listed in the output of `wsl --list --verbose`.
pub fn list_distros(out: &str) -> (r: Vec<WslDistro>)
    ensures
        distros_view(r@) == listed_distros(out@),
{
    let chars = chars_of(out);
    let lines = line_pieces_chars(chars.as_slice());
    let mut distros: Vec<WslDistro> = Vec::new();
    if lines.len() == 0 {
        assert(distros_view(distros@) =~= Seq::<(Seq<char>, bool, bool)>::empty());
        return distros;
    }
    let ghost ls = views(lines@).skip(1);
    let mut i: usize = 1;
    assert(ls.take(0) =~= Seq::<Seq<char>>::empty());
    while i < lines.len()
        invariant
            1 <= i <= lines@.len(),
            ls == views(lines@).skip(1),
            distros_view(distros@) =~= distro_rows(ls.take(i - 1)),
        decreases lines.len() - i,
    {
        assert(ls.take(i as int).drop_last() =~= ls.take(i - 1));
        assert(ls.take(i as int).last() == lines@[i as int]@);
        let ghost before = distros_view(distros@);
        match parse_distro_line(lines[i].as_slice()) {
            Some(d) => {
                distros.push(d);
                assert(distros_view(distros@) =~= before.push(
                    (distros@.last().name@, distros@.last().default, distros@.last().running),
                ));
            },
            None => {},
        }
        i = i + 1;
    }
    assert(ls.take(lines@.len() - 1) =~= ls);
    distros
}

/// The distributions listed by `wsl --list --verbose`, given the outcome of
/// running it (see `run_wsl_result`); a failed run is answered with its error.
pub fn wsl_list_distros(listing: Result<String, String>) -> (r: Result<Vec<WslDistro>, String>)
    ensures
        match listing {
            Ok(out) => r matches Ok(v) && distros_view(v@) == listed_distros(out@),
            Err(e) => r matches Err(f) && f@ == e@,
        },
{
    let out = listing?;
    Ok(list_distros(out.as_str()))
}

/// The name of the default distribution, given the outcome of running
/// `wsl --list --verbose`: the one marked default, else the first listed, else
/// none; a failed run is answered with its error.
pub fn wsl_default_distro(listing: Result<String, String>) -> (r: Result<Option<String>, String>)
    ensures
        match listing {
            Ok(out) => r matches Ok(n) && opt_seq(n) == default_distro_of(listed_distros(out@)),
            Err(e) => r matches Err(f) && f@ == e@,
        },
{
    let out = listing?;
    let distros = list_distros(out.as_str());
    let n = default_distro(distros.as_slice());
    proof {
        let ds = distros_view(distros@);
        if exists|i: int| 0 <= i < ds.len() && ds[i].1 {
            let i = choose|i: int| 0 <= i < ds.len() && ds[i].1;
            assert(distros@[i].default);
            let j = choose|j: int|
                0 <= j < distros@.len() && distros@[j].default && (forall|k: int|
                    0 <= k < j ==> !distros@[k].default) && n.unwrap()@ == distros@[j].name@;
            assert(ds[j].1);
            lemma_first_default_unique(ds, first_default(ds), j);
        } else {
            assert forall|i: int| 0 <= i < distros@.len() implies !distros@[i].default by {
                assert(!ds[i].1);
            }
        }
    }
    Ok(n)
}

pub open spec fn opt_seq(o: Option<String>) -> Option<Seq<char>> {
    match o {
        Some(s) => Some(s@),
        None => None,
    }
}

/// Index of the first listed distribution marked default.
pub open spec fn first_default(ds: Seq<(Seq<char>, bool, bool)>) -> int {
    choose|i: int| 0 <= i < ds.len() && ds[i].1 && forall|k: int| 0 <= k < i ==> !ds[k].1
}

/// The name of the distribution marked default (the first such), else that
/// of the first listed, else none.
pub open spec fn default_distro_of(ds: Seq<(Seq<char>, bool, bool)>) -> Option<Seq<char>> {
    if exists|i: int| 0 <= i < ds.len() && ds[i].1 {
        Some(ds[first_default(ds)].0)
    } else if ds.len() > 0 {
        Some(ds[0].0)
    } else {
        None
    }
}

proof fn lemma_first_default_unique(ds: Seq<(Seq<char>, bool, bool)>, a: int, j: int)
    requires
        0 <= j < ds.len() && ds[j].1 && forall|k: int| 0 <= k < j ==> !ds[k].1,
        a == first_default(ds),
    ensures
        a == j,
{
    assert(exists|i: int| 0 <= i < ds.len() && ds[i].1 && forall|k: int| 0 <= k < i ==> !ds[k].1);
    if a < j {
        assert(!ds[a].1);
    } else if a > j {
        assert(!ds[j].1);
    }
}

/// The default distribution's name, else the first one's.
fn default_distro(distros: &[WslDistro]) -> (r: Option<String>)
    ensures
        distros@.len() == 0 ==> r is None,
        (exists|i: int| 0 <= i < distros@.len() && distros@[i].default) ==> (r matches Some(n)
            && exists|i: int|
            0 <= i < distros@.len() && distros@[i].default && (forall|j: int|
                0 <= j < i ==> !distros@[j].default) && n@ == distros@[i].name@),
        (forall|i: int| 0 <= i < distros@.len() ==> !distros@[i].default) && distros@.len() > 0
            ==> (r matches Some(n) && n@ == distros@[0].name@),
{
    let mut i: usize = 0;
    while i < distros.len()
        invariant
            i <= distros@.len(),
            forall|j: int| 0 <= j < i ==> !distros@[j].default,
        decreases distros.len() - i,
    {
        if distros[i].default {
            return Some(distros[i].name.clone());
        }
        i = i + 1;
    }
    if distros.len() > 0 {
        Some(distros[0].name.clone())
    } else {
        None
    }
}

/// The home directory of a WSL distribution from the output of the `$HOME`
/// probe: the trimmed output, which must not be empty.
pub fn wsl_home(distro: &str, output: Result<String, String>) -> (r: Result<String, String>)
    ensures
        (match output {
            Err(e) => r matches Err(f) && f@ == e@,
            Ok(out) => if trim(out@).len() == 0 {
                r matches Err(f) && f@ == "could not resolve WSL home for "@ + distro@
            } else {
                r matches Ok(h) && h@ == trim(out@)
            },
        }),
{
    let out = output?;
    let chars = chars_of(out.as_str());
    let t = trim_chars(chars.as_slice());
    if t.len() == 0 {
        let mut msg = chars_of("could not resolve WSL home for ");
        crate::text::extend_chars(&mut msg, chars_of(distro).as_slice());
        Err(string_of_all(msg.as_slice()))
    } else {
        Ok(string_of_all(t.as_slice()))
    }
}

} // verus!
