//! Planning of the process a terminal starts: program, arguments,
//! environment and working directory, and where shell integration files go.
use vstd::prelude::*;

use crate::text::{
    lemma_split_on_nonempty, chars_eq, slice_range, split_chars, split_on, views,
    chars_of, contains_chars, contains_seq, crlf_to_lf, crlf_to_lf_chars, extend_chars,
    replace_char, replace_char_chars, replace_char_with, replace_char_with_chars, string_of_all,
    strings_view, upper, upper_chars,
};

use crate::workspace::WorkspaceEnv;

pub mod unix;
pub mod windows;

verus! {

/// A process to start in a terminal.
#[derive(Debug)]
pub struct LaunchPlan {
    pub program: String,
    pub args: Vec<String>,
    /// Variables to set, in order; a later setting of a name wins.
    pub env: Vec<(String, String)>,
    pub cwd: Option<String>,
}

/// The contents of a `LaunchPlan`.
pub struct LaunchPlanV {
    pub program: Seq<char>,
    pub args: Seq<Seq<char>>,
    pub env: Seq<(Seq<char>, Seq<char>)>,
    pub cwd: Option<Seq<char>>,
}

pub open spec fn env_view(v: Seq<(String, String)>) -> Seq<(Seq<char>, Seq<char>)> {
    Seq::new(v.len(), |i: int| (v[i].0@, v[i].1@))
}

impl View for LaunchPlan {
    type V = LaunchPlanV;

    open spec fn view(&self) -> LaunchPlanV {
        LaunchPlanV {
            program: self.program@,
            args: strings_view(self.args@),
            env: env_view(self.env@),
            cwd: crate::git::types::opt_view(self.cwd),
        }
    }
}

/// The value a name was last set to.
pub open spec fn env_lookup(env: Seq<(Seq<char>, Seq<char>)>, key: Seq<char>) -> Option<Seq<char>>
    decreases env.len(),
{
    if env.len() == 0 {
        None
    } else if env.last().0 == key {
        Some(env.last().1)
    } else {
        env_lookup(env.drop_last(), key)
    }
}

impl LaunchPlan {
    /// A plan that starts `program` with nothing else set.
    pub fn new(program: &str) -> (r: Self)
        ensures
            r@ == (LaunchPlanV {
                program: program@,
                args: Seq::empty(),
                env: Seq::empty(),
                cwd: None,
            }),
    {
        let r = LaunchPlan {
            program: String::from_str(program),
            args: Vec::new(),
            env: Vec::new(),
            cwd: None,
        };
        assert(r@.args =~= Seq::<Seq<char>>::empty());
        assert(r@.env =~= Seq::<(Seq<char>, Seq<char>)>::empty());
        r
    }

    /// Adds an argument.
    pub fn arg(&mut self, a: &str)
        ensures
            final(self)@ == (LaunchPlanV { args: old(self)@.args.push(a@), ..old(self)@ }),
    {
        let ghost before = self.args@;
        self.args.push(String::from_str(a));
        assert(strings_view(self.args@) =~= strings_view(before).push(a@));
    }

    /// Sets an environment variable.
    pub fn env(&mut self, key: &str, value: &str)
        ensures
            final(self)@ == (LaunchPlanV { env: old(self)@.env.push((key@, value@)), ..old(self)@ }),
    {
        let ghost before = self.env@;
        self.env.push((String::from_str(key), String::from_str(value)));
        assert(env_view(self.env@) =~= env_view(before).push((key@, value@)));
    }

    /// Sets the working directory.
    pub fn set_cwd(&mut self, dir: &str)
        ensures
            final(self)@ == (LaunchPlanV { cwd: Some(dir@), ..old(self)@ }),
    {
        self.cwd = Some(String::from_str(dir));
    }

    /// Forgets the working directory: the process inherits it.
    pub fn clear_cwd(&mut self)
        ensures
            final(self)@ == (LaunchPlanV { cwd: None, ..old(self)@ }),
    {
        self.cwd = None;
    }

    /// The program followed by its arguments.
    pub fn argv(&self) -> (r: Vec<String>)
        ensures
            strings_view(r@) == seq![self@.program] + self@.args,
    {
        let mut out: Vec<String> = Vec::new();
        out.push(self.program.clone());
        let mut i: usize = 0;
        while i < self.args.len()
            invariant
                i <= self.args@.len(),
                strings_view(out@) =~= seq![self@.program] + self@.args.take(i as int),
            decreases self.args.len() - i,
        {
            let ghost before = out@;
            out.push(self.args[i].clone());
            assert(strings_view(out@) =~= strings_view(before).push(self.args@[i as int]@));
            i = i + 1;
        }
        assert(self@.args.take(self.args@.len() as int) =~= self@.args);
        out
    }

    /// The value `key` was last set to.
    pub fn get_env(&self, key: &str) -> (r: Option<String>)
        ensures
            crate::git::types::opt_view(r) == env_lookup(self@.env, key@),
    {
        let k = String::from_str(key);
        let mut i: usize = self.env.len();
        assert(self@.env.take(i as int) =~= self@.env);
        while i > 0
            invariant
                i <= self.env@.len(),
                k@ == key@,
                env_lookup(self@.env, key@) == env_lookup(self@.env.take(i as int), key@),
            decreases i,
        {
            assert(self@.env.take(i as int).drop_last() =~= self@.env.take(i - 1));
            assert(self@.env.take(i as int).last() == (self.env@[i - 1].0@, self.env@[i - 1].1@));
            if self.env[i - 1].0 == k {
                return Some(self.env[i - 1].1.clone());
            }
            i = i - 1;
        }
        assert(self@.env.take(0) =~= Seq::<(Seq<char>, Seq<char>)>::empty());
        None
    }
}

/// The platform a terminal starts on; it decides the fallback locale and the
/// spelling of the working directory.
#[derive(Clone, Copy, Debug, PartialEq, Eq, Structural)]
pub enum HostOs {
    MacOs,
    OtherUnix,
    Windows,
}

/// The locale set when none of `LC_ALL`, `LC_CTYPE`, `LANG` is UTF-8.
pub open spec fn fallback_locale(os: HostOs) -> Seq<char> {
    match os {
        HostOs::OtherUnix => "C.UTF-8"@,
        _ => "en_US.UTF-8"@,
    }
}

/// A locale value naming UTF-8.
pub open spec fn locale_is_utf8(v: Seq<char>) -> bool {
    contains_seq(upper(v), "UTF-8"@) || contains_seq(upper(v), "UTF8"@)
}

/// Whether one of the given locale variables names UTF-8.
pub open spec fn any_utf8(values: Seq<Option<Seq<char>>>) -> bool {
    exists|i: int| 0 <= i < values.len() && names_utf8(values[i])
}

/// A set locale variable naming UTF-8.
pub open spec fn names_utf8(o: Option<Seq<char>>) -> bool {
    match o {
        Some(v) => locale_is_utf8(v),
        None => false,
    }
}

pub open spec fn opts_view(v: Seq<Option<String>>) -> Seq<Option<Seq<char>>> {
    Seq::new(v.len(), |i: int| crate::git::types::opt_view(v[i]))
}

fn is_utf8_locale(v: &String) -> (r: bool)
    ensures
        r == locale_is_utf8(v@),
{
    let up = upper_chars(chars_of(v.as_str()).as_slice());
    contains_chars(up.as_slice(), chars_of("UTF-8").as_slice()) || contains_chars(
        up.as_slice(),
        chars_of("UTF8").as_slice(),
    )
}

/// Sets `LANG` to the platform's UTF-8 locale unless one of the given locale
/// variables (`LC_ALL`, `LC_CTYPE`, `LANG`) already names UTF-8.
pub fn ensure_utf8_locale(plan: &mut LaunchPlan, values: &Vec<Option<String>>, os: HostOs)
    ensures
        any_utf8(opts_view(values@)) ==> final(plan)@ == old(plan)@,
        !any_utf8(opts_view(values@)) ==> final(plan)@ == (LaunchPlanV {
            env: old(plan)@.env.push(("LANG"@, fallback_locale(os))),
            ..old(plan)@
        }),
{
    let ghost vv = opts_view(values@);
    let mut i: usize = 0;
    while i < values.len()
        invariant
            i <= values@.len(),
            vv == opts_view(values@),
            forall|j: int| 0 <= j < i ==> !names_utf8(vv[j]),
        decreases values.len() - i,
    {
        match &values[i] {
            Some(v) => {
                if is_utf8_locale(v) {
                    assert(vv[i as int] == Some(v@));
                    return;
                }
            },
            None => {},
        }
        i = i + 1;
    }
    let fallback = match os {
        HostOs::OtherUnix => "C.UTF-8",
        _ => "en_US.UTF-8",
    };
    plan.env("LANG", fallback);
}

/// The first candidate directory that exists.
pub open spec fn first_usable(c: Seq<(Seq<char>, bool)>) -> Option<Seq<char>>
    decreases c.len(),
{
    if c.len() == 0 {
        None
    } else if c[0].1 {
        Some(c[0].0)
    } else {
        first_usable(c.drop_first())
    }
}

pub open spec fn candidates_view(c: Seq<(String, bool)>) -> Seq<(Seq<char>, bool)> {
    Seq::new(c.len(), |i: int| (c[i].0@, c[i].1))
}

/// The working directory of a terminal: the first of the requested
/// directory, the process's directory and the home directory that exists
/// (each given with whether it is a directory).
pub fn pick_cwd(candidates: &Vec<(String, bool)>) -> (r: Option<String>)
    ensures
        crate::git::types::opt_view(r) == first_usable(candidates_view(candidates@)),
{
    let ghost cv = candidates_view(candidates@);
    let mut i: usize = 0;
    assert(cv.skip(0) =~= cv);
    while i < candidates.len()
        invariant
            i <= candidates@.len(),
            cv == candidates_view(candidates@),
            first_usable(cv) == first_usable(cv.skip(i as int)),
        decreases candidates.len() - i,
    {
        assert(cv.skip(i as int)[0] == (candidates@[i as int].0@, candidates@[i as int].1));
        if candidates[i].1 {
            return Some(candidates[i].0.clone());
        }
        assert(cv.skip(i as int).drop_first() =~= cv.skip(i + 1));
        i = i + 1;
    }
    assert(cv.skip(i as int) =~= Seq::<(Seq<char>, bool)>::empty());
    None
}

/// The environment every terminal gets, before the locale is checked.
pub open spec fn terminal_env() -> Seq<(Seq<char>, Seq<char>)> {
    seq![("TERM"@, "xterm-256color"@), ("COLORTERM"@, "truecolor"@), ("TERAX_TERMINAL"@, "1"@)]
}

/// The plan after `apply_common`: the terminal variables, a UTF-8 locale, and
/// the working directory (with `\` separators on Windows) when there is one.
pub open spec fn common_applied(
    p: LaunchPlanV,
    values: Seq<Option<Seq<char>>>,
    os: HostOs,
    cwd: Option<Seq<char>>,
) -> LaunchPlanV {
    let env1 = p.env + terminal_env();
    let env2 = if any_utf8(values) {
        env1
    } else {
        env1.push(("LANG"@, fallback_locale(os)))
    };
    LaunchPlanV {
        env: env2,
        cwd: match cwd {
            Some(c) => Some(
                if os == HostOs::Windows {
                    replace_char(c, '/', '\\')
                } else {
                    c
                },
            ),
            None => p.cwd,
        },
        ..p
    }
}

/// Sets what every terminal gets: `TERM`, `COLORTERM`, `TERAX_TERMINAL`, a
/// UTF-8 locale, and the working directory picked by `pick_cwd`.
pub fn apply_common(plan: &mut LaunchPlan, values: &Vec<Option<String>>, os: HostOs, cwd: Option<String>)
    ensures
        final(plan)@ == common_applied(
            old(plan)@,
            opts_view(values@),
            os,
            crate::git::types::opt_view(cwd),
        ),
{
    let ghost start = plan@;
    plan.env("TERM", "xterm-256color");
    plan.env("COLORTERM", "truecolor");
    plan.env("TERAX_TERMINAL", "1");
    assert(plan@.env =~= start.env + terminal_env());
    ensure_utf8_locale(plan, values, os);
    match cwd {
        Some(c) => {
            if os == HostOs::Windows {
                let w = replace_char_chars(chars_of(c.as_str()).as_slice(), '/', '\\');
                plan.set_cwd(string_of_all(w.as_slice()).as_str());
            } else {
                plan.set_cwd(c.as_str());
            }
        },
        None => {},
    }
}

/// `'<p>'` with every `'` in `p` written `'\''`: a single shell word.
pub open spec fn quoted(p: Seq<char>) -> Seq<char> {
    seq!['\''] + replace_char_with(p, '\'', "'\\''"@) + seq!['\'']
}

/// Quotes a path for a POSIX shell.
pub fn shell_quote(p: &str) -> (r: String)
    ensures
        r@ == quoted(p@),
{
    let body = replace_char_with_chars(chars_of(p).as_slice(), '\'', chars_of("'\\''").as_slice());
    let mut v: Vec<char> = Vec::new();
    v.push('\'');
    extend_chars(&mut v, body.as_slice());
    v.push('\'');
    assert(v@ =~= quoted(p@));
    string_of_all(v.as_slice())
}

/// A shell script with CRLF line endings turned into LF.
pub fn normalize_script(content: &str) -> (r: String)
    ensures
        r@ == crlf_to_lf(content@),
{
    string_of_all(crlf_to_lf_chars(chars_of(content).as_slice()).as_slice())
}

/// Whether a file must be (re)written: it is missing, unreadable, or differs.
pub fn write_needed(existing: Option<String>, content: &str) -> (r: bool)
    ensures
        r == !(existing matches Some(e) && e@ == content@),
{
    match existing {
        Some(e) => !(e == String::from_str(content)),
        None => true,
    }
}

/// The temporary file a file is written through before it replaces it.
pub fn temp_path(path: &str) -> (r: String)
    ensures
        r@ == path@ + ".__terax_tmp__"@,
{
    let mut v = chars_of(path);
    extend_chars(&mut v, chars_of(".__terax_tmp__").as_slice());
    string_of_all(v.as_slice())
}

/// `Path::join` with separator `sep`: adds a separator unless `dir` ends
/// with one.
pub open spec fn join_with(dir: Seq<char>, name: Seq<char>, sep: char) -> Seq<char> {
    if dir.len() > 0 && (dir.last() == '/' || dir.last() == sep) {
        dir + name
    } else {
        dir + seq![sep] + name
    }
}

/// Joins a file name onto a directory.
pub fn join_with_sep(dir: &str, name: &str, sep: char) -> (r: String)
    ensures
        r@ == join_with(dir@, name@, sep),
{
    let mut v = chars_of(dir);
    let n = v.len();
    if !(n > 0 && (v[n - 1] == '/' || v[n - 1] == sep)) {
        v.push(sep);
    }
    extend_chars(&mut v, chars_of(name).as_slice());
    string_of_all(v.as_slice())
}

/// `<home>/.cache/terax/shell-integration/<shell>`, joined with `sep`.
pub open spec fn integration_dir(home: Seq<char>, shell: Seq<char>, sep: char) -> Seq<char> {
    join_with(
        join_with(join_with(join_with(home, ".cache"@, sep), "terax"@, sep), "shell-integration"@, sep),
        shell,
        sep,
    )
}

/// The directory holding the integration files of one shell.
pub fn integration_dir_of(home: &str, shell: &str, sep: char) -> (r: String)
    ensures
        r@ == integration_dir(home@, shell@, sep),
{
    let a = join_with_sep(home, ".cache", sep);
    let b = join_with_sep(a.as_str(), "terax", sep);
    let c = join_with_sep(b.as_str(), "shell-integration", sep);
    join_with_sep(c.as_str(), shell, sep)
}

/// Which terminal a launch builds.
#[derive(Debug)]
pub enum LaunchTarget {
    /// The user's login shell on a Unix host (see `unix::build`).
    Unix,
    /// A local Windows shell (see `windows::build`).
    WindowsLocal,
    /// The distribution's shell through `wsl.exe` (see `windows::build_wsl`).
    Wsl { distro: String },
}

/// Chooses the terminal to build: on a Unix host the workspace is ignored; on
/// Windows a WSL workspace gets a WSL terminal.
pub fn build_command(workspace: WorkspaceEnv, on_windows: bool) -> (r: LaunchTarget)
    ensures
        !on_windows ==> r is Unix,
        on_windows ==> match workspace {
            WorkspaceEnv::Wsl { distro } => r matches LaunchTarget::Wsl { distro: d } && d@
                == distro@,
            WorkspaceEnv::Local => r is WindowsLocal,
        },
{
    if !on_windows {
        return LaunchTarget::Unix;
    }
    match workspace {
        WorkspaceEnv::Wsl { distro } => LaunchTarget::Wsl { distro },
        WorkspaceEnv::Local => LaunchTarget::WindowsLocal,
    }
}

// ------------------------------------------------------------------
// Path comparison
// ------------------------------------------------------------------

/// The normal components among `/`-separated pieces: empty pieces (from
/// repeated or trailing separators) and `.` pieces are dropped.
pub open spec fn normal_pieces(ps: Seq<Seq<char>>) -> Seq<Seq<char>>
    decreases ps.len(),
{
    if ps.len() == 0 {
        Seq::empty()
    } else {
        let prev = normal_pieces(ps.drop_last());
        let p = ps.last();
        if p.len() == 0 || p == "."@ {
            prev
        } else {
            prev.push(p)
        }
    }
}

/// The components of a Unix path as `Path::components` sees them: whether
/// it is absolute, whether it starts with a `.` component, and its normal
/// components.
pub open spec fn path_components(p: Seq<char>) -> (bool, bool, Seq<Seq<char>>) {
    let pieces = split_on(p, '/');
    let absolute = p.len() > 0 && p[0] == '/';
    (absolute, !absolute && pieces[0] == "."@, normal_pieces(pieces))
}

/// Whether two Unix paths are equal as paths (`Path == Path`): repeated and
/// trailing separators and inner `.` components make no difference.
pub open spec fn same_path(a: Seq<char>, b: Seq<char>) -> bool {
    path_components(a) == path_components(b)
}

/// A trailing separator does not change a non-empty path.
pub proof fn lemma_trailing_separator(p: Seq<char>)
    requires
        p.len() > 0,
    ensures
        same_path(p.push('/'), p),
{
    let q = p.push('/');
    assert(q.drop_last() =~= p);
    lemma_split_on_nonempty(p, '/');
    assert(split_on(q, '/') == split_on(p, '/').push(Seq::<char>::empty()));
    assert(split_on(q, '/').drop_last() =~= split_on(p, '/'));
    assert(normal_pieces(split_on(q, '/')) == normal_pieces(split_on(p, '/')));
    assert(split_on(q, '/')[0] == split_on(p, '/')[0]);
}

fn components_of(p: &str) -> (r: (bool, bool, Vec<Vec<char>>))
    ensures
        (r.0, r.1, views(r.2@)) == path_components(p@),
{
    let chars = chars_of(p);
    let pieces = split_chars(chars.as_slice(), '/');
    let dot = chars_of(".");
    let absolute = chars.len() > 0 && chars[0] == '/';
    let first_dot = !absolute && chars_eq(pieces[0].as_slice(), dot.as_slice());
    assert(views(pieces@)[0] == pieces@[0]@);
    let ghost ps = views(pieces@);
    let mut out: Vec<Vec<char>> = Vec::new();
    let mut i: usize = 0;
    assert(ps.take(0) =~= Seq::<Seq<char>>::empty());
    while i < pieces.len()
        invariant
            i <= pieces@.len(),
            ps == views(pieces@),
            dot@ == "."@,
            views(out@) == normal_pieces(ps.take(i as int)),
        decreases pieces.len() - i,
    {
        assert(ps.take(i + 1).drop_last() =~= ps.take(i as int));
        assert(ps.take(i + 1).last() == pieces@[i as int]@);
        let piece = &pieces[i];
        if piece.len() > 0 && !chars_eq(piece.as_slice(), dot.as_slice()) {
            let ghost before = views(out@);
            out.push(slice_range(piece.as_slice(), 0, piece.len()));
            assert(piece@.subrange(0, piece@.len() as int) =~= piece@);
            assert(views(out@) =~= before.push(piece@));
        }
        i = i + 1;
    }
    assert(ps.take(pieces@.len() as int) =~= ps);
    (absolute, first_dot, out)
}

/// Whether two Unix paths are equal as paths (see `same_path`).
pub fn paths_equal(a: &str, b: &str) -> (r: bool)
    ensures
        r == same_path(a@, b@),
{
    let (aa, ad, ap) = components_of(a);
    let (ba, bd, bp) = components_of(b);
    let ghost ca = path_components(a@);
    let ghost cb = path_components(b@);
    assert(aa == ca.0 && ad == ca.1 && views(ap@) == ca.2);
    assert(ba == cb.0 && bd == cb.1 && views(bp@) == cb.2);
    if aa != ba || ad != bd || ap.len() != bp.len() {
        assert(views(ap@).len() == ap@.len() && views(bp@).len() == bp@.len());
        return false;
    }
    let mut i: usize = 0;
    while i < ap.len()
        invariant
            ap@.len() == bp@.len(),
            i <= ap@.len(),
            views(ap@) == ca.2,
            views(bp@) == cb.2,
            aa == ca.0 && ad == ca.1 && ba == cb.0 && bd == cb.1,
            aa == ba && ad == bd,
            ca == path_components(a@),
            cb == path_components(b@),
            forall|k: int| 0 <= k < i ==> views(ap@)[k] == views(bp@)[k],
        decreases ap.len() - i,
    {
        if !chars_eq(ap[i].as_slice(), bp[i].as_slice()) {
            assert(views(ap@)[i as int] != views(bp@)[i as int]);
            assert(ca.2 != cb.2);
            assert(!same_path(a@, b@)) by {
                if ca == cb {
                    assert(ca.2 == cb.2);
                }
            }
            return false;
        }
        i = i + 1;
    }
    assert(views(ap@) =~= views(bp@));
    true
}

} // verus!
