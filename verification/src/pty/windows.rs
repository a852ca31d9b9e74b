//! Terminal launch on Windows: PowerShell locally, the distribution's own
//! shell in WSL.
use vstd::prelude::*;

use crate::pty::unix::{opt, res_view};
use crate::pty::{
    env_lookup, paths_equal, same_path,
    apply_common, common_applied, opts_view, quoted, shell_quote, HostOs, LaunchPlan, LaunchPlanV,
};
use crate::text::{
    after_last, after_last_chars, chars_eq, chars_of, extend_chars, lower, lower_chars,
    replace_char, replace_char_chars, string_of_all, trim_end_char, trim_end_char_len,
};
use crate::workspace::{WslShellResolution, WslShellSource};

verus! {

/// The working directory of a WSL terminal when none is requested.
pub const DEFAULT_WSL_CWD: &'static str = "~";

/// The shells Terax integrates with inside WSL.
#[derive(Clone, Copy, Debug, PartialEq, Eq, Structural)]
pub enum ShellKind {
    Zsh,
    Bash,
    Fish,
    Other,
}

/// The kind of the shell at `path`, by its last path component.
pub open spec fn kind_of(path: Seq<char>) -> ShellKind {
    let name = after_last(path, '/');
    if name == "zsh"@ {
        ShellKind::Zsh
    } else if name == "bash"@ {
        ShellKind::Bash
    } else if name == "fish"@ {
        ShellKind::Fish
    } else {
        ShellKind::Other
    }
}

/// Classifies a shell by its file name.
pub fn classify_shell(shell_path: &str) -> (r: ShellKind)
    ensures
        r == kind_of(shell_path@),
{
    let name = after_last_chars(chars_of(shell_path).as_slice(), '/');
    if chars_eq(name.as_slice(), chars_of("zsh").as_slice()) {
        ShellKind::Zsh
    } else if chars_eq(name.as_slice(), chars_of("bash").as_slice()) {
        ShellKind::Bash
    } else if chars_eq(name.as_slice(), chars_of("fish").as_slice()) {
        ShellKind::Fish
    } else {
        ShellKind::Other
    }
}

/// The integration prepared for a WSL shell.
#[derive(Debug)]
pub enum WslIntegration {
    Zsh { zdotdir: String },
    Bash { rcfile: String },
    Fish { init: String },
    /// No integration: the shell starts with its own startup files only.
    Bare,
}

pub enum WslIntegrationV {
    Zsh(Seq<char>),
    Bash(Seq<char>),
    Fish(Seq<char>),
    Bare,
}

impl View for WslIntegration {
    type V = WslIntegrationV;

    open spec fn view(&self) -> WslIntegrationV {
        match self {
            WslIntegration::Zsh { zdotdir } => WslIntegrationV::Zsh(zdotdir@),
            WslIntegration::Bash { rcfile } => WslIntegrationV::Bash(rcfile@),
            WslIntegration::Fish { init } => WslIntegrationV::Fish(init@),
            WslIntegration::Bare => WslIntegrationV::Bare,
        }
    }
}

/// The integration of a shell of the given kind, from what preparing it gave.
pub open spec fn integration_of(kind: ShellKind, prepared: Result<Seq<char>, Seq<char>>) -> WslIntegrationV {
    match (kind, prepared) {
        (ShellKind::Zsh, Ok(p)) => WslIntegrationV::Zsh(p),
        (ShellKind::Bash, Ok(p)) => WslIntegrationV::Bash(p),
        (ShellKind::Fish, Ok(p)) => WslIntegrationV::Fish(p),
        _ => WslIntegrationV::Bare,
    }
}

/// The integration to use; a failed preparation leaves the shell without one.
pub fn integration_for(kind: ShellKind, prepared: Result<String, String>) -> (r: WslIntegration)
    ensures
        r@ == integration_of(kind, res_view(prepared)),
{
    match (kind, prepared) {
        (ShellKind::Zsh, Ok(p)) => WslIntegration::Zsh { zdotdir: p },
        (ShellKind::Bash, Ok(p)) => WslIntegration::Bash { rcfile: p },
        (ShellKind::Fish, Ok(p)) => WslIntegration::Fish { init: p },
        _ => WslIntegration::Bare,
    }
}

/// `-d <distro> --cd <cwd> --exec <shell>`.
pub open spec fn wsl_base_args(distro: Seq<char>, cwd: Seq<char>, shell_path: Seq<char>) -> Seq<Seq<char>> {
    seq!["-d"@, distro, "--cd"@, cwd, "--exec"@, shell_path]
}

/// Adds the arguments that start `shell_path` in `distro` at `cwd`.
pub fn apply_wsl_base_args(plan: &mut LaunchPlan, distro: &str, cwd: &str, shell_path: &str)
    ensures
        final(plan)@ == (LaunchPlanV {
            args: old(plan)@.args + wsl_base_args(distro@, cwd@, shell_path@),
            ..old(plan)@
        }),
{
    let ghost start = plan@;
    plan.arg("-d");
    plan.arg(distro);
    plan.arg("--cd");
    plan.arg(cwd);
    plan.arg("--exec");
    plan.arg(shell_path);
    assert(plan@.args =~= start.args + wsl_base_args(distro@, cwd@, shell_path@));
}

/// The plan after the shell's own flags: zsh with its `ZDOTDIR` starts as a
/// login shell; bash gets `--rcfile` and `-i`; fish gets an `--init-command`
/// sourcing its init file and `-i`. Without integration, zsh still starts as
/// a login shell and bash and fish interactively; another shell starts bare,
/// unless it is the `/bin/bash` fallback, which gets `-i`.
pub open spec fn wsl_behavior(
    p: LaunchPlanV,
    shell_path: Seq<char>,
    source: WslShellSource,
    integration: WslIntegrationV,
) -> LaunchPlanV {
    match integration {
        WslIntegrationV::Zsh(zd) => LaunchPlanV {
            env: p.env.push(("ZDOTDIR"@, zd)),
            args: p.args.push("-l"@),
            ..p
        },
        WslIntegrationV::Bash(rc) => LaunchPlanV {
            args: p.args + seq!["--rcfile"@, rc, "-i"@],
            ..p
        },
        WslIntegrationV::Fish(init) => LaunchPlanV {
            args: p.args + seq!["--init-command"@, "source "@ + quoted(init), "-i"@],
            ..p
        },
        WslIntegrationV::Bare => match kind_of(shell_path) {
            ShellKind::Zsh => LaunchPlanV { args: p.args.push("-l"@), ..p },
            ShellKind::Bash | ShellKind::Fish => LaunchPlanV { args: p.args.push("-i"@), ..p },
            ShellKind::Other => if source == WslShellSource::Fallback {
                LaunchPlanV { args: p.args.push("-i"@), ..p }
            } else {
                p
            },
        },
    }
}

/// Adds the shell's own flags and environment.
pub fn apply_wsl_shell_behavior(plan: &mut LaunchPlan, shell: &WslShellResolution, integration: WslIntegration)
    ensures
        final(plan)@ == wsl_behavior(old(plan)@, shell.path@, shell.source, integration@),
{
    let ghost start = plan@;
    match integration {
        WslIntegration::Zsh { zdotdir } => {
            plan.env("ZDOTDIR", zdotdir.as_str());
            plan.arg("-l");
        },
        WslIntegration::Bash { rcfile } => {
            plan.arg("--rcfile");
            plan.arg(rcfile.as_str());
            plan.arg("-i");
            assert(plan@.args =~= start.args + seq!["--rcfile"@, rcfile@, "-i"@]);
        },
        WslIntegration::Fish { init } => {
            plan.arg("--init-command");
            let mut cmd = chars_of("source ");
            extend_chars(&mut cmd, chars_of(shell_quote(init.as_str()).as_str()).as_slice());
            plan.arg(string_of_all(cmd.as_slice()).as_str());
            plan.arg("-i");
            assert(plan@.args =~= start.args + seq!["--init-command"@, "source "@ + quoted(init@), "-i"@]);
        },
        WslIntegration::Bare => {
            match classify_shell(shell.path.as_str()) {
                ShellKind::Zsh => plan.arg("-l"),
                ShellKind::Bash | ShellKind::Fish => plan.arg("-i"),
                ShellKind::Other => {
                    if shell.source == WslShellSource::Fallback {
                        plan.arg("-i");
                    }
                },
            }
        },
    }
}

/// The working directory inside WSL: the requested one, or `~`.
pub open spec fn wsl_cwd(cwd: Option<Seq<char>>) -> Seq<char> {
    match cwd {
        Some(c) => if c.len() > 0 {
            c
        } else {
            "~"@
        },
        None => "~"@,
    }
}

/// The plan of a WSL terminal: `wsl.exe` with the terminal variables and no
/// working directory of its own, starting the resolved shell in the
/// requested directory (or `~`) with its integration.
pub open spec fn wsl_plan(
    cwd: Option<Seq<char>>,
    distro: Seq<char>,
    shell_path: Seq<char>,
    source: WslShellSource,
    prepared: Result<Seq<char>, Seq<char>>,
    values: Seq<Option<Seq<char>>>,
    user_zdotdir: Option<Seq<char>>,
) -> LaunchPlanV {
    let common = common_applied(
        LaunchPlanV { program: "wsl.exe"@, args: Seq::empty(), env: Seq::empty(), cwd: None },
        values,
        HostOs::Windows,
        None,
    );
    let based = LaunchPlanV {
        args: common.args + wsl_base_args(distro, wsl_cwd(cwd), shell_path),
        cwd: None,
        ..common
    };
    keep_user_zdotdir(
        wsl_behavior(based, shell_path, source, integration_of(kind_of(shell_path), prepared)),
        integration_of(kind_of(shell_path), prepared),
        user_zdotdir,
    )
}

/// With zsh integration, the user's own `ZDOTDIR` (when there is one and it
/// is another directory than the integration's) is passed on as
/// `TERAX_USER_ZDOTDIR`, so that the integration still reads the user's
/// startup files.
pub open spec fn keep_user_zdotdir(
    p: LaunchPlanV,
    integration: WslIntegrationV,
    user_zdotdir: Option<Seq<char>>,
) -> LaunchPlanV {
    match (integration, user_zdotdir) {
        (WslIntegrationV::Zsh(zd), Some(u)) => if !same_path(u, zd) {
            LaunchPlanV { env: p.env.push(("TERAX_USER_ZDOTDIR"@, u)), ..p }
        } else {
            p
        },
        _ => p,
    }
}

/// Plans a WSL terminal for a resolved shell, given what preparing its
/// integration gave.
pub fn build_wsl(
    cwd: Option<String>,
    distro: &str,
    resolved: &WslShellResolution,
    prepared: Result<String, String>,
    locale_values: &Vec<Option<String>>,
    user_zdotdir: Option<String>,
) -> (r: LaunchPlan)
    ensures
        r@ == wsl_plan(
            opt(cwd),
            distro@,
            resolved.path@,
            resolved.source,
            res_view(prepared),
            opts_view(locale_values@),
            opt(user_zdotdir),
        ),
{
    let kind = classify_shell(resolved.path.as_str());
    let mut plan = LaunchPlan::new("wsl.exe");
    apply_common(&mut plan, locale_values, HostOs::Windows, None);
    plan.clear_cwd();
    let dir = match &cwd {
        Some(c) => if chars_of(c.as_str()).len() > 0 {
            c.clone()
        } else {
            String::from_str(DEFAULT_WSL_CWD)
        },
        None => String::from_str(DEFAULT_WSL_CWD),
    };
    proof {
        reveal_strlit("~");
    }
    assert(dir@ == wsl_cwd(opt(cwd)));
    apply_wsl_base_args(&mut plan, distro, dir.as_str(), resolved.path.as_str());
    let integration = integration_for(kind, prepared);
    let zsh_dir = match &integration {
        WslIntegration::Zsh { zdotdir } => Some(zdotdir.clone()),
        _ => None,
    };
    apply_wsl_shell_behavior(&mut plan, resolved, integration);
    match (zsh_dir, user_zdotdir) {
        (Some(zd), Some(u)) => {
            if !paths_equal(u.as_str(), zd.as_str()) {
                plan.env("TERAX_USER_ZDOTDIR", u.as_str());
            }
        },
        _ => {},
    }
    plan
}

/// A WSL terminal always starts the resolved shell itself, in the requested
/// directory (or `~` when none is), whatever integration could be prepared:
/// the program is `wsl.exe` and its arguments hold
/// `-d <distro> --cd <cwd> --exec <shell>` in one run.
pub proof fn lemma_wsl_plan_runs_resolved_shell(
    cwd: Option<Seq<char>>,
    distro: Seq<char>,
    shell_path: Seq<char>,
    source: WslShellSource,
    prepared: Result<Seq<char>, Seq<char>>,
    values: Seq<Option<Seq<char>>>,
    user_zdotdir: Option<Seq<char>>,
)
    ensures
        wsl_plan(cwd, distro, shell_path, source, prepared, values, user_zdotdir).program == "wsl.exe"@,
        wsl_plan(cwd, distro, shell_path, source, prepared, values, user_zdotdir).cwd is None,
        exists|k: int|
            0 <= k && k + 6 <= wsl_plan(cwd, distro, shell_path, source, prepared, values, user_zdotdir).args.len()
                && #[trigger] wsl_plan(cwd, distro, shell_path, source, prepared, values, user_zdotdir).args.subrange(
                k,
                k + 6,
            ) == wsl_base_args(distro, wsl_cwd(cwd), shell_path),
        cwd matches Some(c) ==> (c.len() > 0 ==> wsl_cwd(cwd) == c),
{
    let common = common_applied(
        LaunchPlanV { program: "wsl.exe"@, args: Seq::empty(), env: Seq::empty(), cwd: None },
        values,
        HostOs::Windows,
        None,
    );
    let based = LaunchPlanV {
        args: common.args + wsl_base_args(distro, wsl_cwd(cwd), shell_path),
        cwd: None,
        ..common
    };
    let k = common.args.len() as int;
    let plan = wsl_plan(cwd, distro, shell_path, source, prepared, values, user_zdotdir);
    assert(plan.args.subrange(0, based.args.len() as int) =~= based.args);
    assert(plan.args.subrange(k, k + 6) =~= based.args.subrange(k, k + 6));
    assert(based.args.subrange(k, k + 6) =~= wsl_base_args(distro, wsl_cwd(cwd), shell_path));
}

/// A WSL zsh with integration starts as a login shell with the integration's
/// `ZDOTDIR`, and keeps the user's own `ZDOTDIR`, when it is another
/// directory, in `TERAX_USER_ZDOTDIR`, so the user's startup files are still
/// read.
pub proof fn lemma_wsl_zsh_keeps_user_files(
    cwd: Option<Seq<char>>,
    distro: Seq<char>,
    shell_path: Seq<char>,
    source: WslShellSource,
    zdotdir: Seq<char>,
    values: Seq<Option<Seq<char>>>,
    user: Seq<char>,
)
    requires
        kind_of(shell_path) == ShellKind::Zsh,
        !same_path(user, zdotdir),
    ensures
        ({
            let p = wsl_plan(cwd, distro, shell_path, source, Ok(zdotdir), values, Some(user));
            &&& env_lookup(p.env, "TERAX_USER_ZDOTDIR"@) == Some(user)
            &&& env_lookup(p.env, "ZDOTDIR"@) == Some(zdotdir)
            &&& p.args.last() == "-l"@
        }),
{
    reveal_strlit("TERAX_USER_ZDOTDIR");
    reveal_strlit("ZDOTDIR");
    let p = wsl_plan(cwd, distro, shell_path, source, Ok(zdotdir), values, Some(user));
    assert("TERAX_USER_ZDOTDIR"@ != "ZDOTDIR"@) by {
        assert("TERAX_USER_ZDOTDIR"@.len() != "ZDOTDIR"@.len());
    }
    assert(p.env.last() == ("TERAX_USER_ZDOTDIR"@, user));
    assert(p.env.drop_last().last() == ("ZDOTDIR"@, zdotdir));
    assert(env_lookup(p.env, "ZDOTDIR"@) == env_lookup(p.env.drop_last(), "ZDOTDIR"@));
    assert(env_lookup(p.env.drop_last(), "ZDOTDIR"@) == Some(zdotdir));
}

/// The file name of a Windows path (after its last `\` or `/`).
pub open spec fn file_name(p: Seq<char>) -> Seq<char> {
    after_last(replace_char(p, '\\', '/'), '/')
}

/// Whether the program is PowerShell.
pub open spec fn is_powershell(shell_path: Seq<char>) -> bool {
    lower(file_name(shell_path)) == "pwsh.exe"@ || lower(file_name(shell_path)) == "powershell.exe"@
}

/// `-NoLogo -NoExit -ExecutionPolicy Bypass -File <profile>`.
pub open spec fn powershell_args(profile: Seq<char>) -> Seq<Seq<char>> {
    seq!["-NoLogo"@, "-NoExit"@, "-ExecutionPolicy"@, "Bypass"@, "-File"@, profile]
}

/// The plan of a local Windows terminal: the shell with the terminal
/// variables; PowerShell also runs Terax's profile when it could be
/// prepared.
pub open spec fn local_plan(
    cwd: Option<Seq<char>>,
    shell_path: Seq<char>,
    values: Seq<Option<Seq<char>>>,
    profile: Result<Seq<char>, Seq<char>>,
) -> LaunchPlanV {
    let common = common_applied(
        LaunchPlanV { program: shell_path, args: Seq::empty(), env: Seq::empty(), cwd: None },
        values,
        HostOs::Windows,
        cwd,
    );
    match profile {
        Ok(p) => if is_powershell(shell_path) {
            LaunchPlanV { args: common.args + powershell_args(p), ..common }
        } else {
            common
        },
        Err(_) => common,
    }
}

/// A local Windows terminal whose program is PowerShell 7 (`pwsh.exe`) or
/// Windows PowerShell (`powershell.exe`), in any case and wherever it lives,
/// runs Terax's profile once it was prepared:
/// `-NoLogo -NoExit -ExecutionPolicy Bypass -File <profile>`. Any other
/// program, or a profile that could not be prepared, gets no arguments.
pub proof fn lemma_powershell_gets_profile(
    cwd: Option<Seq<char>>,
    shell_path: Seq<char>,
    values: Seq<Option<Seq<char>>>,
    profile: Result<Seq<char>, Seq<char>>,
)
    ensures
        ({
            let name = lower(after_last(replace_char(shell_path, '\\', '/'), '/'));
            let args = local_plan(cwd, shell_path, values, profile).args;
            &&& profile matches Ok(p) ==> ((name == "pwsh.exe"@ || name == "powershell.exe"@)
                ==> args == seq!["-NoLogo"@, "-NoExit"@, "-ExecutionPolicy"@, "Bypass"@, "-File"@, p])
            &&& !(profile is Ok && (name == "pwsh.exe"@ || name == "powershell.exe"@)) ==> args
                == Seq::<Seq<char>>::empty()
            &&& local_plan(cwd, shell_path, values, profile).program == shell_path
        }),
{
    let common = common_applied(
        LaunchPlanV { program: shell_path, args: Seq::empty(), env: Seq::empty(), cwd: None },
        values,
        HostOs::Windows,
        cwd,
    );
    assert(common.args =~= Seq::<Seq<char>>::empty());
    if let Ok(p) = profile {
        assert(common.args + powershell_args(p) =~= seq![
            "-NoLogo"@,
            "-NoExit"@,
            "-ExecutionPolicy"@,
            "Bypass"@,
            "-File"@,
            p,
        ]);
    }
}

/// Plans a local Windows terminal (`cwd` is the directory `pick_cwd` chose).
pub fn build(
    cwd: Option<String>,
    shell_path: &str,
    locale_values: &Vec<Option<String>>,
    profile: Result<String, String>,
) -> (r: LaunchPlan)
    ensures
        r@ == local_plan(opt(cwd), shell_path@, opts_view(locale_values@), res_view(profile)),
{
    let slashed = replace_char_chars(chars_of(shell_path).as_slice(), '\\', '/');
    let name = lower_chars(after_last_chars(slashed.as_slice(), '/').as_slice());
    let ps = chars_eq(name.as_slice(), chars_of("pwsh.exe").as_slice()) || chars_eq(
        name.as_slice(),
        chars_of("powershell.exe").as_slice(),
    );
    let mut plan = LaunchPlan::new(shell_path);
    apply_common(&mut plan, locale_values, HostOs::Windows, cwd);
    let ghost base = plan@;
    if ps {
        match profile {
            Ok(p) => {
                plan.arg("-NoLogo");
                plan.arg("-NoExit");
                plan.arg("-ExecutionPolicy");
                plan.arg("Bypass");
                plan.arg("-File");
                plan.arg(p.as_str());
                assert(plan@.args =~= base.args + powershell_args(p@));
            },
            Err(_) => {},
        }
    }
    plan
}

/// The Windows shell: PowerShell 7 found on `PATH`, else in Program Files,
/// else Windows PowerShell, else `cmd.exe` (each candidate given only when
/// the file exists).
pub fn windows_shell_path(
    on_path: Option<String>,
    program_files_pwsh: Option<String>,
    windows_powershell: Option<String>,
    cmd: String,
) -> (r: String)
    ensures
        r@ == match (on_path, program_files_pwsh, windows_powershell) {
            (Some(p), _, _) => p@,
            (None, Some(p), _) => p@,
            (None, None, Some(p)) => p@,
            (None, None, None) => cmd@,
        },
{
    match (on_path, program_files_pwsh, windows_powershell) {
        (Some(p), _, _) => p,
        (None, Some(p), _) => p,
        (None, None, Some(p)) => p,
        (None, None, None) => cmd,
    }
}

/// `<home>/.cache/terax/shell-integration/<shell>` inside a distribution
/// (trailing `/` of the home directory dropped).
pub open spec fn wsl_integration_path(home: Seq<char>, shell: Seq<char>) -> Seq<char> {
    trim_end_char(home, '/') + "/.cache/terax/shell-integration/"@ + shell
}

/// The Linux directory of a shell's integration files inside a distribution.
pub fn wsl_integration_dir(home: &str, shell: &str) -> (r: String)
    ensures
        r@ == wsl_integration_path(home@, shell@),
{
    let h = chars_of(home);
    let k = trim_end_char_len(h.as_slice(), '/');
    let mut v = crate::text::slice_range(h.as_slice(), 0, k);
    extend_chars(&mut v, chars_of("/.cache/terax/shell-integration/").as_slice());
    extend_chars(&mut v, chars_of(shell).as_slice());
    string_of_all(v.as_slice())
}

/// `<dir>/<name>` for a Linux path.
pub fn linux_child(dir: &str, name: &str) -> (r: String)
    ensures
        r@ == dir@ + seq!['/'] + name@,
{
    let mut v = chars_of(dir);
    v.push('/');
    extend_chars(&mut v, chars_of(name).as_slice());
    string_of_all(v.as_slice())
}

} // verus!
