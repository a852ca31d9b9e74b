//! Terminal launch on Unix: the user's login shell with Terax's integration.
use vstd::prelude::*;

use crate::pty::{
    paths_equal, same_path, apply_common, common_applied, opts_view, quoted, shell_quote, HostOs, LaunchPlan, LaunchPlanV,
};
use crate::text::{after_last, after_last_chars, chars_eq, chars_of, extend_chars, string_of_all};

verus! {

/// The shells Terax integrates with.
#[derive(Clone, Copy, Debug, PartialEq, Eq, Structural)]
pub enum Shell {
    Zsh,
    Bash,
    Fish,
    Other,
}

/// The shell a program name stands for.
pub open spec fn shell_named(name: Seq<char>) -> Shell {
    if name == "zsh"@ {
        Shell::Zsh
    } else if name == "bash"@ {
        Shell::Bash
    } else if name == "fish"@ {
        Shell::Fish
    } else {
        Shell::Other
    }
}

/// The shell to start: the login shell, else `$SHELL`; `/bin/zsh` when the
/// chosen one is empty or there is none.
pub open spec fn detected_path(login: Option<Seq<char>>, shell_env: Option<Seq<char>>) -> Seq<char> {
    let p = match login {
        Some(l) => Some(l),
        None => shell_env,
    };
    match p {
        Some(s) => if s.len() > 0 {
            s
        } else {
            "/bin/zsh"@
        },
        None => "/bin/zsh"@,
    }
}

pub open spec fn opt(o: Option<String>) -> Option<Seq<char>> {
    crate::git::types::opt_view(o)
}

fn shell_of_name(name: &[char]) -> (r: Shell)
    ensures
        r == shell_named(name@),
{
    if chars_eq(name, chars_of("zsh").as_slice()) {
        Shell::Zsh
    } else if chars_eq(name, chars_of("bash").as_slice()) {
        Shell::Bash
    } else if chars_eq(name, chars_of("fish").as_slice()) {
        Shell::Fish
    } else {
        Shell::Other
    }
}

impl Shell {
    /// The shell to start and its path, from the login shell of the passwd
    /// database and `$SHELL`.
    pub fn detect(login_shell: Option<String>, shell_env: Option<String>) -> (r: (Shell, String))
        ensures
            r.1@ == detected_path(opt(login_shell), opt(shell_env)),
            r.0 == shell_named(after_last(r.1@, '/')),
    {
        let chosen = match login_shell {
            Some(l) => Some(l),
            None => shell_env,
        };
        let path = match chosen {
            Some(s) => if chars_of(s.as_str()).len() > 0 {
                s
            } else {
                String::from_str("/bin/zsh")
            },
            None => String::from_str("/bin/zsh"),
        };
        let name = after_last_chars(chars_of(path.as_str()).as_slice(), '/');
        (shell_of_name(name.as_slice()), path)
    }
}

/// The plan of a Unix terminal: the detected shell, with the terminal
/// variables, and its integration when it could be prepared (`integration`
/// is the prepared directory or file, or why it could not be): zsh gets
/// `ZDOTDIR` (keeping a different user `ZDOTDIR` in `TERAX_USER_ZDOTDIR`) and
/// starts as a login shell; bash gets `--rcfile` and `-i`; fish gets an
/// `--init-command` sourcing the init file and `-i`; other shells start bare.
pub open spec fn unix_plan(
    login: Option<Seq<char>>,
    shell_env: Option<Seq<char>>,
    values: Seq<Option<Seq<char>>>,
    os: HostOs,
    cwd: Option<Seq<char>>,
    integration: Result<Seq<char>, Seq<char>>,
    user_zdotdir: Option<Seq<char>>,
) -> LaunchPlanV {
    let path = detected_path(login, shell_env);
    let base = common_applied(
        LaunchPlanV { program: path, args: Seq::empty(), env: Seq::empty(), cwd: None },
        values,
        os,
        cwd,
    );
    match shell_named(after_last(path, '/')) {
        Shell::Zsh => {
            let env = match integration {
                Ok(zd) => {
                    let kept = match user_zdotdir {
                        Some(u) => if !same_path(u, zd) {
                            base.env.push(("TERAX_USER_ZDOTDIR"@, u))
                        } else {
                            base.env
                        },
                        None => base.env,
                    };
                    kept.push(("ZDOTDIR"@, zd))
                },
                Err(_) => base.env,
            };
            LaunchPlanV { env: env, args: base.args.push("-l"@), ..base }
        },
        Shell::Bash => {
            let args = match integration {
                Ok(rc) => base.args + seq!["--rcfile"@, rc],
                Err(_) => base.args,
            };
            LaunchPlanV { args: args.push("-i"@), ..base }
        },
        Shell::Fish => {
            let args = match integration {
                Ok(init) => base.args + seq!["--init-command"@, "source "@ + quoted(init)],
                Err(_) => base.args,
            };
            LaunchPlanV { args: args.push("-i"@), ..base }
        },
        Shell::Other => base,
    }
}

pub open spec fn res_view(r: Result<String, String>) -> Result<Seq<char>, Seq<char>> {
    match r {
        Ok(s) => Ok(s@),
        Err(e) => Err(e@),
    }
}

/// Plans a Unix terminal.
pub fn build(
    login_shell: Option<String>,
    shell_env: Option<String>,
    locale_values: &Vec<Option<String>>,
    os: HostOs,
    cwd: Option<String>,
    integration: Result<String, String>,
    user_zdotdir: Option<String>,
) -> (r: LaunchPlan)
    ensures
        r@ == unix_plan(
            opt(login_shell),
            opt(shell_env),
            opts_view(locale_values@),
            os,
            opt(cwd),
            res_view(integration),
            opt(user_zdotdir),
        ),
{
    let (shell, path) = Shell::detect(login_shell, shell_env);
    let mut plan = LaunchPlan::new(path.as_str());
    apply_common(&mut plan, locale_values, os, cwd);
    let ghost base = plan@;
    match shell {
        Shell::Zsh => {
            match integration {
                Ok(zd) => {
                    match user_zdotdir {
                        Some(u) => {
                            if !paths_equal(u.as_str(), zd.as_str()) {
                                plan.env("TERAX_USER_ZDOTDIR", u.as_str());
                            }
                        },
                        None => {},
                    }
                    plan.env("ZDOTDIR", zd.as_str());
                },
                Err(_) => {},
            }
            plan.arg("-l");
        },
        Shell::Bash => {
            match integration {
                Ok(rc) => {
                    plan.arg("--rcfile");
                    plan.arg(rc.as_str());
                    assert(plan@.args =~= base.args + seq!["--rcfile"@, rc@]);
                },
                Err(_) => {},
            }
            plan.arg("-i");
        },
        Shell::Fish => {
            match integration {
                Ok(init) => {
                    plan.arg("--init-command");
                    let mut cmd = chars_of("source ");
                    extend_chars(&mut cmd, chars_of(shell_quote(init.as_str()).as_str()).as_slice());
                    plan.arg(string_of_all(cmd.as_slice()).as_str());
                    assert(plan@.args =~= base.args + seq!["--init-command"@, "source "@ + quoted(init@)]);
                },
                Err(_) => {},
            }
            plan.arg("-i");
        },
        Shell::Other => {},
    }
    plan
}

} // verus!
