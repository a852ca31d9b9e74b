//! Git operations as plans: each operation is a function from the replies
//! received so far to the next piece of outside work, or to its result. The
//! caller performs each asked effect, appends the reply and asks again.
use vstd::prelude::*;

use crate::git::parse::{
    commit_file_changes, ensure_success, log_has_no_history, log_output_entries,
    log_stderr_means_empty, nothing_to_commit, nothing_to_commit_in, parse_commit_files,
    parse_log_output, safe_sha, sha_is_safe, success_check, valid_remote_name,
    remote_name_is_valid,
};
use crate::git::types::{
    opt_view, DiscardEntry, Done, FileChangeV, GitCommitResult, GitDiffContentResult,
    GitDiffResult, GitEffect, GitEffectV, GitError, GitErrorV, CommitFiles, GitOutput, GitOutputV,
    GitPushResult, LogPage, RemoteUrl, RepoLookup, GitReply, GitReplyV, GitRepoInfo, GitStep,
    GitStepV, LogEntryV, TextSource, TextSourceV, output_view, replies_view, text_of,
};
use crate::git::utils::{
    authorized, pathspec, pathspec_of, split_upstream, strip_path_prefix, upstream_parts,
};
use crate::text::{
    chars_of, decimal, decimal_chars, extend_chars, string_of_all, strings_view, trim, trim_chars,
    utf8_lossy, utf8_lossy_string,
};
use crate::git::utils::display_path;
use crate::workspace::WorkspaceRegistry;

verus! {

// ------------------------------------------------------------------
// Protocol
// ------------------------------------------------------------------

/// Why an operation stops before its end: it needs outside work, or failed.
pub enum Halt {
    Ask(GitEffectV),
    Fail(GitErrorV),
}

pub open spec fn halt_step<T>(h: Halt) -> GitStepV<T> {
    match h {
        Halt::Ask(e) => GitStepV::Perform(e),
        Halt::Fail(e) => GitStepV::Finish(Err(e)),
    }
}

/// An operation stopping before its end.
pub enum Interrupt {
    Ask(GitEffect),
    Fail(GitError),
}

impl View for Interrupt {
    type V = Halt;

    open spec fn view(&self) -> Halt {
        match self {
            Interrupt::Ask(e) => Halt::Ask(e@),
            Interrupt::Fail(e) => Halt::Fail(e@),
        }
    }
}

impl Interrupt {
    pub fn into_step<T: View>(self) -> (r: GitStep<T>)
        ensures
            r@ == halt_step::<T::V>(self@),
    {
        match self {
            Interrupt::Ask(e) => GitStep::Perform(e),
            Interrupt::Fail(e) => GitStep::Finish(Err(e)),
        }
    }
}

pub open spec fn checked_of(r: GitReplyV) -> Result<(), GitErrorV> {
    match r {
        GitReplyV::Checked(x) => x,
        _ => Err(GitErrorV::UnexpectedReply),
    }
}

pub open spec fn dir_of(r: GitReplyV) -> Result<Seq<char>, GitErrorV> {
    match r {
        GitReplyV::Dir(x) => x,
        _ => Err(GitErrorV::UnexpectedReply),
    }
}

pub open spec fn line_of(r: GitReplyV) -> Result<Option<Seq<char>>, GitErrorV> {
    match r {
        GitReplyV::Line(x) => x,
        _ => Err(GitErrorV::UnexpectedReply),
    }
}

pub open spec fn lines_of(r: GitReplyV) -> Result<Seq<Seq<char>>, GitErrorV> {
    match r {
        GitReplyV::Lines(x) => x,
        _ => Err(GitErrorV::UnexpectedReply),
    }
}

pub open spec fn output_of(r: GitReplyV) -> Result<GitOutputV, GitErrorV> {
    match r {
        GitReplyV::Output(x) => x,
        _ => Err(GitErrorV::UnexpectedReply),
    }
}

pub open spec fn text_reply_of(r: GitReplyV) -> Result<TextSourceV, GitErrorV> {
    match r {
        GitReplyV::Text(x) => x,
        _ => Err(GitErrorV::UnexpectedReply),
    }
}

fn reply_checked(r: &GitReply) -> (x: Result<(), GitError>)
    ensures
        match x {
            Ok(()) => checked_of(r@) is Ok,
            Err(e) => checked_of(r@) == Err::<(), GitErrorV>(e@),
        },
{
    match r {
        GitReply::Checked(Ok(())) => Ok(()),
        GitReply::Checked(Err(e)) => Err(e.duplicate()),
        _ => Err(GitError::UnexpectedReply),
    }
}

fn reply_dir(r: &GitReply) -> (x: Result<String, GitError>)
    ensures
        match x {
            Ok(s) => dir_of(r@) == Ok::<Seq<char>, GitErrorV>(s@),
            Err(e) => dir_of(r@) == Err::<Seq<char>, GitErrorV>(e@),
        },
{
    match r {
        GitReply::Dir(Ok(s)) => Ok(s.clone()),
        GitReply::Dir(Err(e)) => Err(e.duplicate()),
        _ => Err(GitError::UnexpectedReply),
    }
}

fn reply_line(r: &GitReply) -> (x: Result<Option<String>, GitError>)
    ensures
        match x {
            Ok(s) => line_of(r@) == Ok::<Option<Seq<char>>, GitErrorV>(opt_view(s)),
            Err(e) => line_of(r@) == Err::<Option<Seq<char>>, GitErrorV>(e@),
        },
{
    match r {
        GitReply::Line(Ok(Some(s))) => Ok(Some(s.clone())),
        GitReply::Line(Ok(None)) => Ok(None),
        GitReply::Line(Err(e)) => Err(e.duplicate()),
        _ => Err(GitError::UnexpectedReply),
    }
}

fn reply_lines(r: &GitReply) -> (x: Result<&Vec<String>, GitError>)
    ensures
        match x {
            Ok(v) => lines_of(r@) == Ok::<Seq<Seq<char>>, GitErrorV>(strings_view(v@)),
            Err(e) => lines_of(r@) == Err::<Seq<Seq<char>>, GitErrorV>(e@),
        },
{
    match r {
        GitReply::Lines(Ok(v)) => Ok(v),
        GitReply::Lines(Err(e)) => Err(e.duplicate()),
        _ => Err(GitError::UnexpectedReply),
    }
}

fn reply_output(r: &GitReply) -> (x: Result<&GitOutput, GitError>)
    ensures
        match x {
            Ok(o) => output_of(r@) == Ok::<GitOutputV, GitErrorV>(output_view(*o)),
            Err(e) => output_of(r@) == Err::<GitOutputV, GitErrorV>(e@),
        },
{
    match r {
        GitReply::Output(Ok(o)) => Ok(o),
        GitReply::Output(Err(e)) => Err(e.duplicate()),
        _ => Err(GitError::UnexpectedReply),
    }
}

fn reply_text(r: &GitReply) -> (x: Result<&TextSource, GitError>)
    ensures
        match x {
            Ok(t) => text_reply_of(r@) == Ok::<TextSourceV, GitErrorV>(t@),
            Err(e) => text_reply_of(r@) == Err::<TextSourceV, GitErrorV>(e@),
        },
{
    match r {
        GitReply::Text(Ok(t)) => Ok(t),
        GitReply::Text(Err(e)) => Err(e.duplicate()),
        _ => Err(GitError::UnexpectedReply),
    }
}

/// Appends a string to an argument list.
fn push_arg(v: &mut Vec<String>, s: String)
    ensures
        strings_view(final(v)@) == strings_view(old(v)@).push(s@),
{
    let ghost before = v@;
    v.push(s);
    assert(strings_view(v@) =~= strings_view(before).push(s@));
}

fn empty_page() -> (r: LogPage)
    ensures
        r@ == Seq::<LogEntryV>::empty(),
{
    let r = LogPage { entries: Vec::new() };
    assert(r@ =~= Seq::<LogEntryV>::empty());
    r
}

fn command_failed_no_detail(context: &str) -> (r: GitError)
    ensures
        r@ == GitErrorV::CommandFailed(context@, Seq::empty()),
{
    proof {
        reveal_strlit("");
    }
    assert(""@ =~= Seq::<char>::empty());
    GitError::command(context, "")
}

/// Strings holding the given literals.
fn strs(lits: &[&str]) -> (r: Vec<String>)
    ensures
        strings_view(r@) == Seq::new(lits@.len(), |i: int| lits@[i]@),
{
    let mut out: Vec<String> = Vec::new();
    let mut i: usize = 0;
    while i < lits.len()
        invariant
            i <= lits@.len(),
            strings_view(out@) =~= Seq::new(lits@.len(), |k: int| lits@[k]@).take(i as int),
        decreases lits.len() - i,
    {
        let ghost before = out@;
        out.push(String::from_str(lits[i]));
        assert(strings_view(out@) =~= strings_view(before).push(lits@[i as int]@));
        i = i + 1;
    }
    out
}

/// The opening every operation shares: canonicalize the directory it was
/// given, require it to lie inside an authorized workspace, and check that git
/// can run. Yields the canonical directory.
pub open spec fn prelude(reg: Set<Seq<char>>, dir: Seq<char>, replies: Seq<GitReplyV>) -> Result<Seq<char>, Halt> {
    if replies.len() == 0 {
        Err(Halt::Ask(GitEffectV::CanonicalDir(dir)))
    } else {
        match dir_of(replies[0]) {
            Err(e) => Err(Halt::Fail(e)),
            Ok(root) => if !authorized(reg, root) {
                Err(Halt::Fail(GitErrorV::PathOutsideWorkspace(root)))
            } else if replies.len() == 1 {
                Err(Halt::Ask(GitEffectV::EnsureGit))
            } else {
                match checked_of(replies[1]) {
                    Err(e) => Err(Halt::Fail(e)),
                    Ok(()) => Ok(root),
                }
            },
        }
    }
}

fn run_prelude(registry: &WorkspaceRegistry, dir: &str, replies: &[GitReply]) -> (r: Result<String, Interrupt>)
    ensures
        match r {
            Ok(root) => prelude(registry@, dir@, replies_view(replies@)) == Ok::<Seq<char>, Halt>(
                root@,
            ),
            Err(h) => prelude(registry@, dir@, replies_view(replies@)) == Err::<Seq<char>, Halt>(h@),
        },
{
    let ghost rv = replies_view(replies@);
    if replies.len() == 0 {
        return Err(Interrupt::Ask(GitEffect::CanonicalDir { path: String::from_str(dir) }));
    }
    assert(rv[0] == replies@[0]@);
    let root = match reply_dir(&replies[0]) {
        Ok(r) => r,
        Err(e) => return Err(Interrupt::Fail(e)),
    };
    if !registry.is_authorized(root.as_str()) {
        return Err(Interrupt::Fail(GitError::PathOutsideWorkspace(root)));
    }
    if replies.len() == 1 {
        return Err(Interrupt::Ask(GitEffect::EnsureGit));
    }
    assert(rv[1] == replies@[1]@);
    match reply_checked(&replies[1]) {
        Ok(()) => Ok(root),
        Err(e) => Err(Interrupt::Fail(e)),
    }
}

/// The replies after the first `n`.
pub open spec fn after(replies: Seq<GitReplyV>, n: int) -> Seq<GitReplyV> {
    replies.skip(n)
}

pub open spec fn upstream_args() -> Seq<Seq<char>> {
    seq!["rev-parse"@, "--abbrev-ref"@, "--symbolic-full-name"@, "@{u}"@]
}

fn upstream_arg_vec() -> (r: Vec<String>)
    ensures
        strings_view(r@) == upstream_args(),
{
    let r = strs(&["rev-parse", "--abbrev-ref", "--symbolic-full-name", "@{u}"]);
    assert(strings_view(r@) =~= upstream_args());
    r
}

// ------------------------------------------------------------------
// push, fetch, pull
// ------------------------------------------------------------------

/// `git push` to the configured upstream: fails with `NoUpstream`, without
/// pushing, when the branch has none.
pub open spec fn push_plan(
    reg: Set<Seq<char>>,
    repo_root: Seq<char>,
    replies: Seq<GitReplyV>,
) -> GitStepV<(Option<Seq<char>>, Option<Seq<char>>, bool)> {
    match prelude(reg, repo_root, replies) {
        Err(h) => halt_step(h),
        Ok(root) => {
            let rs = after(replies, 2);
            if rs.len() == 0 {
                GitStepV::Perform(GitEffectV::LineOpt(root, upstream_args()))
            } else {
                match line_of(rs[0]) {
                    Err(e) => GitStepV::Finish(Err(e)),
                    Ok(None) => GitStepV::Finish(Err(GitErrorV::NoUpstream)),
                    Ok(Some(up)) => if rs.len() == 1 {
                        GitStepV::Perform(GitEffectV::Run(root, seq!["push"@], true))
                    } else {
                        match output_of(rs[1]) {
                            Err(e) => GitStepV::Finish(Err(e)),
                            Ok(o) => match success_check(
                                o.timed_out,
                                o.exit_code,
                                o.stderr,
                                "git push failed"@,
                            ) {
                                Err(e) => GitStepV::Finish(Err(e)),
                                Ok(()) => GitStepV::Finish(
                                    Ok((upstream_parts(up).0, upstream_parts(up).1, true)),
                                ),
                            },
                        }
                    },
                }
            }
        },
    }
}

/// Pushes the current branch to its upstream.
pub fn push(registry: &WorkspaceRegistry, repo_root: &str, replies: &[GitReply]) -> (r: GitStep<GitPushResult>)
    ensures
        r@ == push_plan(registry@, repo_root@, replies_view(replies@)),
{
    let root = match run_prelude(registry, repo_root, replies) {
        Ok(r) => r,
        Err(h) => return h.into_step(),
    };
    let ghost rv = replies_view(replies@);
    if replies.len() == 2 {
        return GitStep::Perform(GitEffect::LineOpt { cwd: root, args: upstream_arg_vec() });
    }
    assert(after(rv, 2)[0] == replies@[2]@);
    let upstream = match reply_line(&replies[2]) {
        Err(e) => return GitStep::Finish(Err(e)),
        Ok(None) => return GitStep::Finish(Err(GitError::NoUpstream)),
        Ok(Some(u)) => u,
    };
    if replies.len() == 3 {
        let args = strs(&["push"]);
        assert(strings_view(args@) =~= seq!["push"@]);
        return GitStep::Perform(GitEffect::Run { cwd: root, args, network: true });
    }
    assert(after(rv, 2)[1] == replies@[3]@);
    let output = match reply_output(&replies[3]) {
        Err(e) => return GitStep::Finish(Err(e)),
        Ok(o) => o,
    };
    match ensure_success(output, "git push failed") {
        Err(e) => return GitStep::Finish(Err(e)),
        Ok(()) => {},
    }
    let (remote, branch) = split_upstream(upstream.as_str());
    GitStep::Finish(Ok(GitPushResult { remote, branch, pushed: true }))
}

/// One network command, whose success is the whole result.
pub open spec fn network_plan(
    reg: Set<Seq<char>>,
    repo_root: Seq<char>,
    args: Seq<Seq<char>>,
    context: Seq<char>,
    replies: Seq<GitReplyV>,
) -> GitStepV<()> {
    match prelude(reg, repo_root, replies) {
        Err(h) => halt_step(h),
        Ok(root) => {
            let rs = after(replies, 2);
            if rs.len() == 0 {
                GitStepV::Perform(GitEffectV::Run(root, args, true))
            } else {
                match output_of(rs[0]) {
                    Err(e) => GitStepV::Finish(Err(e)),
                    Ok(o) => match success_check(o.timed_out, o.exit_code, o.stderr, context) {
                        Err(e) => GitStepV::Finish(Err(e)),
                        Ok(()) => GitStepV::Finish(Ok(())),
                    },
                }
            }
        },
    }
}

fn network_op(
    registry: &WorkspaceRegistry,
    repo_root: &str,
    replies: &[GitReply],
    args: Vec<String>,
    context: &str,
) -> (r: GitStep<Done>)
    ensures
        r@ == network_plan(registry@, repo_root@, strings_view(args@), context@, replies_view(replies@)),
{
    let root = match run_prelude(registry, repo_root, replies) {
        Ok(r) => r,
        Err(h) => return h.into_step(),
    };
    let ghost rv = replies_view(replies@);
    if replies.len() == 2 {
        return GitStep::Perform(GitEffect::Run { cwd: root, args, network: true });
    }
    assert(after(rv, 2)[0] == replies@[2]@);
    let output = match reply_output(&replies[2]) {
        Err(e) => return GitStep::Finish(Err(e)),
        Ok(o) => o,
    };
    match ensure_success(output, context) {
        Err(e) => GitStep::Finish(Err(e)),
        Ok(()) => GitStep::Finish(Ok(Done)),
    }
}

/// `git fetch --prune`.
pub fn fetch(registry: &WorkspaceRegistry, repo_root: &str, replies: &[GitReply]) -> (r: GitStep<Done>)
    ensures
        r@ == network_plan(
            registry@,
            repo_root@,
            seq!["fetch"@, "--prune"@],
            "git fetch failed"@,
            replies_view(replies@),
        ),
{
    let args = strs(&["fetch", "--prune"]);
    assert(strings_view(args@) =~= seq!["fetch"@, "--prune"@]);
    network_op(registry, repo_root, replies, args, "git fetch failed")
}

/// `git pull --ff-only`.
pub fn pull_ff_only(registry: &WorkspaceRegistry, repo_root: &str, replies: &[GitReply]) -> (r: GitStep<Done>)
    ensures
        r@ == network_plan(
            registry@,
            repo_root@,
            seq!["pull"@, "--ff-only"@],
            "git pull --ff-only failed"@,
            replies_view(replies@),
        ),
{
    let args = strs(&["pull", "--ff-only"]);
    assert(strings_view(args@) =~= seq!["pull"@, "--ff-only"@]);
    network_op(registry, repo_root, replies, args, "git pull --ff-only failed")
}

// ------------------------------------------------------------------
// remote_url
// ------------------------------------------------------------------

/// The URL of a remote: `None`, without asking git, for a name that is not
/// 1 to 64 letters, digits, `-`, `_` or `.`.
pub open spec fn remote_url_plan(
    reg: Set<Seq<char>>,
    repo_root: Seq<char>,
    name: Seq<char>,
    replies: Seq<GitReplyV>,
) -> GitStepV<Option<Seq<char>>> {
    match prelude(reg, repo_root, replies) {
        Err(h) => halt_step(h),
        Ok(root) => {
            let rs = after(replies, 2);
            if !valid_remote_name(name) {
                GitStepV::Finish(Ok(None))
            } else if rs.len() == 0 {
                GitStepV::Perform(
                    GitEffectV::LineOpt(
                        root,
                        seq!["config"@, "--get"@, "remote."@ + name + ".url"@],
                    ),
                )
            } else {
                GitStepV::Finish(line_of(rs[0]))
            }
        },
    }
}

/// Looks up the URL of the remote `name`.
pub fn remote_url(registry: &WorkspaceRegistry, repo_root: &str, name: &str, replies: &[GitReply]) -> (r: GitStep<RemoteUrl>)
    ensures
        r@ == remote_url_plan(registry@, repo_root@, name@, replies_view(replies@)),
{
    let root = match run_prelude(registry, repo_root, replies) {
        Ok(r) => r,
        Err(h) => return h.into_step(),
    };
    let ghost rv = replies_view(replies@);
    if !remote_name_is_valid(name) {
        return GitStep::Finish(Ok(RemoteUrl { url: None }));
    }
    if replies.len() == 2 {
        let mut key = chars_of("remote.");
        extend_chars(&mut key, chars_of(name).as_slice());
        extend_chars(&mut key, chars_of(".url").as_slice());
        let mut args = strs(&["config", "--get"]);
        let ghost before = args@;
        args.push(string_of_all(key.as_slice()));
        assert(strings_view(args@) =~= strings_view(before).push(key@));
        assert(strings_view(args@) =~= seq!["config"@, "--get"@, "remote."@ + name@ + ".url"@]);
        return GitStep::Perform(GitEffect::LineOpt { cwd: root, args });
    }
    assert(after(rv, 2)[0] == replies@[2]@);
    match reply_line(&replies[2]) {
        Ok(url) => GitStep::Finish(Ok(RemoteUrl { url })),
        Err(e) => GitStep::Finish(Err(e)),
    }
}

// ------------------------------------------------------------------
// resolve_repo
// ------------------------------------------------------------------

/// The repository a directory belongs to: its top level (canonicalized and
/// recorded as authorized), branch and upstream; `None` outside any
/// repository.
pub open spec fn resolve_repo_plan(
    reg: Set<Seq<char>>,
    cwd: Seq<char>,
    replies: Seq<GitReplyV>,
) -> GitStepV<Option<(Seq<char>, Seq<char>, Option<Seq<char>>, bool)>> {
    match prelude(reg, cwd, replies) {
        Err(h) => halt_step(h),
        Ok(dir) => {
            let rs = after(replies, 2);
            if rs.len() == 0 {
                GitStepV::Perform(GitEffectV::LineOpt(dir, seq!["rev-parse"@, "--show-toplevel"@]))
            } else {
                match line_of(rs[0]) {
                    Err(e) => GitStepV::Finish(Err(e)),
                    Ok(None) => GitStepV::Finish(Ok(None)),
                    Ok(Some(top)) => if rs.len() == 1 {
                        GitStepV::Perform(GitEffectV::CanonicalDir(top))
                    } else {
                        match dir_of(rs[1]) {
                            Err(e) => GitStepV::Finish(Err(e)),
                            Ok(root) => if rs.len() == 2 {
                                GitStepV::Perform(GitEffectV::Authorize(root))
                            } else if rs.len() == 3 {
                                GitStepV::Perform(
                                    GitEffectV::Lines(
                                        root,
                                        seq!["rev-parse"@, "--abbrev-ref"@, "HEAD"@],
                                    ),
                                )
                            } else {
                                match lines_of(rs[3]) {
                                    Err(e) => GitStepV::Finish(Err(e)),
                                    Ok(ls) => if ls.len() == 0 {
                                        GitStepV::Finish(
                                            Err(
                                                GitErrorV::CommandFailed(
                                                    "failed to resolve HEAD"@,
                                                    Seq::empty(),
                                                ),
                                            ),
                                        )
                                    } else if rs.len() == 4 {
                                        GitStepV::Perform(GitEffectV::LineOpt(root, upstream_args()))
                                    } else {
                                        match line_of(rs[4]) {
                                            Err(e) => GitStepV::Finish(Err(e)),
                                            Ok(up) => GitStepV::Finish(
                                                Ok(
                                                    Some(
                                                        (
                                                            crate::text::replace_char(root, '\\', '/'),
                                                            ls[0],
                                                            up,
                                                            ls[0] == "HEAD"@,
                                                        ),
                                                    ),
                                                ),
                                            ),
                                        }
                                    },
                                }
                            },
                        }
                    },
                }
            }
        },
    }
}

fn str_eq(a: &String, b: &str) -> (r: bool)
    ensures
        r == (a@ == b@),
{
    let x = String::from_str(b);
    *a == x
}

/// Finds the repository the directory `cwd` belongs to.
pub fn resolve_repo(registry: &WorkspaceRegistry, cwd: &str, replies: &[GitReply]) -> (r: GitStep<RepoLookup>)
    ensures
        r@ == resolve_repo_plan(registry@, cwd@, replies_view(replies@)),
{
    let dir = match run_prelude(registry, cwd, replies) {
        Ok(r) => r,
        Err(h) => return h.into_step(),
    };
    let ghost rv = replies_view(replies@);
    let ghost rs = after(rv, 2);
    if replies.len() == 2 {
        let args = strs(&["rev-parse", "--show-toplevel"]);
        assert(strings_view(args@) =~= seq!["rev-parse"@, "--show-toplevel"@]);
        return GitStep::Perform(GitEffect::LineOpt { cwd: dir, args });
    }
    assert(rs[0] == replies@[2]@);
    let top = match reply_line(&replies[2]) {
        Err(e) => return GitStep::Finish(Err(e)),
        Ok(None) => return GitStep::Finish(Ok(RepoLookup { repo: None })),
        Ok(Some(t)) => t,
    };
    if replies.len() == 3 {
        return GitStep::Perform(GitEffect::CanonicalDir { path: top });
    }
    assert(rs[1] == replies@[3]@);
    let root = match reply_dir(&replies[3]) {
        Err(e) => return GitStep::Finish(Err(e)),
        Ok(r) => r,
    };
    if replies.len() == 4 {
        return GitStep::Perform(GitEffect::Authorize { path: root });
    }
    if replies.len() == 5 {
        let args = strs(&["rev-parse", "--abbrev-ref", "HEAD"]);
        assert(strings_view(args@) =~= seq!["rev-parse"@, "--abbrev-ref"@, "HEAD"@]);
        return GitStep::Perform(GitEffect::Lines { cwd: root, args });
    }
    assert(rs[3] == replies@[5]@);
    let lines = match reply_lines(&replies[5]) {
        Err(e) => return GitStep::Finish(Err(e)),
        Ok(v) => v,
    };
    if lines.len() == 0 {
        return GitStep::Finish(Err(command_failed_no_detail("failed to resolve HEAD")));
    }
    assert(strings_view(lines@)[0] == lines@[0]@);
    if replies.len() == 6 {
        return GitStep::Perform(GitEffect::LineOpt { cwd: root, args: upstream_arg_vec() });
    }
    assert(rs[4] == replies@[6]@);
    let upstream = match reply_line(&replies[6]) {
        Err(e) => return GitStep::Finish(Err(e)),
        Ok(u) => u,
    };
    let head = lines[0].clone();
    let is_detached = str_eq(&head, "HEAD");
    GitStep::Finish(
        Ok(
            RepoLookup {
                repo: Some(
                    GitRepoInfo {
                        repo_root: display_path(root.as_str()),
                        branch: head,
                        upstream,
                        is_detached,
                    },
                ),
            },
        ),
    )
}

// ------------------------------------------------------------------
// Commands whose output is the result
// ------------------------------------------------------------------

/// Runs one local git command and makes its result from the output.
pub open spec fn run_then(
    root: Seq<char>,
    args: Seq<Seq<char>>,
    context: Seq<char>,
    rs: Seq<GitReplyV>,
) -> Result<GitOutputV, Halt> {
    if rs.len() == 0 {
        Err(Halt::Ask(GitEffectV::Run(root, args, false)))
    } else {
        match output_of(rs[0]) {
            Err(e) => Err(Halt::Fail(e)),
            Ok(o) => match success_check(o.timed_out, o.exit_code, o.stderr, context) {
                Err(e) => Err(Halt::Fail(e)),
                Ok(()) => Ok(o),
            },
        }
    }
}

fn run_checked<'a>(
    root: &str,
    args: Vec<String>,
    context: &str,
    replies: &'a [GitReply],
    at: usize,
) -> (r: Result<&'a GitOutput, Interrupt>)
    requires
        at <= replies@.len(),
    ensures
        match r {
            Ok(o) => run_then(root@, strings_view(args@), context@, replies_view(replies@).skip(at as int))
                == Ok::<GitOutputV, Halt>(output_view(*o)),
            Err(h) => run_then(root@, strings_view(args@), context@, replies_view(replies@).skip(at as int))
                == Err::<GitOutputV, Halt>(h@),
        },
        r is Ok ==> at < replies@.len(),
{
    let ghost rs = replies_view(replies@).skip(at as int);
    if replies.len() == at {
        return Err(
            Interrupt::Ask(GitEffect::Run { cwd: String::from_str(root), args, network: false }),
        );
    }
    assert(rs[0] == replies@[at as int]@);
    let output = match reply_output(&replies[at]) {
        Err(e) => return Err(Interrupt::Fail(e)),
        Ok(o) => o,
    };
    match ensure_success(output, context) {
        Err(e) => Err(Interrupt::Fail(e)),
        Ok(()) => Ok(output),
    }
}

pub open spec fn show_args(sha: Seq<char>) -> Seq<Seq<char>> {
    seq!["show"@, "--no-color"@, "--no-ext-diff"@, "--patch-with-stat"@, sha, "--"@]
}

/// The patch of a commit, with statistics; the identifier must be 1 to 64
/// hexadecimal digits, else git is not run.
pub open spec fn show_commit_diff_plan(
    reg: Set<Seq<char>>,
    repo_root: Seq<char>,
    sha: Seq<char>,
    replies: Seq<GitReplyV>,
) -> GitStepV<(Seq<char>, bool)> {
    match prelude(reg, repo_root, replies) {
        Err(h) => halt_step(h),
        Ok(root) => if !safe_sha(sha) {
            GitStepV::Finish(Err(GitErrorV::CommandFailed("git show"@, "invalid commit identifier"@)))
        } else {
            match run_then(root, show_args(sha), "git show failed"@, after(replies, 2)) {
                Err(h) => halt_step(h),
                Ok(o) => GitStepV::Finish(Ok((utf8_lossy(o.stdout), o.truncated))),
            }
        },
    }
}

/// Shows the patch of commit `sha`.
pub fn show_commit_diff(registry: &WorkspaceRegistry, repo_root: &str, sha: &str, replies: &[GitReply]) -> (r: GitStep<GitDiffResult>)
    ensures
        r@ == show_commit_diff_plan(registry@, repo_root@, sha@, replies_view(replies@)),
{
    let root = match run_prelude(registry, repo_root, replies) {
        Ok(r) => r,
        Err(h) => return h.into_step(),
    };
    if !sha_is_safe(sha) {
        return GitStep::Finish(Err(GitError::command("git show", "invalid commit identifier")));
    }
    let mut args = strs(&["show", "--no-color", "--no-ext-diff", "--patch-with-stat"]);
    push_arg(&mut args, String::from_str(sha));
    push_arg(&mut args, String::from_str("--"));
    assert(strings_view(args@) =~= show_args(sha@));
    match run_checked(root.as_str(), args, "git show failed", replies, 2) {
        Err(h) => h.into_step(),
        Ok(o) => GitStep::Finish(
            Ok(GitDiffResult { diff_text: utf8_lossy_string(o.stdout.as_slice()), truncated: o.truncated }),
        ),
    }
}

pub open spec fn diff_tree_args(sha: Seq<char>) -> Seq<Seq<char>> {
    seq![
        "diff-tree"@,
        "--no-commit-id"@,
        "-r"@,
        "-z"@,
        "--name-status"@,
        "--numstat"@,
        sha,
    ]
}

/// The files a commit touched, with their line counts.
pub open spec fn commit_files_plan(
    reg: Set<Seq<char>>,
    repo_root: Seq<char>,
    sha: Seq<char>,
    replies: Seq<GitReplyV>,
) -> GitStepV<Seq<FileChangeV>> {
    match prelude(reg, repo_root, replies) {
        Err(h) => halt_step(h),
        Ok(root) => if !safe_sha(sha) {
            GitStepV::Finish(Err(GitErrorV::CommandFailed("git diff-tree"@, "invalid commit sha"@)))
        } else {
            match run_then(root, diff_tree_args(sha), "git diff-tree failed"@, after(replies, 2)) {
                Err(h) => halt_step(h),
                Ok(o) => GitStepV::Finish(Ok(commit_file_changes(o.stdout))),
            }
        },
    }
}

/// Lists the files commit `sha` touched.
pub fn commit_files(registry: &WorkspaceRegistry, repo_root: &str, sha: &str, replies: &[GitReply]) -> (r: GitStep<CommitFiles>)
    ensures
        r@ == commit_files_plan(registry@, repo_root@, sha@, replies_view(replies@)),
{
    let root = match run_prelude(registry, repo_root, replies) {
        Ok(r) => r,
        Err(h) => return h.into_step(),
    };
    if !sha_is_safe(sha) {
        return GitStep::Finish(Err(GitError::command("git diff-tree", "invalid commit sha")));
    }
    let mut args = strs(&["diff-tree", "--no-commit-id", "-r", "-z", "--name-status", "--numstat"]);
    push_arg(&mut args, String::from_str(sha));
    assert(strings_view(args@) =~= diff_tree_args(sha@));
    match run_checked(root.as_str(), args, "git diff-tree failed", replies, 2) {
        Err(h) => h.into_step(),
        Ok(o) => GitStep::Finish(Ok(CommitFiles { files: parse_commit_files(o.stdout.as_slice()) })),
    }
}

// ------------------------------------------------------------------
// commit
// ------------------------------------------------------------------

/// A commit of what is staged, with the trimmed message; an empty message is
/// refused before git runs.
pub open spec fn commit_plan(
    reg: Set<Seq<char>>,
    repo_root: Seq<char>,
    message: Seq<char>,
    replies: Seq<GitReplyV>,
) -> GitStepV<(Seq<char>, Seq<char>)> {
    match prelude(reg, repo_root, replies) {
        Err(h) => halt_step(h),
        Ok(root) => {
            let t = trim(message);
            let rs = after(replies, 2);
            if t.len() == 0 {
                GitStepV::Finish(Err(GitErrorV::EmptyCommitMessage))
            } else if rs.len() == 0 {
                GitStepV::Perform(GitEffectV::Run(root, seq!["commit"@, "-m"@, t], false))
            } else {
                match output_of(rs[0]) {
                    Err(e) => GitStepV::Finish(Err(e)),
                    Ok(o) => if o.exit_code != Some(0i32) && nothing_to_commit_in(o.stdout, o.stderr) {
                        GitStepV::Finish(Err(GitErrorV::CommandFailed("git commit"@, "nothing staged"@)))
                    } else {
                        match success_check(o.timed_out, o.exit_code, o.stderr, "git commit failed"@) {
                            Err(e) => GitStepV::Finish(Err(e)),
                            Ok(()) => if rs.len() == 1 {
                                GitStepV::Perform(
                                    GitEffectV::Lines(
                                        root,
                                        seq!["show"@, "-s"@, "--format=%H%n%s"@, "HEAD"@],
                                    ),
                                )
                            } else {
                                match lines_of(rs[1]) {
                                    Err(e) => GitStepV::Finish(Err(e)),
                                    Ok(ls) => if ls.len() == 0 {
                                        GitStepV::Finish(
                                            Err(
                                                GitErrorV::CommandFailed(
                                                    "failed to resolve commit sha"@,
                                                    Seq::empty(),
                                                ),
                                            ),
                                        )
                                    } else {
                                        GitStepV::Finish(
                                            Ok(
                                                (
                                                    ls[0],
                                                    if ls.len() > 1 {
                                                        ls[1]
                                                    } else {
                                                        Seq::empty()
                                                    },
                                                ),
                                            ),
                                        )
                                    },
                                }
                            },
                        }
                    },
                }
            }
        },
    }
}

/// Commits what is staged with `message`.
pub fn commit(registry: &WorkspaceRegistry, repo_root: &str, message: &str, replies: &[GitReply]) -> (r: GitStep<GitCommitResult>)
    ensures
        r@ == commit_plan(registry@, repo_root@, message@, replies_view(replies@)),
{
    let root = match run_prelude(registry, repo_root, replies) {
        Ok(r) => r,
        Err(h) => return h.into_step(),
    };
    let ghost rv = replies_view(replies@);
    let ghost rs = after(rv, 2);
    let t = trim_chars(chars_of(message).as_slice());
    if t.len() == 0 {
        return GitStep::Finish(Err(GitError::EmptyCommitMessage));
    }
    if replies.len() == 2 {
        let mut args = strs(&["commit", "-m"]);
        let ghost before = args@;
        args.push(string_of_all(t.as_slice()));
        assert(strings_view(args@) =~= strings_view(before).push(t@));
        assert(strings_view(args@) =~= seq!["commit"@, "-m"@, t@]);
        return GitStep::Perform(GitEffect::Run { cwd: root, args, network: false });
    }
    assert(rs[0] == replies@[2]@);
    let output = match reply_output(&replies[2]) {
        Err(e) => return GitStep::Finish(Err(e)),
        Ok(o) => o,
    };
    let exited_zero = match output.exit_code {
        Some(c) => c == 0,
        None => false,
    };
    if !exited_zero && nothing_to_commit(output) {
        return GitStep::Finish(Err(GitError::command("git commit", "nothing staged")));
    }
    match ensure_success(output, "git commit failed") {
        Err(e) => return GitStep::Finish(Err(e)),
        Ok(()) => {},
    }
    if replies.len() == 3 {
        let args = strs(&["show", "-s", "--format=%H%n%s", "HEAD"]);
        assert(strings_view(args@) =~= seq!["show"@, "-s"@, "--format=%H%n%s"@, "HEAD"@]);
        return GitStep::Perform(GitEffect::Lines { cwd: root, args });
    }
    assert(rs[1] == replies@[3]@);
    let lines = match reply_lines(&replies[3]) {
        Err(e) => return GitStep::Finish(Err(e)),
        Ok(v) => v,
    };
    if lines.len() == 0 {
        return GitStep::Finish(Err(command_failed_no_detail("failed to resolve commit sha")));
    }
    assert(strings_view(lines@)[0] == lines@[0]@);
    let summary = if lines.len() > 1 {
        assert(strings_view(lines@)[1] == lines@[1]@);
        lines[1].clone()
    } else {
        String::new()
    };
    GitStep::Finish(Ok(GitCommitResult { commit_sha: lines[0].clone(), summary }))
}

// ------------------------------------------------------------------
// log
// ------------------------------------------------------------------

/// The page size actually asked for: `limit` kept between 1 and 200.
pub open spec fn bounded_limit(limit: u32) -> u32 {
    if limit < 1 {
        1
    } else if limit > 200 {
        200
    } else {
        limit
    }
}

pub open spec fn log_format_arg() -> Seq<char> {
    "--format=%H%x1f%an%x1f%ae%x1f%at%x1f%P%x1f%s"@
}

/// The arguments of `git log` for a page of `bounded` commits, before
/// `cursor` when given.
pub open spec fn log_args(bounded: u32, cursor: Option<Seq<char>>) -> Seq<Seq<char>> {
    let base = seq![
        "log"@,
        "--no-color"@,
        "--shortstat"@,
        "--max-count="@ + decimal(bounded as nat),
        log_format_arg(),
    ];
    match cursor {
        Some(c) => base.push(c),
        None => base,
    }
}

/// A page of history: at most `bounded_limit(limit)` commits, older than
/// `before_sha` when one is given (which must then be a safe identifier);
/// a repository without commits has an empty history.
pub open spec fn log_plan(
    reg: Set<Seq<char>>,
    repo_root: Seq<char>,
    limit: u32,
    before_sha: Option<Seq<char>>,
    replies: Seq<GitReplyV>,
) -> GitStepV<Seq<LogEntryV>> {
    match prelude(reg, repo_root, replies) {
        Err(h) => halt_step(h),
        Ok(root) => {
            let bad_cursor = match before_sha {
                Some(s) => s.len() > 0 && !safe_sha(s),
                None => false,
            };
            let cursor = match before_sha {
                Some(s) => if s.len() > 0 {
                    Some(s.push('^'))
                } else {
                    None
                },
                None => None,
            };
            let rs = after(replies, 2);
            if bad_cursor {
                GitStepV::Finish(Err(GitErrorV::CommandFailed("git log"@, "invalid cursor sha"@)))
            } else if rs.len() == 0 {
                GitStepV::Perform(GitEffectV::Run(root, log_args(bounded_limit(limit), cursor), false))
            } else {
                match output_of(rs[0]) {
                    Err(e) => GitStepV::Finish(Err(e)),
                    Ok(o) => if o.timed_out {
                        GitStepV::Finish(Err(GitErrorV::TimedOut("git log"@)))
                    } else if o.exit_code != Some(0i32) {
                        if log_has_no_history(o.stderr) {
                            GitStepV::Finish(Ok(Seq::empty()))
                        } else {
                            match success_check(o.timed_out, o.exit_code, o.stderr, "git log failed"@) {
                                Err(e) => GitStepV::Finish(Err(e)),
                                Ok(()) => GitStepV::Finish(Ok(Seq::empty())),
                            }
                        }
                    } else {
                        GitStepV::Finish(Ok(log_output_entries(o.stdout)))
                    },
                }
            }
        },
    }
}

/// Lists a page of history.
pub fn log(
    registry: &WorkspaceRegistry,
    repo_root: &str,
    limit: u32,
    before_sha: Option<&str>,
    replies: &[GitReply],
) -> (r: GitStep<LogPage>)
    ensures
        r@ == log_plan(
            registry@,
            repo_root@,
            limit,
            match before_sha {
                Some(s) => Some(s@),
                None => None,
            },
            replies_view(replies@),
        ),
{
    let root = match run_prelude(registry, repo_root, replies) {
        Ok(r) => r,
        Err(h) => return h.into_step(),
    };
    let ghost rv = replies_view(replies@);
    let ghost rs = after(rv, 2);
    let bounded: u32 = if limit < 1 {
        1
    } else if limit > 200 {
        200
    } else {
        limit
    };
    let cursor: Option<Vec<char>> = match before_sha {
        Some(s) => {
            let c = chars_of(s);
            if c.len() > 0 {
                if !sha_is_safe(s) {
                    return GitStep::Finish(Err(GitError::command("git log", "invalid cursor sha")));
                }
                let mut c2 = c;
                c2.push('^');
                Some(c2)
            } else {
                None
            }
        },
        None => None,
    };
    if replies.len() == 2 {
        let mut count = chars_of("--max-count=");
        extend_chars(&mut count, decimal_chars(bounded).as_slice());
        let mut args = strs(&["log", "--no-color", "--shortstat"]);
        push_arg(&mut args, string_of_all(count.as_slice()));
        push_arg(&mut args, String::from_str("--format=%H%x1f%an%x1f%ae%x1f%at%x1f%P%x1f%s"));
        let ghost base = args@;
        assert(strings_view(base) =~= seq![
            "log"@,
            "--no-color"@,
            "--shortstat"@,
            "--max-count="@ + decimal(bounded as nat),
            log_format_arg(),
        ]);
        match cursor {
            Some(c) => {
                args.push(string_of_all(c.as_slice()));
                assert(strings_view(args@) =~= strings_view(base).push(c@));
            },
            None => {},
        }
        return GitStep::Perform(GitEffect::Run { cwd: root, args, network: false });
    }
    assert(rs[0] == replies@[2]@);
    let output = match reply_output(&replies[2]) {
        Err(e) => return GitStep::Finish(Err(e)),
        Ok(o) => o,
    };
    if output.timed_out {
        return GitStep::Finish(Err(GitError::TimedOut(String::from_str("git log"))));
    }
    let exited_zero = match output.exit_code {
        Some(c) => c == 0,
        None => false,
    };
    if !exited_zero {
        if log_stderr_means_empty(output.stderr.as_slice()) {
            return GitStep::Finish(Ok(empty_page()));
        }
        return match ensure_success(output, "git log failed") {
            Err(e) => GitStep::Finish(Err(e)),
            Ok(()) => GitStep::Finish(Ok(empty_page())),
        };
    }
    GitStep::Finish(Ok(LogPage { entries: parse_log_output(output.stdout.as_slice()) }))
}

// ------------------------------------------------------------------
// diff
// ------------------------------------------------------------------

pub open spec fn diff_base_args(staged: bool) -> Seq<Seq<char>> {
    if staged {
        seq!["diff"@, "--no-ext-diff"@, "--cached"@]
    } else {
        seq!["diff"@, "--no-ext-diff"@]
    }
}

/// `git diff` (of the index when `staged`), limited to one path when a
/// non-empty one is given; the path is first resolved inside the repository.
pub open spec fn diff_inner_plan(
    root: Seq<char>,
    path: Option<Seq<char>>,
    staged: bool,
    rs: Seq<GitReplyV>,
) -> GitStepV<(Seq<char>, bool)> {
    let limited = match path {
        Some(p) => p.len() > 0,
        None => false,
    };
    if limited {
        if rs.len() == 0 {
            GitStepV::Perform(GitEffectV::ResolveWithin(root, path->0))
        } else {
            match dir_of(rs[0]) {
                Err(e) => GitStepV::Finish(Err(e)),
                Ok(abs) => match run_then(
                    root,
                    diff_base_args(staged) + seq!["--"@, abs],
                    "git diff failed"@,
                    rs.skip(1),
                ) {
                    Err(h) => halt_step(h),
                    Ok(o) => GitStepV::Finish(Ok((utf8_lossy(o.stdout), o.truncated))),
                },
            }
        }
    } else {
        match run_then(root, diff_base_args(staged), "git diff failed"@, rs) {
            Err(h) => halt_step(h),
            Ok(o) => GitStepV::Finish(Ok((utf8_lossy(o.stdout), o.truncated))),
        }
    }
}

pub open spec fn str_opt(p: Option<&str>) -> Option<Seq<char>> {
    match p {
        Some(s) => Some(s@),
        None => None,
    }
}

fn diff_base(staged: bool) -> (r: Vec<String>)
    ensures
        strings_view(r@) == diff_base_args(staged),
{
    let mut args = strs(&["diff", "--no-ext-diff"]);
    assert(strings_view(args@) =~= seq!["diff"@, "--no-ext-diff"@]);
    if staged {
        push_arg(&mut args, String::from_str("--cached"));
        assert(strings_view(args@) =~= seq!["diff"@, "--no-ext-diff"@, "--cached"@]);
    }
    args
}

fn diff_inner(root: &str, path: Option<&str>, staged: bool, replies: &[GitReply], at: usize) -> (r: GitStep<GitDiffResult>)
    requires
        at <= replies@.len(),
    ensures
        r@ == diff_inner_plan(root@, str_opt(path), staged, replies_view(replies@).skip(at as int)),
{
    let ghost rs = replies_view(replies@).skip(at as int);
    let limited = match path {
        Some(p) => chars_of(p).len() > 0,
        None => false,
    };
    let mut args = diff_base(staged);
    let mut next = at;
    if limited {
        let p = path.unwrap();
        if replies.len() == at {
            return GitStep::Perform(
                GitEffect::ResolveWithin { root: String::from_str(root), rel: String::from_str(p) },
            );
        }
        assert(rs[0] == replies@[at as int]@);
        let abs = match reply_dir(&replies[at]) {
            Err(e) => return GitStep::Finish(Err(e)),
            Ok(a) => a,
        };
        let ghost base = strings_view(args@);
        push_arg(&mut args, String::from_str("--"));
        let ghost absv = abs@;
        push_arg(&mut args, abs);
        assert(strings_view(args@) =~= base + seq!["--"@, absv]);
        assert(rs.skip(1) =~= replies_view(replies@).skip(at + 1));
        next = at + 1;
    }
    match run_checked(root, args, "git diff failed", replies, next) {
        Err(h) => h.into_step(),
        Ok(o) => GitStep::Finish(
            Ok(GitDiffResult { diff_text: utf8_lossy_string(o.stdout.as_slice()), truncated: o.truncated }),
        ),
    }
}

/// The diff of the working tree (or of the index when `staged`), of one path
/// when a non-empty one is given.
pub open spec fn diff_plan(
    reg: Set<Seq<char>>,
    repo_root: Seq<char>,
    path: Option<Seq<char>>,
    staged: bool,
    replies: Seq<GitReplyV>,
) -> GitStepV<(Seq<char>, bool)> {
    match prelude(reg, repo_root, replies) {
        Err(h) => halt_step(h),
        Ok(root) => diff_inner_plan(root, path, staged, after(replies, 2)),
    }
}

/// Shows the changes of the working tree or of the index.
pub fn diff(
    registry: &WorkspaceRegistry,
    repo_root: &str,
    path: Option<&str>,
    staged: bool,
    replies: &[GitReply],
) -> (r: GitStep<GitDiffResult>)
    ensures
        r@ == diff_plan(registry@, repo_root@, str_opt(path), staged, replies_view(replies@)),
{
    let root = match run_prelude(registry, repo_root, replies) {
        Ok(r) => r,
        Err(h) => return h.into_step(),
    };
    diff_inner(root.as_str(), path, staged, replies, 2)
}

/// Both sides of a file's change: for a staged change, `HEAD` (at the original
/// path of a rename) against the index; otherwise the index against the
/// working tree; with the patch between them.
pub open spec fn diff_content_plan(
    reg: Set<Seq<char>>,
    repo_root: Seq<char>,
    path: Seq<char>,
    staged: bool,
    original_path: Option<Seq<char>>,
    replies: Seq<GitReplyV>,
) -> GitStepV<(Seq<char>, Seq<char>, bool, Seq<char>, bool)> {
    match prelude(reg, repo_root, replies) {
        Err(h) => halt_step(h),
        Ok(root) => {
            let rs = after(replies, 2);
            let has_orig = match original_path {
                Some(o) => o.len() > 0,
                None => false,
            };
            if rs.len() == 0 {
                GitStepV::Perform(GitEffectV::ResolveWithin(root, path))
            } else {
                match dir_of(rs[0]) {
                    Err(e) => GitStepV::Finish(Err(e)),
                    Ok(wt) => {
                        let rel = pathspec_of(root, wt);
                        if has_orig && rs.len() == 1 {
                            GitStepV::Perform(GitEffectV::ResolveWithin(root, original_path->0))
                        } else if has_orig && dir_of(rs[1]) is Err {
                            GitStepV::Finish(Err(dir_of(rs[1])->Err_0))
                        } else {
                            let orel = if has_orig {
                                Some(pathspec_of(root, dir_of(rs[1])->Ok_0))
                            } else {
                                None
                            };
                            let k: int = if has_orig {
                                2
                            } else {
                                1
                            };
                            let original_spec = if staged {
                                "HEAD:"@ + match orel {
                                    Some(o) => o,
                                    None => rel,
                                }
                            } else {
                                ":"@ + rel
                            };
                            if rs.len() == k {
                                GitStepV::Perform(GitEffectV::Show(root, original_spec))
                            } else {
                                match text_reply_of(rs[k]) {
                                    Err(e) => GitStepV::Finish(Err(e)),
                                    Ok(ot) => if rs.len() == k + 1 {
                                        GitStepV::Perform(
                                            if staged {
                                                GitEffectV::Show(root, ":"@ + rel)
                                            } else {
                                                GitEffectV::ReadFile(wt)
                                            },
                                        )
                                    } else {
                                        match text_reply_of(rs[k + 1]) {
                                            Err(e) => GitStepV::Finish(Err(e)),
                                            Ok(mt) => match diff_inner_plan(
                                                root,
                                                Some(rel),
                                                staged,
                                                rs.skip(k + 2),
                                            ) {
                                                GitStepV::Perform(e) => GitStepV::Perform(e),
                                                GitStepV::Finish(Err(e)) => GitStepV::Finish(Err(e)),
                                                GitStepV::Finish(Ok(patch)) => GitStepV::Finish(
                                                    Ok(
                                                        (
                                                            text_of(ot),
                                                            text_of(mt),
                                                            ot is Binary || mt is Binary,
                                                            patch.0,
                                                            patch.1,
                                                        ),
                                                    ),
                                                ),
                                            },
                                        }
                                    },
                                }
                            }
                        }
                    },
                }
            }
        },
    }
}

fn prefixed(prefix: &str, rest: &String) -> (r: String)
    ensures
        r@ == prefix@ + rest@,
{
    let mut v = chars_of(prefix);
    extend_chars(&mut v, chars_of(rest.as_str()).as_slice());
    string_of_all(v.as_slice())
}

/// Shows both sides of a file's change.
pub fn diff_content(
    registry: &WorkspaceRegistry,
    repo_root: &str,
    path: &str,
    staged: bool,
    original_path: Option<&str>,
    replies: &[GitReply],
) -> (r: GitStep<GitDiffContentResult>)
    ensures
        r@ == diff_content_plan(
            registry@,
            repo_root@,
            path@,
            staged,
            str_opt(original_path),
            replies_view(replies@),
        ),
{
    let root = match run_prelude(registry, repo_root, replies) {
        Ok(r) => r,
        Err(h) => return h.into_step(),
    };
    let ghost rv = replies_view(replies@);
    let ghost rs = after(rv, 2);
    let has_orig = match original_path {
        Some(o) => chars_of(o).len() > 0,
        None => false,
    };
    if replies.len() == 2 {
        return GitStep::Perform(GitEffect::ResolveWithin { root, rel: String::from_str(path) });
    }
    assert(rs[0] == replies@[2]@);
    let wt = match reply_dir(&replies[2]) {
        Err(e) => return GitStep::Finish(Err(e)),
        Ok(w) => w,
    };
    let rel = pathspec(root.as_str(), wt.as_str());
    let mut orel: Option<String> = None;
    let mut k: usize = 3;
    if has_orig {
        if replies.len() == 3 {
            return GitStep::Perform(
                GitEffect::ResolveWithin { root, rel: String::from_str(original_path.unwrap()) },
            );
        }
        assert(rs[1] == replies@[3]@);
        let ro = match reply_dir(&replies[3]) {
            Err(e) => return GitStep::Finish(Err(e)),
            Ok(o) => o,
        };
        orel = Some(pathspec(root.as_str(), ro.as_str()));
        k = 4;
    }
    let original_spec = if staged {
        match &orel {
            Some(o) => prefixed("HEAD:", o),
            None => prefixed("HEAD:", &rel),
        }
    } else {
        prefixed(":", &rel)
    };
    if replies.len() == k {
        return GitStep::Perform(GitEffect::Show { cwd: root, spec: original_spec });
    }
    assert(rs[k - 2] == replies@[k as int]@);
    let ot = match reply_text(&replies[k]) {
        Err(e) => return GitStep::Finish(Err(e)),
        Ok(t) => t,
    };
    if replies.len() == k + 1 {
        let effect = if staged {
            GitEffect::Show { cwd: root, spec: prefixed(":", &rel) }
        } else {
            GitEffect::ReadFile { path: wt }
        };
        return GitStep::Perform(effect);
    }
    assert(rs[k - 1] == replies@[k + 1]@);
    let mt = match reply_text(&replies[k + 1]) {
        Err(e) => return GitStep::Finish(Err(e)),
        Ok(t) => t,
    };
    assert(rs.skip(k - 2 + 2) =~= rv.skip(k + 2));
    match diff_inner(root.as_str(), Some(rel.as_str()), staged, replies, k + 2) {
        GitStep::Perform(e) => GitStep::Perform(e),
        GitStep::Finish(Err(e)) => GitStep::Finish(Err(e)),
        GitStep::Finish(Ok(patch)) => GitStep::Finish(
            Ok(
                GitDiffContentResult {
                    original_content: ot.into_text(),
                    modified_content: mt.into_text(),
                    is_binary: ot.is_binary() || mt.is_binary(),
                    fallback_patch: patch.diff_text,
                    truncated: patch.truncated,
                },
            ),
        ),
    }
}

// ------------------------------------------------------------------
// stage, unstage, discard
// ------------------------------------------------------------------

/// Resolves each path inside the repository, in order; the first failure
/// stops the operation.
pub open spec fn resolve_all(root: Seq<char>, paths: Seq<Seq<char>>, rs: Seq<GitReplyV>) -> Result<Seq<Seq<char>>, Halt>
    decreases paths.len(),
{
    if paths.len() == 0 {
        Ok(Seq::empty())
    } else {
        match resolve_all(root, paths.drop_last(), rs) {
            Err(h) => Err(h),
            Ok(done) => {
                let k = paths.len() - 1;
                if rs.len() <= k {
                    Err(Halt::Ask(GitEffectV::ResolveWithin(root, paths.last())))
                } else {
                    match dir_of(rs[k]) {
                        Err(e) => Err(Halt::Fail(e)),
                        Ok(p) => Ok(done.push(p)),
                    }
                }
            },
        }
    }
}

proof fn lemma_resolve_all_len(root: Seq<char>, paths: Seq<Seq<char>>, rs: Seq<GitReplyV>)
    ensures
        resolve_all(root, paths, rs) matches Ok(r) ==> r.len() == paths.len() && paths.len() <= rs.len(),
    decreases paths.len(),
{
    if paths.len() > 0 {
        lemma_resolve_all_len(root, paths.drop_last(), rs);
    }
}

fn resolve_paths(root: &str, paths: &Vec<String>, replies: &[GitReply], at: usize) -> (r: Result<Vec<String>, Interrupt>)
    requires
        at <= replies@.len(),
    ensures
        match r {
            Ok(v) => resolve_all(root@, strings_view(paths@), replies_view(replies@).skip(at as int))
                == Ok::<Seq<Seq<char>>, Halt>(strings_view(v@)),
            Err(h) => resolve_all(root@, strings_view(paths@), replies_view(replies@).skip(at as int))
                == Err::<Seq<Seq<char>>, Halt>(h@),
        },
{
    let ghost rs = replies_view(replies@).skip(at as int);
    let ghost pv = strings_view(paths@);
    let mut out: Vec<String> = Vec::new();
    let mut i: usize = 0;
    assert(pv.take(0) =~= Seq::<Seq<char>>::empty());
    assert(strings_view(out@) =~= Seq::<Seq<char>>::empty());
    while i < paths.len()
        invariant
            i <= paths@.len(),
            at <= replies@.len(),
            rs == replies_view(replies@).skip(at as int),
            pv == strings_view(paths@),
            resolve_all(root@, pv.take(i as int), rs) == Ok::<Seq<Seq<char>>, Halt>(strings_view(out@)),
        decreases paths.len() - i,
    {
        assert(pv.take(i + 1).drop_last() =~= pv.take(i as int));
        assert(pv.take(i + 1).last() == paths@[i as int]@);
        if replies.len() - at <= i {
            proof {
                lemma_resolve_all_len(root@, pv, rs);
                assert(resolve_all(root@, pv.take(i + 1), rs) is Err);
                lemma_resolve_all_prefix_err(root@, pv, rs, i + 1);
            }
            return Err(
                Interrupt::Ask(
                    GitEffect::ResolveWithin { root: String::from_str(root), rel: paths[i].clone() },
                ),
            );
        }
        assert(rs[i as int] == replies@[at + i]@);
        match reply_dir(&replies[at + i]) {
            Err(e) => {
                proof {
                    lemma_resolve_all_prefix_err(root@, pv, rs, i + 1);
                }
                return Err(Interrupt::Fail(e));
            },
            Ok(p) => {
                push_arg(&mut out, p);
            },
        }
        i = i + 1;
    }
    assert(pv.take(paths@.len() as int) =~= pv);
    Ok(out)
}

proof fn lemma_resolve_all_prefix_err(root: Seq<char>, paths: Seq<Seq<char>>, rs: Seq<GitReplyV>, k: int)
    requires
        0 <= k <= paths.len(),
        resolve_all(root, paths.take(k), rs) is Err,
    ensures
        resolve_all(root, paths, rs) == resolve_all(root, paths.take(k), rs),
    decreases paths.len() - k,
{
    if k < paths.len() {
        assert(paths.take(k + 1).drop_last() =~= paths.take(k));
        lemma_resolve_all_prefix_err(root, paths, rs, k + 1);
    } else {
        assert(paths.take(k) =~= paths);
    }
}

fn concat_args(mut a: Vec<String>, b: &Vec<String>) -> (r: Vec<String>)
    ensures
        strings_view(r@) == strings_view(a@) + strings_view(b@),
{
    let ghost start = strings_view(a@);
    let mut i: usize = 0;
    while i < b.len()
        invariant
            i <= b@.len(),
            strings_view(a@) =~= start + strings_view(b@).take(i as int),
        decreases b.len() - i,
    {
        push_arg(&mut a, b[i].clone());
        i = i + 1;
    }
    assert(strings_view(b@).take(b@.len() as int) =~= strings_view(b@));
    a
}

/// `git add` of the given paths, each resolved inside the repository first;
/// nothing is run for an empty list.
pub open spec fn stage_plan(
    reg: Set<Seq<char>>,
    repo_root: Seq<char>,
    paths: Seq<Seq<char>>,
    replies: Seq<GitReplyV>,
) -> GitStepV<()> {
    match prelude(reg, repo_root, replies) {
        Err(h) => halt_step(h),
        Ok(root) => {
            let rs = after(replies, 2);
            if paths.len() == 0 {
                GitStepV::Finish(Ok(()))
            } else {
                match resolve_all(root, paths, rs) {
                    Err(h) => halt_step(h),
                    Ok(res) => match run_then(
                        root,
                        seq!["add"@, "--"@] + res,
                        "git add failed"@,
                        rs.skip(paths.len() as int),
                    ) {
                        Err(h) => halt_step(h),
                        Ok(_) => GitStepV::Finish(Ok(())),
                    },
                }
            }
        },
    }
}

/// Stages the given paths.
pub fn stage(registry: &WorkspaceRegistry, repo_root: &str, paths: &Vec<String>, replies: &[GitReply]) -> (r: GitStep<Done>)
    ensures
        r@ == stage_plan(registry@, repo_root@, strings_view(paths@), replies_view(replies@)),
{
    let root = match run_prelude(registry, repo_root, replies) {
        Ok(r) => r,
        Err(h) => return h.into_step(),
    };
    let ghost rs = after(replies_view(replies@), 2);
    if paths.len() == 0 {
        return GitStep::Finish(Ok(Done));
    }
    let resolved = match resolve_paths(root.as_str(), paths, replies, 2) {
        Err(h) => return h.into_step(),
        Ok(v) => v,
    };
    proof {
        lemma_resolve_all_len(root@, strings_view(paths@), rs);
    }
    let rl = replies.len();
    assert(2 + paths@.len() <= rl);
    let args = concat_args(strs(&["add", "--"]), &resolved);
    assert(strings_view(args@) =~= seq!["add"@, "--"@] + strings_view(resolved@));
    assert(rs.skip(paths@.len() as int) =~= replies_view(replies@).skip(2 + paths@.len() as int));
    match run_checked(root.as_str(), args, "git add failed", replies, 2 + paths.len()) {
        Err(h) => h.into_step(),
        Ok(_) => GitStep::Finish(Ok(Done)),
    }
}

pub open spec fn unstage_args(has_head: bool) -> Seq<Seq<char>> {
    if has_head {
        seq!["reset"@, "HEAD"@, "--"@]
    } else {
        seq!["rm"@, "--cached"@, "-r"@, "--"@]
    }
}

/// Unstages the given paths: `git reset HEAD` when the repository has a
/// commit, `git rm --cached -r` when it has none yet.
pub open spec fn unstage_plan(
    reg: Set<Seq<char>>,
    repo_root: Seq<char>,
    paths: Seq<Seq<char>>,
    replies: Seq<GitReplyV>,
) -> GitStepV<()> {
    match prelude(reg, repo_root, replies) {
        Err(h) => halt_step(h),
        Ok(root) => {
            let rs = after(replies, 2);
            if paths.len() == 0 {
                GitStepV::Finish(Ok(()))
            } else {
                match resolve_all(root, paths, rs) {
                    Err(h) => halt_step(h),
                    Ok(res) => {
                        let rs2 = rs.skip(paths.len() as int);
                        if rs2.len() == 0 {
                            GitStepV::Perform(
                                GitEffectV::LineOpt(root, seq!["rev-parse"@, "--verify"@, "HEAD"@]),
                            )
                        } else {
                            match line_of(rs2[0]) {
                                Err(e) => GitStepV::Finish(Err(e)),
                                Ok(h) => {
                                    let has_head = h is Some;
                                    match run_then(
                                        root,
                                        unstage_args(has_head) + res,
                                        if has_head {
                                            "git reset failed"@
                                        } else {
                                            "git rm --cached failed"@
                                        },
                                        rs2.skip(1),
                                    ) {
                                        Err(h) => halt_step(h),
                                        Ok(_) => GitStepV::Finish(Ok(())),
                                    }
                                },
                            }
                        }
                    },
                }
            }
        },
    }
}

/// Unstages the given paths.
pub fn unstage(registry: &WorkspaceRegistry, repo_root: &str, paths: &Vec<String>, replies: &[GitReply]) -> (r: GitStep<Done>)
    ensures
        r@ == unstage_plan(registry@, repo_root@, strings_view(paths@), replies_view(replies@)),
{
    let root = match run_prelude(registry, repo_root, replies) {
        Ok(r) => r,
        Err(h) => return h.into_step(),
    };
    let ghost rv = replies_view(replies@);
    let ghost rs = after(rv, 2);
    if paths.len() == 0 {
        return GitStep::Finish(Ok(Done));
    }
    let resolved = match resolve_paths(root.as_str(), paths, replies, 2) {
        Err(h) => return h.into_step(),
        Ok(v) => v,
    };
    proof {
        lemma_resolve_all_len(root@, strings_view(paths@), rs);
    }
    let rl = replies.len();
    assert(2 + paths@.len() <= rl);
    let n: usize = 2 + paths.len();
    let ghost rs2 = rs.skip(paths@.len() as int);
    assert(rs2 =~= rv.skip(n as int));
    if replies.len() == n {
        let args = strs(&["rev-parse", "--verify", "HEAD"]);
        assert(strings_view(args@) =~= seq!["rev-parse"@, "--verify"@, "HEAD"@]);
        return GitStep::Perform(GitEffect::LineOpt { cwd: root, args });
    }
    assert(rs2[0] == replies@[n as int]@);
    let has_head = match reply_line(&replies[n]) {
        Err(e) => return GitStep::Finish(Err(e)),
        Ok(h) => h.is_some(),
    };
    let base = if has_head {
        let b = strs(&["reset", "HEAD", "--"]);
        assert(strings_view(b@) =~= unstage_args(true));
        b
    } else {
        let b = strs(&["rm", "--cached", "-r", "--"]);
        assert(strings_view(b@) =~= unstage_args(false));
        b
    };
    let args = concat_args(base, &resolved);
    let context = if has_head {
        "git reset failed"
    } else {
        "git rm --cached failed"
    };
    assert(rs2.skip(1) =~= rv.skip(n + 1));
    match run_checked(root.as_str(), args, context, replies, n + 1) {
        Err(h) => h.into_step(),
        Ok(_) => GitStep::Finish(Ok(Done)),
    }
}

/// The items whose flag equals `want`, in order.
pub open spec fn select(items: Seq<Seq<char>>, flags: Seq<bool>, want: bool) -> Seq<Seq<char>>
    decreases items.len(),
{
    if items.len() == 0 {
        Seq::empty()
    } else {
        let prev = select(items.drop_last(), flags, want);
        if flags[items.len() - 1] == want {
            prev.push(items.last())
        } else {
            prev
        }
    }
}

pub open spec fn entry_paths(entries: Seq<DiscardEntry>) -> Seq<Seq<char>> {
    Seq::new(entries.len(), |i: int| entries[i].path@)
}

pub open spec fn entry_flags(entries: Seq<DiscardEntry>) -> Seq<bool> {
    Seq::new(entries.len(), |i: int| entries[i].untracked)
}

/// Discards the changes of the given files: tracked ones are restored from
/// the index (`git restore --worktree`), untracked ones removed
/// (`git clean -f -d`); each path is resolved inside the repository first.
pub open spec fn discard_plan(
    reg: Set<Seq<char>>,
    repo_root: Seq<char>,
    paths: Seq<Seq<char>>,
    untracked: Seq<bool>,
    replies: Seq<GitReplyV>,
) -> GitStepV<()> {
    match prelude(reg, repo_root, replies) {
        Err(h) => halt_step(h),
        Ok(root) => {
            let rs = after(replies, 2);
            if paths.len() == 0 {
                GitStepV::Finish(Ok(()))
            } else {
                match resolve_all(root, paths, rs) {
                    Err(h) => halt_step(h),
                    Ok(res) => {
                        let kept = select(res, untracked, false);
                        let fresh = select(res, untracked, true);
                        let rs2 = rs.skip(paths.len() as int);
                        let first = if kept.len() > 0 {
                            match run_then(
                                root,
                                seq!["restore"@, "--worktree"@, "--"@] + kept,
                                "git restore failed"@,
                                rs2,
                            ) {
                                Err(h) => Err(h),
                                Ok(_) => Ok(1int),
                            }
                        } else {
                            Ok(0int)
                        };
                        match first {
                            Err(h) => halt_step(h),
                            Ok(used) => if fresh.len() > 0 {
                                match run_then(
                                    root,
                                    seq!["clean"@, "-f"@, "-d"@, "--"@] + fresh,
                                    "git clean failed"@,
                                    rs2.skip(used),
                                ) {
                                    Err(h) => halt_step(h),
                                    Ok(_) => GitStepV::Finish(Ok(())),
                                }
                            } else {
                                GitStepV::Finish(Ok(()))
                            },
                        }
                    },
                }
            }
        },
    }
}

/// Discards the changes of the given files.
pub fn discard(registry: &WorkspaceRegistry, repo_root: &str, entries: &Vec<DiscardEntry>, replies: &[GitReply]) -> (r: GitStep<Done>)
    ensures
        r@ == discard_plan(
            registry@,
            repo_root@,
            entry_paths(entries@),
            entry_flags(entries@),
            replies_view(replies@),
        ),
{
    let root = match run_prelude(registry, repo_root, replies) {
        Ok(r) => r,
        Err(h) => return h.into_step(),
    };
    let ghost rv = replies_view(replies@);
    let ghost rs = after(rv, 2);
    if entries.len() == 0 {
        return GitStep::Finish(Ok(Done));
    }
    let mut paths: Vec<String> = Vec::new();
    let mut i: usize = 0;
    while i < entries.len()
        invariant
            i <= entries@.len(),
            strings_view(paths@) =~= entry_paths(entries@).take(i as int),
        decreases entries.len() - i,
    {
        push_arg(&mut paths, entries[i].path.clone());
        i = i + 1;
    }
    assert(strings_view(paths@) =~= entry_paths(entries@));
    let resolved = match resolve_paths(root.as_str(), &paths, replies, 2) {
        Err(h) => return h.into_step(),
        Ok(v) => v,
    };
    proof {
        lemma_resolve_all_len(root@, strings_view(paths@), rs);
    }
    let ghost res = strings_view(resolved@);
    let ghost flags = entry_flags(entries@);
    let mut kept: Vec<String> = Vec::new();
    let mut fresh: Vec<String> = Vec::new();
    let mut j: usize = 0;
    while j < resolved.len()
        invariant
            j <= resolved@.len(),
            resolved@.len() == entries@.len(),
            res == strings_view(resolved@),
            flags == entry_flags(entries@),
            strings_view(kept@) == select(res.take(j as int), flags, false),
            strings_view(fresh@) == select(res.take(j as int), flags, true),
        decreases resolved.len() - j,
    {
        assert(res.take(j + 1).drop_last() =~= res.take(j as int));
        assert(res.take(j + 1).last() == resolved@[j as int]@);
        if entries[j].untracked {
            push_arg(&mut fresh, resolved[j].clone());
        } else {
            push_arg(&mut kept, resolved[j].clone());
        }
        j = j + 1;
    }
    assert(res.take(resolved@.len() as int) =~= res);
    let rl = replies.len();
    assert(2 + entries@.len() <= rl);
    let n: usize = 2 + entries.len();
    let ghost rs2 = rs.skip(entries@.len() as int);
    assert(rs2 =~= rv.skip(n as int));
    let mut next = n;
    if kept.len() > 0 {
        let args = concat_args(strs(&["restore", "--worktree", "--"]), &kept);
        assert(strings_view(args@) =~= seq!["restore"@, "--worktree"@, "--"@] + strings_view(
            kept@,
        ));
        match run_checked(root.as_str(), args, "git restore failed", replies, n) {
            Err(h) => return h.into_step(),
            Ok(_) => {},
        }
        next = n + 1;
        assert(rs2.skip(1) =~= rv.skip(n + 1));
    } else {
        assert(rs2.skip(0) =~= rs2);
    }
    if fresh.len() > 0 {
        let args = concat_args(strs(&["clean", "-f", "-d", "--"]), &fresh);
        assert(strings_view(args@) =~= seq!["clean"@, "-f"@, "-d"@, "--"@] + strings_view(fresh@));
        match run_checked(root.as_str(), args, "git clean failed", replies, next) {
            Err(h) => return h.into_step(),
            Ok(_) => {},
        }
    }
    GitStep::Finish(Ok(Done))
}

// ------------------------------------------------------------------
// commit_file_diff
// ------------------------------------------------------------------

/// The repository-relative spelling of a resolved path: relative to the root
/// when below it, else the path as it was given; with `/` separators.
pub open spec fn commit_rel(root: Seq<char>, resolved: Seq<char>, given: Seq<char>) -> Seq<char> {
    match strip_path_prefix(resolved, root) {
        Some(r) => crate::text::replace_char(r, '\\', '/'),
        None => crate::text::replace_char(given, '\\', '/'),
    }
}

fn commit_rel_of(root: &str, resolved: &str, given: &str) -> (r: String)
    ensures
        r@ == commit_rel(root@, resolved@, given@),
{
    let rc = chars_of(root);
    let pc = chars_of(resolved);
    if crate::workspace::path_starts_with(pc.as_slice(), rc.as_slice()) {
        pathspec(root, resolved)
    } else {
        crate::git::utils::normalize_git_path(given)
    }
}

pub open spec fn commit_patch_args(sha: Seq<char>, rel: Seq<char>, orel: Seq<char>) -> Seq<Seq<char>> {
    let base = seq![
        "show"@,
        "--no-color"@,
        "--no-ext-diff"@,
        "--format="@,
        "-m"@,
        "--first-parent"@,
        sha,
        "--"@,
        rel,
    ];
    if orel != rel {
        base.push(orel)
    } else {
        base
    }
}

/// Both sides of a file in a commit: the file in the commit's first parent
/// (at its original path when renamed; missing for a root commit) against
/// the file in the commit, with the commit's patch for it.
pub open spec fn commit_file_diff_plan(
    reg: Set<Seq<char>>,
    repo_root: Seq<char>,
    sha: Seq<char>,
    path: Seq<char>,
    original_path: Option<Seq<char>>,
    replies: Seq<GitReplyV>,
) -> GitStepV<(Seq<char>, Seq<char>, bool, Seq<char>, bool)> {
    match prelude(reg, repo_root, replies) {
        Err(h) => halt_step(h),
        Ok(root) => {
            let rs = after(replies, 2);
            let has_orig = match original_path {
                Some(o) => o.len() > 0,
                None => false,
            };
            if !safe_sha(sha) {
                GitStepV::Finish(Err(GitErrorV::CommandFailed("git show"@, "invalid commit sha"@)))
            } else if rs.len() == 0 {
                GitStepV::Perform(GitEffectV::ResolveWithin(root, path))
            } else if dir_of(rs[0]) is Err {
                GitStepV::Finish(Err(dir_of(rs[0])->Err_0))
            } else if has_orig && rs.len() == 1 {
                GitStepV::Perform(GitEffectV::ResolveWithin(root, original_path->0))
            } else if has_orig && dir_of(rs[1]) is Err {
                GitStepV::Finish(Err(dir_of(rs[1])->Err_0))
            } else {
                let rel = commit_rel(root, dir_of(rs[0])->Ok_0, path);
                let orel = if has_orig {
                    commit_rel(root, dir_of(rs[1])->Ok_0, original_path->0)
                } else {
                    rel
                };
                let k: int = if has_orig {
                    2
                } else {
                    1
                };
                if rs.len() == k {
                    GitStepV::Perform(GitEffectV::LineOpt(root, seq!["rev-parse"@, sha.push('^')]))
                } else {
                    match line_of(rs[k]) {
                        Err(e) => GitStepV::Finish(Err(e)),
                        Ok(parent) => {
                            let k2: int = if parent is Some {
                                k + 2
                            } else {
                                k + 1
                            };
                            if parent is Some && rs.len() == k + 1 {
                                GitStepV::Perform(
                                    GitEffectV::Show(root, parent->0 + seq![':'] + orel),
                                )
                            } else if parent is Some && text_reply_of(rs[k + 1]) is Err {
                                GitStepV::Finish(Err(text_reply_of(rs[k + 1])->Err_0))
                            } else {
                                let ot = if parent is Some {
                                    text_reply_of(rs[k + 1])->Ok_0
                                } else {
                                    TextSourceV::Missing
                                };
                                if rs.len() == k2 {
                                    GitStepV::Perform(GitEffectV::Show(root, sha + seq![':'] + rel))
                                } else {
                                    match text_reply_of(rs[k2]) {
                                        Err(e) => GitStepV::Finish(Err(e)),
                                        Ok(mt) => match run_then(
                                            root,
                                            commit_patch_args(sha, rel, orel),
                                            "git show <commit> -- <path> failed"@,
                                            rs.skip(k2 + 1),
                                        ) {
                                            Err(h) => halt_step(h),
                                            Ok(o) => GitStepV::Finish(
                                                Ok(
                                                    (
                                                        text_of(ot),
                                                        text_of(mt),
                                                        ot is Binary || mt is Binary,
                                                        utf8_lossy(o.stdout),
                                                        o.truncated,
                                                    ),
                                                ),
                                            ),
                                        },
                                    }
                                }
                            }
                        },
                    }
                }
            }
        },
    }
}

fn joined_spec(a: &str, b: &String) -> (r: String)
    ensures
        r@ == a@ + seq![':'] + b@,
{
    let mut v = chars_of(a);
    v.push(':');
    extend_chars(&mut v, chars_of(b.as_str()).as_slice());
    string_of_all(v.as_slice())
}

/// Shows both sides of a file in commit `sha`.
pub fn commit_file_diff(
    registry: &WorkspaceRegistry,
    repo_root: &str,
    sha: &str,
    path: &str,
    original_path: Option<&str>,
    replies: &[GitReply],
) -> (r: GitStep<GitDiffContentResult>)
    ensures
        r@ == commit_file_diff_plan(
            registry@,
            repo_root@,
            sha@,
            path@,
            str_opt(original_path),
            replies_view(replies@),
        ),
{
    let root = match run_prelude(registry, repo_root, replies) {
        Ok(r) => r,
        Err(h) => return h.into_step(),
    };
    let ghost rv = replies_view(replies@);
    let ghost rs = after(rv, 2);
    if !sha_is_safe(sha) {
        return GitStep::Finish(Err(GitError::command("git show", "invalid commit sha")));
    }
    let has_orig = match original_path {
        Some(o) => chars_of(o).len() > 0,
        None => false,
    };
    if replies.len() == 2 {
        return GitStep::Perform(GitEffect::ResolveWithin { root, rel: String::from_str(path) });
    }
    assert(rs[0] == replies@[2]@);
    let resolved = match reply_dir(&replies[2]) {
        Err(e) => return GitStep::Finish(Err(e)),
        Ok(p) => p,
    };
    let mut k: usize = 3;
    let mut orig_resolved: Option<String> = None;
    if has_orig {
        if replies.len() == 3 {
            return GitStep::Perform(
                GitEffect::ResolveWithin { root, rel: String::from_str(original_path.unwrap()) },
            );
        }
        assert(rs[1] == replies@[3]@);
        match reply_dir(&replies[3]) {
            Err(e) => return GitStep::Finish(Err(e)),
            Ok(p) => {
                orig_resolved = Some(p);
            },
        }
        k = 4;
    }
    let rel = commit_rel_of(root.as_str(), resolved.as_str(), path);
    let orel = match &orig_resolved {
        Some(p) => commit_rel_of(root.as_str(), p.as_str(), original_path.unwrap()),
        None => rel.clone(),
    };
    if replies.len() == k {
        let mut c = chars_of(sha);
        c.push('^');
        let mut args = strs(&["rev-parse"]);
        push_arg(&mut args, string_of_all(c.as_slice()));
        assert(strings_view(args@) =~= seq!["rev-parse"@, sha@.push('^')]);
        return GitStep::Perform(GitEffect::LineOpt { cwd: root, args });
    }
    assert(rs[k - 2] == replies@[k as int]@);
    let parent = match reply_line(&replies[k]) {
        Err(e) => return GitStep::Finish(Err(e)),
        Ok(p) => p,
    };
    let mut k2 = k + 1;
    let ot: TextSource = match &parent {
        Some(p) => {
            if replies.len() == k + 1 {
                return GitStep::Perform(
                    GitEffect::Show { cwd: root, spec: joined_spec(p.as_str(), &orel) },
                );
            }
            assert(rs[k - 1] == replies@[k + 1]@);
            k2 = k + 2;
            match reply_text(&replies[k + 1]) {
                Err(e) => return GitStep::Finish(Err(e)),
                Ok(t) => t.duplicate(),
            }
        },
        None => TextSource::Missing,
    };
    if replies.len() == k2 {
        return GitStep::Perform(GitEffect::Show { cwd: root, spec: joined_spec(sha, &rel) });
    }
    assert(rs[k2 - 2] == replies@[k2 as int]@);
    let mt = match reply_text(&replies[k2]) {
        Err(e) => return GitStep::Finish(Err(e)),
        Ok(t) => t,
    };
    let mut args = strs(
        &["show", "--no-color", "--no-ext-diff", "--format=", "-m", "--first-parent"],
    );
    push_arg(&mut args, String::from_str(sha));
    push_arg(&mut args, String::from_str("--"));
    push_arg(&mut args, rel.clone());
    let ghost base = strings_view(args@);
    if !(orel == rel) {
        push_arg(&mut args, orel.clone());
    }
    assert(strings_view(args@) =~= commit_patch_args(sha@, rel@, orel@));
    assert(rs.skip(k2 - 2 + 1) =~= rv.skip(k2 + 1));
    match run_checked(root.as_str(), args, "git show <commit> -- <path> failed", replies, k2 + 1) {
        Err(h) => h.into_step(),
        Ok(o) => GitStep::Finish(
            Ok(
                GitDiffContentResult {
                    original_content: ot.into_text(),
                    modified_content: mt.into_text(),
                    is_binary: ot.is_binary() || mt.is_binary(),
                    fallback_patch: utf8_lossy_string(o.stdout.as_slice()),
                    truncated: o.truncated,
                },
            ),
        ),
    }
}

} // verus!
