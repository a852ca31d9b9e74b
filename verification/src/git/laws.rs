//! Properties shared by every git operation: what happens outside the
//! authorized workspaces, where git runs, and which inputs never reach git.
use vstd::prelude::*;

use crate::git::operations::{
    commit_rel, after, bounded_limit, commit_file_diff_plan, commit_files_plan, commit_plan, diff_content_plan,
    diff_inner_plan, diff_plan, dir_of, discard_plan, log_plan, network_plan, prelude, push_plan,
    remote_url_plan, resolve_all, resolve_repo_plan, run_then, show_commit_diff_plan, stage_plan,
    unstage_plan, Halt, line_of,
};
use crate::git::parse::{
    is_stat_line, log_entries, log_header, shortstat, with_stats, first_with_path, name_status_entries, numstat_apply, numstat_update, safe_sha, status_label,
    valid_remote_name,
};
use crate::git::types::{TextSourceV, LogEntryV, FileChangeV, GitEffectV, GitErrorV, GitReplyV, GitStepV};
use crate::git::utils::{authorized, pathspec_of};
use crate::text::{contains_seq, nth_piece, parse_u32, splitn, trim, trim_end_char};

verus! {

/// The directory a git command, a `git show` or a path resolution runs in,
/// for the effects that have one.
pub open spec fn effect_dir(e: GitEffectV) -> Option<Seq<char>> {
    match e {
        GitEffectV::LineOpt(c, _) => Some(c),
        GitEffectV::Lines(c, _) => Some(c),
        GitEffectV::Run(c, _, _) => Some(c),
        GitEffectV::Show(c, _) => Some(c),
        GitEffectV::ResolveWithin(c, _) => Some(c),
        _ => None,
    }
}

/// Whether a step, if it asks for work in a directory, asks for it in the
/// canonical directory that the first reply gave, and that directory is
/// authorized.
pub open spec fn confined<T>(reg: Set<Seq<char>>, replies: Seq<GitReplyV>, step: GitStepV<T>) -> bool {
    match step {
        GitStepV::Perform(e) => match effect_dir(e) {
            Some(c) => replies.len() >= 2 && dir_of(replies[0]) == Ok::<Seq<char>, GitErrorV>(c)
                && authorized(reg, c),
            None => true,
        },
        GitStepV::Finish(_) => true,
    }
}

/// Whether a step asks for no work in a directory (only the checks every
/// operation starts with, or nothing).
pub open spec fn no_git<T>(step: GitStepV<T>) -> bool {
    match step {
        GitStepV::Perform(e) => effect_dir(e) is None,
        GitStepV::Finish(_) => true,
    }
}

proof fn lemma_prelude_root(reg: Set<Seq<char>>, dir: Seq<char>, replies: Seq<GitReplyV>)
    ensures
        prelude(reg, dir, replies) matches Ok(root) ==> replies.len() >= 2 && dir_of(replies[0])
            == Ok::<Seq<char>, GitErrorV>(root) && authorized(reg, root),
        prelude(reg, dir, replies) matches Err(Halt::Ask(e)) ==> effect_dir(e) is None,
{
}

proof fn lemma_run_then_dir(root: Seq<char>, args: Seq<Seq<char>>, context: Seq<char>, rs: Seq<GitReplyV>)
    ensures
        run_then(root, args, context, rs) matches Err(Halt::Ask(e)) ==> effect_dir(e) == Some(root),
{
}

proof fn lemma_resolve_all_dir(root: Seq<char>, paths: Seq<Seq<char>>, rs: Seq<GitReplyV>)
    ensures
        resolve_all(root, paths, rs) matches Err(Halt::Ask(e)) ==> effect_dir(e) == Some(root),
    decreases paths.len(),
{
    if paths.len() > 0 {
        lemma_resolve_all_dir(root, paths.drop_last(), rs);
    }
}

proof fn lemma_diff_inner_dir(root: Seq<char>, path: Option<Seq<char>>, staged: bool, rs: Seq<GitReplyV>)
    ensures
        diff_inner_plan(root, path, staged, rs) matches GitStepV::Perform(e) ==> effect_dir(e)
            == Some(root),
{
    if rs.len() > 0 {
        lemma_run_then_dir(root, crate::git::operations::diff_base_args(staged) + seq!["--"@, dir_of(rs[0])->Ok_0], "git diff failed"@, rs.skip(1));
    }
    lemma_run_then_dir(root, crate::git::operations::diff_base_args(staged), "git diff failed"@, rs);
}

/// Once the directory an operation was given canonicalizes to a path outside
/// every authorized workspace, each operation fails with
/// `PathOutsideWorkspace` naming that path, whatever else it was given or
/// told.
pub proof fn lemma_unauthorized_refused(
    reg: Set<Seq<char>>,
    dir: Seq<char>,
    root: Seq<char>,
    replies: Seq<GitReplyV>,
    sha: Seq<char>,
    text: Seq<char>,
    path: Seq<char>,
    opt_path: Option<Seq<char>>,
    paths: Seq<Seq<char>>,
    flags: Seq<bool>,
    staged: bool,
    limit: u32,
    args: Seq<Seq<char>>,
)
    requires
        replies.len() >= 1,
        replies[0] == GitReplyV::Dir(Ok(root)),
        !authorized(reg, root),
    ensures
        ({
            let refused = Err::<(), GitErrorV>(GitErrorV::PathOutsideWorkspace(root));
            &&& push_plan(reg, dir, replies) == GitStepV::Finish(
                Err::<(Option<Seq<char>>, Option<Seq<char>>, bool), GitErrorV>(
                    GitErrorV::PathOutsideWorkspace(root),
                ),
            )
            &&& network_plan(reg, dir, args, text, replies) == GitStepV::Finish(refused)
            &&& remote_url_plan(reg, dir, text, replies) == GitStepV::Finish(
                Err::<Option<Seq<char>>, GitErrorV>(GitErrorV::PathOutsideWorkspace(root)),
            )
            &&& resolve_repo_plan(reg, dir, replies) is Finish
            &&& resolve_repo_plan(reg, dir, replies)->Finish_0 matches Err(e)
                && e == GitErrorV::PathOutsideWorkspace(root)
            &&& show_commit_diff_plan(reg, dir, sha, replies) == GitStepV::Finish(
                Err::<(Seq<char>, bool), GitErrorV>(GitErrorV::PathOutsideWorkspace(root)),
            )
            &&& commit_files_plan(reg, dir, sha, replies) is Finish
            &&& commit_files_plan(reg, dir, sha, replies)->Finish_0 matches Err(e)
                && e == GitErrorV::PathOutsideWorkspace(root)
            &&& commit_plan(reg, dir, text, replies) == GitStepV::Finish(
                Err::<(Seq<char>, Seq<char>), GitErrorV>(GitErrorV::PathOutsideWorkspace(root)),
            )
            &&& log_plan(reg, dir, limit, opt_path, replies) is Finish
            &&& log_plan(reg, dir, limit, opt_path, replies)->Finish_0 matches Err(e)
                && e == GitErrorV::PathOutsideWorkspace(root)
            &&& diff_plan(reg, dir, opt_path, staged, replies) == GitStepV::Finish(
                Err::<(Seq<char>, bool), GitErrorV>(GitErrorV::PathOutsideWorkspace(root)),
            )
            &&& diff_content_plan(reg, dir, path, staged, opt_path, replies) is Finish
            &&& diff_content_plan(reg, dir, path, staged, opt_path, replies)->Finish_0 matches Err(e)
                && e == GitErrorV::PathOutsideWorkspace(root)
            &&& stage_plan(reg, dir, paths, replies) == GitStepV::Finish(refused)
            &&& unstage_plan(reg, dir, paths, replies) == GitStepV::Finish(refused)
            &&& discard_plan(reg, dir, paths, flags, replies) == GitStepV::Finish(refused)
            &&& commit_file_diff_plan(reg, dir, sha, path, opt_path, replies) is Finish
            &&& commit_file_diff_plan(reg, dir, sha, path, opt_path, replies)->Finish_0 matches Err(e)
                && e == GitErrorV::PathOutsideWorkspace(root)
        }),
{
}

/// Every git command, `git show` and path resolution that an operation asks
/// for runs in the canonical directory it was given, and only once that
/// directory is known to lie inside an authorized workspace.
pub proof fn lemma_commands_confined(
    reg: Set<Seq<char>>,
    dir: Seq<char>,
    replies: Seq<GitReplyV>,
    sha: Seq<char>,
    text: Seq<char>,
    path: Seq<char>,
    opt_path: Option<Seq<char>>,
    paths: Seq<Seq<char>>,
    flags: Seq<bool>,
    staged: bool,
    limit: u32,
    args: Seq<Seq<char>>,
)
    ensures
        confined(reg, replies, push_plan(reg, dir, replies)),
        confined(reg, replies, network_plan(reg, dir, args, text, replies)),
        confined(reg, replies, remote_url_plan(reg, dir, text, replies)),
        confined(reg, replies, show_commit_diff_plan(reg, dir, sha, replies)),
        confined(reg, replies, commit_files_plan(reg, dir, sha, replies)),
        confined(reg, replies, commit_plan(reg, dir, text, replies)),
        confined(reg, replies, log_plan(reg, dir, limit, opt_path, replies)),
        confined(reg, replies, diff_plan(reg, dir, opt_path, staged, replies)),
        confined(reg, replies, diff_content_plan(reg, dir, path, staged, opt_path, replies)),
        confined(reg, replies, stage_plan(reg, dir, paths, replies)),
        confined(reg, replies, unstage_plan(reg, dir, paths, replies)),
        confined(reg, replies, discard_plan(reg, dir, paths, flags, replies)),
        confined(reg, replies, commit_file_diff_plan(reg, dir, sha, path, opt_path, replies)),
{
    lemma_prelude_root(reg, dir, replies);
    let rs = after(replies, 2);
    if let Ok(root) = prelude(reg, dir, replies) {
        lemma_diff_inner_dir(root, opt_path, staged, rs);
        lemma_resolve_all_dir(root, paths, rs);
    }
}

/// Looking up a repository runs git only in the authorized directory it was
/// given, or in the repository's canonical root once it has asked for that
/// root to be authorized.
pub proof fn lemma_resolve_repo_confined(reg: Set<Seq<char>>, dir: Seq<char>, replies: Seq<GitReplyV>)
    ensures
        resolve_repo_plan(reg, dir, replies) matches GitStepV::Perform(e) ==> match effect_dir(e) {
            Some(c) => (replies.len() >= 2 && dir_of(replies[0]) == Ok::<Seq<char>, GitErrorV>(c)
                && authorized(reg, c)) || (replies.len() > 4 && resolve_repo_plan(
                reg,
                dir,
                replies.take(4),
            ) == GitStepV::<Option<(Seq<char>, Seq<char>, Option<Seq<char>>, bool)>>::Perform(
                GitEffectV::Authorize(c),
            )),
            None => true,
        },
{
    lemma_prelude_root(reg, dir, replies);
    if replies.len() > 4 {
        let t = replies.take(4);
        assert(t[0] == replies[0] && t[1] == replies[1]);
        assert(prelude(reg, dir, t) == prelude(reg, dir, replies));
        assert(after(t, 2) =~= after(replies, 2).take(2));
    }
}

/// A push whose branch has no upstream fails with `NoUpstream`, and a push
/// is only ever run after an upstream was found.
pub proof fn lemma_push_needs_upstream(reg: Set<Seq<char>>, dir: Seq<char>, replies: Seq<GitReplyV>)
    ensures
        prelude(reg, dir, replies) is Ok && replies.len() >= 3 && replies[2] == GitReplyV::Line(
            Ok(None),
        ) ==> push_plan(reg, dir, replies) == GitStepV::Finish(
            Err::<(Option<Seq<char>>, Option<Seq<char>>, bool), GitErrorV>(GitErrorV::NoUpstream),
        ),
        push_plan(reg, dir, replies) matches GitStepV::Perform(GitEffectV::Run(_, _, _))
            ==> replies.len() == 3 && line_of(replies[2]) matches Ok(Some(_)),
{
    lemma_prelude_root(reg, dir, replies);
}

/// A remote name that is not 1 to 64 letters, digits, `-`, `_` or `.` is
/// answered with no URL, without running git.
pub proof fn lemma_invalid_remote_no_git(reg: Set<Seq<char>>, dir: Seq<char>, name: Seq<char>, replies: Seq<GitReplyV>)
    requires
        !valid_remote_name(name),
    ensures
        no_git(remote_url_plan(reg, dir, name, replies)),
        prelude(reg, dir, replies) is Ok ==> remote_url_plan(reg, dir, name, replies)
            == GitStepV::Finish(Ok::<Option<Seq<char>>, GitErrorV>(None)),
{
    lemma_prelude_root(reg, dir, replies);
}

/// A commit identifier that is not 1 to 64 hexadecimal digits never reaches
/// git: the operations that take one fail instead.
pub proof fn lemma_unsafe_sha_no_git(
    reg: Set<Seq<char>>,
    dir: Seq<char>,
    sha: Seq<char>,
    path: Seq<char>,
    original_path: Option<Seq<char>>,
    replies: Seq<GitReplyV>,
)
    requires
        !safe_sha(sha),
    ensures
        no_git(show_commit_diff_plan(reg, dir, sha, replies)),
        no_git(commit_files_plan(reg, dir, sha, replies)),
        no_git(commit_file_diff_plan(reg, dir, sha, path, original_path, replies)),
        prelude(reg, dir, replies) is Ok ==> show_commit_diff_plan(reg, dir, sha, replies)
            is Finish && show_commit_diff_plan(reg, dir, sha, replies)->Finish_0 is Err,
        prelude(reg, dir, replies) is Ok ==> commit_files_plan(reg, dir, sha, replies) is Finish
            && commit_files_plan(reg, dir, sha, replies)->Finish_0 is Err,
        prelude(reg, dir, replies) is Ok ==> commit_file_diff_plan(
            reg,
            dir,
            sha,
            path,
            original_path,
            replies,
        ) is Finish && commit_file_diff_plan(reg, dir, sha, path, original_path, replies)->Finish_0
            is Err,
{
    lemma_prelude_root(reg, dir, replies);
}

/// A cursor of history that is neither empty nor a safe identifier never
/// reaches git.
pub proof fn lemma_unsafe_cursor_no_git(
    reg: Set<Seq<char>>,
    dir: Seq<char>,
    limit: u32,
    cursor: Seq<char>,
    replies: Seq<GitReplyV>,
)
    requires
        cursor.len() > 0,
        !safe_sha(cursor),
    ensures
        no_git(log_plan(reg, dir, limit, Some(cursor), replies)),
{
    lemma_prelude_root(reg, dir, replies);
}

/// A commit message that is empty once trimmed fails with
/// `EmptyCommitMessage`, without running git.
pub proof fn lemma_empty_message_no_git(reg: Set<Seq<char>>, dir: Seq<char>, message: Seq<char>, replies: Seq<GitReplyV>)
    requires
        trim(message).len() == 0,
    ensures
        no_git(commit_plan(reg, dir, message, replies)),
        prelude(reg, dir, replies) is Ok ==> commit_plan(reg, dir, message, replies)
            == GitStepV::Finish(
            Err::<(Seq<char>, Seq<char>), GitErrorV>(GitErrorV::EmptyCommitMessage),
        ),
{
    lemma_prelude_root(reg, dir, replies);
}

/// Staging, unstaging or discarding no paths succeeds without running git.
pub proof fn lemma_no_paths_no_git(reg: Set<Seq<char>>, dir: Seq<char>, flags: Seq<bool>, replies: Seq<GitReplyV>)
    ensures
        no_git(stage_plan(reg, dir, Seq::empty(), replies)),
        no_git(unstage_plan(reg, dir, Seq::empty(), replies)),
        no_git(discard_plan(reg, dir, Seq::empty(), flags, replies)),
        prelude(reg, dir, replies) is Ok ==> stage_plan(reg, dir, Seq::empty(), replies)
            == GitStepV::Finish(Ok::<(), GitErrorV>(())),
        prelude(reg, dir, replies) is Ok ==> unstage_plan(reg, dir, Seq::empty(), replies)
            == GitStepV::Finish(Ok::<(), GitErrorV>(())),
        prelude(reg, dir, replies) is Ok ==> discard_plan(reg, dir, Seq::empty(), flags, replies)
            == GitStepV::Finish(Ok::<(), GitErrorV>(())),
{
    lemma_prelude_root(reg, dir, replies);
}

/// A page of history holds 1 to 200 commits: the requested count is clamped
/// to that range and kept when it lies in it.
pub proof fn lemma_log_limit_bounded(limit: u32)
    ensures
        1 <= bounded_limit(limit) <= 200,
        1 <= limit <= 200 ==> bounded_limit(limit) == limit,
{
}

/// What every change read from name-status records looks like: no counts
/// yet, a one-character status with its label, and an original path exactly
/// for renames and copies.
pub open spec fn fresh_change(f: FileChangeV) -> bool {
    &&& f.added == 0 && f.removed == 0 && !f.is_binary
    &&& f.status.len() == 1
    &&& f.status_label == status_label(f.status[0])
    &&& (f.original_path is Some <==> (f.status[0] == 'R' || f.status[0] == 'C'))
}

/// Every change that name-status records describe has no counts yet, the
/// status character of its record with that character's label, and an
/// original path exactly when it is a rename or a copy.
pub proof fn lemma_name_status_entries_fresh(toks: Seq<Seq<char>>)
    ensures
        forall|i: int|
            0 <= i < name_status_entries(toks).len() ==> fresh_change(
                #[trigger] name_status_entries(toks)[i],
            ),
    decreases toks.len(),
{
    if toks.len() > 0 {
        let c = if toks[0].len() > 0 {
            toks[0][0]
        } else {
            ' '
        };
        let n: int = if c == 'R' || c == 'C' {
            3
        } else {
            2
        };
        if toks.len() >= n {
            lemma_name_status_entries_fresh(toks.skip(n));
            let r = name_status_entries(toks);
            let rest = name_status_entries(toks.skip(n));
            assert forall|i: int| 0 <= i < r.len() implies fresh_change(#[trigger] r[i]) by {
                if i > 0 {
                    assert(r[i] == rest[i - 1]);
                } else {
                    assert(seq![c][0] == c);
                }
            }
        }
    }
}

/// How applying numstat records may change a list of changes: the list
/// keeps its length and order, every path, status and label; counts may
/// change; an original path once there stays, and one is only added when it
/// is non-empty and another path than the change's own.
pub open spec fn numstat_keeps(before: Seq<FileChangeV>, after: Seq<FileChangeV>) -> bool {
    &&& after.len() == before.len()
    &&& forall|i: int|
        0 <= i < before.len() ==> {
            &&& (#[trigger] after[i]).path == before[i].path
            &&& after[i].status == before[i].status
            &&& after[i].status_label == before[i].status_label
            &&& (before[i].original_path is Some ==> after[i].original_path
                == before[i].original_path)
            &&& (after[i].original_path matches Some(o) ==> (before[i].original_path == Some(o)
                || (o.len() > 0 && o != after[i].path)))
        }
}

proof fn lemma_first_with_path_range(files: Seq<FileChangeV>, path: Seq<char>)
    ensures
        0 <= first_with_path(files, path) <= files.len(),
        first_with_path(files, path) < files.len() ==> files[first_with_path(files, path)].path
            == path,
    decreases files.len(),
{
    if files.len() > 0 && files[0].path != path {
        lemma_first_with_path_range(files.drop_first(), path);
    }
}

/// Applying numstat records keeps the changes' length, order, paths,
/// statuses and labels, keeps every original path, and only adds original
/// paths that differ from the change's own path.
pub proof fn lemma_numstat_keeps(files: Seq<FileChangeV>, toks: Seq<Seq<char>>)
    ensures
        numstat_keeps(files, numstat_apply(files, toks)),
    decreases toks.len(),
{
    if toks.len() > 0 {
        let cols = splitn(toks[0], 3, '\t');
        let inline = nth_piece(cols, 2, Seq::empty());
        let used: int = if inline.len() == 0 {
            if toks.len() < 3 {
                toks.len() as int
            } else {
                3
            }
        } else {
            1
        };
        let binary = cols.len() > 1 && cols[0] == seq!['-'] && cols[1] == seq!['-'];
        let added: u32 = if binary || cols.len() == 0 {
            0
        } else {
            match parse_u32(cols[0]) {
                Some(n) => n,
                None => 0,
            }
        };
        let removed: u32 = if binary || cols.len() < 2 {
            0
        } else {
            match parse_u32(cols[1]) {
                Some(n) => n,
                None => 0,
            }
        };
        let path = if inline.len() == 0 {
            nth_piece(toks, 2, Seq::empty())
        } else {
            inline
        };
        let original = if inline.len() == 0 {
            Some(nth_piece(toks, 1, Seq::empty()))
        } else {
            None
        };
        let k = first_with_path(files, path);
        lemma_first_with_path_range(files, path);
        let next = if path.len() == 0 || k >= files.len() {
            files
        } else {
            files.update(k, numstat_update(files[k], added, removed, binary, original))
        };
        assert(numstat_apply(files, toks) == numstat_apply(next, toks.skip(used)));
        lemma_numstat_keeps(next, toks.skip(used));
        let fin = numstat_apply(next, toks.skip(used));
        assert(numstat_keeps(files, next));
        assert forall|i: int| 0 <= i < files.len() implies {
            &&& (#[trigger] fin[i]).path == files[i].path
            &&& fin[i].status == files[i].status
            &&& fin[i].status_label == files[i].status_label
            &&& (files[i].original_path is Some ==> fin[i].original_path
                == files[i].original_path)
            &&& (fin[i].original_path matches Some(o) ==> (files[i].original_path == Some(o)
                || (o.len() > 0 && o != fin[i].path)))
        } by {
            assert(next[i].path == files[i].path);
        }
    }
}

/// An empty path limits a diff no more than no path does.
pub proof fn lemma_diff_empty_path(reg: Set<Seq<char>>, dir: Seq<char>, staged: bool, replies: Seq<GitReplyV>)
    ensures
        diff_plan(reg, dir, Some(Seq::empty()), staged, replies) == diff_plan(
            reg,
            dir,
            None,
            staged,
            replies,
        ),
{
}

/// The path that the first numstat record of `toks` names: the path after
/// its counts, or, when that is empty, the new path of the rename that
/// follows it.
pub open spec fn record_path(toks: Seq<Seq<char>>) -> Seq<char> {
    let inline = nth_piece(splitn(toks[0], 3, '\t'), 2, Seq::empty());
    if inline.len() == 0 {
        nth_piece(toks, 2, Seq::empty())
    } else {
        inline
    }
}

/// How many tokens the first numstat record of `toks` takes.
pub open spec fn record_len(toks: Seq<Seq<char>>) -> int {
    let inline = nth_piece(splitn(toks[0], 3, '\t'), 2, Seq::empty());
    if inline.len() == 0 {
        if toks.len() < 3 {
            toks.len() as int
        } else {
            3
        }
    } else {
        1
    }
}

/// The paths that the numstat records of `toks` name, in order.
pub open spec fn numstat_paths(toks: Seq<Seq<char>>) -> Seq<Seq<char>>
    decreases toks.len(),
{
    if toks.len() == 0 {
        Seq::empty()
    } else {
        seq![record_path(toks)] + numstat_paths(toks.skip(record_len(toks)))
    }
}

/// A change whose path no numstat record names keeps its counts, binary
/// flag and original path: applying the records leaves it as it was.
pub proof fn lemma_numstat_untouched(files: Seq<FileChangeV>, toks: Seq<Seq<char>>)
    ensures
        numstat_apply(files, toks).len() == files.len(),
        forall|i: int|
            0 <= i < files.len() && !numstat_paths(toks).contains(files[i].path) ==> (
            #[trigger] numstat_apply(files, toks)[i]) == files[i],
    decreases toks.len(),
{
    lemma_numstat_keeps(files, toks);
    if toks.len() > 0 {
        let path = record_path(toks);
        let used = record_len(toks);
        let cols = splitn(toks[0], 3, '\t');
        let binary = cols.len() > 1 && cols[0] == seq!['-'] && cols[1] == seq!['-'];
        let added: u32 = if binary || cols.len() == 0 {
            0
        } else {
            match parse_u32(cols[0]) {
                Some(n) => n,
                None => 0,
            }
        };
        let removed: u32 = if binary || cols.len() < 2 {
            0
        } else {
            match parse_u32(cols[1]) {
                Some(n) => n,
                None => 0,
            }
        };
        let inline = nth_piece(cols, 2, Seq::empty());
        let original = if inline.len() == 0 {
            Some(nth_piece(toks, 1, Seq::empty()))
        } else {
            None
        };
        let k = first_with_path(files, path);
        lemma_first_with_path_range(files, path);
        let next = if path.len() == 0 || k >= files.len() {
            files
        } else {
            files.update(k, numstat_update(files[k], added, removed, binary, original))
        };
        assert(numstat_apply(files, toks) == numstat_apply(next, toks.skip(used)));
        lemma_numstat_untouched(next, toks.skip(used));
        let rest = numstat_paths(toks.skip(used));
        assert(numstat_paths(toks) == seq![path] + rest);
        assert forall|i: int|
            0 <= i < files.len() && !numstat_paths(toks).contains(files[i].path) implies (
            #[trigger] numstat_apply(files, toks)[i]) == files[i] by {
            assert(files[i].path != path) by {
                assert(numstat_paths(toks)[0] == path);
            }
            assert(next[i] == files[i]);
            assert(!rest.contains(next[i].path)) by {
                if rest.contains(next[i].path) {
                    let j = choose|j: int| 0 <= j < rest.len() && rest[j] == next[i].path;
                    assert(numstat_paths(toks)[j + 1] == rest[j]);
                }
            }
        }
    }
}

// ------------------------------------------------------------------
// History
// ------------------------------------------------------------------

/// A line of `git log` output as it is read: without a trailing carriage
/// return.
pub open spec fn clean_line(l: Seq<char>) -> Seq<char> {
    trim_end_char(l, '\r')
}

/// A commit header line: it holds the unit separator and starts with a safe
/// commit identifier.
pub open spec fn commit_header(l: Seq<char>) -> bool {
    clean_line(l).contains('\x1f') && log_header(clean_line(l)) is Some
}

/// Output that starts with a commit header is read on its own: whatever
/// came before it keeps its entries, and what follows from the header on
/// gives the entries that come after them. In particular a statistics line
/// never changes an entry of an earlier commit.
pub proof fn lemma_log_entries_split(lines: Seq<Seq<char>>, more: Seq<Seq<char>>)
    requires
        more.len() > 0,
        commit_header(more[0]),
    ensures
        log_entries(lines + more) == log_entries(lines) + log_entries(more),
        log_entries(more).len() >= 1,
    decreases more.len(),
{
    let all = lines + more;
    if more.len() == 1 {
        assert(all.drop_last() =~= lines);
        assert(all.last() == more[0]);
        assert(more.drop_last() =~= Seq::<Seq<char>>::empty());
        assert(log_entries(more.drop_last()) =~= Seq::<LogEntryV>::empty());
        assert(log_entries(all) =~= log_entries(lines) + log_entries(more));
    } else {
        let m2 = more.drop_last();
        lemma_log_entries_split(lines, m2);
        assert(all.drop_last() =~= lines + m2);
        assert(all.last() == more.last());
        let a = log_entries(lines);
        let b = log_entries(m2);
        let line = clean_line(more.last());
        if line.len() == 0 {
        } else if line.contains('\x1f') {
            match log_header(line) {
                Some(e) => {
                    assert((a + b).push(e) =~= a + b.push(e));
                },
                None => {},
            }
        } else if is_stat_line(line) {
            let st = shortstat(line);
            assert((a + b).last() == b.last());
            assert((a + b).update((a + b).len() - 1, with_stats((a + b).last(), st)) =~= a
                + b.update(b.len() - 1, with_stats(b.last(), st)));
        }
    }
}

/// A commit header followed by lines that are no headers gives exactly one
/// entry: the commit of the header, with the counts of the last statistics
/// line after it, or with no counts when there is none.
pub proof fn lemma_log_block(h: Seq<char>, rest: Seq<Seq<char>>, e: LogEntryV)
    requires
        clean_line(h).contains('\x1f'),
        log_header(clean_line(h)) == Some(e),
        forall|i: int| 0 <= i < rest.len() ==> !clean_line(#[trigger] rest[i]).contains('\x1f'),
    ensures
        log_entries(seq![h] + rest).len() == 1,
        with_stats(log_entries(seq![h] + rest)[0], (0u32, 0u32, 0u32)) == with_stats(
            e,
            (0u32, 0u32, 0u32),
        ),
        (forall|i: int| 0 <= i < rest.len() ==> !is_stat_line(clean_line(#[trigger] rest[i])))
            ==> log_entries(seq![h] + rest)[0] == with_stats(e, (0u32, 0u32, 0u32)),
        forall|j: int|
            0 <= j < rest.len() && is_stat_line(clean_line(#[trigger] rest[j])) && (forall|k: int|
                j < k < rest.len() ==> !is_stat_line(clean_line(rest[k]))) ==> log_entries(
                seq![h] + rest,
            )[0] == with_stats(e, shortstat(clean_line(rest[j]))),
    decreases rest.len(),
{
    let all = seq![h] + rest;
    if rest.len() == 0 {
        assert(all =~= seq![h]);
        assert(all.drop_last() =~= Seq::<Seq<char>>::empty());
        assert(log_entries(all.drop_last()) =~= Seq::<LogEntryV>::empty());
        assert(e.files_changed == 0 && e.insertions == 0 && e.deletions == 0);
        assert(with_stats(e, (0u32, 0u32, 0u32)) =~= e);
    } else {
        let r2 = rest.drop_last();
        assert forall|i: int| 0 <= i < r2.len() implies !clean_line(#[trigger] r2[i]).contains(
            '\x1f',
        ) by {
            assert(r2[i] == rest[i]);
        }
        lemma_log_block(h, r2, e);
        assert(all.drop_last() =~= seq![h] + r2);
        assert(all.last() == rest.last());
        let line = clean_line(rest.last());
        assert(!line.contains('\x1f'));
        assert forall|j: int|
            0 <= j < rest.len() && is_stat_line(clean_line(#[trigger] rest[j])) && (forall|k: int|
                j < k < rest.len() ==> !is_stat_line(clean_line(rest[k]))) implies log_entries(
            all,
        )[0] == with_stats(e, shortstat(clean_line(rest[j]))) by {
            let prev = log_entries(seq![h] + r2);
            if j < rest.len() - 1 {
                assert(!is_stat_line(line));
                assert(r2[j] == rest[j]);
                assert(is_stat_line(clean_line(r2[j])));
                assert forall|k: int| j < k < r2.len() implies !is_stat_line(
                    clean_line(r2[k]),
                ) by {
                    assert(r2[k] == rest[k]);
                }
                assert(log_entries(all) == prev);
            } else {
                assert(line == clean_line(rest[j]));
                assert(line.len() > 0) by {
                    if line.len() == 0 {
                        reveal_strlit("file changed");
                        reveal_strlit("files changed");
                        assert(!contains_seq(line, "file changed"@));
                        assert(!contains_seq(line, "files changed"@));
                    }
                }
                let st = shortstat(line);
                assert(log_entries(all) == prev.update(0, with_stats(prev[0], st)));
                assert(with_stats(prev[0], st) =~= with_stats(e, st));
            }
        }
        if forall|i: int| 0 <= i < rest.len() ==> !is_stat_line(clean_line(#[trigger] rest[i])) {
            assert(!is_stat_line(clean_line(rest[rest.len() - 1])));
            assert forall|i: int| 0 <= i < r2.len() implies !is_stat_line(
                clean_line(#[trigger] r2[i]),
            ) by {
                assert(r2[i] == rest[i]);
            }
        }
    }
}

// ------------------------------------------------------------------
// The two sides of a diff
// ------------------------------------------------------------------

/// The replies that open an operation in `root` (canonical, git checked)
/// and then resolve the given paths.
pub open spec fn opened_with(root: Seq<char>, resolved: Seq<Seq<char>>) -> Seq<GitReplyV> {
    seq![GitReplyV::Dir(Ok(root)), GitReplyV::Checked(Ok(()))] + Seq::new(
        resolved.len(),
        |i: int| GitReplyV::Dir(Ok(resolved[i])),
    )
}

/// A staged diff shows `HEAD`'s version (at the resolved original path when
/// the file was renamed) against the index's version of the path; an
/// unstaged diff shows the index's version against the working-tree file.
pub proof fn lemma_diff_content_sides(
    reg: Set<Seq<char>>,
    dir: Seq<char>,
    path: Seq<char>,
    original: Option<Seq<char>>,
    root: Seq<char>,
    wt: Seq<char>,
    owt: Seq<char>,
    first: TextSourceV,
)
    requires
        authorized(reg, root),
    ensures
        ({
            let renamed = original matches Some(o) && o.len() > 0;
            let rs = if renamed {
                opened_with(root, seq![wt, owt])
            } else {
                opened_with(root, seq![wt])
            };
            let rel = pathspec_of(root, wt);
            let base = if renamed {
                pathspec_of(root, owt)
            } else {
                rel
            };
            &&& diff_content_plan(reg, dir, path, true, original, rs)
                == GitStepV::<(Seq<char>, Seq<char>, bool, Seq<char>, bool)>::Perform(
                GitEffectV::Show(root, "HEAD:"@ + base),
            )
            &&& diff_content_plan(reg, dir, path, true, original, rs.push(GitReplyV::Text(Ok(first))))
                == GitStepV::<(Seq<char>, Seq<char>, bool, Seq<char>, bool)>::Perform(
                GitEffectV::Show(root, ":"@ + rel),
            )
            &&& diff_content_plan(reg, dir, path, false, original, rs)
                == GitStepV::<(Seq<char>, Seq<char>, bool, Seq<char>, bool)>::Perform(
                GitEffectV::Show(root, ":"@ + rel),
            )
            &&& diff_content_plan(reg, dir, path, false, original, rs.push(GitReplyV::Text(Ok(first))))
                == GitStepV::<(Seq<char>, Seq<char>, bool, Seq<char>, bool)>::Perform(
                GitEffectV::ReadFile(wt),
            )
        }),
{
    let renamed = original matches Some(o) && o.len() > 0;
    let rs = if renamed {
        opened_with(root, seq![wt, owt])
    } else {
        opened_with(root, seq![wt])
    };
    let rs2 = rs.push(GitReplyV::Text(Ok(first)));
    assert(rs[0] == GitReplyV::Dir(Ok(root)) && rs[1] == GitReplyV::Checked(Ok(())));
    assert(rs2[0] == rs[0] && rs2[1] == rs[1]);
    assert(after(rs, 2)[0] == GitReplyV::Dir(Ok(wt)));
    assert(after(rs2, 2)[0] == GitReplyV::Dir(Ok(wt)));
    if renamed {
        assert(after(rs, 2).len() == 2);
        assert(after(rs, 2)[1] == GitReplyV::Dir(Ok(owt)));
        assert(after(rs2, 2)[1] == GitReplyV::Dir(Ok(owt)));
        assert(after(rs2, 2).len() == 3);
    } else {
        assert(after(rs, 2).len() == 1);
        assert(after(rs2, 2).len() == 2);
    }
    assert(after(rs2, 2).last() == GitReplyV::Text(Ok(first)));
}

/// In a past commit, the parent's side of a renamed file is read at the
/// resolved original path, and the commit's side at the resolved new path;
/// without a rename both sides use the new path.
pub proof fn lemma_commit_file_diff_sides(
    reg: Set<Seq<char>>,
    dir: Seq<char>,
    sha: Seq<char>,
    path: Seq<char>,
    original: Option<Seq<char>>,
    root: Seq<char>,
    wt: Seq<char>,
    owt: Seq<char>,
    parent: Seq<char>,
    first: TextSourceV,
)
    requires
        authorized(reg, root),
        safe_sha(sha),
    ensures
        ({
            let renamed = original matches Some(o) && o.len() > 0;
            let rs = if renamed {
                opened_with(root, seq![wt, owt])
            } else {
                opened_with(root, seq![wt])
            }.push(GitReplyV::Line(Ok(Some(parent))));
            let rel = commit_rel(root, wt, path);
            let base = if renamed {
                commit_rel(root, owt, original->0)
            } else {
                rel
            };
            &&& commit_file_diff_plan(reg, dir, sha, path, original, rs)
                == GitStepV::<(Seq<char>, Seq<char>, bool, Seq<char>, bool)>::Perform(
                GitEffectV::Show(root, parent + seq![':'] + base),
            )
            &&& commit_file_diff_plan(reg, dir, sha, path, original, rs.push(GitReplyV::Text(Ok(first))))
                == GitStepV::<(Seq<char>, Seq<char>, bool, Seq<char>, bool)>::Perform(
                GitEffectV::Show(root, sha + seq![':'] + rel),
            )
        }),
{
    let renamed = original matches Some(o) && o.len() > 0;
    let rs = if renamed {
        opened_with(root, seq![wt, owt])
    } else {
        opened_with(root, seq![wt])
    }.push(GitReplyV::Line(Ok(Some(parent))));
    let rs2 = rs.push(GitReplyV::Text(Ok(first)));
    assert(rs[0] == GitReplyV::Dir(Ok(root)) && rs[1] == GitReplyV::Checked(Ok(())));
    assert(rs2[0] == rs[0] && rs2[1] == rs[1]);
    assert(after(rs, 2)[0] == GitReplyV::Dir(Ok(wt)));
    assert(after(rs2, 2)[0] == GitReplyV::Dir(Ok(wt)));
    if renamed {
        assert(after(rs, 2).len() == 3);
        assert(after(rs, 2)[1] == GitReplyV::Dir(Ok(owt)));
        assert(after(rs2, 2)[1] == GitReplyV::Dir(Ok(owt)));
        assert(after(rs, 2)[2] == GitReplyV::Line(Ok(Some(parent))));
        assert(after(rs2, 2)[2] == GitReplyV::Line(Ok(Some(parent))));
        assert(after(rs2, 2).len() == 4);
    } else {
        assert(after(rs, 2).len() == 2);
        assert(after(rs, 2)[1] == GitReplyV::Line(Ok(Some(parent))));
        assert(after(rs2, 2)[1] == GitReplyV::Line(Ok(Some(parent))));
        assert(after(rs2, 2).len() == 3);
    }
    assert(after(rs2, 2).last() == GitReplyV::Text(Ok(first)));
}

/// Looking up a repository reports a detached `HEAD` exactly when git names
/// the current branch `HEAD`, whatever the upstream lookup gave; the root is
/// the canonical top level with `/` separators and the branch is the first
/// line git printed.
pub proof fn lemma_resolve_repo_detached(
    reg: Set<Seq<char>>,
    dir: Seq<char>,
    cwd: Seq<char>,
    top: Seq<char>,
    root: Seq<char>,
    authorized_reply: GitReplyV,
    heads: Seq<Seq<char>>,
    upstream: Option<Seq<char>>,
)
    requires
        authorized(reg, cwd),
        heads.len() > 0,
    ensures
        resolve_repo_plan(
            reg,
            dir,
            seq![
                GitReplyV::Dir(Ok(cwd)),
                GitReplyV::Checked(Ok(())),
                GitReplyV::Line(Ok(Some(top))),
                GitReplyV::Dir(Ok(root)),
                authorized_reply,
                GitReplyV::Lines(Ok(heads)),
                GitReplyV::Line(Ok(upstream)),
            ],
        ) == GitStepV::Finish(
            Ok::<_, GitErrorV>(
                Some(
                    (
                        crate::text::replace_char(root, '\\', '/'),
                        heads[0],
                        upstream,
                        heads[0] == "HEAD"@,
                    ),
                ),
            ),
        ),
{
    let rs = seq![
        GitReplyV::Dir(Ok(cwd)),
        GitReplyV::Checked(Ok(())),
        GitReplyV::Line(Ok(Some(top))),
        GitReplyV::Dir(Ok(root)),
        authorized_reply,
        GitReplyV::Lines(Ok(heads)),
        GitReplyV::Line(Ok(upstream)),
    ];
    let a = after(rs, 2);
    assert(a.len() == 5);
    assert(a[0] == GitReplyV::Line(Ok(Some(top))));
    assert(a[1] == GitReplyV::Dir(Ok(root)));
    assert(a[3] == GitReplyV::Lines(Ok(heads)));
    assert(a[4] == GitReplyV::Line(Ok(upstream)));
}

} // verus!
