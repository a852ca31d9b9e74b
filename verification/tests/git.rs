use terax::git::operations::{
    commit, commit_file_diff, commit_files, diff, diff_content, discard, fetch, log, pull_ff_only,
    push, remote_url, resolve_repo, show_commit_diff, stage, unstage,
};
use terax::git::parse::{
    apply_numstat, ensure_success, first_line, read_text, show_text, log_stderr_means_empty, nothing_to_commit, parse_commit_files,
    parse_diff_tree_name_status, parse_log_output, parse_shortstat, remote_name_is_valid,
    sha_is_safe, split_name_status_numstat, status_label_for,
};
use terax::git::types::{
    DiscardEntry, GitEffect, GitError, GitOutput, GitReply, GitStep, TextSource,
};
use terax::git::utils::{
    authorized_repo_root, canonical_dir, display_path, normalize_git_path, pathspec,
    resolve_within_repo, split_upstream, Canonicalized,
};
use terax::workspace::{WorkspaceEnv, WorkspaceRegistry};

fn registry() -> WorkspaceRegistry {
    let mut r = WorkspaceRegistry::new();
    r.authorize("/repo");
    r
}

fn dir(p: &str) -> GitReply {
    GitReply::Dir(Ok(p.to_string()))
}

fn checked() -> GitReply {
    GitReply::Checked(Ok(()))
}

fn output(code: i32, stdout: &str, stderr: &str) -> GitOutput {
    GitOutput {
        stdout: stdout.as_bytes().to_vec(),
        stderr: stderr.as_bytes().to_vec(),
        exit_code: Some(code),
        timed_out: false,
        truncated: false,
    }
}

fn out(code: i32, stdout: &str, stderr: &str) -> GitReply {
    GitReply::Output(Ok(output(code, stdout, stderr)))
}

fn chars(s: &str) -> Vec<char> {
    s.chars().collect()
}

fn run_args<T>(step: &GitStep<T>) -> Option<(String, Vec<String>)> {
    match step {
        GitStep::Perform(GitEffect::Run { cwd, args, .. }) => Some((cwd.clone(), args.clone())),
        GitStep::Perform(GitEffect::LineOpt { cwd, args }) => Some((cwd.clone(), args.clone())),
        GitStep::Perform(GitEffect::Lines { cwd, args }) => Some((cwd.clone(), args.clone())),
        _ => None,
    }
}

#[test]
fn operations_start_by_checking_the_directory() {
    let reg = registry();
    let s = push(&reg, "/repo/.", &[]);
    assert!(matches!(s, GitStep::Perform(GitEffect::CanonicalDir { ref path }) if path == "/repo/."));
    let s = push(&reg, "/repo/.", &[dir("/repo")]);
    assert!(matches!(s, GitStep::Perform(GitEffect::EnsureGit)));
    let s = push(&reg, "/repo/.", &[GitReply::Dir(Err(GitError::NotADirectory("/repo/.".into())))]);
    assert!(matches!(s, GitStep::Finish(Err(GitError::NotADirectory(ref p))) if p == "/repo/."));
}

#[test]
fn outside_workspace_is_refused_without_git() {
    let reg = registry();
    let replies = [dir("/etc"), checked()];
    assert!(matches!(push(&reg, "/etc", &replies), GitStep::Finish(Err(GitError::PathOutsideWorkspace(ref p))) if p == "/etc"));
    assert!(matches!(fetch(&reg, "/etc", &replies), GitStep::Finish(Err(GitError::PathOutsideWorkspace(_)))));
    assert!(matches!(
        log(&reg, "/etc", 10, None, &replies),
        GitStep::Finish(Err(GitError::PathOutsideWorkspace(_)))
    ));
    assert!(matches!(
        stage(&reg, "/etc", &vec!["a".to_string()], &replies),
        GitStep::Finish(Err(GitError::PathOutsideWorkspace(_)))
    ));
    assert!(matches!(
        resolve_repo(&reg, "/etc", &replies),
        GitStep::Finish(Err(GitError::PathOutsideWorkspace(_)))
    ));
    assert!(matches!(
        push(&reg, "/repox", &[dir("/repox")]),
        GitStep::Finish(Err(GitError::PathOutsideWorkspace(_)))
    ));
}

#[test]
fn push_without_upstream_is_refused() {
    let reg = registry();
    let s = push(&reg, "/repo", &[dir("/repo"), checked()]);
    let (cwd, args) = run_args(&s).unwrap();
    assert_eq!(cwd, "/repo");
    assert_eq!(args, vec!["rev-parse", "--abbrev-ref", "--symbolic-full-name", "@{u}"]);
    let s = push(&reg, "/repo", &[dir("/repo"), checked(), GitReply::Line(Ok(None))]);
    assert!(matches!(s, GitStep::Finish(Err(GitError::NoUpstream))));
}

#[test]
fn push_reports_remote_and_branch() {
    let reg = registry();
    let mut replies = vec![dir("/repo"), checked(), GitReply::Line(Ok(Some("origin/feature/x".into())))];
    let s = push(&reg, "/repo", &replies);
    assert!(matches!(s, GitStep::Perform(GitEffect::Run { ref args, network: true, .. }) if args == &vec!["push".to_string()]));
    replies.push(out(0, "", ""));
    match push(&reg, "/repo", &replies) {
        GitStep::Finish(Ok(r)) => {
            assert_eq!(r.remote.as_deref(), Some("origin"));
            assert_eq!(r.branch.as_deref(), Some("feature/x"));
            assert!(r.pushed);
        }
        _ => panic!("push did not finish"),
    }
    replies.pop();
    replies.push(out(1, "", "  ! [rejected] main -> main\n"));
    match push(&reg, "/repo", &replies) {
        GitStep::Finish(Err(GitError::CommandFailed { context, detail })) => {
            assert_eq!(context, "git push failed");
            assert_eq!(detail, "! [rejected] main -> main");
        }
        _ => panic!("push did not fail"),
    }
}

#[test]
fn fetch_and_pull_run_network_commands() {
    let reg = registry();
    let s = fetch(&reg, "/repo", &[dir("/repo"), checked()]);
    assert!(matches!(s, GitStep::Perform(GitEffect::Run { ref args, network: true, .. }) if args == &vec!["fetch".to_string(), "--prune".to_string()]));
    let s = pull_ff_only(&reg, "/repo", &[dir("/repo"), checked()]);
    assert!(matches!(s, GitStep::Perform(GitEffect::Run { ref args, network: true, .. }) if args == &vec!["pull".to_string(), "--ff-only".to_string()]));
    let timed_out = GitReply::Output(Ok(GitOutput { timed_out: true, ..output(0, "", "") }));
    let s = pull_ff_only(&reg, "/repo", &[dir("/repo"), checked(), timed_out]);
    assert!(matches!(s, GitStep::Finish(Err(GitError::TimedOut(ref c))) if c == "git pull --ff-only failed"));
}

#[test]
fn remote_url_checks_the_name() {
    let reg = registry();
    let s = remote_url(&reg, "/repo", "bad name", &[dir("/repo"), checked()]);
    assert!(matches!(s, GitStep::Finish(Ok(ref u)) if u.url.is_none()));
    let s = remote_url(&reg, "/repo", "origin", &[dir("/repo"), checked()]);
    let (_, args) = run_args(&s).unwrap();
    assert_eq!(args, vec!["config", "--get", "remote.origin.url"]);
    let s = remote_url(
        &reg,
        "/repo",
        "origin",
        &[dir("/repo"), checked(), GitReply::Line(Ok(Some("git@host:x.git".into())))],
    );
    assert!(matches!(s, GitStep::Finish(Ok(ref u)) if u.url.as_deref() == Some("git@host:x.git")));
}

#[test]
fn resolve_repo_authorizes_the_root_first() {
    let reg = registry();
    let base = || vec![dir("/repo/src"), checked()];
    let s = resolve_repo(&reg, "/repo/src", &base());
    let (cwd, args) = run_args(&s).unwrap();
    assert_eq!(cwd, "/repo/src");
    assert_eq!(args, vec!["rev-parse", "--show-toplevel"]);
    let mut replies = base();
    replies.push(GitReply::Line(Ok(None)));
    assert!(matches!(resolve_repo(&reg, "/repo/src", &replies), GitStep::Finish(Ok(ref r)) if r.repo.is_none()));
    replies.pop();
    replies.push(GitReply::Line(Ok(Some("/repo".into()))));
    assert!(matches!(resolve_repo(&reg, "/repo/src", &replies), GitStep::Perform(GitEffect::CanonicalDir { .. })));
    replies.push(dir("/repo"));
    assert!(matches!(resolve_repo(&reg, "/repo/src", &replies), GitStep::Perform(GitEffect::Authorize { ref path }) if path == "/repo"));
    replies.push(checked());
    replies.push(GitReply::Lines(Ok(vec!["HEAD".into()])));
    replies.push(GitReply::Line(Ok(None)));
    match resolve_repo(&reg, "/repo/src", &replies) {
        GitStep::Finish(Ok(r)) => {
            let info = r.repo.unwrap();
            assert_eq!(info.repo_root, "/repo");
            assert_eq!(info.branch, "HEAD");
            assert!(info.is_detached);
            assert!(info.upstream.is_none());
        }
        _ => panic!("resolve_repo did not finish"),
    }
}

#[test]
fn unsafe_identifiers_never_reach_git() {
    let reg = registry();
    let replies = [dir("/repo"), checked()];
    match show_commit_diff(&reg, "/repo", "HEAD; rm -rf /", &replies) {
        GitStep::Finish(Err(GitError::CommandFailed { context, detail })) => {
            assert_eq!(context, "git show");
            assert_eq!(detail, "invalid commit identifier");
        }
        _ => panic!("expected a refusal"),
    }
    match commit_files(&reg, "/repo", "", &replies) {
        GitStep::Finish(Err(GitError::CommandFailed { context, detail })) => {
            assert_eq!(context, "git diff-tree");
            assert_eq!(detail, "invalid commit sha");
        }
        _ => panic!("expected a refusal"),
    }
    match commit_file_diff(&reg, "/repo", "xyz", "a.txt", None, &replies) {
        GitStep::Finish(Err(GitError::CommandFailed { context, detail })) => {
            assert_eq!(context, "git show");
            assert_eq!(detail, "invalid commit sha");
        }
        _ => panic!("expected a refusal"),
    }
    match log(&reg, "/repo", 10, Some("--all"), &replies) {
        GitStep::Finish(Err(GitError::CommandFailed { context, detail })) => {
            assert_eq!(context, "git log");
            assert_eq!(detail, "invalid cursor sha");
        }
        _ => panic!("expected a refusal"),
    }
}

#[test]
fn show_commit_diff_returns_the_patch() {
    let reg = registry();
    let s = show_commit_diff(&reg, "/repo", "abc123", &[dir("/repo"), checked()]);
    let (_, args) = run_args(&s).unwrap();
    assert_eq!(args, vec!["show", "--no-color", "--no-ext-diff", "--patch-with-stat", "abc123", "--"]);
    let s = show_commit_diff(&reg, "/repo", "abc123", &[dir("/repo"), checked(), out(0, "diff --git", "")]);
    assert!(matches!(s, GitStep::Finish(Ok(ref d)) if d.diff_text == "diff --git" && !d.truncated));
}

#[test]
fn commit_checks_message_and_reports_sha() {
    let reg = registry();
    let s = commit(&reg, "/repo", "  \n ", &[dir("/repo"), checked()]);
    assert!(matches!(s, GitStep::Finish(Err(GitError::EmptyCommitMessage))));
    let s = commit(&reg, "/repo", "  fix bug \n", &[dir("/repo"), checked()]);
    let (_, args) = run_args(&s).unwrap();
    assert_eq!(args, vec!["commit", "-m", "fix bug"]);
    let s = commit(&reg, "/repo", "fix", &[dir("/repo"), checked(), out(1, "nothing to commit, working tree clean", "")]);
    assert!(matches!(s, GitStep::Finish(Err(GitError::CommandFailed { ref detail, .. })) if detail == "nothing staged"));
    let replies = [
        dir("/repo"),
        checked(),
        out(0, "", ""),
        GitReply::Lines(Ok(vec!["0123abcd".into(), "fix".into()])),
    ];
    match commit(&reg, "/repo", "fix", &replies) {
        GitStep::Finish(Ok(c)) => {
            assert_eq!(c.commit_sha, "0123abcd");
            assert_eq!(c.summary, "fix");
        }
        _ => panic!("commit did not finish"),
    }
}

#[test]
fn log_clamps_the_page_and_parses_entries() {
    let reg = registry();
    let s = log(&reg, "/repo", 500, Some("abc"), &[dir("/repo"), checked()]);
    let (_, args) = run_args(&s).unwrap();
    assert_eq!(
        args,
        vec![
            "log",
            "--no-color",
            "--shortstat",
            "--max-count=200",
            "--format=%H%x1f%an%x1f%ae%x1f%at%x1f%P%x1f%s",
            "abc^",
        ]
    );
    let s = log(&reg, "/repo", 0, None, &[dir("/repo"), checked()]);
    let (_, args) = run_args(&s).unwrap();
    assert_eq!(args[3], "--max-count=1");
    let stdout = "abcdef1234\u{1f}Ann\u{1f}ann@x.org\u{1f}1700000000\u{1f}p1 p2\u{1f}Merge it\n\n 2 files changed, 5 insertions(+), 1 deletion(-)\n";
    let s = log(&reg, "/repo", 20, None, &[dir("/repo"), checked(), out(0, stdout, "")]);
    match s {
        GitStep::Finish(Ok(page)) => {
            assert_eq!(page.entries.len(), 1);
            let e = &page.entries[0];
            assert_eq!(e.sha, "abcdef1234");
            assert_eq!(e.short_sha, "abcdef1");
            assert_eq!(e.author, "Ann");
            assert_eq!(e.author_email, "ann@x.org");
            assert_eq!(e.timestamp_secs, 1700000000);
            assert_eq!(e.parents, vec!["p1", "p2"]);
            assert_eq!(e.subject, "Merge it");
            assert_eq!((e.files_changed, e.insertions, e.deletions), (2, 5, 1));
        }
        _ => panic!("log did not finish"),
    }
    let s = log(&reg, "/repo", 20, None, &[dir("/repo"), checked(), out(128, "", "fatal: your current branch 'main' does not have any commits yet")]);
    assert!(matches!(s, GitStep::Finish(Ok(ref p)) if p.entries.is_empty()));
}

#[test]
fn parse_log_output_skips_unsafe_headers() {
    let out = b"zzz\x1fA\x1fa@b\x1f1\x1f\x1fs\nabc\x1fB\x1fb@c\x1fx\x1f\x1fsubj\x1fwith sep\r\n";
    let entries = parse_log_output(out);
    assert_eq!(entries.len(), 1);
    assert_eq!(entries[0].sha, "abc");
    assert_eq!(entries[0].timestamp_secs, 0);
    assert!(entries[0].parents.is_empty());
    assert_eq!(entries[0].subject, "subj\u{1f}with sep");
}

#[test]
fn diff_resolves_path_then_runs() {
    let reg = registry();
    let s = diff(&reg, "/repo", Some("src/a.rs"), true, &[dir("/repo"), checked()]);
    assert!(matches!(s, GitStep::Perform(GitEffect::ResolveWithin { ref root, ref rel }) if root == "/repo" && rel == "src/a.rs"));
    let s = diff(&reg, "/repo", Some("src/a.rs"), true, &[dir("/repo"), checked(), dir("/repo/src/a.rs")]);
    let (_, args) = run_args(&s).unwrap();
    assert_eq!(args, vec!["diff", "--no-ext-diff", "--cached", "--", "/repo/src/a.rs"]);
    let s = diff(&reg, "/repo", None, false, &[dir("/repo"), checked()]);
    let (_, args) = run_args(&s).unwrap();
    assert_eq!(args, vec!["diff", "--no-ext-diff"]);
}

#[test]
fn diff_content_compares_index_and_worktree() {
    let reg = registry();
    let replies = vec![dir("/repo"), checked(), dir("/repo/a.txt")];
    let s = diff_content(&reg, "/repo", "a.txt", false, None, &replies);
    assert!(matches!(s, GitStep::Perform(GitEffect::Show { ref spec, .. }) if spec == ":a.txt"));
    let replies = vec![
        dir("/repo"),
        checked(),
        dir("/repo/a.txt"),
        GitReply::Text(Ok(TextSource::Text("old".into()))),
    ];
    let s = diff_content(&reg, "/repo", "a.txt", false, None, &replies);
    assert!(matches!(s, GitStep::Perform(GitEffect::ReadFile { ref path }) if path == "/repo/a.txt"));
    let replies = vec![
        dir("/repo"),
        checked(),
        dir("/repo/a.txt"),
        GitReply::Text(Ok(TextSource::Text("old".into()))),
        GitReply::Text(Ok(TextSource::Binary)),
        dir("/repo/a.txt"),
        out(0, "patch", ""),
    ];
    match diff_content(&reg, "/repo", "a.txt", false, None, &replies) {
        GitStep::Finish(Ok(d)) => {
            assert_eq!(d.original_content, "old");
            assert_eq!(d.modified_content, "");
            assert!(d.is_binary);
            assert_eq!(d.fallback_patch, "patch");
        }
        _ => panic!("diff_content did not finish"),
    }
}

#[test]
fn stage_unstage_discard_resolve_every_path() {
    let reg = registry();
    let paths = vec!["a".to_string(), "b".to_string()];
    assert!(matches!(stage(&reg, "/repo", &vec![], &[dir("/repo"), checked()]), GitStep::Finish(Ok(_))));
    let s = stage(&reg, "/repo", &paths, &[dir("/repo"), checked(), dir("/repo/a")]);
    assert!(matches!(s, GitStep::Perform(GitEffect::ResolveWithin { ref rel, .. }) if rel == "b"));
    let s = stage(&reg, "/repo", &paths, &[dir("/repo"), checked(), dir("/repo/a"), dir("/repo/b")]);
    let (_, args) = run_args(&s).unwrap();
    assert_eq!(args, vec!["add", "--", "/repo/a", "/repo/b"]);
    let s = unstage(&reg, "/repo", &paths, &[dir("/repo"), checked(), dir("/repo/a"), dir("/repo/b"), GitReply::Line(Ok(None))]);
    let (_, args) = run_args(&s).unwrap();
    assert_eq!(args, vec!["rm", "--cached", "-r", "--", "/repo/a", "/repo/b"]);
    let s = unstage(&reg, "/repo", &paths, &[dir("/repo"), checked(), dir("/repo/a"), dir("/repo/b"), GitReply::Line(Ok(Some("abc".into())))]);
    let (_, args) = run_args(&s).unwrap();
    assert_eq!(args, vec!["reset", "HEAD", "--", "/repo/a", "/repo/b"]);
    let entries = vec![
        DiscardEntry { path: "a".into(), untracked: false },
        DiscardEntry { path: "b".into(), untracked: true },
    ];
    let s = discard(&reg, "/repo", &entries, &[dir("/repo"), checked(), dir("/repo/a"), dir("/repo/b")]);
    let (_, args) = run_args(&s).unwrap();
    assert_eq!(args, vec!["restore", "--worktree", "--", "/repo/a"]);
    let s = discard(&reg, "/repo", &entries, &[dir("/repo"), checked(), dir("/repo/a"), dir("/repo/b"), out(0, "", "")]);
    let (_, args) = run_args(&s).unwrap();
    assert_eq!(args, vec!["clean", "-f", "-d", "--", "/repo/b"]);
    let s = discard(&reg, "/repo", &entries, &[dir("/repo"), checked(), GitReply::Dir(Err(GitError::InvalidPath("a".into())))]);
    assert!(matches!(s, GitStep::Finish(Err(GitError::InvalidPath(_)))));
}

#[test]
fn commit_file_diff_reads_both_sides() {
    let reg = registry();
    let sha = "abc123";
    let base = || vec![dir("/repo"), checked(), dir("/repo/src/a.rs")];
    let s = commit_file_diff(&reg, "/repo", sha, "src/a.rs", None, &base());
    let (_, args) = run_args(&s).unwrap();
    assert_eq!(args, vec!["rev-parse", "abc123^"]);
    let mut r = base();
    r.push(GitReply::Line(Ok(Some("parent1".into()))));
    let s = commit_file_diff(&reg, "/repo", sha, "src/a.rs", None, &r);
    assert!(matches!(s, GitStep::Perform(GitEffect::Show { ref spec, .. }) if spec == "parent1:src/a.rs"));
    r.push(GitReply::Text(Ok(TextSource::Text("a".into()))));
    let s = commit_file_diff(&reg, "/repo", sha, "src/a.rs", None, &r);
    assert!(matches!(s, GitStep::Perform(GitEffect::Show { ref spec, .. }) if spec == "abc123:src/a.rs"));
    r.push(GitReply::Text(Ok(TextSource::Text("b".into()))));
    let s = commit_file_diff(&reg, "/repo", sha, "src/a.rs", None, &r);
    let (_, args) = run_args(&s).unwrap();
    assert_eq!(
        args,
        vec!["show", "--no-color", "--no-ext-diff", "--format=", "-m", "--first-parent", "abc123", "--", "src/a.rs"]
    );
    r.push(out(0, "p", ""));
    match commit_file_diff(&reg, "/repo", sha, "src/a.rs", None, &r) {
        GitStep::Finish(Ok(d)) => {
            assert_eq!(d.original_content, "a");
            assert_eq!(d.modified_content, "b");
            assert!(!d.is_binary);
            assert_eq!(d.fallback_patch, "p");
        }
        _ => panic!("commit_file_diff did not finish"),
    }
}

#[test]
fn commit_files_combines_name_status_and_numstat() {
    let stdout = b"M\0src/a.rs\0R100\0old.txt\0new.txt\x005\t2\tsrc/a.rs\0-\t-\t\0old.txt\0new.txt\0";
    let files = parse_commit_files(stdout);
    assert_eq!(files.len(), 2);
    assert_eq!(files[0].path, "src/a.rs");
    assert_eq!(files[0].status, "M");
    assert_eq!(files[0].status_label, "Modified");
    assert_eq!((files[0].added, files[0].removed, files[0].is_binary), (5, 2, false));
    assert_eq!(files[1].path, "new.txt");
    assert_eq!(files[1].original_path.as_deref(), Some("old.txt"));
    assert_eq!(files[1].status, "R");
    assert_eq!(files[1].status_label, "Renamed");
    assert!(files[1].is_binary);
}

#[test]
fn name_status_and_numstat_pieces() {
    let s = chars("A\0x\0D\0y\x001\t0\tx\0");
    let k = split_name_status_numstat(&s);
    assert_eq!(k, 8);
    let mut files = parse_diff_tree_name_status(&s[..k]);
    assert_eq!(files.len(), 2);
    assert_eq!(files[1].status_label, "Deleted");
    apply_numstat(&mut files, &s[k..]);
    assert_eq!((files[0].added, files[0].removed), (1, 0));
    assert_eq!(files[1].added, 0);
    assert_eq!(status_label_for('X'), "Status X");
    assert_eq!(status_label_for('T'), "Type changed");
}

#[test]
fn shortstat_is_read_by_its_parts() {
    assert_eq!(parse_shortstat(&chars(" 3 files changed, 10 insertions(+), 2 deletions(-)")), (3, 10, 2));
    assert_eq!(parse_shortstat(&chars("noise\n 1 file changed, 4 deletions(-)\n")), (1, 0, 4));
    assert_eq!(parse_shortstat(&chars("nothing here")), (0, 0, 0));
}

#[test]
fn identifiers_and_names() {
    assert!(sha_is_safe("0123456789abcdefABCDEF"));
    assert!(!sha_is_safe(""));
    assert!(!sha_is_safe(&"a".repeat(65)));
    assert!(sha_is_safe(&"a".repeat(64)));
    assert!(!sha_is_safe("abc^"));
    assert!(remote_name_is_valid("my-remote_1.x"));
    assert!(!remote_name_is_valid("a/b"));
    assert!(!remote_name_is_valid(""));
}

#[test]
fn process_outcomes() {
    assert!(ensure_success(&output(0, "", "warn"), "ctx").is_ok());
    match ensure_success(&output(2, "", "  fatal: bad\n"), "git x failed") {
        Err(GitError::CommandFailed { context, detail }) => {
            assert_eq!(context, "git x failed");
            assert_eq!(detail, "fatal: bad");
        }
        _ => panic!("expected failure"),
    }
    let mut o = output(0, "", "");
    o.exit_code = None;
    assert!(matches!(ensure_success(&o, "c"), Err(GitError::CommandFailed { .. })));
    assert!(nothing_to_commit(&output(1, "", "Nothing To Commit")));
    assert!(!nothing_to_commit(&output(1, "", "error")));
    assert!(log_stderr_means_empty(b"fatal: ambiguous argument 'HEAD': unknown"));
    assert!(!log_stderr_means_empty(b"fatal: not a git repository"));
}

#[test]
fn upstream_and_paths() {
    assert_eq!(split_upstream("origin/main"), (Some("origin".into()), Some("main".into())));
    assert_eq!(split_upstream("main"), (None, Some("main".into())));
    assert_eq!(display_path("C:\\a\\b"), "C:/a/b");
    assert_eq!(normalize_git_path("x\\y/z"), "x/y/z");
    assert_eq!(pathspec("/repo", "/repo/src/a.rs"), "src/a.rs");
    assert_eq!(pathspec("/repo", "/other/a.rs"), "/other/a.rs");
}

#[test]
fn directories_are_checked_before_use() {
    let reg = registry();
    let r = canonical_dir("/nope", &WorkspaceEnv::Local, false, Err("x".into()));
    assert!(matches!(r, Err(GitError::NotADirectory(ref p)) if p == "/nope"));
    let r = canonical_dir("/repo/./src", &WorkspaceEnv::Local, true, Ok("/repo/src".into())).unwrap();
    assert_eq!(r.git_path, "/repo/src");
    assert_eq!(r.local_path, "/repo/src");
    let wsl = WorkspaceEnv::Wsl { distro: "U".into() };
    let r = canonical_dir("\\home\\me", &wsl, true, Ok("\\\\wsl$\\U\\home\\me".into())).unwrap();
    assert_eq!(r.git_path, "/home/me");
    let ok = authorized_repo_root(&reg, canonical_dir("/repo", &WorkspaceEnv::Local, true, Ok("/repo".into())));
    assert!(ok.is_ok());
    let bad = authorized_repo_root(&reg, canonical_dir("/tmp", &WorkspaceEnv::Local, true, Ok("/tmp".into())));
    assert!(matches!(bad, Err(GitError::PathOutsideWorkspace(ref p)) if p == "/tmp"));
}

#[test]
fn paths_resolve_inside_the_repository() {
    assert!(matches!(
        resolve_within_repo("/repo", "", Canonicalized::Failed("x".into()), None),
        Err(GitError::InvalidPath(_))
    ));
    assert_eq!(
        resolve_within_repo("/repo", "a.txt", Canonicalized::Path("/repo/a.txt".into()), None).ok(),
        Some("/repo/a.txt".to_string())
    );
    assert!(matches!(
        resolve_within_repo("/repo", "../x", Canonicalized::Path("/x".into()), None),
        Err(GitError::PathOutsideWorkspace(ref p)) if p == "/x"
    ));
    assert_eq!(
        resolve_within_repo(
            "/repo",
            "new.txt",
            Canonicalized::NotFound,
            Some((Ok("/repo".into()), Some("new.txt".into())))
        )
        .ok(),
        Some("/repo/new.txt".to_string())
    );
}

#[test]
fn invalid_utf8_output_reads_as_empty() {
    assert!(parse_commit_files(b"M\0a.txt\0\xff\0").is_empty());
    assert!(parse_log_output(b"abc\x1fA\x1fa@b\x1f1\x1f\x1f\xffsubject\n").is_empty());
    assert_eq!(parse_log_output(b"abc\x1fA\x1fa@b\x1f1\x1f\x1fs\n").len(), 1);
}

#[test]
fn replies_read_from_output() {
    assert!(matches!(read_text(b"a\0b"), TextSource::Binary));
    assert!(matches!(read_text(b"hello"), TextSource::Text(ref t) if t == "hello"));
    assert!(matches!(show_text(&output(0, "x", "")), TextSource::Text(ref t) if t == "x"));
    assert!(matches!(show_text(&output(128, "x", "fatal")), TextSource::Missing));
    assert_eq!(first_line(&output(0, "  /repo \r\nnext\n", "")).as_deref(), Some("/repo"));
    assert_eq!(first_line(&output(0, "\nsecond\n", "")), None);
    assert_eq!(first_line(&output(0, "", "")), None);
    assert_eq!(first_line(&output(1, "/repo\n", "")), None);
}

#[test]
fn numstat_rename_record_fills_counts_and_original() {
    let mut files = parse_diff_tree_name_status(&chars("M\0new.rs\0M\0other.rs\0"));
    apply_numstat(&mut files, &chars("5\t2\t\0old.rs\0new.rs\0"));
    assert_eq!((files[0].added, files[0].removed), (5, 2));
    assert_eq!(files[0].original_path.as_deref(), Some("old.rs"));
    assert_eq!((files[1].added, files[1].removed, files[1].is_binary), (0, 0, false));
    assert_eq!(files[1].original_path, None);
    assert_eq!(files[1].path, "other.rs");
}
