//! The values git operations exchange with their caller.
use vstd::prelude::*;

use crate::text::strings_view;

verus! {

/// Why a git operation failed.
#[derive(Debug)]
pub enum GitError {
    NotADirectory(String),
    PathOutsideWorkspace(String),
    InvalidPath(String),
    Io(String),
    CommandFailed { context: String, detail: String },
    TimedOut(String),
    NoUpstream,
    EmptyCommitMessage,
    /// The caller answered a step with a reply of another kind.
    UnexpectedReply,
}

/// The contents of a `GitError`.
pub enum GitErrorV {
    NotADirectory(Seq<char>),
    PathOutsideWorkspace(Seq<char>),
    InvalidPath(Seq<char>),
    Io(Seq<char>),
    CommandFailed(Seq<char>, Seq<char>),
    TimedOut(Seq<char>),
    NoUpstream,
    EmptyCommitMessage,
    UnexpectedReply,
}

impl View for GitError {
    type V = GitErrorV;

    open spec fn view(&self) -> GitErrorV {
        match self {
            GitError::NotADirectory(s) => GitErrorV::NotADirectory(s@),
            GitError::PathOutsideWorkspace(s) => GitErrorV::PathOutsideWorkspace(s@),
            GitError::InvalidPath(s) => GitErrorV::InvalidPath(s@),
            GitError::Io(s) => GitErrorV::Io(s@),
            GitError::CommandFailed { context, detail } => GitErrorV::CommandFailed(
                context@,
                detail@,
            ),
            GitError::TimedOut(s) => GitErrorV::TimedOut(s@),
            GitError::NoUpstream => GitErrorV::NoUpstream,
            GitError::EmptyCommitMessage => GitErrorV::EmptyCommitMessage,
            GitError::UnexpectedReply => GitErrorV::UnexpectedReply,
        }
    }
}

impl GitError {
    /// A copy of this error.
    pub fn duplicate(&self) -> (r: Self)
        ensures
            r@ == self@,
    {
        match self {
            GitError::NotADirectory(s) => GitError::NotADirectory(s.clone()),
            GitError::PathOutsideWorkspace(s) => GitError::PathOutsideWorkspace(s.clone()),
            GitError::InvalidPath(s) => GitError::InvalidPath(s.clone()),
            GitError::Io(s) => GitError::Io(s.clone()),
            GitError::CommandFailed { context, detail } => GitError::CommandFailed {
                context: context.clone(),
                detail: detail.clone(),
            },
            GitError::TimedOut(s) => GitError::TimedOut(s.clone()),
            GitError::NoUpstream => GitError::NoUpstream,
            GitError::EmptyCommitMessage => GitError::EmptyCommitMessage,
            GitError::UnexpectedReply => GitError::UnexpectedReply,
        }
    }

    /// A failed command, with its context and detail.
    pub fn command(context: &str, detail: &str) -> (r: Self)
        ensures
            r@ == GitErrorV::CommandFailed(context@, detail@),
    {
        GitError::CommandFailed {
            context: String::from_str(context),
            detail: String::from_str(detail),
        }
    }
}

/// What a finished git process left behind.
#[derive(Debug)]
pub struct GitOutput {
    pub stdout: Vec<u8>,
    pub stderr: Vec<u8>,
    pub exit_code: Option<i32>,
    pub timed_out: bool,
    pub truncated: bool,
}

/// Text read from git or from the working tree.
#[derive(Debug)]
pub enum TextSource {
    Text(String),
    Binary,
    Missing,
}

pub enum TextSourceV {
    Text(Seq<char>),
    Binary,
    Missing,
}

impl View for TextSource {
    type V = TextSourceV;

    open spec fn view(&self) -> TextSourceV {
        match self {
            TextSource::Text(s) => TextSourceV::Text(s@),
            TextSource::Binary => TextSourceV::Binary,
            TextSource::Missing => TextSourceV::Missing,
        }
    }
}

/// The text a source shows: its text, or nothing for binary or missing content.
pub open spec fn text_of(t: TextSourceV) -> Seq<char> {
    match t {
        TextSourceV::Text(s) => s,
        _ => Seq::empty(),
    }
}

impl TextSource {
    pub fn duplicate(&self) -> (r: Self)
        ensures
            r@ == self@,
    {
        match self {
            TextSource::Text(s) => TextSource::Text(s.clone()),
            TextSource::Binary => TextSource::Binary,
            TextSource::Missing => TextSource::Missing,
        }
    }

    /// The text this source shows.
    pub fn into_text(&self) -> (r: String)
        ensures
            r@ == text_of(self@),
    {
        match self {
            TextSource::Text(s) => s.clone(),
            _ => String::new(),
        }
    }

    pub fn is_binary(&self) -> (r: bool)
        ensures
            r == (self@ is Binary),
    {
        match self {
            TextSource::Binary => true,
            _ => false,
        }
    }
}

/// A piece of outside work a git operation needs done before it can go on.
#[derive(Debug)]
pub enum GitEffect {
    /// Check that git can be run. Answer: `Checked`.
    EnsureGit,
    /// Canonicalize a directory. Answer: `Dir` with the canonical path.
    CanonicalDir { path: String },
    /// Record a directory as an authorized workspace root. Answer: anything;
    /// it is not read.
    Authorize { path: String },
    /// Run git and take the first line of its output, if it succeeded and
    /// printed one. Answer: `Line`.
    LineOpt { cwd: String, args: Vec<String> },
    /// Run git, require success and take its output lines. Answer: `Lines`.
    Lines { cwd: String, args: Vec<String> },
    /// Run git. Answer: `Output`.
    Run { cwd: String, args: Vec<String>, network: bool },
    /// `git show <spec>` as text. Answer: `Text`.
    Show { cwd: String, spec: String },
    /// Read a working-tree file as text. Answer: `Text`.
    ReadFile { path: String },
    /// Resolve a repository-relative path to a canonical path inside the
    /// repository. Answer: `Dir`.
    ResolveWithin { root: String, rel: String },
}

pub enum GitEffectV {
    EnsureGit,
    CanonicalDir(Seq<char>),
    Authorize(Seq<char>),
    LineOpt(Seq<char>, Seq<Seq<char>>),
    Lines(Seq<char>, Seq<Seq<char>>),
    Run(Seq<char>, Seq<Seq<char>>, bool),
    Show(Seq<char>, Seq<char>),
    ReadFile(Seq<char>),
    ResolveWithin(Seq<char>, Seq<char>),
}

impl View for GitEffect {
    type V = GitEffectV;

    open spec fn view(&self) -> GitEffectV {
        match self {
            GitEffect::EnsureGit => GitEffectV::EnsureGit,
            GitEffect::CanonicalDir { path } => GitEffectV::CanonicalDir(path@),
            GitEffect::Authorize { path } => GitEffectV::Authorize(path@),
            GitEffect::LineOpt { cwd, args } => GitEffectV::LineOpt(cwd@, strings_view(args@)),
            GitEffect::Lines { cwd, args } => GitEffectV::Lines(cwd@, strings_view(args@)),
            GitEffect::Run { cwd, args, network } => GitEffectV::Run(
                cwd@,
                strings_view(args@),
                *network,
            ),
            GitEffect::Show { cwd, spec } => GitEffectV::Show(cwd@, spec@),
            GitEffect::ReadFile { path } => GitEffectV::ReadFile(path@),
            GitEffect::ResolveWithin { root, rel } => GitEffectV::ResolveWithin(root@, rel@),
        }
    }
}

/// The answer to a `GitEffect`.
pub enum GitReply {
    Checked(Result<(), GitError>),
    Dir(Result<String, GitError>),
    Line(Result<Option<String>, GitError>),
    Lines(Result<Vec<String>, GitError>),
    Output(Result<GitOutput, GitError>),
    Text(Result<TextSource, GitError>),
}

/// The contents of a `GitOutput`.
pub struct GitOutputV {
    pub stdout: Seq<u8>,
    pub stderr: Seq<u8>,
    pub exit_code: Option<i32>,
    pub timed_out: bool,
    pub truncated: bool,
}

pub open spec fn output_view(o: GitOutput) -> GitOutputV {
    GitOutputV {
        stdout: o.stdout@,
        stderr: o.stderr@,
        exit_code: o.exit_code,
        timed_out: o.timed_out,
        truncated: o.truncated,
    }
}

pub enum GitReplyV {
    Checked(Result<(), GitErrorV>),
    Dir(Result<Seq<char>, GitErrorV>),
    Line(Result<Option<Seq<char>>, GitErrorV>),
    Lines(Result<Seq<Seq<char>>, GitErrorV>),
    Output(Result<GitOutputV, GitErrorV>),
    Text(Result<TextSourceV, GitErrorV>),
}

impl View for GitReply {
    type V = GitReplyV;

    open spec fn view(&self) -> GitReplyV {
        match self {
            GitReply::Checked(r) => GitReplyV::Checked(
                match r {
                    Ok(_) => Ok(()),
                    Err(e) => Err(e@),
                },
            ),
            GitReply::Dir(r) => GitReplyV::Dir(
                match r {
                    Ok(s) => Ok(s@),
                    Err(e) => Err(e@),
                },
            ),
            GitReply::Line(r) => GitReplyV::Line(
                match r {
                    Ok(Some(s)) => Ok(Some(s@)),
                    Ok(None) => Ok(None),
                    Err(e) => Err(e@),
                },
            ),
            GitReply::Lines(r) => GitReplyV::Lines(
                match r {
                    Ok(v) => Ok(strings_view(v@)),
                    Err(e) => Err(e@),
                },
            ),
            GitReply::Output(r) => GitReplyV::Output(
                match r {
                    Ok(o) => Ok(output_view(*o)),
                    Err(e) => Err(e@),
                },
            ),
            GitReply::Text(r) => GitReplyV::Text(
                match r {
                    Ok(t) => Ok(t@),
                    Err(e) => Err(e@),
                },
            ),
        }
    }
}

pub open spec fn replies_view(r: Seq<GitReply>) -> Seq<GitReplyV> {
    Seq::new(r.len(), |i: int| r[i]@)
}

/// What an operation asks for next: outside work, or its final result.
pub enum GitStep<T> {
    Perform(GitEffect),
    Finish(Result<T, GitError>),
}

pub enum GitStepV<T> {
    Perform(GitEffectV),
    Finish(Result<T, GitErrorV>),
}

impl<T: View> View for GitStep<T> {
    type V = GitStepV<T::V>;

    open spec fn view(&self) -> GitStepV<T::V> {
        match self {
            GitStep::Perform(e) => GitStepV::Perform(e@),
            GitStep::Finish(Ok(t)) => GitStepV::Finish(Ok(t@)),
            GitStep::Finish(Err(e)) => GitStepV::Finish(Err(e@)),
        }
    }
}

/// What `git push` reports.
#[derive(Debug)]
pub struct GitPushResult {
    pub remote: Option<String>,
    pub branch: Option<String>,
    pub pushed: bool,
}

impl View for GitPushResult {
    type V = (Option<Seq<char>>, Option<Seq<char>>, bool);

    open spec fn view(&self) -> (Option<Seq<char>>, Option<Seq<char>>, bool) {
        (opt_view(self.remote), opt_view(self.branch), self.pushed)
    }
}

pub open spec fn opt_view(o: Option<String>) -> Option<Seq<char>> {
    match o {
        Some(s) => Some(s@),
        None => None,
    }
}

/// The repository a directory belongs to.
#[derive(Debug)]
pub struct GitRepoInfo {
    pub repo_root: String,
    pub branch: String,
    pub upstream: Option<String>,
    pub is_detached: bool,
}

impl View for GitRepoInfo {
    type V = (Seq<char>, Seq<char>, Option<Seq<char>>, bool);

    open spec fn view(&self) -> (Seq<char>, Seq<char>, Option<Seq<char>>, bool) {
        (self.repo_root@, self.branch@, opt_view(self.upstream), self.is_detached)
    }
}

/// A unified diff.
#[derive(Debug)]
pub struct GitDiffResult {
    pub diff_text: String,
    pub truncated: bool,
}

impl View for GitDiffResult {
    type V = (Seq<char>, bool);

    open spec fn view(&self) -> (Seq<char>, bool) {
        (self.diff_text@, self.truncated)
    }
}

/// Both sides of a file's change, and the patch between them.
#[derive(Debug)]
pub struct GitDiffContentResult {
    pub original_content: String,
    pub modified_content: String,
    pub is_binary: bool,
    pub fallback_patch: String,
    pub truncated: bool,
}

impl View for GitDiffContentResult {
    type V = (Seq<char>, Seq<char>, bool, Seq<char>, bool);

    open spec fn view(&self) -> (Seq<char>, Seq<char>, bool, Seq<char>, bool) {
        (
            self.original_content@,
            self.modified_content@,
            self.is_binary,
            self.fallback_patch@,
            self.truncated,
        )
    }
}

/// A new commit.
#[derive(Debug)]
pub struct GitCommitResult {
    pub commit_sha: String,
    pub summary: String,
}

impl View for GitCommitResult {
    type V = (Seq<char>, Seq<char>);

    open spec fn view(&self) -> (Seq<char>, Seq<char>) {
        (self.commit_sha@, self.summary@)
    }
}

/// The URL of a remote, when it has one.
#[derive(Debug)]
pub struct RemoteUrl {
    pub url: Option<String>,
}

impl View for RemoteUrl {
    type V = Option<Seq<char>>;

    open spec fn view(&self) -> Option<Seq<char>> {
        opt_view(self.url)
    }
}

/// The repository a directory belongs to, when it belongs to one.
#[derive(Debug)]
pub struct RepoLookup {
    pub repo: Option<GitRepoInfo>,
}

impl View for RepoLookup {
    type V = Option<(Seq<char>, Seq<char>, Option<Seq<char>>, bool)>;

    open spec fn view(&self) -> Option<(Seq<char>, Seq<char>, Option<Seq<char>>, bool)> {
        match self.repo {
            Some(r) => Some(r@),
            None => None,
        }
    }
}

/// A page of history.
#[derive(Debug)]
pub struct LogPage {
    pub entries: Vec<GitLogEntry>,
}

impl View for LogPage {
    type V = Seq<LogEntryV>;

    open spec fn view(&self) -> Seq<LogEntryV> {
        log_view(self.entries@)
    }
}

/// The files a commit touched.
#[derive(Debug)]
pub struct CommitFiles {
    pub files: Vec<GitCommitFileChange>,
}

impl View for CommitFiles {
    type V = Seq<FileChangeV>;

    open spec fn view(&self) -> Seq<FileChangeV> {
        changes_view(self.files@)
    }
}

/// A value with no content, for operations that report only success.
#[derive(Debug)]
pub struct Done;

impl View for Done {
    type V = ();

    open spec fn view(&self) -> () {
        ()
    }
}

/// A file to discard the changes of.
#[derive(Debug)]
pub struct DiscardEntry {
    pub path: String,
    pub untracked: bool,
}

/// A file a commit touched.
#[derive(Debug)]
pub struct GitCommitFileChange {
    pub path: String,
    pub original_path: Option<String>,
    pub status: String,
    pub status_label: String,
    pub added: u32,
    pub removed: u32,
    pub is_binary: bool,
}

/// The contents of a `GitCommitFileChange`.
pub struct FileChangeV {
    pub path: Seq<char>,
    pub original_path: Option<Seq<char>>,
    pub status: Seq<char>,
    pub status_label: Seq<char>,
    pub added: u32,
    pub removed: u32,
    pub is_binary: bool,
}

impl View for GitCommitFileChange {
    type V = FileChangeV;

    open spec fn view(&self) -> FileChangeV {
        FileChangeV {
            path: self.path@,
            original_path: opt_view(self.original_path),
            status: self.status@,
            status_label: self.status_label@,
            added: self.added,
            removed: self.removed,
            is_binary: self.is_binary,
        }
    }
}

pub open spec fn changes_view(v: Seq<GitCommitFileChange>) -> Seq<FileChangeV> {
    Seq::new(v.len(), |i: int| v[i]@)
}

/// A commit of the history.
#[derive(Debug)]
pub struct GitLogEntry {
    pub sha: String,
    pub short_sha: String,
    pub author: String,
    pub author_email: String,
    pub timestamp_secs: i64,
    pub parents: Vec<String>,
    pub subject: String,
    pub files_changed: u32,
    pub insertions: u32,
    pub deletions: u32,
}

/// The contents of a `GitLogEntry`.
pub struct LogEntryV {
    pub sha: Seq<char>,
    pub short_sha: Seq<char>,
    pub author: Seq<char>,
    pub author_email: Seq<char>,
    pub timestamp_secs: i64,
    pub parents: Seq<Seq<char>>,
    pub subject: Seq<char>,
    pub files_changed: u32,
    pub insertions: u32,
    pub deletions: u32,
}

impl View for GitLogEntry {
    type V = LogEntryV;

    open spec fn view(&self) -> LogEntryV {
        LogEntryV {
            sha: self.sha@,
            short_sha: self.short_sha@,
            author: self.author@,
            author_email: self.author_email@,
            timestamp_secs: self.timestamp_secs,
            parents: strings_view(self.parents@),
            subject: self.subject@,
            files_changed: self.files_changed,
            insertions: self.insertions,
            deletions: self.deletions,
        }
    }
}

pub open spec fn log_view(v: Seq<GitLogEntry>) -> Seq<LogEntryV> {
    Seq::new(v.len(), |i: int| v[i]@)
}

} // verus!
