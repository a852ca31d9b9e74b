//! Parsing of what git prints.
use vstd::prelude::*;

use crate::git::types::{
    opt_view, output_view, GitOutputV, TextSource, TextSourceV, changes_view, log_view, FileChangeV, GitCommitFileChange, GitError, GitErrorV, GitLogEntry,
    GitOutput, LogEntryV,
};
use crate::text::{
    before_first, find_char, lemma_before_first_absent, lemma_before_first_found, chars_of, contains_chars, contains_seq, line_pieces, line_pieces_chars, lower, lower_chars,
    nonempty, nonempty_pieces, nth_piece, parse_i64, parse_i64_chars, parse_u32, parse_u32_chars,
    prefix, slice_range, split_chars, split_on, splitn, splitn_chars, string_of_all, strings_of,
    trim, trim_chars, trim_end_char, trim_end_char_len, utf8_chars_or_empty, utf8_lossy,
    utf8_lossy_string, utf8_or_empty, views, words, words_chars,
};

verus! {

// ------------------------------------------------------------------
// Identifiers
// ------------------------------------------------------------------

pub open spec fn is_hex(c: char) -> bool {
    let u = c as u32;
    (0x30 <= u <= 0x39) || (0x41 <= u <= 0x46) || (0x61 <= u <= 0x66)
}

/// A commit identifier that is safe to hand to git: 1 to 64 hexadecimal
/// digits.
pub open spec fn safe_sha(s: Seq<char>) -> bool {
    0 < s.len() <= 64 && forall|i: int| 0 <= i < s.len() ==> is_hex(s[i])
}

/// Whether `sha` is 1 to 64 hexadecimal digits.
pub fn sha_is_safe(sha: &str) -> (r: bool)
    ensures
        r == safe_sha(sha@),
{
    let c = chars_of(sha);
    if c.len() == 0 || c.len() > 64 {
        return false;
    }
    let mut i: usize = 0;
    while i < c.len()
        invariant
            c@ == sha@,
            i <= c@.len(),
            forall|k: int| 0 <= k < i ==> is_hex(c@[k]),
        decreases c.len() - i,
    {
        let u = c[i] as u32;
        if !((0x30 <= u && u <= 0x39) || (0x41 <= u && u <= 0x46) || (0x61 <= u && u <= 0x66)) {
            return false;
        }
        i = i + 1;
    }
    true
}

/// A character allowed in a remote's name.
pub open spec fn remote_name_char(c: char) -> bool {
    let u = c as u32;
    (0x30 <= u <= 0x39) || (0x41 <= u <= 0x5a) || (0x61 <= u <= 0x7a) || c == '-' || c == '_'
        || c == '.'
}

/// Whether `c` may appear in a remote's name: ASCII letters and digits, `-`,
/// `_` and `.`.
pub fn is_remote_name_char(c: char) -> (r: bool)
    ensures
        r == remote_name_char(c),
{
    let u = c as u32;
    (0x30 <= u && u <= 0x39) || (0x41 <= u && u <= 0x5a) || (0x61 <= u && u <= 0x7a) || c == '-'
        || c == '_' || c == '.'
}

/// A remote name that is safe to look up: 1 to 64 allowed characters.
pub open spec fn valid_remote_name(s: Seq<char>) -> bool {
    0 < s.len() <= 64 && forall|i: int| 0 <= i < s.len() ==> remote_name_char(s[i])
}

pub fn remote_name_is_valid(name: &str) -> (r: bool)
    ensures
        r == valid_remote_name(name@),
{
    let c = chars_of(name);
    if c.len() == 0 || c.len() > 64 {
        return false;
    }
    let mut i: usize = 0;
    while i < c.len()
        invariant
            c@ == name@,
            i <= c@.len(),
            forall|k: int| 0 <= k < i ==> remote_name_char(c@[k]),
        decreases c.len() - i,
    {
        if !is_remote_name_char(c[i]) {
            return false;
        }
        i = i + 1;
    }
    true
}

/// The label of a status letter of `git diff-tree --name-status`.
pub open spec fn status_label(c: char) -> Seq<char> {
    if c == 'A' {
        "Added"@
    } else if c == 'M' {
        "Modified"@
    } else if c == 'D' {
        "Deleted"@
    } else if c == 'R' {
        "Renamed"@
    } else if c == 'C' {
        "Copied"@
    } else if c == 'T' {
        "Type changed"@
    } else if c == 'U' {
        "Unmerged"@
    } else {
        "Status "@.push(c)
    }
}

/// The label of a status letter.
pub fn status_label_for(c: char) -> (r: String)
    ensures
        r@ == status_label(c),
{
    if c == 'A' {
        String::from_str("Added")
    } else if c == 'M' {
        String::from_str("Modified")
    } else if c == 'D' {
        String::from_str("Deleted")
    } else if c == 'R' {
        String::from_str("Renamed")
    } else if c == 'C' {
        String::from_str("Copied")
    } else if c == 'T' {
        String::from_str("Type changed")
    } else if c == 'U' {
        String::from_str("Unmerged")
    } else {
        let mut v = chars_of("Status ");
        v.push(c);
        string_of_all(v.as_slice())
    }
}

// ------------------------------------------------------------------
// Outcome of a git process
// ------------------------------------------------------------------

/// What `ensure_success` makes of an output: a timeout, a failure with the
/// trimmed error output as detail, or success.
pub open spec fn success_check(
    timed_out: bool,
    exit_code: Option<i32>,
    stderr: Seq<u8>,
    context: Seq<char>,
) -> Result<(), GitErrorV> {
    if timed_out {
        Err(GitErrorV::TimedOut(context))
    } else if exit_code != Some(0i32) {
        Err(GitErrorV::CommandFailed(context, trim(utf8_lossy(stderr))))
    } else {
        Ok(())
    }
}

/// Fails unless git finished in time with exit code 0.
pub fn ensure_success(output: &GitOutput, context: &str) -> (r: Result<(), GitError>)
    ensures
        match r {
            Ok(()) => success_check(output.timed_out, output.exit_code, output.stderr@, context@)
                is Ok,
            Err(e) => success_check(output.timed_out, output.exit_code, output.stderr@, context@)
                == Err::<(), GitErrorV>(e@),
        },
{
    if output.timed_out {
        return Err(GitError::TimedOut(String::from_str(context)));
    }
    let ok = match output.exit_code {
        Some(c) => c == 0,
        None => false,
    };
    if !ok {
        let err = utf8_lossy_string(output.stderr.as_slice());
        let chars = chars_of(err.as_str());
        let t = trim_chars(chars.as_slice());
        return Err(
            GitError::CommandFailed {
                context: String::from_str(context),
                detail: string_of_all(t.as_slice()),
            },
        );
    }
    Ok(())
}

/// Whether the lower-cased text of some output contains `needle`.
pub open spec fn says(out: Seq<u8>, needle: Seq<char>) -> bool {
    contains_seq(lower(utf8_lossy(out)), needle)
}

fn lowered_text(bytes: &[u8]) -> (r: Vec<char>)
    ensures
        r@ == lower(utf8_lossy(bytes@)),
{
    let s = utf8_lossy_string(bytes);
    let c = chars_of(s.as_str());
    lower_chars(c.as_slice())
}

/// Whether git said there was nothing to commit, on either stream.
pub open spec fn nothing_to_commit_in(stdout: Seq<u8>, stderr: Seq<u8>) -> bool {
    says(stderr, "nothing to commit"@) || says(stdout, "nothing to commit"@)
}

pub fn nothing_to_commit(output: &GitOutput) -> (r: bool)
    ensures
        r == nothing_to_commit_in(output.stdout@, output.stderr@),
{
    let err = lowered_text(output.stderr.as_slice());
    let out = lowered_text(output.stdout.as_slice());
    let needle = chars_of("nothing to commit");
    contains_chars(err.as_slice(), needle.as_slice()) || contains_chars(
        out.as_slice(),
        needle.as_slice(),
    )
}

/// Whether `git log` failed only because there is no history to show.
pub open spec fn log_has_no_history(stderr: Seq<u8>) -> bool {
    says(stderr, "does not have any commits yet"@) || says(stderr, "bad default revision"@)
        || says(stderr, "unknown revision"@) || says(stderr, "ambiguous argument 'head'"@)
}

pub fn log_stderr_means_empty(stderr: &[u8]) -> (r: bool)
    ensures
        r == log_has_no_history(stderr@),
{
    let err = lowered_text(stderr);
    contains_chars(err.as_slice(), chars_of("does not have any commits yet").as_slice())
        || contains_chars(err.as_slice(), chars_of("bad default revision").as_slice())
        || contains_chars(err.as_slice(), chars_of("unknown revision").as_slice())
        || contains_chars(err.as_slice(), chars_of("ambiguous argument 'head'").as_slice())
}

// ------------------------------------------------------------------
// Short statistics
// ------------------------------------------------------------------

/// A line of `--shortstat` output.
pub open spec fn is_stat_line(t: Seq<char>) -> bool {
    contains_seq(t, "file changed"@) || contains_seq(t, "files changed"@)
}

/// The number that starts a part of a statistics line, or 0.
pub open spec fn stat_number(part: Seq<char>) -> u32 {
    let w = words(part, true);
    match parse_u32(
        if w.len() > 0 {
            w[0]
        } else {
            "0"@
        },
    ) {
        Some(n) => n,
        None => 0,
    }
}

/// Files changed, insertions and deletions read from the comma-separated
/// parts of a statistics line.
pub open spec fn stat_fold(parts: Seq<Seq<char>>) -> (u32, u32, u32)
    decreases parts.len(),
{
    if parts.len() == 0 {
        (0, 0, 0)
    } else {
        let prev = stat_fold(parts.drop_last());
        let part = trim(parts.last());
        let n = stat_number(part);
        if contains_seq(part, "file"@) {
            (n, prev.1, prev.2)
        } else if contains_seq(part, "insertion"@) {
            (prev.0, n, prev.2)
        } else if contains_seq(part, "deletion"@) {
            (prev.0, prev.1, n)
        } else {
            prev
        }
    }
}

/// The statistics of the first statistics line among `lines`.
pub open spec fn shortstat_lines(lines: Seq<Seq<char>>) -> (u32, u32, u32)
    decreases lines.len(),
{
    if lines.len() == 0 {
        (0, 0, 0)
    } else if is_stat_line(trim(lines[0])) {
        stat_fold(split_on(trim(lines[0]), ','))
    } else {
        shortstat_lines(lines.drop_first())
    }
}

/// The statistics of ` 5 files changed, 12 insertions(+), 3 deletions(-)`.
pub open spec fn shortstat(tail: Seq<char>) -> (u32, u32, u32) {
    shortstat_lines(line_pieces(tail))
}

fn stat_number_of(part: &[char]) -> (r: u32)
    ensures
        r == stat_number(part@),
{
    let w = words_chars(part, true);
    if w.len() > 0 {
        assert(views(w@)[0] == w@[0]@);
        match parse_u32_chars(w[0].as_slice()) {
            Some(n) => n,
            None => 0,
        }
    } else {
        proof {
            reveal_strlit("0");
            let z = "0"@;
            assert(z.len() == 1 && z[0] == '0');
            assert(crate::text::all_digits(z));
            assert(z.drop_last() =~= Seq::<char>::empty());
            assert(crate::text::decimal_value(z.drop_last()) == 0);
            assert(crate::text::decimal_value(z) == 0);
        }
        0
    }
}

fn stat_values(t: &[char]) -> (r: (u32, u32, u32))
    ensures
        r == stat_fold(split_on(t@, ',')),
{
    let parts = split_chars(t, ',');
    let file = chars_of("file");
    let ins = chars_of("insertion");
    let del = chars_of("deletion");
    let mut acc: (u32, u32, u32) = (0, 0, 0);
    let mut k: usize = 0;
    while k < parts.len()
        invariant
            k <= parts@.len(),
            views(parts@) == split_on(t@, ','),
            file@ == "file"@,
            ins@ == "insertion"@,
            del@ == "deletion"@,
            acc == stat_fold(views(parts@).take(k as int)),
        decreases parts.len() - k,
    {
        assert(views(parts@).take(k + 1).drop_last() =~= views(parts@).take(k as int));
        assert(views(parts@).take(k + 1).last() == parts@[k as int]@);
        let part = trim_chars(parts[k].as_slice());
        let n = stat_number_of(part.as_slice());
        if contains_chars(part.as_slice(), file.as_slice()) {
            acc = (n, acc.1, acc.2);
        } else if contains_chars(part.as_slice(), ins.as_slice()) {
            acc = (acc.0, n, acc.2);
        } else if contains_chars(part.as_slice(), del.as_slice()) {
            acc = (acc.0, acc.1, n);
        }
        k = k + 1;
    }
    assert(views(parts@).take(parts@.len() as int) =~= views(parts@));
    acc
}

fn is_stat_line_chars(t: &[char]) -> (r: bool)
    ensures
        r == is_stat_line(t@),
{
    contains_chars(t, chars_of("file changed").as_slice()) || contains_chars(
        t,
        chars_of("files changed").as_slice(),
    )
}

/// Files changed, insertions and deletions of the first `--shortstat` line of
/// `tail`.
pub fn parse_shortstat(tail: &[char]) -> (r: (u32, u32, u32))
    ensures
        r == shortstat(tail@),
{
    let lines = line_pieces_chars(tail);
    let ghost ls = views(lines@);
    let mut i: usize = 0;
    assert(ls.skip(0) =~= ls);
    while i < lines.len()
        invariant
            i <= lines@.len(),
            ls == views(lines@),
            ls == line_pieces(tail@),
            shortstat_lines(ls) == shortstat_lines(ls.skip(i as int)),
        decreases lines.len() - i,
    {
        let t = trim_chars(lines[i].as_slice());
        assert(ls.skip(i as int)[0] == lines@[i as int]@);
        if is_stat_line_chars(t.as_slice()) {
            let r = stat_values(t.as_slice());
            assert(ls.skip(i as int).len() > 0);
            assert(shortstat_lines(ls.skip(i as int)) == stat_fold(split_on(t@, ',')));
            assert(ls == line_pieces(tail@));
            assert(shortstat(tail@) == shortstat_lines(ls));
            return r;
        }
        assert(ls.skip(i as int).drop_first() =~= ls.skip(i + 1));
        i = i + 1;
    }
    assert(ls.skip(i as int) =~= Seq::<Seq<char>>::empty());
    (0, 0, 0)
}

// ------------------------------------------------------------------
// git log
// ------------------------------------------------------------------

/// The entry a commit header line of `git log --format=%H%x1f%an%x1f%ae%x1f%at%x1f%P%x1f%s`
/// describes; `None` unless it starts with a safe commit identifier.
pub open spec fn log_header(line: Seq<char>) -> Option<LogEntryV> {
    let f = splitn(line, 6, '\x1f');
    let sha = nth_piece(f, 0, Seq::empty());
    if !safe_sha(sha) {
        None
    } else {
        Some(
            LogEntryV {
                sha: sha,
                short_sha: prefix(sha, 7),
                author: nth_piece(f, 1, Seq::empty()),
                author_email: nth_piece(f, 2, Seq::empty()),
                timestamp_secs: if f.len() > 3 {
                    match parse_i64(f[3]) {
                        Some(t) => t,
                        None => 0,
                    }
                } else {
                    0
                },
                parents: words(nth_piece(f, 4, Seq::empty()), true),
                subject: nth_piece(f, 5, Seq::empty()),
                files_changed: 0,
                insertions: 0,
                deletions: 0,
            },
        )
    }
}

/// An entry with the given statistics.
pub open spec fn with_stats(e: LogEntryV, st: (u32, u32, u32)) -> LogEntryV {
    LogEntryV { files_changed: st.0, insertions: st.1, deletions: st.2, ..e }
}

/// The commits that lines of `git log --shortstat` output describe: header
/// lines start entries, statistics lines fill in the entry before them.
pub open spec fn log_entries(lines: Seq<Seq<char>>) -> Seq<LogEntryV>
    decreases lines.len(),
{
    if lines.len() == 0 {
        Seq::empty()
    } else {
        let prev = log_entries(lines.drop_last());
        let line = trim_end_char(lines.last(), '\r');
        if line.len() == 0 {
            prev
        } else if line.contains('\x1f') {
            match log_header(line) {
                Some(e) => prev.push(e),
                None => prev,
            }
        } else if prev.len() > 0 && is_stat_line(line) {
            prev.update(prev.len() - 1, with_stats(prev.last(), shortstat(line)))
        } else {
            prev
        }
    }
}

/// The commits listed in the output of `git log`.
pub open spec fn log_output_entries(stdout: Seq<u8>) -> Seq<LogEntryV> {
    log_entries(line_pieces(utf8_or_empty(stdout)))
}

fn parse_log_header(line: &[char]) -> (r: Option<GitLogEntry>)
    ensures
        match r {
            Some(e) => log_header(line@) == Some(e@),
            None => log_header(line@) is None,
        },
{
    let f = splitn_chars(line, 6, '\x1f');
    let ghost fv = views(f@);
    assert(f@.len() >= 1) by {
        if f@.len() == 0 {
            assert(fv.len() == 0);
        }
    }
    assert(fv[0] == f@[0]@);
    let sha = string_of_all(f[0].as_slice());
    if !sha_is_safe(sha.as_str()) {
        return None;
    }
    let short_len: usize = if f[0].len() <= 7 {
        f[0].len()
    } else {
        7
    };
    let short_sha = crate::text::string_of(f[0].as_slice(), 0, short_len);
    assert(f[0]@.len() <= 7 ==> f[0]@.subrange(0, short_len as int) =~= f[0]@);
    let author = if f.len() > 1 {
        assert(fv[1] == f@[1]@);
        string_of_all(f[1].as_slice())
    } else {
        String::new()
    };
    let email = if f.len() > 2 {
        assert(fv[2] == f@[2]@);
        string_of_all(f[2].as_slice())
    } else {
        String::new()
    };
    let ts: i64 = if f.len() > 3 {
        assert(fv[3] == f@[3]@);
        match parse_i64_chars(f[3].as_slice()) {
            Some(t) => t,
            None => 0,
        }
    } else {
        0
    };
    let parents = if f.len() > 4 {
        assert(fv[4] == f@[4]@);
        let w = words_chars(f[4].as_slice(), true);
        strings_of(&w)
    } else {
        let e: Vec<Vec<char>> = Vec::new();
        assert(views(e@) =~= words(Seq::<char>::empty(), true));
        strings_of(&e)
    };
    let subject = if f.len() > 5 {
        assert(fv[5] == f@[5]@);
        string_of_all(f[5].as_slice())
    } else {
        String::new()
    };
    let e = GitLogEntry {
        sha,
        short_sha,
        author,
        author_email: email,
        timestamp_secs: ts,
        parents,
        subject,
        files_changed: 0,
        insertions: 0,
        deletions: 0,
    };
    assert(e@ == log_header(line@)->0);
    Some(e)
}

/// The commits listed in the output of `git log`.
pub fn parse_log_output(stdout: &[u8]) -> (r: Vec<GitLogEntry>)
    ensures
        log_view(r@) == log_output_entries(stdout@),
{
    let chars = utf8_chars_or_empty(stdout);
    let lines = line_pieces_chars(chars.as_slice());
    let ghost ls = views(lines@);
    let mut entries: Vec<GitLogEntry> = Vec::new();
    let mut i: usize = 0;
    while i < lines.len()
        invariant
            i <= lines@.len(),
            ls == views(lines@),
            log_view(entries@) =~= log_entries(ls.take(i as int)),
        decreases lines.len() - i,
    {
        assert(ls.take(i + 1).drop_last() =~= ls.take(i as int));
        assert(ls.take(i + 1).last() == lines@[i as int]@);
        let k = trim_end_char_len(lines[i].as_slice(), '\r');
        let line = slice_range(lines[i].as_slice(), 0, k);
        if line.len() == 0 {
        } else if crate::text::find_char(line.as_slice(), 0, '\x1f').is_some() {
            assert(line@.contains('\x1f'));
            let ghost before = log_view(entries@);
            match parse_log_header(line.as_slice()) {
                Some(e) => {
                    entries.push(e);
                    assert(log_view(entries@) =~= before.push(entries@.last()@));
                },
                None => {},
            }
        } else {
            assert(!line@.contains('\x1f'));
            if entries.len() > 0 && is_stat_line_chars(line.as_slice()) {
                let st = parse_shortstat(line.as_slice());
                let ghost before = log_view(entries@);
                let mut e = entries.pop().unwrap();
                assert(before.last() == e@);
                e.files_changed = st.0;
                e.insertions = st.1;
                e.deletions = st.2;
                entries.push(e);
                assert(log_view(entries@) =~= before.update(
                    before.len() - 1,
                    with_stats(before.last(), st),
                ));
            }
        }
        i = i + 1;
    }
    assert(ls.take(lines@.len() as int) =~= ls);
    entries
}

// ------------------------------------------------------------------
// git diff-tree --name-status --numstat -z
// ------------------------------------------------------------------

/// Where the `--numstat` records begin: at the start of the first
/// NUL-separated token holding a tab (the end when there is none).
pub open spec fn numstat_start(s: Seq<char>) -> int {
    let t = crate::text::before_first(s, '\t').len();
    if t == s.len() {
        s.len() as int
    } else {
        t - crate::text::after_last(s.subrange(0, t as int), '\0').len()
    }
}

/// A file change as a name-status record gives it.
pub open spec fn change_entry(path: Seq<char>, original: Option<Seq<char>>, c: char) -> FileChangeV {
    FileChangeV {
        path: path,
        original_path: original,
        status: seq![c],
        status_label: status_label(c),
        added: 0,
        removed: 0,
        is_binary: false,
    }
}

/// The file changes that name-status tokens describe: a status token, then
/// the path (or, for renames and copies, the original and the new path).
pub open spec fn name_status_entries(toks: Seq<Seq<char>>) -> Seq<FileChangeV>
    decreases toks.len(),
{
    if toks.len() == 0 {
        Seq::empty()
    } else {
        let c = if toks[0].len() > 0 {
            toks[0][0]
        } else {
            ' '
        };
        if c == 'R' || c == 'C' {
            if toks.len() < 3 {
                Seq::empty()
            } else {
                seq![change_entry(toks[2], Some(toks[1]), c)] + name_status_entries(toks.skip(3))
            }
        } else {
            if toks.len() < 2 {
                Seq::empty()
            } else {
                seq![change_entry(toks[1], None, c)] + name_status_entries(toks.skip(2))
            }
        }
    }
}

/// The non-empty NUL-separated tokens of `s`.
pub open spec fn nul_tokens(s: Seq<char>) -> Seq<Seq<char>> {
    nonempty(split_on(s, '\0'))
}

fn nul_tokens_of(s: &[char]) -> (r: Vec<Vec<char>>)
    ensures
        views(r@) == nul_tokens(s@),
{
    let p = split_chars(s, '\0');
    nonempty_pieces(p)
}

fn char_string(c: char) -> (r: String)
    ensures
        r@ == seq![c],
{
    let mut v: Vec<char> = Vec::new();
    v.push(c);
    assert(v@ =~= seq![c]);
    string_of_all(v.as_slice())
}

/// The file changes listed by `git diff-tree --name-status -z`.
pub fn parse_diff_tree_name_status(s: &[char]) -> (r: Vec<GitCommitFileChange>)
    ensures
        changes_view(r@) == name_status_entries(nul_tokens(s@)),
{
    let toks = nul_tokens_of(s);
    let ghost tv = views(toks@);
    let mut files: Vec<GitCommitFileChange> = Vec::new();
    let mut idx: usize = 0;
    assert(tv.skip(0) =~= tv);
    assert(changes_view(files@) + name_status_entries(tv) =~= name_status_entries(tv));
    while idx < toks.len()
        invariant
            idx <= toks@.len(),
            tv == views(toks@),
            changes_view(files@) + name_status_entries(tv.skip(idx as int)) == name_status_entries(
                tv,
            ),
        ensures
            changes_view(files@) == name_status_entries(tv),
        decreases toks.len() - idx,
    {
        let ghost rest = tv.skip(idx as int);
        assert(rest[0] == toks@[idx as int]@);
        let c = if toks[idx].len() > 0 {
            toks[idx][0]
        } else {
            ' '
        };
        let ghost before = changes_view(files@);
        if c == 'R' || c == 'C' {
            if toks.len() - idx < 3 {
                assert(name_status_entries(rest) =~= Seq::<FileChangeV>::empty());
                assert(before =~= before + Seq::<FileChangeV>::empty());
                assert(changes_view(files@) == name_status_entries(tv));
                break;
            }
            assert(rest[1] == toks@[idx + 1]@ && rest[2] == toks@[idx + 2]@);
            files.push(
                GitCommitFileChange {
                    path: string_of_all(toks[idx + 2].as_slice()),
                    original_path: Some(string_of_all(toks[idx + 1].as_slice())),
                    status: char_string(c),
                    status_label: status_label_for(c),
                    added: 0,
                    removed: 0,
                    is_binary: false,
                },
            );
            assert(rest.skip(3) =~= tv.skip(idx + 3));
            assert(changes_view(files@) =~= before + seq![change_entry(rest[2], Some(rest[1]), c)]);
            idx = idx + 3;
        } else {
            if toks.len() - idx < 2 {
                assert(name_status_entries(rest) =~= Seq::<FileChangeV>::empty());
                assert(before =~= before + Seq::<FileChangeV>::empty());
                assert(changes_view(files@) == name_status_entries(tv));
                break;
            }
            assert(rest[1] == toks@[idx + 1]@);
            files.push(
                GitCommitFileChange {
                    path: string_of_all(toks[idx + 1].as_slice()),
                    original_path: None,
                    status: char_string(c),
                    status_label: status_label_for(c),
                    added: 0,
                    removed: 0,
                    is_binary: false,
                },
            );
            assert(rest.skip(2) =~= tv.skip(idx + 2));
            assert(changes_view(files@) =~= before + seq![change_entry(rest[1], None, c)]);
            idx = idx + 2;
        }
        proof {
            if idx >= toks@.len() {
                assert(tv.skip(idx as int) =~= Seq::<Seq<char>>::empty());
                assert(changes_view(files@) + Seq::<FileChangeV>::empty() =~= changes_view(files@));
            }
        }
    }
    files
}

/// The index of the first change of `path`, or `files.len()` when none.
pub open spec fn first_with_path(files: Seq<FileChangeV>, path: Seq<char>) -> int
    decreases files.len(),
{
    if files.len() == 0 {
        0
    } else if files[0].path == path {
        0
    } else {
        1 + first_with_path(files.drop_first(), path)
    }
}

/// A change with the counts of a numstat record; a rename the record reveals
/// is kept when the change has no original path of its own.
pub open spec fn numstat_update(
    f: FileChangeV,
    added: u32,
    removed: u32,
    binary: bool,
    original: Option<Seq<char>>,
) -> FileChangeV {
    FileChangeV {
        added: added,
        removed: removed,
        is_binary: binary,
        original_path: match (f.original_path, original) {
            (None, Some(o)) => if o.len() > 0 && o != f.path {
                Some(o)
            } else {
                None
            },
            _ => f.original_path,
        },
        ..f
    }
}

/// Applies the numstat records in `toks` to the changes: each record is
/// `<added>\t<removed>\t<path>`, or `<added>\t<removed>\t` followed by the
/// original and the new path as tokens of their own; `-\t-` marks a binary
/// file.
pub open spec fn numstat_apply(files: Seq<FileChangeV>, toks: Seq<Seq<char>>) -> Seq<FileChangeV>
    decreases toks.len(),
{
    if toks.len() == 0 {
        files
    } else {
        let cols = splitn(toks[0], 3, '\t');
        let binary = cols.len() > 1 && cols[0] == seq!['-'] && cols[1] == seq!['-'];
        let added: u32 = if binary || cols.len() == 0 {
            0
        } else {
            match parse_u32(cols[0]) {
                Some(n) => n,
                None => 0,
            }
        };
        let removed: u32 = if binary || cols.len() < 2 {
            0
        } else {
            match parse_u32(cols[1]) {
                Some(n) => n,
                None => 0,
            }
        };
        let inline = nth_piece(cols, 2, Seq::empty());
        let path = if inline.len() == 0 {
            nth_piece(toks, 2, Seq::empty())
        } else {
            inline
        };
        let original = if inline.len() == 0 {
            Some(nth_piece(toks, 1, Seq::empty()))
        } else {
            None
        };
        let used: int = if inline.len() == 0 {
            if toks.len() < 3 {
                toks.len() as int
            } else {
                3
            }
        } else {
            1
        };
        let k = first_with_path(files, path);
        let next = if path.len() == 0 || k >= files.len() {
            files
        } else {
            files.update(k, numstat_update(files[k], added, removed, binary, original))
        };
        numstat_apply(next, toks.skip(used))
    }
}

proof fn lemma_first_with_path(files: Seq<FileChangeV>, path: Seq<char>, k: int)
    requires
        0 <= k <= files.len(),
        forall|j: int| 0 <= j < k ==> files[j].path != path,
        k < files.len() ==> files[k].path == path,
    ensures
        first_with_path(files, path) == k,
    decreases k,
{
    if k > 0 {
        lemma_first_with_path(files.drop_first(), path, k - 1);
    }
}

fn find_change(files: &Vec<GitCommitFileChange>, path: &String) -> (r: usize)
    ensures
        r == first_with_path(changes_view(files@), path@),
        r <= files@.len(),
{
    let mut i: usize = 0;
    while i < files.len()
        invariant
            i <= files@.len(),
            forall|j: int| 0 <= j < i ==> files@[j].path@ != path@,
        decreases files.len() - i,
    {
        if files[i].path == *path {
            proof {
                lemma_first_with_path(changes_view(files@), path@, i as int);
            }
            return i;
        }
        i = i + 1;
    }
    proof {
        lemma_first_with_path(changes_view(files@), path@, i as int);
    }
    i
}

fn is_dash(s: &[char]) -> (r: bool)
    ensures
        r == (s@ == seq!['-']),
{
    let r = s.len() == 1 && s[0] == '-';
    assert(r ==> s@ =~= seq!['-']);
    r
}

/// Applies the `--numstat` records of `s` to the changes.
pub fn apply_numstat(files: &mut Vec<GitCommitFileChange>, s: &[char])
    ensures
        changes_view(final(files)@) == numstat_apply(changes_view(old(files)@), nul_tokens(s@)),
{
    let toks = nul_tokens_of(s);
    let ghost tv = views(toks@);
    let ghost goal = numstat_apply(changes_view(files@), tv);
    let mut idx: usize = 0;
    assert(tv.skip(0) =~= tv);
    while idx < toks.len()
        invariant
            idx <= toks@.len(),
            tv == views(toks@),
            numstat_apply(changes_view(files@), tv.skip(idx as int)) == goal,
        decreases toks.len() - idx,
    {
        let ghost rest = tv.skip(idx as int);
        assert(rest[0] == toks@[idx as int]@);
        let cols = splitn_chars(toks[idx].as_slice(), 3, '\t');
        let ghost cv = views(cols@);
        let binary = cols.len() > 1 && is_dash(cols[0].as_slice()) && is_dash(cols[1].as_slice());
        proof {
            if cols@.len() > 1 {
                assert(cv[0] == cols@[0]@ && cv[1] == cols@[1]@);
            }
        }
        let added: u32 = if binary || cols.len() == 0 {
            0
        } else {
            assert(cv[0] == cols@[0]@);
            match parse_u32_chars(cols[0].as_slice()) {
                Some(n) => n,
                None => 0,
            }
        };
        let removed: u32 = if binary || cols.len() < 2 {
            0
        } else {
            match parse_u32_chars(cols[1].as_slice()) {
                Some(n) => n,
                None => 0,
            }
        };
        let inline_empty = cols.len() < 3 || cols[2].len() == 0;
        proof {
            if cols@.len() >= 3 {
                assert(cv[2] == cols@[2]@);
            }
        }
        let n = toks.len();
        let (path, original, used): (Vec<char>, Option<Vec<char>>, usize) = if inline_empty {
            let orig = if n - idx > 1 {
                assert(rest[1] == toks@[idx + 1]@);
                toks[idx + 1].clone()
            } else {
                Vec::new()
            };
            let p = if n - idx > 2 {
                assert(rest[2] == toks@[idx + 2]@);
                toks[idx + 2].clone()
            } else {
                Vec::new()
            };
            let used: usize = if n - idx < 3 {
                n - idx
            } else {
                3
            };
            (p, Some(orig), used)
        } else {
            (cols[2].clone(), None, 1)
        };
        let ghost before = changes_view(files@);
        if path.len() > 0 {
            let ps = string_of_all(path.as_slice());
            let k = find_change(files, &ps);
            if k < files.len() {
                let ghost fk = files@[k as int]@;
                let keep_original = files[k].original_path.is_some();
                files[k].added = added;
                files[k].removed = removed;
                files[k].is_binary = binary;
                if !keep_original {
                    match original {
                        Some(o) => {
                            let os = string_of_all(o.as_slice());
                            if o.len() > 0 && !(os == files[k].path) {
                                files[k].original_path = Some(os);
                            }
                        },
                        None => {},
                    }
                }
                assert(changes_view(files@) =~= before.update(
                    k as int,
                    numstat_update(
                        fk,
                        added,
                        removed,
                        binary,
                        match original {
                            Some(o) => Some(o@),
                            None => None,
                        },
                    ),
                ));
            }
        }
        assert(rest.skip(used as int) =~= tv.skip(idx + used));
        idx = idx + used;
    }
    assert(tv.skip(idx as int) =~= Seq::<Seq<char>>::empty());
}

/// The files a commit touched, from the output of
/// `git diff-tree --no-commit-id -r -z --name-status --numstat`.
pub open spec fn commit_file_changes(stdout: Seq<u8>) -> Seq<FileChangeV> {
    let s = utf8_or_empty(stdout);
    let p = numstat_start(s);
    numstat_apply(
        name_status_entries(nul_tokens(s.subrange(0, p))),
        nul_tokens(s.subrange(p, s.len() as int)),
    )
}

/// The index where the numstat records begin (see `numstat_start`).
pub fn split_name_status_numstat(s: &[char]) -> (r: usize)
    ensures
        r == numstat_start(s@),
        r <= s@.len(),
{
    let n = s.len();
    match crate::text::find_char(s, 0, '\t') {
        None => {
            proof {
                crate::text::lemma_before_first_absent(s@, '\t');
            }
            n
        },
        Some(t) => {
            proof {
                crate::text::lemma_before_first_found(s@, '\t', t as int);
            }
            let head = slice_range(s, 0, t);
            let after = crate::text::after_last_chars(head.as_slice(), '\0');
            proof {
                crate::text::lemma_after_last_len(head@, '\0');
            }
            t - after.len()
        },
    }
}

/// The files a commit touched, parsed from git's output.
pub fn parse_commit_files(stdout: &[u8]) -> (r: Vec<GitCommitFileChange>)
    ensures
        changes_view(r@) == commit_file_changes(stdout@),
{
    let s = utf8_chars_or_empty(stdout);
    let p = split_name_status_numstat(s.as_slice());
    let head = slice_range(s.as_slice(), 0, p);
    let tail = slice_range(s.as_slice(), p, s.len());
    let mut files = parse_diff_tree_name_status(head.as_slice());
    apply_numstat(&mut files, tail.as_slice());
    files
}

// ------------------------------------------------------------------
// Replies read from git's output and from files
// ------------------------------------------------------------------

/// What the bytes of a file or a blob read as: binary when they hold a NUL
/// byte, else their text.
pub open spec fn text_source_of(bytes: Seq<u8>) -> TextSourceV {
    if bytes.contains(0u8) {
        TextSourceV::Binary
    } else {
        TextSourceV::Text(utf8_lossy(bytes))
    }
}

/// Reads bytes as text, or as binary when they hold a NUL byte.
pub fn read_text(bytes: &[u8]) -> (r: TextSource)
    ensures
        r@ == text_source_of(bytes@),
{
    let mut i: usize = 0;
    while i < bytes.len()
        invariant
            i <= bytes@.len(),
            forall|j: int| 0 <= j < i ==> bytes@[j] != 0u8,
        decreases bytes.len() - i,
    {
        if bytes[i] == 0 {
            assert(bytes@.contains(0u8));
            return TextSource::Binary;
        }
        i = i + 1;
    }
    TextSource::Text(utf8_lossy_string(bytes))
}

/// What `git show <spec>` gives as a side of a diff: its output as text or
/// binary when it succeeded in time, else nothing (the object is missing).
pub open spec fn shown_text(o: GitOutputV) -> TextSourceV {
    if o.exit_code == Some(0i32) && !o.timed_out {
        text_source_of(o.stdout)
    } else {
        TextSourceV::Missing
    }
}

/// Reads the output of `git show <spec>` (see `shown_text`).
pub fn show_text(output: &GitOutput) -> (r: TextSource)
    ensures
        r@ == shown_text(output_view(*output)),
{
    let ok = match output.exit_code {
        Some(c) => c == 0,
        None => false,
    };
    if ok && !output.timed_out {
        read_text(output.stdout.as_slice())
    } else {
        TextSource::Missing
    }
}

/// The first line of git's output, trimmed, when git succeeded in time and
/// that line is not blank.
pub open spec fn first_line_of(o: GitOutputV) -> Option<Seq<char>> {
    if o.exit_code == Some(0i32) && !o.timed_out {
        let l = trim(before_first(utf8_lossy(o.stdout), '\n'));
        if l.len() == 0 {
            None
        } else {
            Some(l)
        }
    } else {
        None
    }
}

/// Reads the first line of git's output (see `first_line_of`).
pub fn first_line(output: &GitOutput) -> (r: Option<String>)
    ensures
        opt_view(r) == first_line_of(output_view(*output)),
{
    let ok = match output.exit_code {
        Some(c) => c == 0,
        None => false,
    };
    if !ok || output.timed_out {
        return None;
    }
    let text = chars_of(utf8_lossy_string(output.stdout.as_slice()).as_str());
    let head = match find_char(text.as_slice(), 0, '\n') {
        Some(k) => {
            proof {
                lemma_before_first_found(text@, '\n', k as int);
            }
            slice_range(text.as_slice(), 0, k)
        },
        None => {
            proof {
                lemma_before_first_absent(text@, '\n');
            }
            text
        },
    };
    let l = trim_chars(head.as_slice());
    if l.len() == 0 {
        None
    } else {
        Some(string_of_all(l.as_slice()))
    }
}

} // verus!
