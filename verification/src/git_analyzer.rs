//! Contribution metrics from version-control history.

use vstd::prelude::*;
use crate::name_map::{Entry, NameMap};
use crate::text::{chars_of, ends_with, has_suffix, holds, str_eq, trim_str, trimmed, CharClass};
use crate::views::{
    first_index, lemma_deep_view_push, lemma_first_index_bounds, lemma_first_index_unique,
};

verus! {

/// Extensions of the files whose history counts.
pub open spec fn code_extensions() -> Seq<Seq<char>> {
    seq![
        ".rs"@,
        ".go"@,
        ".py"@,
        ".js"@,
        ".ts"@,
        ".tsx"@,
        ".jsx"@,
        ".java"@,
        ".c"@,
        ".cpp"@,
        ".h"@,
        ".hpp"@,
        ".cs"@,
        ".rb"@,
        ".php"@,
        ".swift"@,
        ".kt"@,
        ".scala"@,
    ]
}

/// Whether a path ends with one of the code extensions.
pub open spec fn code_file(path: Seq<char>) -> bool {
    exists|i: int| 0 <= i < code_extensions().len() && has_suffix(path, #[trigger] code_extensions()[i])
}

/// Whether the file at `path` is a code file, going by its extension.
pub fn is_code_file(path: &str) -> (r: bool)
    ensures
        r == code_file(path@),
{
    let extensions = vec![
        ".rs",
        ".go",
        ".py",
        ".js",
        ".ts",
        ".tsx",
        ".jsx",
        ".java",
        ".c",
        ".cpp",
        ".h",
        ".hpp",
        ".cs",
        ".rb",
        ".php",
        ".swift",
        ".kt",
        ".scala",
    ];
    assert(extensions.deep_view() =~= code_extensions());
    let text = chars_of(path);
    let mut i: usize = 0;
    while i < extensions.len()
        invariant
            i <= extensions@.len(),
            extensions.deep_view() == code_extensions(),
            text@ == path@,
            forall|j: int| 0 <= j < i ==> !has_suffix(text@, #[trigger] code_extensions()[j]),
        decreases extensions@.len() - i,
    {
        if ends_with(&text, &chars_of(extensions[i])) {
            assert(extensions.deep_view()[i as int] == extensions[i as int]@);
            assert(0 <= i < code_extensions().len() && has_suffix(
                path@,
                code_extensions()[i as int],
            ));
            return true;
        }
        i += 1;
    }
    false
}


/// Number of commit records kept unless the caller says otherwise.
pub const DEFAULT_MAX_COMMITS: usize = 1000;

/// `a + b`, or the largest count when the sum is beyond it.
pub open spec fn capped_sum(a: usize, b: usize) -> usize {
    if a + b <= usize::MAX {
        (a + b) as usize
    } else {
        usize::MAX
    }
}

/// `a + b`, or the largest count when the sum is beyond it.
pub fn add_capped(a: usize, b: usize) -> (r: usize)
    ensures
        r == capped_sum(a, b),
{
    if a <= usize::MAX - b {
        a + b
    } else {
        usize::MAX
    }
}

/// What one author contributed to one file.
#[derive(Debug)]
pub struct ContributorInfo {
    pub email: String,
    pub name: String,
    pub commit_count: usize,
    pub lines_added: usize,
    pub lines_deleted: usize,
}

/// Mathematical value of a [`ContributorInfo`].
pub struct ContributorModel {
    pub email: Seq<char>,
    pub name: Seq<char>,
    pub commit_count: usize,
    pub lines_added: usize,
    pub lines_deleted: usize,
}

impl View for ContributorInfo {
    type V = ContributorModel;

    open spec fn view(&self) -> ContributorModel {
        ContributorModel {
            email: self.email@,
            name: self.name@,
            commit_count: self.commit_count,
            lines_added: self.lines_added,
            lines_deleted: self.lines_deleted,
        }
    }
}

impl DeepView for ContributorInfo {
    type V = ContributorModel;

    open spec fn deep_view(&self) -> ContributorModel {
        self@
    }
}

impl Clone for ContributorInfo {
    fn clone(&self) -> (r: Self)
        ensures
            r@ == self@,
    {
        ContributorInfo {
            email: self.email.clone(),
            name: self.name.clone(),
            commit_count: self.commit_count,
            lines_added: self.lines_added,
            lines_deleted: self.lines_deleted,
        }
    }
}

/// Contribution metrics of one file. Times are seconds since the epoch,
/// UTC.
#[derive(Debug)]
pub struct FileContribution {
    pub file_path: String,
    pub commit_count: usize,
    pub last_modified: i64,
    pub primary_author: String,
    pub contributors: Vec<ContributorInfo>,
    pub lines_added_total: usize,
    pub lines_deleted_total: usize,
    pub lines_changed_total: usize,
}

/// Mathematical value of a [`FileContribution`].
pub struct FileContributionModel {
    pub file_path: Seq<char>,
    pub commit_count: usize,
    pub last_modified: i64,
    pub primary_author: Seq<char>,
    pub contributors: Seq<ContributorModel>,
    pub lines_added_total: usize,
    pub lines_deleted_total: usize,
    pub lines_changed_total: usize,
}

impl View for FileContribution {
    type V = FileContributionModel;

    open spec fn view(&self) -> FileContributionModel {
        FileContributionModel {
            file_path: self.file_path@,
            commit_count: self.commit_count,
            last_modified: self.last_modified,
            primary_author: self.primary_author@,
            contributors: self.contributors.deep_view(),
            lines_added_total: self.lines_added_total,
            lines_deleted_total: self.lines_deleted_total,
            lines_changed_total: self.lines_changed_total,
        }
    }
}

impl DeepView for FileContribution {
    type V = FileContributionModel;

    open spec fn deep_view(&self) -> FileContributionModel {
        self@
    }
}

/// One commit as the history reports it.
#[derive(Debug)]
pub struct CommitRecord {
    pub sha: String,
    pub author_name: String,
    pub author_email: String,
    pub message: String,
    pub authored_at: i64,
    pub changed_files: Vec<String>,
    pub files_changed_count: usize,
}

/// Mathematical value of a [`CommitRecord`].
pub struct CommitRecordModel {
    pub sha: Seq<char>,
    pub author_name: Seq<char>,
    pub author_email: Seq<char>,
    pub message: Seq<char>,
    pub authored_at: i64,
    pub changed_files: Seq<Seq<char>>,
    pub files_changed_count: usize,
}

impl View for CommitRecord {
    type V = CommitRecordModel;

    open spec fn view(&self) -> CommitRecordModel {
        CommitRecordModel {
            sha: self.sha@,
            author_name: self.author_name@,
            author_email: self.author_email@,
            message: self.message@,
            authored_at: self.authored_at,
            changed_files: self.changed_files.deep_view(),
            files_changed_count: self.files_changed_count,
        }
    }
}

impl DeepView for CommitRecord {
    type V = CommitRecordModel;

    open spec fn deep_view(&self) -> CommitRecordModel {
        self@
    }
}

/// Contribution metrics of a repository.
#[derive(Debug)]
pub struct RepoContributions {
    /// File path to the metrics of the file.
    pub files: NameMap<FileContribution>,
    pub total_commits: usize,
    pub total_contributors: usize,
    /// The latest commits, newest first, up to the limit asked for.
    pub commits: Vec<CommitRecord>,
}

/// A line of a diff: the file it belongs to and its origin, `+` for an added
/// line, `-` for a deleted one.
#[derive(Debug)]
pub struct LineChange {
    pub path: String,
    pub origin: char,
}

impl View for LineChange {
    type V = (Seq<char>, char);

    open spec fn view(&self) -> (Seq<char>, char) {
        (self.path@, self.origin)
    }
}

impl DeepView for LineChange {
    type V = (Seq<char>, char);

    open spec fn deep_view(&self) -> (Seq<char>, char) {
        self@
    }
}

/// What the history holds of one commit: who wrote it and when, and its
/// diff against its first parent (against the empty tree for a commit
/// without parent) as the paths of the changed files and the lines of the
/// hunks.
#[derive(Debug)]
pub struct CommitData {
    pub sha: String,
    pub author_email: Option<String>,
    pub author_name: Option<String>,
    pub message: Option<String>,
    pub time: i64,
    pub changed_paths: Vec<String>,
    pub line_changes: Vec<LineChange>,
}

/// Mathematical value of a [`CommitData`].
pub struct CommitModel {
    pub sha: Seq<char>,
    pub author_email: Option<Seq<char>>,
    pub author_name: Option<Seq<char>>,
    pub message: Option<Seq<char>>,
    pub time: i64,
    pub changed_paths: Seq<Seq<char>>,
    pub line_changes: Seq<(Seq<char>, char)>,
}

impl View for CommitData {
    type V = CommitModel;

    open spec fn view(&self) -> CommitModel {
        CommitModel {
            sha: self.sha@,
            author_email: self.author_email.deep_view(),
            author_name: self.author_name.deep_view(),
            message: self.message.deep_view(),
            time: self.time,
            changed_paths: self.changed_paths.deep_view(),
            line_changes: self.line_changes.deep_view(),
        }
    }
}

impl DeepView for CommitData {
    type V = CommitModel;

    open spec fn deep_view(&self) -> CommitModel {
        self@
    }
}

// ---------------------------------------------------------------------------
// Statistics of one file
// ---------------------------------------------------------------------------

/// Running statistics of one file.
#[derive(Debug)]
pub struct FileStats {
    pub commit_count: usize,
    pub last_modified: i64,
    /// The contributors in order of their first commit to the file.
    pub contributors: Vec<ContributorInfo>,
}

/// Mathematical value of a [`FileStats`].
pub struct FileStatsModel {
    pub commit_count: usize,
    pub last_modified: i64,
    pub contributors: Seq<ContributorModel>,
}

impl View for FileStats {
    type V = FileStatsModel;

    open spec fn view(&self) -> FileStatsModel {
        FileStatsModel {
            commit_count: self.commit_count,
            last_modified: self.last_modified,
            contributors: self.contributors.deep_view(),
        }
    }
}

impl DeepView for FileStats {
    type V = FileStatsModel;

    open spec fn deep_view(&self) -> FileStatsModel {
        self@
    }
}

/// The e-mail addresses of the contributors, in order.
pub open spec fn emails(contributors: Seq<ContributorModel>) -> Seq<Seq<char>> {
    Seq::new(contributors.len(), |i: int| contributors[i].email)
}

/// Statistics of a file before its first commit.
pub open spec fn no_stats() -> FileStatsModel {
    FileStatsModel { commit_count: 0, last_modified: 0, contributors: Seq::empty() }
}

/// The statistics after one more commit by the given author: one commit
/// more for the file and for the author, who joins the contributors with
/// this commit if new, and the later of the two times.
pub open spec fn after_commit(
    stats: FileStatsModel,
    email: Seq<char>,
    name: Seq<char>,
    time: i64,
) -> FileStatsModel {
    let at = first_index(emails(stats.contributors), email);
    FileStatsModel {
        commit_count: capped_sum(stats.commit_count, 1),
        last_modified: if time > stats.last_modified {
            time
        } else {
            stats.last_modified
        },
        contributors: if at < stats.contributors.len() {
            stats.contributors.update(
                at,
                ContributorModel {
                    commit_count: capped_sum(stats.contributors[at].commit_count, 1),
                    ..stats.contributors[at]
                },
            )
        } else {
            stats.contributors.push(
                ContributorModel { email, name, commit_count: 1, lines_added: 0, lines_deleted: 0 },
            )
        },
    }
}

/// The statistics after `count` more lines added by the author. Lines of an
/// author who has no commit to the file are not counted.
pub open spec fn after_added(stats: FileStatsModel, email: Seq<char>, count: usize) -> FileStatsModel {
    let at = first_index(emails(stats.contributors), email);
    if at < stats.contributors.len() {
        FileStatsModel {
            contributors: stats.contributors.update(
                at,
                ContributorModel {
                    lines_added: capped_sum(stats.contributors[at].lines_added, count),
                    ..stats.contributors[at]
                },
            ),
            ..stats
        }
    } else {
        stats
    }
}

/// The statistics after `count` more lines deleted by the author.
pub open spec fn after_deleted(stats: FileStatsModel, email: Seq<char>, count: usize) -> FileStatsModel {
    let at = first_index(emails(stats.contributors), email);
    if at < stats.contributors.len() {
        FileStatsModel {
            contributors: stats.contributors.update(
                at,
                ContributorModel {
                    lines_deleted: capped_sum(stats.contributors[at].lines_deleted, count),
                    ..stats.contributors[at]
                },
            ),
            ..stats
        }
    } else {
        stats
    }
}

/// `sorted` with `c` placed behind every entry that has at least as many
/// commits.
pub open spec fn placed(sorted: Seq<ContributorModel>, c: ContributorModel) -> Seq<ContributorModel>
    decreases sorted.len(),
{
    if sorted.len() > 0 && sorted.last().commit_count < c.commit_count {
        placed(sorted.drop_last(), c).push(sorted.last())
    } else {
        sorted.push(c)
    }
}

/// The contributors ordered by commit count, most first; contributors with
/// the same count keep their order.
pub open spec fn by_commits(contributors: Seq<ContributorModel>) -> Seq<ContributorModel>
    decreases contributors.len(),
{
    if contributors.len() == 0 {
        Seq::empty()
    } else {
        placed(by_commits(contributors.drop_last()), contributors.last())
    }
}

/// Sum of the added lines, capped.
pub open spec fn total_added(contributors: Seq<ContributorModel>) -> usize
    decreases contributors.len(),
{
    if contributors.len() == 0 {
        0
    } else {
        capped_sum(total_added(contributors.drop_last()), contributors.last().lines_added)
    }
}

/// Sum of the deleted lines, capped.
pub open spec fn total_deleted(contributors: Seq<ContributorModel>) -> usize
    decreases contributors.len(),
{
    if contributors.len() == 0 {
        0
    } else {
        capped_sum(total_deleted(contributors.drop_last()), contributors.last().lines_deleted)
    }
}

/// The contribution metrics that running statistics amount to: the
/// contributors by commit count, the first of them as primary author
/// (`unknown` if there is none), and the line totals.
pub open spec fn contribution_of(stats: FileStatsModel, path: Seq<char>) -> FileContributionModel {
    let ranked = by_commits(stats.contributors);
    FileContributionModel {
        file_path: path,
        commit_count: stats.commit_count,
        last_modified: stats.last_modified,
        primary_author: if ranked.len() > 0 {
            ranked[0].email
        } else {
            "unknown"@
        },
        contributors: ranked,
        lines_added_total: total_added(ranked),
        lines_deleted_total: total_deleted(ranked),
        lines_changed_total: capped_sum(total_added(ranked), total_deleted(ranked)),
    }
}

proof fn lemma_placed(sorted: Seq<ContributorModel>, c: ContributorModel, p: int)
    requires
        0 <= p <= sorted.len(),
        forall|j: int| p <= j < sorted.len() ==> sorted[j].commit_count < c.commit_count,
        p > 0 ==> sorted[p - 1].commit_count >= c.commit_count,
    ensures
        placed(sorted, c) == sorted.insert(p, c),
    decreases sorted.len() - p,
{
    if p < sorted.len() {
        lemma_placed(sorted.drop_last(), c, p);
        assert(sorted.drop_last().insert(p, c).push(sorted.last()) =~= sorted.insert(p, c));
    } else {
        assert(sorted.push(c) =~= sorted.insert(p, c));
    }
}

/// Position of the contributor with the given e-mail address.
fn find_contributor(contributors: &Vec<ContributorInfo>, email: &str) -> (r: Option<usize>)
    ensures
        match r {
            Some(i) => i < contributors@.len() && i == first_index(
                emails(contributors.deep_view()),
                email@,
            ),
            None => first_index(emails(contributors.deep_view()), email@) == contributors@.len(),
        },
{
    let ghost list = emails(contributors.deep_view());
    let mut i: usize = 0;
    while i < contributors.len()
        invariant
            i <= contributors@.len(),
            list == emails(contributors.deep_view()),
            forall|j: int| 0 <= j < i ==> list[j] != email@,
        decreases contributors@.len() - i,
    {
        if str_eq(contributors[i].email.as_str(), email) {
            proof {
                lemma_first_index_unique(list, email@, i as int);
            }
            return Some(i);
        }
        i += 1;
    }
    proof {
        lemma_first_index_unique(list, email@, i as int);
    }
    None
}

impl FileStats {
    /// Statistics of a file before its first commit.
    pub fn new() -> (stats: Self)
        ensures
            stats@ == no_stats(),
    {
        let stats = FileStats { commit_count: 0, last_modified: 0, contributors: Vec::new() };
        assert(stats.contributors.deep_view() =~= Seq::empty());
        stats
    }

    /// Counts one more commit by the given author.
    pub fn update_from_commit(&mut self, author_email: &str, author_name: &str, commit_time: i64)
        ensures
            final(self)@ == after_commit(old(self)@, author_email@, author_name@, commit_time),
    {
        self.commit_count = add_capped(self.commit_count, 1);
        if commit_time > self.last_modified {
            self.last_modified = commit_time;
        }
        let ghost before = self.contributors.deep_view();
        match find_contributor(&self.contributors, author_email) {
            Some(i) => {
                let count = add_capped(self.contributors[i].commit_count, 1);
                self.contributors[i].commit_count = count;
                assert(self.contributors.deep_view() =~= before.update(
                    i as int,
                    ContributorModel { commit_count: count, ..before[i as int] },
                ));
            },
            None => {
                let joined = ContributorInfo {
                    email: author_email.to_string(),
                    name: author_name.to_string(),
                    commit_count: 1,
                    lines_added: 0,
                    lines_deleted: 0,
                };
                proof {
                    lemma_deep_view_push(
                        self.contributors@,
                        self.contributors@.push(joined),
                        joined,
                    );
                }
                self.contributors.push(joined);
            },
        }
    }

    /// Counts lines added by the given author.
    pub fn add_lines(&mut self, author_email: &str, count: usize)
        ensures
            final(self)@ == after_added(old(self)@, author_email@, count),
    {
        let ghost before = self.contributors.deep_view();
        match find_contributor(&self.contributors, author_email) {
            Some(i) => {
                let lines = add_capped(self.contributors[i].lines_added, count);
                self.contributors[i].lines_added = lines;
                assert(self.contributors.deep_view() =~= before.update(
                    i as int,
                    ContributorModel { lines_added: lines, ..before[i as int] },
                ));
            },
            None => {},
        }
    }

    /// Counts lines deleted by the given author.
    pub fn delete_lines(&mut self, author_email: &str, count: usize)
        ensures
            final(self)@ == after_deleted(old(self)@, author_email@, count),
    {
        let ghost before = self.contributors.deep_view();
        match find_contributor(&self.contributors, author_email) {
            Some(i) => {
                let lines = add_capped(self.contributors[i].lines_deleted, count);
                self.contributors[i].lines_deleted = lines;
                assert(self.contributors.deep_view() =~= before.update(
                    i as int,
                    ContributorModel { lines_deleted: lines, ..before[i as int] },
                ));
            },
            None => {},
        }
    }

    /// The contribution metrics these statistics amount to.
    pub fn to_contribution(self, path: String) -> (contribution: FileContribution)
        ensures
            contribution@ == contribution_of(self@, path@),
    {
        let contributors = sort_by_commits(self.contributors);
        let primary_author = if contributors.len() > 0 {
            contributors[0].email.clone()
        } else {
            "unknown".to_string()
        };
        let ghost ranked = contributors.deep_view();
        let mut lines_added_total: usize = 0;
        let mut lines_deleted_total: usize = 0;
        let mut i: usize = 0;
        while i < contributors.len()
            invariant
                i <= contributors@.len(),
                ranked == contributors.deep_view(),
                lines_added_total == total_added(ranked.take(i as int)),
                lines_deleted_total == total_deleted(ranked.take(i as int)),
            decreases contributors@.len() - i,
        {
            proof {
                assert(ranked.take(i + 1).drop_last() =~= ranked.take(i as int));
                assert(ranked.take(i + 1).last() == contributors[i as int]@);
            }
            lines_added_total = add_capped(lines_added_total, contributors[i].lines_added);
            lines_deleted_total = add_capped(lines_deleted_total, contributors[i].lines_deleted);
            i += 1;
        }
        assert(ranked.take(i as int) =~= ranked);
        FileContribution {
            file_path: path,
            commit_count: self.commit_count,
            last_modified: self.last_modified,
            primary_author,
            contributors,
            lines_added_total,
            lines_deleted_total,
            lines_changed_total: add_capped(lines_added_total, lines_deleted_total),
        }
    }
}

/// Orders contributors by commit count, most first; contributors with the
/// same count keep their order.
pub fn sort_by_commits(contributors: Vec<ContributorInfo>) -> (ranked: Vec<ContributorInfo>)
    ensures
        ranked.deep_view() == by_commits(contributors.deep_view()),
{
    let mut ranked: Vec<ContributorInfo> = Vec::new();
    let ghost all = contributors.deep_view();
    assert(ranked.deep_view() =~= by_commits(all.take(0)));
    for c in it: contributors
        invariant
            it.seq() == contributors@,
            all == contributors.deep_view(),
            ranked.deep_view() == by_commits(all.take(it.index() as int)),
    {
        let ghost done = it.index() as int;
        let ghost sorted = ranked.deep_view();
        let mut p: usize = ranked.len();
        while p > 0 && ranked[p - 1].commit_count < c.commit_count
            invariant
                p <= ranked@.len(),
                sorted == ranked.deep_view(),
                forall|j: int| p <= j < ranked@.len() ==> sorted[j].commit_count < c.commit_count,
            decreases p,
        {
            p -= 1;
        }
        proof {
            lemma_placed(sorted, c@, p as int);
            assert(all.take(done + 1).drop_last() =~= all.take(done));
            assert(all.take(done + 1).last() == c@);
        }
        let ghost before = ranked@;
        ranked.insert(p, c);
        assert(ranked.deep_view() =~= sorted.insert(p as int, c@)) by {
            assert forall|j: int| 0 <= j < ranked@.len() implies ranked.deep_view()[j]
                == sorted.insert(p as int, c@)[j] by {
                if j < p {
                    assert(ranked@[j] == before[j]);
                } else if j > p {
                    assert(ranked@[j] == before[j - 1]);
                }
            }
        }
    }
    assert(all.take(contributors@.len() as int) =~= all);
    ranked
}


// ---------------------------------------------------------------------------
// Statistics of a history
// ---------------------------------------------------------------------------

/// Running statistics per file path, in order of first appearance.
pub type StatsModel = Seq<(Seq<char>, FileStatsModel)>;

/// The paths that have statistics, in order.
pub open spec fn stat_paths(files: StatsModel) -> Seq<Seq<char>> {
    Seq::new(files.len(), |i: int| files[i].0)
}

/// The paths that are code files, in order.
pub open spec fn code_paths(paths: Seq<Seq<char>>) -> Seq<Seq<char>>
    decreases paths.len(),
{
    if paths.len() == 0 {
        Seq::empty()
    } else if code_file(paths.last()) {
        code_paths(paths.drop_last()).push(paths.last())
    } else {
        code_paths(paths.drop_last())
    }
}

/// The statistics after one more commit to the file at `path`.
pub open spec fn touched(
    files: StatsModel,
    path: Seq<char>,
    email: Seq<char>,
    name: Seq<char>,
    time: i64,
) -> StatsModel {
    let at = first_index(stat_paths(files), path);
    if at < files.len() {
        files.update(at, (path, after_commit(files[at].1, email, name, time)))
    } else {
        files.push((path, after_commit(no_stats(), email, name, time)))
    }
}

/// The statistics after one more commit to each of the files.
pub open spec fn touched_all(
    files: StatsModel,
    paths: Seq<Seq<char>>,
    email: Seq<char>,
    name: Seq<char>,
    time: i64,
) -> StatsModel
    decreases paths.len(),
{
    if paths.len() == 0 {
        files
    } else {
        touched(touched_all(files, paths.drop_last(), email, name, time), paths.last(), email, name, time)
    }
}

/// The statistics after one line of a diff: an added or deleted line of a
/// code file that has statistics is counted for the author.
pub open spec fn line_counted(files: StatsModel, line: (Seq<char>, char), email: Seq<char>) -> StatsModel {
    let at = first_index(stat_paths(files), line.0);
    if code_file(line.0) && at < files.len() {
        if line.1 == '+' {
            files.update(at, (files[at].0, after_added(files[at].1, email, 1)))
        } else if line.1 == '-' {
            files.update(at, (files[at].0, after_deleted(files[at].1, email, 1)))
        } else {
            files
        }
    } else {
        files
    }
}

/// The statistics after the lines of a diff.
pub open spec fn lines_counted(files: StatsModel, lines: Seq<(Seq<char>, char)>, email: Seq<char>) -> StatsModel
    decreases lines.len(),
{
    if lines.len() == 0 {
        files
    } else {
        line_counted(lines_counted(files, lines.drop_last(), email), lines.last(), email)
    }
}

/// A text that may be missing, with `unknown` in its place.
pub open spec fn or_unknown(text: Option<Seq<char>>) -> Seq<char> {
    match text {
        Some(t) => t,
        None => "unknown"@,
    }
}

/// The statistics after a commit: every changed code file has one commit
/// more by the author, then the lines of the diff are counted.
pub open spec fn commit_counted(files: StatsModel, commit: CommitModel) -> StatsModel {
    let email = or_unknown(commit.author_email);
    lines_counted(
        touched_all(
            files,
            code_paths(commit.changed_paths),
            email,
            or_unknown(commit.author_name),
            commit.time,
        ),
        commit.line_changes,
        email,
    )
}

/// The record of a commit: its changed code files and its message without
/// surrounding whitespace.
pub open spec fn record_of(commit: CommitModel) -> CommitRecordModel {
    CommitRecordModel {
        sha: commit.sha,
        author_name: or_unknown(commit.author_name),
        author_email: or_unknown(commit.author_email),
        message: trimmed(
            match commit.message {
                Some(m) => m,
                None => Seq::empty(),
            },
        ),
        authored_at: commit.time,
        changed_files: code_paths(commit.changed_paths),
        files_changed_count: code_paths(commit.changed_paths).len() as usize,
    }
}

/// The code files among the paths.
pub fn code_files_of(paths: &Vec<String>) -> (out: Vec<String>)
    ensures
        out.deep_view() == code_paths(paths.deep_view()),
{
    let mut out: Vec<String> = Vec::new();
    let ghost all = paths.deep_view();
    let mut i: usize = 0;
    assert(out.deep_view() =~= code_paths(all.take(0)));
    while i < paths.len()
        invariant
            i <= paths@.len(),
            all == paths.deep_view(),
            out.deep_view() == code_paths(all.take(i as int)),
        decreases paths@.len() - i,
    {
        proof {
            assert(all.take(i + 1).drop_last() =~= all.take(i as int));
            assert(all.take(i + 1).last() == paths[i as int]@);
        }
        if is_code_file(paths[i].as_str()) {
            let path = paths[i].clone();
            proof {
                lemma_deep_view_push(out@, out@.push(path), path);
            }
            out.push(path);
        }
        i += 1;
    }
    assert(all.take(i as int) =~= all);
    out
}

/// Counts one more commit to the file at `path`.
fn touch(file_stats: &mut NameMap<FileStats>, path: &String, email: &str, name: &str, time: i64)
    ensures
        final(file_stats).deep_view() == touched(
            old(file_stats).deep_view(),
            path@,
            email@,
            name@,
            time,
        ),
{
    let ghost before = file_stats.deep_view();
    assert(stat_paths(before) =~= old(file_stats).names());
    let slot = file_stats.slot_or_insert(path.clone(), FileStats::new());
    let ghost mid = file_stats.deep_view();
    file_stats.entries[slot].value.update_from_commit(email, name, time);
    proof {
        lemma_first_index_bounds(old(file_stats).names(), path@);
        if old(file_stats).has(path@) {
            assert(mid =~= before);
            assert(file_stats.deep_view() =~= before.update(
                slot as int,
                (path@, after_commit(before[slot as int].1, email@, name@, time)),
            ));
        } else {
            assert(mid =~= before.push((path@, no_stats())));
            assert(file_stats.deep_view() =~= before.push(
                (path@, after_commit(no_stats(), email@, name@, time)),
            ));
        }
    }
}

/// Counts one line of a diff.
fn count_line(file_stats: &mut NameMap<FileStats>, line: &LineChange, email: &str)
    ensures
        final(file_stats).deep_view() == line_counted(old(file_stats).deep_view(), line@, email@),
{
    let ghost before = file_stats.deep_view();
    assert(stat_paths(before) =~= old(file_stats).names());
    if !is_code_file(line.path.as_str()) {
        return ;
    }
    match file_stats.find(line.path.as_str()) {
        Some(slot) => {
            if line.origin == '+' {
                file_stats.entries[slot].value.add_lines(email, 1);
                assert(file_stats.deep_view() =~= before.update(
                    slot as int,
                    (before[slot as int].0, after_added(before[slot as int].1, email@, 1)),
                ));
            } else if line.origin == '-' {
                file_stats.entries[slot].value.delete_lines(email, 1);
                assert(file_stats.deep_view() =~= before.update(
                    slot as int,
                    (before[slot as int].0, after_deleted(before[slot as int].1, email@, 1)),
                ));
            }
        },
        None => {
            proof {
                lemma_first_index_bounds(old(file_stats).names(), line.path@);
            }
        },
    }
}

/// A text that may be missing, with `unknown` in its place.
fn text_or_unknown(text: &Option<String>) -> (r: String)
    ensures
        r@ == or_unknown(text.deep_view()),
{
    match text {
        Some(t) => t.clone(),
        None => "unknown".to_string(),
    }
}

/// Takes one commit into the statistics and returns its record. The
/// author joins `all_contributors` unless already there.
fn process_commit(
    commit: &CommitData,
    file_stats: &mut NameMap<FileStats>,
    all_contributors: &mut Vec<String>,
    Ghost(authors): Ghost<Seq<Seq<char>>>,
) -> (record: CommitRecord)
    requires
        old(all_contributors).deep_view() == crate::text::distinct(authors),
    ensures
        record@ == record_of(commit@),
        final(file_stats).deep_view() == commit_counted(old(file_stats).deep_view(), commit@),
        final(all_contributors).deep_view() == crate::text::distinct(
            authors.push(or_unknown(commit@.author_email)),
        ),
{
    let author_email = text_or_unknown(&commit.author_email);
    let author_name = text_or_unknown(&commit.author_name);
    let message = match &commit.message {
        Some(m) => trim_str(m.as_str(), CharClass::Space),
        None => {
            proof {
                reveal_strlit("");
            }
            assert(""@ =~= Seq::<char>::empty());
            trim_str("", CharClass::Space)
        },
    };
    crate::text::push_distinct(all_contributors, author_email.clone(), Ghost(authors));

    let files_changed = code_files_of(&commit.changed_paths);
    let ghost start = file_stats.deep_view();
    let ghost paths = files_changed.deep_view();
    let mut i: usize = 0;
    while i < files_changed.len()
        invariant
            i <= files_changed@.len(),
            paths == files_changed.deep_view(),
            file_stats.deep_view() == touched_all(
                start,
                paths.take(i as int),
                author_email@,
                author_name@,
                commit.time,
            ),
        decreases files_changed@.len() - i,
    {
        proof {
            assert(paths.take(i + 1).drop_last() =~= paths.take(i as int));
            assert(paths.take(i + 1).last() == files_changed[i as int]@);
        }
        touch(
            file_stats,
            &files_changed[i],
            author_email.as_str(),
            author_name.as_str(),
            commit.time,
        );
        i += 1;
    }
    assert(paths.take(i as int) =~= paths);

    let ghost touched_stats = file_stats.deep_view();
    let ghost lines = commit.line_changes.deep_view();
    let mut k: usize = 0;
    while k < commit.line_changes.len()
        invariant
            k <= commit.line_changes@.len(),
            lines == commit.line_changes.deep_view(),
            file_stats.deep_view() == lines_counted(touched_stats, lines.take(k as int), author_email@),
        decreases commit.line_changes@.len() - k,
    {
        proof {
            assert(lines.take(k + 1).drop_last() =~= lines.take(k as int));
            assert(lines.take(k + 1).last() == commit.line_changes[k as int]@);
        }
        count_line(file_stats, &commit.line_changes[k], author_email.as_str());
        k += 1;
    }
    assert(lines.take(k as int) =~= lines);

    CommitRecord {
        sha: commit.sha.clone(),
        author_name,
        author_email,
        message,
        authored_at: commit.time,
        files_changed_count: files_changed.len(),
        changed_files: files_changed,
    }
}


/// The statistics after the commits, taken in order.
pub open spec fn history_stats(commits: Seq<CommitModel>) -> StatsModel
    decreases commits.len(),
{
    if commits.len() == 0 {
        Seq::empty()
    } else {
        commit_counted(history_stats(commits.drop_last()), commits.last())
    }
}

/// The author of each commit, in order.
pub open spec fn authors_of(commits: Seq<CommitModel>) -> Seq<Seq<char>> {
    Seq::new(commits.len(), |i: int| or_unknown(commits[i].author_email))
}

/// The records of the first `limit` commits.
pub open spec fn kept_records(commits: Seq<CommitModel>, limit: usize) -> Seq<CommitRecordModel> {
    Seq::new(
        if commits.len() <= limit {
            commits.len()
        } else {
            limit as nat
        },
        |i: int| record_of(commits[i]),
    )
}

/// The contribution metrics of each file that has statistics.
pub open spec fn contributions_of(files: StatsModel) -> Seq<(Seq<char>, FileContributionModel)> {
    Seq::new(files.len(), |i: int| (files[i].0, contribution_of(files[i].1, files[i].0)))
}

/// Analyzer of a commit history.
#[derive(Debug)]
pub struct GitAnalyzer {
    /// The commits as a walk from the head yields them, newest first.
    pub commits: Vec<CommitData>,
}

impl GitAnalyzer {
    /// An analyzer of the given history.
    pub fn new(commits: Vec<CommitData>) -> (analyzer: Self)
        ensures
            analyzer.commits == commits,
    {
        GitAnalyzer { commits }
    }

    /// The contribution metrics of the history, with the records of its
    /// latest thousand commits.
    pub fn analyze_contributions(&self) -> (r: RepoContributions)
        ensures
            r.files.deep_view() == contributions_of(history_stats(self.commits.deep_view())),
            r.total_commits == self.commits@.len(),
            r.total_contributors == crate::text::distinct(authors_of(self.commits.deep_view())).len(),
            r.commits.deep_view() == kept_records(self.commits.deep_view(), DEFAULT_MAX_COMMITS),
    {
        self.analyze_contributions_with_limit(DEFAULT_MAX_COMMITS)
    }

    /// The contribution metrics of the history. Every commit counts for the
    /// statistics; only the records of the first `max_commits` are kept.
    pub fn analyze_contributions_with_limit(&self, max_commits: usize) -> (r: RepoContributions)
        ensures
            r.files.deep_view() == contributions_of(history_stats(self.commits.deep_view())),
            r.total_commits == self.commits@.len(),
            r.total_contributors == crate::text::distinct(authors_of(self.commits.deep_view())).len(),
            r.commits.deep_view() == kept_records(self.commits.deep_view(), max_commits),
    {
        let mut file_stats: NameMap<FileStats> = NameMap::new();
        let mut all_contributors: Vec<String> = Vec::new();
        let mut commits: Vec<CommitRecord> = Vec::new();
        let ghost all = self.commits.deep_view();
        let mut i: usize = 0;
        assert(file_stats.deep_view() =~= history_stats(all.take(0)));
        assert(all_contributors.deep_view() =~= crate::text::distinct(authors_of(all.take(0))));
        assert(commits.deep_view() =~= kept_records(all.take(0), max_commits));
        while i < self.commits.len()
            invariant
                i <= self.commits@.len(),
                all == self.commits.deep_view(),
                file_stats.deep_view() == history_stats(all.take(i as int)),
                all_contributors.deep_view() == crate::text::distinct(authors_of(all.take(i as int))),
                commits.deep_view() == kept_records(all.take(i as int), max_commits),
            decreases self.commits@.len() - i,
        {
            proof {
                assert(all.take(i + 1).drop_last() =~= all.take(i as int));
                assert(all.take(i + 1).last() == self.commits[i as int]@);
                assert(authors_of(all.take(i + 1)) =~= authors_of(all.take(i as int)).push(
                    or_unknown(self.commits[i as int]@.author_email),
                ));
            }
            let record = process_commit(
                &self.commits[i],
                &mut file_stats,
                &mut all_contributors,
                Ghost(authors_of(all.take(i as int))),
            );
            if max_commits > 0 && commits.len() < max_commits {
                proof {
                    lemma_deep_view_push(commits@, commits@.push(record), record);
                }
                commits.push(record);
            }
            assert(commits.deep_view() =~= kept_records(all.take(i + 1), max_commits));
            i += 1;
        }
        assert(all.take(i as int) =~= all);

        let total_contributors = all_contributors.len();
        let ghost stats = file_stats.deep_view();
        let mut files: NameMap<FileContribution> = NameMap::new();
        let ghost entries = file_stats.entries@;
        for entry in it: file_stats.entries
            invariant
                it.seq() == entries,
                stats.len() == entries.len(),
                forall|j: int|
                    0 <= j < entries.len() ==> stats[j] == (
                        (#[trigger] entries[j]).name@,
                        entries[j].value@,
                    ),
                files.entries@.len() == it.index(),
                forall|j: int|
                    0 <= j < it.index() ==> (#[trigger] files.entries@[j]).name@ == stats[j].0
                        && files.entries@[j].value@ == contribution_of(stats[j].1, stats[j].0),
        {
            let path = entry.name.clone();
            let contribution = entry.value.to_contribution(entry.name);
            files.entries.push(Entry { name: path, value: contribution });
        }
        assert(files.deep_view() =~= contributions_of(stats));
        RepoContributions { files, total_commits: i, total_contributors, commits }
    }
}


/// Whether contributors stand in order of commit count, most first.
pub open spec fn ranked_by_commits(contributors: Seq<ContributorModel>) -> bool {
    forall|i: int, j: int|
        0 <= i < j < contributors.len() ==> contributors[i].commit_count
            >= contributors[j].commit_count
}

proof fn lemma_placed_ranked(sorted: Seq<ContributorModel>, c: ContributorModel)
    requires
        ranked_by_commits(sorted),
    ensures
        ranked_by_commits(placed(sorted, c)),
        placed(sorted, c).to_multiset() == sorted.to_multiset().insert(c),
        placed(sorted, c).len() == sorted.len() + 1,
        forall|k: int|
            0 <= k < placed(sorted, c).len() ==> (#[trigger] placed(sorted, c)[k]).commit_count
                >= c.commit_count || (exists|m: int|
                0 <= m < sorted.len() && sorted[m] == placed(sorted, c)[k]),
    decreases sorted.len(),
{
    broadcast use vstd::seq_lib::to_multiset_build;

    if sorted.len() > 0 && sorted.last().commit_count < c.commit_count {
        let rest = sorted.drop_last();
        let inner = placed(rest, c);
        assert(ranked_by_commits(rest)) by {
            assert forall|i: int, j: int| 0 <= i < j < rest.len() implies rest[i].commit_count
                >= rest[j].commit_count by {
                assert(rest[i] == sorted[i] && rest[j] == sorted[j]);
            }
        }
        lemma_placed_ranked(rest, c);
        let out = inner.push(sorted.last());
        assert(sorted =~= rest.push(sorted.last()));
        assert forall|i: int, j: int| 0 <= i < j < out.len() implies out[i].commit_count
            >= out[j].commit_count by {
            if j < inner.len() {
                assert(out[i] == inner[i] && out[j] == inner[j]);
            } else {
                assert(out[i] == inner[i]);
                if inner[i].commit_count < c.commit_count {
                    let m = choose|m: int| 0 <= m < rest.len() && rest[m] == inner[i];
                    assert(sorted[m] == rest[m]);
                    assert(sorted[m].commit_count >= sorted[sorted.len() - 1].commit_count);
                }
            }
        }
        assert forall|k: int| 0 <= k < out.len() implies (#[trigger] out[k]).commit_count
            >= c.commit_count || (exists|m: int| 0 <= m < sorted.len() && sorted[m] == out[k]) by {
            if k < inner.len() {
                assert(out[k] == inner[k]);
                if inner[k].commit_count < c.commit_count {
                    let m = choose|m: int| 0 <= m < rest.len() && rest[m] == inner[k];
                    assert(sorted[m] == out[k]);
                }
            } else {
                assert(sorted[sorted.len() - 1] == out[k]);
            }
        }
        assert(out.to_multiset() =~= sorted.to_multiset().insert(c));
    } else {
        let out = sorted.push(c);
        assert forall|i: int, j: int| 0 <= i < j < out.len() implies out[i].commit_count
            >= out[j].commit_count by {
            if j < sorted.len() {
                assert(out[i] == sorted[i] && out[j] == sorted[j]);
            } else {
                assert(out[i] == sorted[i]);
                assert(sorted[i].commit_count >= sorted[sorted.len() - 1].commit_count);
            }
        }
        assert forall|k: int| 0 <= k < out.len() implies (#[trigger] out[k]).commit_count
            >= c.commit_count || (exists|m: int| 0 <= m < sorted.len() && sorted[m] == out[k]) by {
            if k < sorted.len() {
                assert(sorted[k] == out[k]);
            }
        }
    }
}

/// Ranking orders and keeps: the contributors ordered by commit count
/// stand in order, most commits first, and are the very same contributors.
pub proof fn law_ranking_orders_and_keeps(contributors: Seq<ContributorModel>)
    ensures
        ranked_by_commits(by_commits(contributors)),
        by_commits(contributors).to_multiset() == contributors.to_multiset(),
        by_commits(contributors).len() == contributors.len(),
    decreases contributors.len(),
{
    broadcast use vstd::seq_lib::to_multiset_build;

    if contributors.len() > 0 {
        let rest = contributors.drop_last();
        law_ranking_orders_and_keeps(rest);
        lemma_placed_ranked(by_commits(rest), contributors.last());
        assert(contributors =~= rest.push(contributors.last()));
    } else {
        assert(by_commits(contributors) =~= contributors);
    }
}

} // verus!
