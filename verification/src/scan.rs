//! The scanner's decisions: how git's answers become a dashboard row, when a
//! fetch is due, and which directories are looked at.

use vstd::prelude::*;

use crate::order::{
    is_stable_sort, key_le, key_views, sort_by_keys, stable_sort_by, KeyView, SortKey,
};
use crate::repo::{placeholder_view, state_rank, Repo, RepoView, State};
use crate::text::{
    chars_of, decode_lossy, lossy_utf8, lowercase, lowercase_chars, parse_u32, parse_u64, parse_unsigned, split_words, trim,
    trimmed, words,
};

verus! {

// ---------------------------------------------------------------------------
// Upstream relationship
// ---------------------------------------------------------------------------

/// The state of a branch that is `ahead` commits ahead of its upstream and
/// `behind` commits behind it.
pub open spec fn classify_spec(ahead: u32, behind: u32) -> State {
    if ahead > 0 && behind > 0 {
        State::Diverged
    } else if ahead > 0 {
        State::Push
    } else if behind > 0 {
        State::Pull
    } else {
        State::Synced
    }
}

pub fn classify(ahead: u32, behind: u32) -> (s: State)
    ensures
        s == classify_spec(ahead, behind),
        s == State::Diverged <==> ahead > 0 && behind > 0,
        s == State::Push <==> ahead > 0 && behind == 0,
        s == State::Pull <==> ahead == 0 && behind > 0,
        s == State::Synced <==> ahead == 0 && behind == 0,
{
    proof {
        law_classify_states(ahead, behind);
    }
    match (ahead > 0, behind > 0) {
        (true, true) => State::Diverged,
        (true, false) => State::Push,
        (false, true) => State::Pull,
        (false, false) => State::Synced,
    }
}

/// A branch both ahead of and behind its upstream has diverged; only ahead,
/// it is to push; only behind, to pull; neither, it is in sync. Nothing else
/// is ever the upstream state of a branch with an upstream.
pub proof fn law_classify_states(ahead: u32, behind: u32)
    ensures
        classify_spec(ahead, behind) == State::Diverged <==> ahead > 0 && behind > 0,
        classify_spec(ahead, behind) == State::Push <==> ahead > 0 && behind == 0,
        classify_spec(ahead, behind) == State::Pull <==> ahead == 0 && behind > 0,
        classify_spec(ahead, behind) == State::Synced <==> ahead == 0 && behind == 0,
        classify_spec(ahead, behind) != State::NoUpstream,
        classify_spec(ahead, behind) != State::NotRepo,
{
}

/// The count in word `k` of `w`; 0 where there is no such word or it is not
/// a `u32`.
pub open spec fn count_in_word(w: Seq<Seq<char>>, k: int) -> u32 {
    if 0 <= k < w.len() {
        match parse_unsigned(w[k], u32::MAX as nat) {
            Some(v) => v as u32,
            None => 0,
        }
    } else {
        0
    }
}

/// Reads the output of `git rev-list --left-right --count`: the first two
/// white-space separated numbers, each 0 where it is missing or unreadable.
pub fn parse_left_right(s: &str) -> (r: (u32, u32))
    ensures
        r.0 == count_in_word(words(s@), 0),
        r.1 == count_in_word(words(s@), 1),
{
    let chars = chars_of(s);
    let w = split_words(&chars);
    let a = if w.len() > 0 {
        match parse_u32(&w[0]) {
            Some(v) => v,
            None => 0,
        }
    } else {
        0
    };
    let b = if w.len() > 1 {
        match parse_u32(&w[1]) {
            Some(v) => v,
            None => 0,
        }
    } else {
        0
    };
    (a, b)
}

// ---------------------------------------------------------------------------
// Reading a git command's output
// ---------------------------------------------------------------------------

/// The text of a finished git command: nothing when it failed, else its
/// standard output decoded and trimmed.
pub fn command_output(success: bool, stdout: &[u8]) -> (r: Option<String>)
    ensures
        !success ==> r is None,
        success ==> (r matches Some(t) && t@ == trimmed(lossy_utf8(stdout@))),
{
    if !success {
        return None;
    }
    let text = decode_lossy(stdout);
    Some(trim(text.as_str()))
}

// ---------------------------------------------------------------------------
// Fetching
// ---------------------------------------------------------------------------

/// How a scan treats the network.
#[derive(Clone, Copy, Debug, PartialEq, Eq, Structural)]
pub struct ScanOpts {
    /// Whether to fetch from `origin` at all.
    pub fetch: bool,
    /// A fetch younger than this many seconds is not repeated.
    pub fetch_ttl_secs: u64,
    /// Fetch even where the last fetch is young enough.
    pub force_fetch: bool,
}

pub open spec fn cache_is_fresh_spec(opts: ScanOpts, age_secs: Option<u64>) -> bool {
    !opts.force_fetch && (age_secs matches Some(a) && a < opts.fetch_ttl_secs)
}

/// Whether the last fetch is young enough to skip another. `age_secs` is the
/// age of the last fetch in whole seconds (rounded down), if one is on record.
pub fn cache_is_fresh(opts: &ScanOpts, age_secs: Option<u64>) -> (b: bool)
    ensures
        b == cache_is_fresh_spec(*opts, age_secs),
{
    !opts.force_fetch && match age_secs {
        Some(a) => a < opts.fetch_ttl_secs,
        None => false,
    }
}

/// A repository is fetched before its status is read where fetching is on
/// and the last fetch is not young enough to skip another.
pub open spec fn fetch_due_spec(opts: ScanOpts, age_secs: Option<u64>) -> bool {
    opts.fetch && !cache_is_fresh_spec(opts, age_secs)
}

/// Whether a repository is fetched before its status is read.
pub fn fetch_due(opts: &ScanOpts, age_secs: Option<u64>) -> (b: bool)
    ensures
        b == fetch_due_spec(*opts, age_secs),
{
    opts.fetch && !cache_is_fresh(opts, age_secs)
}

// ---------------------------------------------------------------------------
// Probing one directory
// ---------------------------------------------------------------------------

/// A git query the scanner runs in a repository, by `git -C <dir> <args>`.
#[derive(Clone, Copy, Debug, PartialEq, Eq, Structural)]
pub enum GitQuery {
    /// Whether the directory is inside a work tree.
    WorkTree,
    /// Fetch from `origin`; its answer says only whether it succeeded.
    Fetch,
    /// The current branch's short name.
    Branch,
    /// The porcelain status: empty when the work tree is clean.
    Status,
    /// Whether `HEAD` names a commit.
    VerifyHead,
    /// The committer date of `HEAD`.
    LastCommit,
    /// The number of commits on the current branch.
    CommitCount,
    /// The upstream branch, if there is one.
    Upstream,
    /// Commits ahead of and behind the upstream.
    AheadBehind,
}

/// The arguments of each query, after `git -C <dir>`.
pub open spec fn query_args(q: GitQuery) -> Seq<Seq<char>> {
    match q {
        GitQuery::WorkTree => seq!["rev-parse"@, "--is-inside-work-tree"@],
        GitQuery::Fetch => seq![
            "-c"@,
            "http.lowSpeedLimit=1000"@,
            "-c"@,
            "http.lowSpeedTime=10"@,
            "fetch"@,
            "--quiet"@,
            "--no-tags"@,
            "origin"@,
        ],
        GitQuery::Branch => seq!["rev-parse"@, "--abbrev-ref"@, "HEAD"@],
        GitQuery::Status => seq!["status"@, "--porcelain"@],
        GitQuery::VerifyHead => seq!["rev-parse"@, "--verify"@, "HEAD"@],
        GitQuery::LastCommit => seq!["log"@, "-1"@, "--date=format:%d/%m/%y"@, "--format=%cd"@],
        GitQuery::CommitCount => seq!["rev-list"@, "--count"@, "HEAD"@],
        GitQuery::Upstream => seq![
            "rev-parse"@,
            "--abbrev-ref"@,
            "--symbolic-full-name"@,
            "@{u}"@,
        ],
        GitQuery::AheadBehind => seq!["rev-list"@, "--left-right"@, "--count"@, "HEAD...@{u}"@],
    }
}

impl GitQuery {
    pub fn args(self) -> (a: Vec<&'static str>)
        ensures
            a@.len() == query_args(self).len(),
            forall|k: int| 0 <= k < a@.len() ==> #[trigger] a@[k]@ == query_args(self)[k],
            self == GitQuery::Status ==> a@.len() == 2 && a@[0]@ == "status"@ && a@[1]@
                == "--porcelain"@,
    {
        proof {
            law_status_lists_untracked();
        }
        match self {
            GitQuery::WorkTree => vec!["rev-parse", "--is-inside-work-tree"],
            GitQuery::Fetch => vec![
                "-c",
                "http.lowSpeedLimit=1000",
                "-c",
                "http.lowSpeedTime=10",
                "fetch",
                "--quiet",
                "--no-tags",
                "origin",
            ],
            GitQuery::Branch => vec!["rev-parse", "--abbrev-ref", "HEAD"],
            GitQuery::Status => vec!["status", "--porcelain"],
            GitQuery::VerifyHead => vec!["rev-parse", "--verify", "HEAD"],
            GitQuery::LastCommit => vec!["log", "-1", "--date=format:%d/%m/%y", "--format=%cd"],
            GitQuery::CommitCount => vec!["rev-list", "--count", "HEAD"],
            GitQuery::Upstream => vec![
                "rev-parse",
                "--abbrev-ref",
                "--symbolic-full-name",
                "@{u}",
            ],
            GitQuery::AheadBehind => vec!["rev-list", "--left-right", "--count", "HEAD...@{u}"],
        }
    }
}

/// Whether `arg` is an option of `git status` that keeps untracked files out
/// of its report (`-u<mode>`, `--untracked-files[=<mode>]`, `--ignored`).
pub open spec fn hides_untracked(arg: Seq<char>) -> bool {
    ||| (arg.len() >= 2 && arg[0] == '-' && arg[1] == 'u')
    ||| arg.len() >= 17 && arg.take(17) == "--untracked-files"@
    ||| arg.len() >= 9 && arg.take(9) == "--ignored"@
}

/// The status query is exactly `git status --porcelain`: it names no option
/// that keeps untracked files out of its report, so a work tree whose only
/// change is a new file is reported, and so counted as dirty.
pub proof fn law_status_lists_untracked()
    ensures
        query_args(GitQuery::Status) == seq!["status"@, "--porcelain"@],
        forall|k: int|
            0 <= k < query_args(GitQuery::Status).len() ==> !hides_untracked(
                #[trigger] query_args(GitQuery::Status)[k],
            ),
{
    reveal_strlit("status");
    reveal_strlit("--porcelain");
    reveal_strlit("--untracked-files");
    reveal_strlit("--ignored");
    assert(query_args(GitQuery::Status) =~= seq!["status"@, "--porcelain"@]);
    assert("--porcelain"@.take(9) != "--ignored"@) by {
        assert("--porcelain"@.take(9)[2] == 'p');
    }
}

/// What a probe waits for: the answer to a git query, or the age of the
/// marker of the directory's last successful fetch.
#[derive(Clone, Copy, Debug, PartialEq, Eq, Structural)]
pub enum Pending {
    Git(GitQuery),
    FetchAge,
}

/// What the scanner has learnt of one directory so far, and what it waits for.
pub struct Probe {
    pub name: String,
    pub opts: ScanOpts,
    pub pending: Pending,
    /// Set by the answer to a fetch: it succeeded, so its marker is to be
    /// touched now.
    pub mark_fetched: bool,
    pub branch: String,
    pub dirty: bool,
    pub last_commit: String,
    pub commits: u64,
}

#[verifier::ext_equal]
pub struct ProbeView {
    pub name: Seq<char>,
    pub opts: ScanOpts,
    pub pending: Pending,
    pub mark_fetched: bool,
    pub branch: Seq<char>,
    pub dirty: bool,
    pub last_commit: Seq<char>,
    pub commits: u64,
}

impl View for Probe {
    type V = ProbeView;

    open spec fn view(&self) -> ProbeView {
        ProbeView {
            name: self.name@,
            opts: self.opts,
            pending: self.pending,
            mark_fetched: self.mark_fetched,
            branch: self.branch@,
            dirty: self.dirty,
            last_commit: self.last_commit@,
            commits: self.commits,
        }
    }
}

/// Where a probe goes after an answer: something more to learn, or the
/// finished row.
pub enum Step {
    Ask(Probe),
    Done(Repo),
}

pub enum StepView {
    Ask(ProbeView),
    Done(RepoView),
}

impl View for Step {
    type V = StepView;

    open spec fn view(&self) -> StepView {
        match self {
            Step::Ask(p) => StepView::Ask(p@),
            Step::Done(r) => StepView::Done(r@),
        }
    }
}

pub open spec fn text_of(o: Option<String>) -> Option<Seq<char>> {
    match o {
        Some(s) => Some(s@),
        None => None,
    }
}

/// The branch column: `(detached)` for a detached `HEAD`, `(unknown)` when git
/// could not say.
pub open spec fn branch_text(reply: Option<Seq<char>>) -> Seq<char> {
    match reply {
        Some(b) => if b == "HEAD"@ {
            "(detached)"@
        } else {
            b
        },
        None => "(unknown)"@,
    }
}

/// A work tree is dirty when its porcelain status is not empty.
pub open spec fn dirty_from(reply: Option<Seq<char>>) -> bool {
    reply matches Some(s) && s.len() > 0
}

/// The commit count; 0 where git gave none or not a `u64`.
pub open spec fn commit_count(reply: Option<Seq<char>>) -> u64 {
    match reply {
        Some(s) => match parse_unsigned(s, u64::MAX as nat) {
            Some(v) => v as u64,
            None => 0,
        },
        None => 0,
    }
}

/// A new probe of the directory `name`, which first asks whether it is a work tree.
pub open spec fn start_view(name: Seq<char>, opts: ScanOpts) -> ProbeView {
    ProbeView {
        name,
        opts,
        pending: Pending::Git(GitQuery::WorkTree),
        mark_fetched: false,
        branch: Seq::empty(),
        dirty: false,
        last_commit: Seq::empty(),
        commits: 0,
    }
}

/// The row of a repository whose facts are all known.
pub open spec fn finished(p: ProbeView, state: State, ahead: u32, behind: u32) -> RepoView {
    RepoView {
        name: p.name,
        state,
        dirty: p.dirty,
        ahead,
        behind,
        branch: p.branch,
        last_commit: p.last_commit,
        commits: p.commits,
    }
}

/// What follows the work-tree check in a repository: without fetching, the
/// branch; with a forced fetch, the fetch; else the age of the last fetch.
pub open spec fn after_work_tree(opts: ScanOpts) -> Pending {
    if !opts.fetch {
        Pending::Git(GitQuery::Branch)
    } else if opts.force_fetch {
        Pending::Git(GitQuery::Fetch)
    } else {
        Pending::FetchAge
    }
}

/// The age of the last fetch decides whether to fetch now.
pub open spec fn age_spec(p: ProbeView, age_secs: Option<u64>) -> ProbeView {
    ProbeView {
        pending: if fetch_due_spec(p.opts, age_secs) {
            Pending::Git(GitQuery::Fetch)
        } else {
            Pending::Git(GitQuery::Branch)
        },
        ..p
    }
}

/// One step of the probe: the answer `reply` to the pending git query `q`.
pub open spec fn answer_spec(p: ProbeView, q: GitQuery, reply: Option<Seq<char>>) -> StepView {
    match q {
        GitQuery::WorkTree => if reply == Some("true"@) {
            StepView::Ask(ProbeView { pending: after_work_tree(p.opts), ..p })
        } else {
            StepView::Done(placeholder_view(p.name, State::NotRepo))
        },
        GitQuery::Fetch => StepView::Ask(
            ProbeView {
                pending: Pending::Git(GitQuery::Branch),
                mark_fetched: reply is Some,
                ..p
            },
        ),
        GitQuery::Branch => StepView::Ask(
            ProbeView {
                pending: Pending::Git(GitQuery::Status),
                mark_fetched: false,
                branch: branch_text(reply),
                ..p
            },
        ),
        GitQuery::Status => StepView::Ask(
            ProbeView {
                pending: Pending::Git(GitQuery::VerifyHead),
                dirty: dirty_from(reply),
                ..p
            },
        ),
        GitQuery::VerifyHead => if reply is None {
            StepView::Ask(
                ProbeView {
                    pending: Pending::Git(GitQuery::Upstream),
                    last_commit: "N/A"@,
                    commits: 0,
                    ..p
                },
            )
        } else {
            StepView::Ask(ProbeView { pending: Pending::Git(GitQuery::LastCommit), ..p })
        },
        GitQuery::LastCommit => StepView::Ask(
            ProbeView {
                pending: Pending::Git(GitQuery::CommitCount),
                last_commit: match reply {
                    Some(t) => t,
                    None => "N/A"@,
                },
                ..p
            },
        ),
        GitQuery::CommitCount => StepView::Ask(
            ProbeView {
                pending: Pending::Git(GitQuery::Upstream),
                commits: commit_count(reply),
                ..p
            },
        ),
        GitQuery::Upstream => if reply is None {
            StepView::Done(finished(p, State::NoUpstream, 0, 0))
        } else {
            StepView::Ask(ProbeView { pending: Pending::Git(GitQuery::AheadBehind), ..p })
        },
        GitQuery::AheadBehind => {
            let lr = match reply {
                Some(t) => t,
                None => Seq::empty(),
            };
            let a = count_in_word(words(lr), 0);
            let b = count_in_word(words(lr), 1);
            StepView::Done(finished(p, classify_spec(a, b), a, b))
        },
    }
}

fn literal(s: &str) -> (r: String)
    ensures
        r@ == s@,
{
    String::from_str(s)
}

impl Probe {
    /// Starts probing the directory `name`, scanned with `opts`.
    pub fn start(name: String, opts: &ScanOpts) -> (p: Probe)
        ensures
            p@ == start_view(name@, *opts),
    {
        Probe {
            name,
            opts: *opts,
            pending: Pending::Git(GitQuery::WorkTree),
            mark_fetched: false,
            branch: String::new(),
            dirty: false,
            last_commit: String::new(),
            commits: 0,
        }
    }

    /// Takes the age in whole seconds of the marker of the last successful
    /// fetch, where there is one.
    pub fn answer_age(self, age_secs: Option<u64>) -> (p: Probe)
        requires
            self.pending == Pending::FetchAge,
        ensures
            p@ == age_spec(self@, age_secs),
    {
        let mut p = self;
        p.pending = if fetch_due(&p.opts, age_secs) {
            Pending::Git(GitQuery::Fetch)
        } else {
            Pending::Git(GitQuery::Branch)
        };
        p
    }

    /// Takes the answer to the pending git query: the command's trimmed
    /// output, or nothing where it failed.
    pub fn answer(self, reply: Option<String>) -> (s: Step)
        requires
            self.pending is Git,
        ensures
            s@ == answer_spec(self@, self.pending->0, text_of(reply)),
    {
        let mut p = self;
        let q = match p.pending {
            Pending::Git(q) => q,
            Pending::FetchAge => GitQuery::WorkTree,
        };
        match q {
            GitQuery::WorkTree => {
                let is_tree = match &reply {
                    Some(t) => *t == literal("true"),
                    None => false,
                };
                if is_tree {
                    p.pending = if !p.opts.fetch {
                        Pending::Git(GitQuery::Branch)
                    } else if p.opts.force_fetch {
                        Pending::Git(GitQuery::Fetch)
                    } else {
                        Pending::FetchAge
                    };
                    Step::Ask(p)
                } else {
                    Step::Done(Repo::placeholder(p.name, State::NotRepo))
                }
            },
            GitQuery::Fetch => {
                p.mark_fetched = reply.is_some();
                p.pending = Pending::Git(GitQuery::Branch);
                Step::Ask(p)
            },
            GitQuery::Branch => {
                p.branch = match reply {
                    Some(b) => if b == literal("HEAD") {
                        literal("(detached)")
                    } else {
                        b
                    },
                    None => literal("(unknown)"),
                };
                p.mark_fetched = false;
                p.pending = Pending::Git(GitQuery::Status);
                Step::Ask(p)
            },
            GitQuery::Status => {
                p.dirty = match &reply {
                    Some(t) => !t.as_str().is_empty(),
                    None => false,
                };
                p.pending = Pending::Git(GitQuery::VerifyHead);
                Step::Ask(p)
            },
            GitQuery::VerifyHead => {
                if reply.is_none() {
                    p.last_commit = literal("N/A");
                    p.commits = 0;
                    p.pending = Pending::Git(GitQuery::Upstream);
                } else {
                    p.pending = Pending::Git(GitQuery::LastCommit);
                }
                Step::Ask(p)
            },
            GitQuery::LastCommit => {
                p.last_commit = match reply {
                    Some(t) => t,
                    None => literal("N/A"),
                };
                p.pending = Pending::Git(GitQuery::CommitCount);
                Step::Ask(p)
            },
            GitQuery::CommitCount => {
                p.commits = match &reply {
                    Some(t) => match parse_u64(&chars_of(t.as_str())) {
                        Some(v) => v,
                        None => 0,
                    },
                    None => 0,
                };
                p.pending = Pending::Git(GitQuery::Upstream);
                Step::Ask(p)
            },
            GitQuery::Upstream => {
                if reply.is_none() {
                    Step::Done(
                        Repo {
                            name: p.name,
                            state: State::NoUpstream,
                            dirty: p.dirty,
                            ahead: 0,
                            behind: 0,
                            branch: p.branch,
                            last_commit: p.last_commit,
                            commits: p.commits,
                        },
                    )
                } else {
                    p.pending = Pending::Git(GitQuery::AheadBehind);
                    Step::Ask(p)
                }
            },
            GitQuery::AheadBehind => {
                let lr = match reply {
                    Some(t) => t,
                    None => String::new(),
                };
                let (ahead, behind) = parse_left_right(lr.as_str());
                Step::Done(
                    Repo {
                        name: p.name,
                        state: classify(ahead, behind),
                        dirty: p.dirty,
                        ahead,
                        behind,
                        branch: p.branch,
                        last_commit: p.last_commit,
                        commits: p.commits,
                    },
                )
            },
        }
    }
}

// ---------------------------------------------------------------------------
// Which directories are scanned, and in what order the rows come
// ---------------------------------------------------------------------------

/// An entry of the target directory: its name where it is valid Unicode, and
/// whether it is known to be a directory.
pub struct DirEntry {
    pub name: Option<String>,
    pub is_dir: bool,
}

/// Hidden entries (a name starting with `.`) and anything but directories are
/// left out.
pub open spec fn is_visible_dir(e: DirEntry) -> bool {
    e.is_dir && (e.name matches Some(n) && !(n@.len() > 0 && n@[0] == '.'))
}

/// The names of the visible directories among `s`, in the order of `s`.
pub open spec fn visible_names(s: Seq<DirEntry>) -> Seq<String>
    decreases s.len(),
{
    if s.len() == 0 {
        Seq::empty()
    } else if is_visible_dir(s.last()) {
        visible_names(s.drop_last()).push(s.last().name.unwrap())
    } else {
        visible_names(s.drop_last())
    }
}

pub open spec fn name_key(n: String) -> KeyView {
    KeyView { rank: 0, flag: false, text: n@ }
}

pub open spec fn name_keys(s: Seq<String>) -> Seq<KeyView> {
    s.map_values(|n: String| name_key(n))
}

/// The names of the visible subdirectories, in directory order.
pub fn visible_subdirs(entries: &Vec<DirEntry>) -> (names: Vec<String>)
    ensures
        names@ == visible_names(entries@),
        forall|j: int|
            0 <= j < entries@.len() && (#[trigger] entries@[j]).is_dir && entries@[j].name
                is Some && (entries@[j].name->0@.len() == 0 || entries@[j].name->0@[0] != '.')
                ==> names@.contains(entries@[j].name->0),
        forall|k: int| 0 <= k < names@.len() ==> is_scanned_dir(entries@, #[trigger] names@[k]),
{
    proof {
        law_visible_names(entries@);
    }
    let mut kept: Vec<String> = Vec::new();
    let n = entries.len();
    for i in 0..n
        invariant
            n == entries@.len(),
            kept@ == visible_names(entries@.take(i as int)),
    {
        assert(entries@.take(i + 1).drop_last() =~= entries@.take(i as int));
        let e = &entries[i];
        if e.is_dir {
            match &e.name {
                Some(name) => {
                    let chars = chars_of(name.as_str());
                    if chars.len() == 0 || chars[0] != '.' {
                        kept.push(name.clone());
                    }
                },
                None => {},
            }
        }
    }
    assert(entries@.take(n as int) =~= entries@);
    kept
}

/// `n` does not start with `.` and is the name of a directory among `s`.
pub open spec fn is_scanned_dir(s: Seq<DirEntry>, n: String) -> bool {
    &&& (n@.len() == 0 || n@[0] != '.')
    &&& exists|j: int| 0 <= j < s.len() && (#[trigger] s[j]).is_dir && s[j].name == Some(n)
}

/// Exactly the directories with a name that does not start with `.` are
/// scanned: each such entry's name is listed, and each listed name is that of
/// such an entry. A dot anywhere else in a name does not hide it.
pub proof fn law_visible_names(s: Seq<DirEntry>)
    ensures
        forall|j: int|
            0 <= j < s.len() && (#[trigger] s[j]).is_dir && s[j].name is Some && (s[j].name->0@.len()
                == 0 || s[j].name->0@[0] != '.') ==> visible_names(s).contains(s[j].name->0),
        forall|k: int|
            0 <= k < visible_names(s).len() ==> is_scanned_dir(s, #[trigger] visible_names(s)[k]),
    decreases s.len(),
{
    if s.len() > 0 {
        let s0 = s.drop_last();
        law_visible_names(s0);
        let v0 = visible_names(s0);
        let v = visible_names(s);
        assert forall|j: int|
            0 <= j < s.len() && (#[trigger] s[j]).is_dir && s[j].name is Some && (
            s[j].name->0@.len() == 0 || s[j].name->0@[0] != '.') implies v.contains(
            s[j].name->0,
        ) by {
            if j < s.len() - 1 {
                assert(s0[j] == s[j]);
                let m = choose|m: int| 0 <= m < v0.len() && v0[m] == s[j].name->0;
                if is_visible_dir(s.last()) {
                    assert(v[m] == v0[m]);
                }
            } else {
                assert(v[v.len() - 1] == s[j].name->0);
            }
        }
        assert forall|k: int| 0 <= k < v.len() implies is_scanned_dir(s, #[trigger] v[k]) by {
            lemma_visible_origin(s, k);
        }
    } else {
        assert(visible_names(s).len() == 0);
    }
}

proof fn lemma_visible_origin(s: Seq<DirEntry>, k: int)
    requires
        0 <= k < visible_names(s).len(),
    ensures
        is_scanned_dir(s, visible_names(s)[k]),
    decreases s.len(),
{
    let s0 = s.drop_last();
    let v0 = visible_names(s0);
    let v = visible_names(s);
    if k < v0.len() {
        lemma_visible_origin(s0, k);
        assert(v[k] == v0[k]);
        let j = choose|j: int|
            #![trigger s0[j]]
            0 <= j < s0.len() && s0[j].is_dir && s0[j].name == Some(v0[k]) && (v0[k]@.len() == 0
                || v0[k]@[0] != '.');
        assert(s[j] == s0[j]);
    } else {
        let n = s.last().name.unwrap();
        assert(v[k] == n);
        assert(s[s.len() - 1] == s.last());
        assert(s[s.len() - 1].name == Some(v[k]));
    }
}

/// Directory names sorted as paths in one directory sort: by name, character
/// by character.
pub fn sort_names(names: Vec<String>) -> (out: Vec<String>)
    ensures
        is_stable_sort(out@, names@, name_keys(names@)),
{
    let mut keys: Vec<SortKey> = Vec::new();
    let n = names.len();
    for i in 0..n
        invariant
            n == names@.len(),
            key_views(keys@) == name_keys(names@.take(i as int)),
    {
        let ghost old_keys = keys@;
        assert(key_views(old_keys).len() == old_keys.len());
        assert(name_keys(names@.take(i as int)).len() == i);
        keys.push(SortKey { rank: 0, flag: false, text: chars_of(names[i].as_str()) });
        assert forall|j: int| 0 <= j < keys@.len() implies key_views(keys@)[j] == name_keys(
            names@.take(i + 1),
        )[j] by {
            if j < old_keys.len() {
                assert(key_views(old_keys)[j] == name_keys(names@.take(i as int))[j]);
                assert(keys@[j] == old_keys[j]);
                assert(names@.take(i + 1)[j] == names@.take(i as int)[j]);
            }
        }
        assert(key_views(keys@) =~= name_keys(names@.take(i + 1)));
    }
    assert(names@.take(n as int) =~= names@);
    sort_by_keys(names, keys)
}

/// The key by which rows are ordered: the state in declaration order, then
/// dirty before clean, then the name in lower case.
pub open spec fn repo_key(r: Repo) -> KeyView {
    KeyView { rank: state_rank(r.state), flag: !r.dirty, text: lowercase(r.name@) }
}

pub open spec fn repo_keys(s: Seq<Repo>) -> Seq<KeyView> {
    s.map_values(|r: Repo| repo_key(r))
}

/// The rows in dashboard order, sorted stably by `repo_key`.
pub fn order_repos(repos: Vec<Repo>) -> (out: Vec<Repo>)
    ensures
        is_stable_sort(out@, repos@, repo_keys(repos@)),
{
    let mut keys: Vec<SortKey> = Vec::new();
    let n = repos.len();
    for i in 0..n
        invariant
            n == repos@.len(),
            key_views(keys@) == repo_keys(repos@.take(i as int)),
    {
        let r = &repos[i];
        let ghost old_keys = keys@;
        assert(key_views(old_keys).len() == old_keys.len());
        assert(repo_keys(repos@.take(i as int)).len() == i);
        keys.push(
            SortKey {
                rank: r.state.rank(),
                flag: !r.dirty,
                text: lowercase_chars(r.name.as_str()),
            },
        );
        assert forall|j: int| 0 <= j < keys@.len() implies key_views(keys@)[j] == repo_keys(
            repos@.take(i + 1),
        )[j] by {
            if j < old_keys.len() {
                assert(key_views(old_keys)[j] == repo_keys(repos@.take(i as int))[j]);
                assert(keys@[j] == old_keys[j]);
                assert(repos@.take(i + 1)[j] == repos@.take(i as int)[j]);
            }
        }
        assert(key_views(keys@) =~= repo_keys(repos@.take(i + 1)));
    }
    assert(repos@.take(n as int) =~= repos@);
    sort_by_keys(repos, keys)
}

// ---------------------------------------------------------------------------
// The probe as a whole
// ---------------------------------------------------------------------------

/// The row that scanning `name` gives when git answers each query `q` with
/// `git(q)`: not a repository unless git says it is inside a work tree;
/// otherwise the branch, dirtiness, last commit and commit count (`N/A` and 0
/// without a `HEAD` commit), and the upstream relationship (`no-upstream`
/// without one).
pub open spec fn scan_outcome(
    name: Seq<char>,
    git: spec_fn(GitQuery) -> Option<Seq<char>>,
) -> RepoView {
    if git(GitQuery::WorkTree) != Some("true"@) {
        placeholder_view(name, State::NotRepo)
    } else {
        let has_head = git(GitQuery::VerifyHead) is Some;
        let last_commit = if !has_head {
            "N/A"@
        } else {
            match git(GitQuery::LastCommit) {
                Some(t) => t,
                None => "N/A"@,
            }
        };
        let commits = if !has_head {
            0
        } else {
            commit_count(git(GitQuery::CommitCount))
        };
        let lr = match git(GitQuery::AheadBehind) {
            Some(t) => t,
            None => Seq::empty(),
        };
        let has_upstream = git(GitQuery::Upstream) is Some;
        let ahead = if has_upstream {
            count_in_word(words(lr), 0)
        } else {
            0
        };
        let behind = if has_upstream {
            count_in_word(words(lr), 1)
        } else {
            0
        };
        RepoView {
            name,
            state: if has_upstream {
                classify_spec(ahead, behind)
            } else {
                State::NoUpstream
            },
            dirty: dirty_from(git(GitQuery::Status)),
            ahead,
            behind,
            branch: branch_text(git(GitQuery::Branch)),
            last_commit,
            commits,
        }
    }
}

/// The queries from the branch on: branch, status, `HEAD`, the last commit
/// and the count where there is a `HEAD` commit, the upstream, and
/// ahead/behind where there is an upstream.
pub open spec fn status_queries(git: spec_fn(GitQuery) -> Option<Seq<char>>) -> Seq<Pending> {
    seq![
        Pending::Git(GitQuery::Branch),
        Pending::Git(GitQuery::Status),
        Pending::Git(GitQuery::VerifyHead),
    ] + (if git(GitQuery::VerifyHead) is Some {
        seq![Pending::Git(GitQuery::LastCommit), Pending::Git(GitQuery::CommitCount)]
    } else {
        Seq::empty()
    }) + seq![Pending::Git(GitQuery::Upstream)] + (if git(GitQuery::Upstream) is Some {
        seq![Pending::Git(GitQuery::AheadBehind)]
    } else {
        Seq::empty()
    })
}

/// The fetch steps of a repository: none without fetching; the fetch itself
/// when forced; else the age of the last fetch, then the fetch where it is due.
pub open spec fn fetch_queries(opts: ScanOpts, age_secs: Option<u64>) -> Seq<Pending> {
    if !opts.fetch {
        Seq::empty()
    } else if opts.force_fetch {
        seq![Pending::Git(GitQuery::Fetch)]
    } else if fetch_due_spec(opts, age_secs) {
        seq![Pending::FetchAge, Pending::Git(GitQuery::Fetch)]
    } else {
        seq![Pending::FetchAge]
    }
}

pub open spec fn is_work_tree(git: spec_fn(GitQuery) -> Option<Seq<char>>) -> bool {
    git(GitQuery::WorkTree) == Some("true"@)
}

/// What scanning one directory waits for, in order: the work-tree check, and
/// for a repository the fetch steps and then the status queries.
pub open spec fn queries_run(
    opts: ScanOpts,
    git: spec_fn(GitQuery) -> Option<Seq<char>>,
    age_secs: Option<u64>,
) -> Seq<Pending> {
    if !is_work_tree(git) {
        seq![Pending::Git(GitQuery::WorkTree)]
    } else {
        seq![Pending::Git(GitQuery::WorkTree)] + fetch_queries(opts, age_secs) + status_queries(
            git,
        )
    }
}

/// Runs a probe for at most `fuel` steps, answering each git query `q` with
/// `git(q)` and the age of the last fetch with `age_secs`: what it waited
/// for, the row if it finished, and whether it asked for a fetch marker to be
/// touched.
pub open spec fn run_probe(
    p: ProbeView,
    git: spec_fn(GitQuery) -> Option<Seq<char>>,
    age_secs: Option<u64>,
    fuel: nat,
) -> (Seq<Pending>, Option<RepoView>, bool)
    decreases fuel,
{
    if fuel == 0 {
        (Seq::empty(), None, false)
    } else {
        match p.pending {
            Pending::FetchAge => {
                let rest = run_probe(age_spec(p, age_secs), git, age_secs, (fuel - 1) as nat);
                (seq![Pending::FetchAge] + rest.0, rest.1, rest.2)
            },
            Pending::Git(q) => match answer_spec(p, q, git(q)) {
                StepView::Done(r) => (seq![p.pending], Some(r), false),
                StepView::Ask(n) => {
                    let rest = run_probe(n, git, age_secs, (fuel - 1) as nat);
                    (seq![p.pending] + rest.0, rest.1, n.mark_fetched || rest.2)
                },
            },
        }
    }
}

/// A probe that finishes within `f` steps runs the same with more.
proof fn lemma_run_extra_fuel(
    p: ProbeView,
    git: spec_fn(GitQuery) -> Option<Seq<char>>,
    age_secs: Option<u64>,
    f: nat,
    g: nat,
)
    requires
        f <= g,
        run_probe(p, git, age_secs, f).1 is Some,
    ensures
        run_probe(p, git, age_secs, g) == run_probe(p, git, age_secs, f),
    decreases f,
{
    match p.pending {
        Pending::FetchAge => {
            lemma_run_extra_fuel(age_spec(p, age_secs), git, age_secs, (f - 1) as nat, (g - 1) as nat);
        },
        Pending::Git(q) => match answer_spec(p, q, git(q)) {
            StepView::Done(r) => {},
            StepView::Ask(n) => {
                lemma_run_extra_fuel(n, git, age_secs, (f - 1) as nat, (g - 1) as nat);
            },
        },
    }
}

/// From the branch query on, a probe of a repository asks the status
/// queries, touches no marker, and ends with the row of `scan_outcome`.
#[verifier::rlimit(60)]
proof fn lemma_status_run(
    pb: ProbeView,
    git: spec_fn(GitQuery) -> Option<Seq<char>>,
    age_secs: Option<u64>,
)
    requires
        pb.pending == Pending::Git(GitQuery::Branch),
        is_work_tree(git),
    ensures
        run_probe(pb, git, age_secs, 7) == (
            status_queries(git),
            Some(scan_outcome(pb.name, git)),
            false,
        ),
{
    let p2 = ProbeView {
        pending: Pending::Git(GitQuery::Status),
        mark_fetched: false,
        branch: branch_text(git(GitQuery::Branch)),
        ..pb
    };
    let p3 = ProbeView {
        pending: Pending::Git(GitQuery::VerifyHead),
        dirty: dirty_from(git(GitQuery::Status)),
        ..p2
    };
    let p4 = ProbeView { pending: Pending::Git(GitQuery::LastCommit), ..p3 };
    let p5 = ProbeView {
        pending: Pending::Git(GitQuery::CommitCount),
        last_commit: match git(GitQuery::LastCommit) {
            Some(t) => t,
            None => "N/A"@,
        },
        ..p4
    };
    let p6 = if git(GitQuery::VerifyHead) is Some {
        ProbeView {
            pending: Pending::Git(GitQuery::Upstream),
            commits: commit_count(git(GitQuery::CommitCount)),
            ..p5
        }
    } else {
        ProbeView {
            pending: Pending::Git(GitQuery::Upstream),
            last_commit: "N/A"@,
            commits: 0,
            ..p3
        }
    };
    let p7 = ProbeView { pending: Pending::Git(GitQuery::AheadBehind), ..p6 };
    let up_tail: Seq<Pending> = if git(GitQuery::Upstream) is Some {
        seq![Pending::Git(GitQuery::AheadBehind)]
    } else {
        Seq::empty()
    };
    let head_tail: Seq<Pending> = if git(GitQuery::VerifyHead) is Some {
        seq![Pending::Git(GitQuery::LastCommit), Pending::Git(GitQuery::CommitCount)]
    } else {
        Seq::empty()
    };
    let outcome = scan_outcome(pb.name, git);
    if git(GitQuery::Upstream) is Some {
        assert(run_probe(p7, git, age_secs, 1) == (
            seq![Pending::Git(GitQuery::AheadBehind)],
            Some(outcome),
            false,
        ));
    }
    assert(run_probe(p6, git, age_secs, 2).0 =~= seq![Pending::Git(GitQuery::Upstream)]
        + up_tail);
    assert(run_probe(p6, git, age_secs, 2).1 == Some(outcome));
    assert(!run_probe(p6, git, age_secs, 2).2);
    if git(GitQuery::VerifyHead) is Some {
        assert(run_probe(p5, git, age_secs, 3).0 =~= seq![Pending::Git(GitQuery::CommitCount)]
            + run_probe(p6, git, age_secs, 2).0);
        assert(run_probe(p4, git, age_secs, 4).0 =~= seq![Pending::Git(GitQuery::LastCommit)]
            + run_probe(p5, git, age_secs, 3).0);
        assert(run_probe(p3, git, age_secs, 5).0 =~= seq![Pending::Git(GitQuery::VerifyHead)]
            + run_probe(p4, git, age_secs, 4).0);
    } else {
        lemma_run_extra_fuel(p6, git, age_secs, 2, 4);
        assert(run_probe(p3, git, age_secs, 5).0 =~= seq![Pending::Git(GitQuery::VerifyHead)]
            + run_probe(p6, git, age_secs, 4).0);
    }
    assert(run_probe(p3, git, age_secs, 5).1 == Some(outcome));
    assert(!run_probe(p3, git, age_secs, 5).2);
    assert(run_probe(p2, git, age_secs, 6).0 =~= seq![Pending::Git(GitQuery::Status)]
        + run_probe(p3, git, age_secs, 5).0);
    assert(run_probe(pb, git, age_secs, 7).0 =~= seq![Pending::Git(GitQuery::Branch)]
        + run_probe(p2, git, age_secs, 6).0);
    assert(run_probe(pb, git, age_secs, 7).0 =~= status_queries(git));
}

/// Driving a fresh probe with git's answers and the age of the last fetch
/// waits for exactly the steps of `queries_run`, touches the fetch marker
/// exactly when a fetch ran and succeeded, and ends with the row of
/// `scan_outcome`; ten steps are always enough.
#[verifier::rlimit(60)]
pub proof fn law_probe_scans(
    name: Seq<char>,
    opts: ScanOpts,
    git: spec_fn(GitQuery) -> Option<Seq<char>>,
    age_secs: Option<u64>,
)
    ensures
        run_probe(start_view(name, opts), git, age_secs, 10) == (
            queries_run(opts, git, age_secs),
            Some(scan_outcome(name, git)),
            is_work_tree(git) && fetch_due_spec(opts, age_secs) && git(GitQuery::Fetch) is Some,
        ),
{
    let p0 = start_view(name, opts);
    if !is_work_tree(git) {
        assert(run_probe(p0, git, age_secs, 10).0 =~= queries_run(opts, git, age_secs));
    } else {
        let p1 = ProbeView { pending: after_work_tree(opts), ..p0 };
        let pf = ProbeView { pending: Pending::Git(GitQuery::Fetch), ..p0 };
        let pb = ProbeView {
            pending: Pending::Git(GitQuery::Branch),
            mark_fetched: git(GitQuery::Fetch) is Some,
            ..p0
        };
        let pn = ProbeView { pending: Pending::Git(GitQuery::Branch), ..p0 };
        lemma_status_run(pb, git, age_secs);
        lemma_status_run(pn, git, age_secs);
        let tail = status_queries(git);
        let outcome = scan_outcome(name, git);
        // From the fetch on.
        lemma_run_extra_fuel(pb, git, age_secs, 7, 8);
        assert(run_probe(pf, git, age_secs, 8).0 =~= seq![Pending::Git(GitQuery::Fetch)] + tail);
        assert(run_probe(pf, git, age_secs, 8).1 == Some(outcome));
        assert(run_probe(pf, git, age_secs, 8).2 == git(GitQuery::Fetch) is Some);
        lemma_run_extra_fuel(pf, git, age_secs, 8, 9);
        lemma_run_extra_fuel(pn, git, age_secs, 7, 8);
        lemma_run_extra_fuel(pn, git, age_secs, 7, 9);
        if !opts.fetch {
            assert(p1 == pn);
        } else if opts.force_fetch {
            assert(p1 == pf);
        } else {
            assert(p1.pending == Pending::FetchAge);
            if fetch_due_spec(opts, age_secs) {
                assert(age_spec(p1, age_secs) == pf);
                assert(run_probe(p1, git, age_secs, 9).0 =~= seq![Pending::FetchAge] + run_probe(
                    pf,
                    git,
                    age_secs,
                    8,
                ).0);
            } else {
                assert(age_spec(p1, age_secs) == pn);
                assert(run_probe(p1, git, age_secs, 9).0 =~= seq![Pending::FetchAge] + run_probe(
                    pn,
                    git,
                    age_secs,
                    8,
                ).0);
            }
        }
        assert(run_probe(p1, git, age_secs, 9).0 =~= fetch_queries(opts, age_secs) + tail);
        assert(run_probe(p1, git, age_secs, 9).1 == Some(outcome));
        assert(run_probe(p0, git, age_secs, 10).0 =~= seq![Pending::Git(GitQuery::WorkTree)]
            + run_probe(p1, git, age_secs, 9).0);
        assert(run_probe(p0, git, age_secs, 10).0 =~= queries_run(opts, git, age_secs));
    }
}

/// Dirtiness is tracked apart from the upstream state: what `git status`
/// says changes nothing of a row but its dirty mark.
pub proof fn law_dirty_apart_from_state(
    name: Seq<char>,
    git1: spec_fn(GitQuery) -> Option<Seq<char>>,
    git2: spec_fn(GitQuery) -> Option<Seq<char>>,
)
    requires
        forall|q: GitQuery| q != GitQuery::Status ==> #[trigger] git1(q) == git2(q),
    ensures
        scan_outcome(name, git1).state == scan_outcome(name, git2).state,
        scan_outcome(name, git1).ahead == scan_outcome(name, git2).ahead,
        scan_outcome(name, git1).behind == scan_outcome(name, git2).behind,
        scan_outcome(name, git1).branch == scan_outcome(name, git2).branch,
        scan_outcome(name, git1).last_commit == scan_outcome(name, git2).last_commit,
        scan_outcome(name, git1).commits == scan_outcome(name, git2).commits,
{
    assert(git1(GitQuery::WorkTree) == git2(GitQuery::WorkTree));
    assert(git1(GitQuery::Branch) == git2(GitQuery::Branch));
    assert(git1(GitQuery::VerifyHead) == git2(GitQuery::VerifyHead));
    assert(git1(GitQuery::LastCommit) == git2(GitQuery::LastCommit));
    assert(git1(GitQuery::CommitCount) == git2(GitQuery::CommitCount));
    assert(git1(GitQuery::Upstream) == git2(GitQuery::Upstream));
    assert(git1(GitQuery::AheadBehind) == git2(GitQuery::AheadBehind));
}

/// `--no-fetch` never fetches; `--force-fetch` always does where fetching is
/// on, whatever the age of the last fetch; otherwise a repository is fetched
/// unless its last fetch is on record and younger than the time to live.
pub proof fn law_fetch_policy(opts: ScanOpts, age_secs: Option<u64>)
    ensures
        !opts.fetch ==> !fetch_due_spec(opts, age_secs),
        opts.fetch && opts.force_fetch ==> fetch_due_spec(opts, age_secs),
        opts.fetch && !opts.force_fetch ==> (fetch_due_spec(opts, age_secs) <==> !(
        age_secs matches Some(a) && a < opts.fetch_ttl_secs)),
{
}

/// The rows come in dashboard order: by state in declaration order, dirty
/// before clean within a state, then by lower-cased name.
pub proof fn law_rows_in_dashboard_order(out: Seq<Repo>, repos: Seq<Repo>)
    requires
        is_stable_sort(out, repos, repo_keys(repos)),
    ensures
        forall|i: int, j: int|
            0 <= i < j < out.len() ==> key_le(#[trigger] repo_key(out[i]), #[trigger] repo_key(
                out[j],
            )),
{
    let p = choose|p: Seq<int>|
        #[trigger] stable_sort_by(p, repo_keys(repos), repos.len()) && out.len() == repos.len()
            && forall|i: int| 0 <= i < out.len() ==> out[i] == repos[#[trigger] p[i]];
    assert forall|i: int, j: int| 0 <= i < j < out.len() implies key_le(
        #[trigger] repo_key(out[i]),
        #[trigger] repo_key(out[j]),
    ) by {
        assert(out[i] == repos[p[i]]);
        assert(out[j] == repos[p[j]]);
        assert(key_le(repo_keys(repos)[p[i]], repo_keys(repos)[p[j]]));
    }
}

} // verus!
