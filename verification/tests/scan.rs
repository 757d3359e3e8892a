use talos::repo::State;
use talos::scan::{
    classify, command_output, fetch_due, order_repos, parse_left_right, sort_names,
    visible_subdirs, DirEntry, GitQuery, Pending, Probe, ScanOpts, Step,
};
use talos::repo::Repo;

#[test]
fn parses_left_right_count() {
    assert_eq!(parse_left_right("0\t0"), (0, 0));
    assert_eq!(parse_left_right("3\t0"), (3, 0));
    assert_eq!(parse_left_right("0\t44"), (0, 44));
    assert_eq!(parse_left_right("2\t5"), (2, 5));
}

#[test]
fn parses_left_right_defaults_on_garbage() {
    assert_eq!(parse_left_right(""), (0, 0));
    assert_eq!(parse_left_right("nope"), (0, 0));
}

#[test]
fn classify_states() {
    assert_eq!(classify(0, 0), State::Synced);
    assert_eq!(classify(3, 0), State::Push);
    assert_eq!(classify(0, 1), State::Pull);
    assert_eq!(classify(2, 5), State::Diverged);
}

#[test]
fn parse_left_right_edge_cases() {
    assert_eq!(parse_left_right("  7 \n 9  extra"), (7, 9));
    assert_eq!(parse_left_right("+4\t5"), (4, 5));
    assert_eq!(parse_left_right("-4\t5"), (0, 5));
    assert_eq!(parse_left_right("4294967295\t4294967296"), (4294967295, 0));
    assert_eq!(parse_left_right("12"), (12, 0));
    assert_eq!(parse_left_right("x 3"), (0, 3));
    assert_eq!(parse_left_right("\u{3000}8\u{a0}9"), (8, 9));
}

#[test]
fn command_output_trims_and_fails() {
    assert_eq!(command_output(false, b"true\n"), None);
    assert_eq!(command_output(true, b"  main \n"), Some("main".to_string()));
    assert_eq!(command_output(true, b"\n"), Some(String::new()));
    assert_eq!(command_output(true, b"a\xffb"), Some("a\u{fffd}b".to_string()));
}

#[test]
fn fetch_policy() {
    let opts = ScanOpts { fetch: true, fetch_ttl_secs: 60, force_fetch: false };
    assert!(fetch_due(&opts, None));
    assert!(!fetch_due(&opts, Some(59)));
    assert!(fetch_due(&opts, Some(60)));
    let forced = ScanOpts { fetch: true, fetch_ttl_secs: 60, force_fetch: true };
    assert!(fetch_due(&forced, Some(0)));
    let off = ScanOpts { fetch: false, fetch_ttl_secs: 60, force_fetch: true };
    assert!(!fetch_due(&off, None));
}

/// Runs a probe to its end: what it waited for, the row, and how often it
/// asked for the fetch marker to be touched.
fn drive(
    name: &str,
    opts: ScanOpts,
    age: Option<u64>,
    answer: &dyn Fn(GitQuery) -> Option<String>,
) -> (Vec<Pending>, Repo, usize) {
    let mut asked = Vec::new();
    let mut marks = 0;
    let mut probe = Probe::start(name.to_string(), &opts);
    loop {
        asked.push(probe.pending);
        match probe.pending {
            Pending::FetchAge => probe = probe.answer_age(age),
            Pending::Git(q) => match probe.answer(answer(q)) {
                Step::Ask(p) => {
                    if p.mark_fetched {
                        marks += 1;
                    }
                    probe = p
                }
                Step::Done(r) => return (asked, r, marks),
            },
        }
    }
}

fn no_fetch() -> ScanOpts {
    ScanOpts { fetch: false, fetch_ttl_secs: 60, force_fetch: false }
}

fn fetching() -> ScanOpts {
    ScanOpts { fetch: true, fetch_ttl_secs: 60, force_fetch: false }
}

#[test]
fn probe_of_a_plain_directory() {
    let (asked, r, marks) = drive("notes", fetching(), None, &|_| None);
    assert_eq!(asked, vec![Pending::Git(GitQuery::WorkTree)]);
    assert_eq!(marks, 0);
    assert_eq!(r.name, "notes");
    assert_eq!(r.state, State::NotRepo);
    assert_eq!(r.branch, "(n/a)");
    assert_eq!(r.last_commit, "N/A");
    assert_eq!((r.dirty, r.ahead, r.behind, r.commits), (false, 0, 0, 0));
}

#[test]
fn probe_of_a_repository_behind_and_dirty() {
    let answer = |q: GitQuery| -> Option<String> {
        Some(
            match q {
                GitQuery::WorkTree => "true",
                GitQuery::Fetch => "",
                GitQuery::Branch => "main",
                GitQuery::Status => " M src/lib.rs",
                GitQuery::VerifyHead => "0123abcd",
                GitQuery::LastCommit => "29/04/26",
                GitQuery::CommitCount => "922",
                GitQuery::Upstream => "origin/main",
                GitQuery::AheadBehind => "0\t44",
            }
            .to_string(),
        )
    };
    let (asked, r, marks) = drive("REPO_23", fetching(), Some(61), &answer);
    assert_eq!(
        asked,
        vec![
            Pending::Git(GitQuery::WorkTree),
            Pending::FetchAge,
            Pending::Git(GitQuery::Fetch),
            Pending::Git(GitQuery::Branch),
            Pending::Git(GitQuery::Status),
            Pending::Git(GitQuery::VerifyHead),
            Pending::Git(GitQuery::LastCommit),
            Pending::Git(GitQuery::CommitCount),
            Pending::Git(GitQuery::Upstream),
            Pending::Git(GitQuery::AheadBehind),
        ]
    );
    assert_eq!(marks, 1);
    assert_eq!(r.state, State::Pull);
    assert!(r.dirty);
    assert_eq!((r.ahead, r.behind), (0, 44));
    assert_eq!(r.branch, "main");
    assert_eq!(r.last_commit, "29/04/26");
    assert_eq!(r.commits, 922);
}

#[test]
fn probe_without_head_or_upstream() {
    let answer = |q: GitQuery| -> Option<String> {
        match q {
            GitQuery::WorkTree => Some("true".to_string()),
            GitQuery::Branch => Some("HEAD".to_string()),
            GitQuery::Status => Some(String::new()),
            _ => None,
        }
    };
    let (asked, r, _) = drive("fresh", no_fetch(), None, &answer);
    assert_eq!(
        asked,
        vec![
            Pending::Git(GitQuery::WorkTree),
            Pending::Git(GitQuery::Branch),
            Pending::Git(GitQuery::Status),
            Pending::Git(GitQuery::VerifyHead),
            Pending::Git(GitQuery::Upstream),
        ]
    );
    assert_eq!(r.state, State::NoUpstream);
    assert_eq!(r.branch, "(detached)");
    assert!(!r.dirty);
    assert_eq!(r.last_commit, "N/A");
    assert_eq!(r.commits, 0);
}

#[test]
fn probe_with_unknown_branch_and_bad_count() {
    let answer = |q: GitQuery| -> Option<String> {
        match q {
            GitQuery::WorkTree => Some("true".to_string()),
            GitQuery::Branch => None,
            GitQuery::Status => None,
            GitQuery::VerifyHead => Some("abc".to_string()),
            GitQuery::LastCommit => None,
            GitQuery::CommitCount => Some("lots".to_string()),
            GitQuery::Upstream => Some("origin/dev".to_string()),
            GitQuery::AheadBehind => None,
            GitQuery::Fetch => None,
        }
    };
    let (_, r, _) = drive("odd", no_fetch(), None, &answer);
    assert_eq!(r.branch, "(unknown)");
    assert_eq!(r.last_commit, "N/A");
    assert_eq!(r.commits, 0);
    assert_eq!(r.state, State::Synced);
    assert_eq!((r.ahead, r.behind), (0, 0));
}

#[test]
fn synced_and_dirty_together() {
    let answer = |q: GitQuery| -> Option<String> {
        Some(
            match q {
                GitQuery::WorkTree => "true",
                GitQuery::Status => "?? new.txt",
                GitQuery::AheadBehind => "0\t0",
                GitQuery::CommitCount => "2",
                _ => "x",
            }
            .to_string(),
        )
    };
    let (_, r, _) = drive("REPO_01", no_fetch(), None, &answer);
    assert_eq!(r.state, State::Synced);
    assert!(r.dirty);
}

#[test]
fn query_arguments() {
    assert_eq!(GitQuery::WorkTree.args(), vec!["rev-parse", "--is-inside-work-tree"]);
    assert_eq!(GitQuery::AheadBehind.args(), vec!["rev-list", "--left-right", "--count", "HEAD...@{u}"]);
    assert_eq!(GitQuery::LastCommit.args(), vec!["log", "-1", "--date=format:%d/%m/%y", "--format=%cd"]);
    assert_eq!(GitQuery::Fetch.args()[4..], ["fetch", "--quiet", "--no-tags", "origin"]);
}

fn row(name: &str, state: State, dirty: bool) -> Repo {
    let mut r = Repo::placeholder(name.to_string(), state);
    r.dirty = dirty;
    r
}

#[test]
fn rows_are_ordered_by_state_then_dirty_then_name() {
    let repos = vec![
        row("zeta", State::Synced, false),
        row("Alpha", State::Synced, false),
        row("beta", State::Synced, true),
        row("gamma", State::NotRepo, false),
        row("delta", State::Push, false),
        row("Epsilon", State::Pull, false),
        row("epsilon", State::Pull, false),
        row("omega", State::Diverged, false),
        row("nu", State::NoUpstream, true),
    ];
    let out = order_repos(repos);
    let names: Vec<&str> = out.iter().map(|r| r.name.as_str()).collect();
    assert_eq!(
        names,
        vec!["delta", "omega", "Epsilon", "epsilon", "nu", "beta", "Alpha", "zeta", "gamma"]
    );
}

#[test]
fn ordering_keeps_equal_keys_in_place() {
    let repos = vec![row("B", State::Pull, false), row("b", State::Pull, false)];
    let out = order_repos(repos);
    assert_eq!(out[0].name, "B");
    assert_eq!(out[1].name, "b");
}

#[test]
fn visible_subdirectories_in_directory_order() {
    let entry = |n: Option<&str>, d: bool| DirEntry { name: n.map(|s| s.to_string()), is_dir: d };
    let entries = vec![
        entry(Some("zed"), true),
        entry(Some(".git"), true),
        entry(Some("README.md"), false),
        entry(None, true),
        entry(Some("Apple"), true),
        entry(Some("apple"), true),
        entry(Some("é"), true),
        entry(Some("e"), true),
    ];
    let kept = visible_subdirs(&entries);
    assert_eq!(kept, vec!["zed", "Apple", "apple", "é", "e"]);
    assert_eq!(sort_names(kept), vec!["Apple", "apple", "e", "zed", "é"]);
}

#[test]
fn ordering_ignores_letter_case() {
    let repos = vec![row("B", State::Synced, false), row("a", State::Synced, false)];
    let out = order_repos(repos);
    assert_eq!(out[0].name, "a");
    assert_eq!(out[1].name, "B");
}

#[test]
fn visible_subdirs_keep_directory_order() {
    let entry = |n: &str| DirEntry { name: Some(n.to_string()), is_dir: true };
    assert_eq!(visible_subdirs(&vec![entry("b"), entry("a")]), vec!["b", "a"]);
}

fn fetch_answers(fetch_ok: bool) -> impl Fn(GitQuery) -> Option<String> {
    move |q: GitQuery| -> Option<String> {
        match q {
            GitQuery::WorkTree => Some("true".to_string()),
            GitQuery::Fetch => {
                if fetch_ok {
                    Some(String::new())
                } else {
                    None
                }
            }
            _ => None,
        }
    }
}

#[test]
fn fetch_steps_follow_the_cache() {
    // A fresh marker: the age is asked for, no fetch runs.
    let (asked, _, marks) = drive("r", fetching(), Some(10), &fetch_answers(true));
    assert_eq!(&asked[..3], &[Pending::Git(GitQuery::WorkTree), Pending::FetchAge, Pending::Git(GitQuery::Branch)]);
    assert_eq!(marks, 0);
    // Forced: no age is asked for, the fetch runs and its marker is touched.
    let forced = ScanOpts { fetch: true, fetch_ttl_secs: 60, force_fetch: true };
    let (asked, _, marks) = drive("r", forced, Some(10), &fetch_answers(true));
    assert_eq!(&asked[..3], &[Pending::Git(GitQuery::WorkTree), Pending::Git(GitQuery::Fetch), Pending::Git(GitQuery::Branch)]);
    assert_eq!(marks, 1);
    // A failed fetch touches no marker.
    let (asked, _, marks) = drive("r", fetching(), None, &fetch_answers(false));
    assert_eq!(asked[2], Pending::Git(GitQuery::Fetch));
    assert_eq!(marks, 0);
    // Without fetching, neither the age nor the fetch.
    let (asked, _, _) = drive("r", no_fetch(), None, &fetch_answers(true));
    assert_eq!(asked[1], Pending::Git(GitQuery::Branch));
}
