use talos::cli::{default_target, worker_threads};
use talos::repo::{Color, Repo, State};
use talos::text::{to_decimal, trim};
use talos::ui::{
    command_for, count_chip, counts, header_chips, table_row, table_rows, App, AppOpts, Command,
    Footer, KeyCode, KeyEvent, Reaction, ScanResult,
};
use std::path::PathBuf;

#[test]
fn labels_and_colors() {
    let all = [
        (State::Push, "push", Color::Red),
        (State::Diverged, "diverged", Color::Yellow),
        (State::Pull, "pull", Color::Yellow),
        (State::NoUpstream, "no-upstream", Color::Cyan),
        (State::Synced, "synced", Color::Green),
        (State::NotRepo, "not-repo", Color::Reset),
    ];
    for (k, (s, label, color)) in all.iter().enumerate() {
        assert_eq!(s.label(), *label);
        assert_eq!(s.color(), *color);
        assert_eq!(s.rank() as usize, k);
    }
}

#[test]
fn placeholder_row() {
    let r = Repo::placeholder("x".to_string(), State::NoUpstream);
    assert_eq!(r.name, "x");
    assert_eq!(r.state, State::NoUpstream);
    assert_eq!(r.branch, "(n/a)");
    assert_eq!(r.last_commit, "N/A");
    assert_eq!((r.dirty, r.ahead, r.behind, r.commits), (false, 0, 0, 0));
}

#[test]
fn decimal_and_trim() {
    assert_eq!(to_decimal(0), "0");
    assert_eq!(to_decimal(7), "7");
    assert_eq!(to_decimal(10), "10");
    assert_eq!(to_decimal(18446744073709551615), "18446744073709551615");
    assert_eq!(trim("  a b \t\n"), "a b");
    assert_eq!(trim(" \u{2003} "), "");
    assert_eq!(trim("x"), "x");
}

fn repo(state: State, dirty: bool) -> Repo {
    let mut r = Repo::placeholder("r".to_string(), state);
    r.dirty = dirty;
    r
}

#[test]
fn header_counts() {
    let repos = vec![
        repo(State::Push, false),
        repo(State::Diverged, true),
        repo(State::Pull, false),
        repo(State::NoUpstream, false),
        repo(State::Synced, true),
        repo(State::NotRepo, false),
    ];
    let c = counts(&repos);
    assert_eq!((c.push, c.pull, c.dirty, c.no_upstream, c.total), (2, 2, 2, 1, 5));
    let chips = header_chips(&c);
    let shown: Vec<(String, Color, String)> =
        chips.into_iter().map(|c| (c.label, c.color, c.value)).collect();
    assert_eq!(
        shown,
        vec![
            ("Pull: ".to_string(), Color::Yellow, "2/5  ".to_string()),
            ("Push: ".to_string(), Color::Red, "2/5  ".to_string()),
            ("Dirty: ".to_string(), Color::Magenta, "2/5  ".to_string()),
            ("No upstream: ".to_string(), Color::Cyan, "1/5".to_string()),
        ]
    );
    let chip = count_chip("X", Color::Green, 0, 23, false);
    assert_eq!(chip.label, "X: ");
    assert_eq!(chip.value, "0/23");
}

#[test]
fn table_cells() {
    let mut r = Repo::placeholder("REPO_22".to_string(), State::Pull);
    r.ahead = 0;
    r.behind = 1;
    r.branch = "main".to_string();
    r.last_commit = "29/04/26".to_string();
    r.commits = 17;
    let row = table_row(21, &r);
    assert_eq!(row.index, "22");
    assert_eq!(row.name, "REPO_22");
    assert_eq!(row.state, "pull");
    assert_eq!(row.state_color, Color::Yellow);
    assert_eq!(row.color, Color::Yellow);
    assert_eq!(row.star, "");
    assert_eq!(row.plus_minus, "0/1");
    assert_eq!(row.last_commit, "29/04/26");
    assert_eq!(row.commits, "17");

    let dirty = repo(State::Synced, true);
    let not_repo = repo(State::NotRepo, false);
    let rows = table_rows(&[dirty, not_repo]);
    assert_eq!(rows[0].index, "1");
    assert_eq!(rows[0].star, "*");
    assert_eq!(rows[0].star_color, Color::Magenta);
    assert_eq!(rows[0].state, "synced");
    assert_eq!(rows[0].state_color, Color::Green);
    assert_eq!(rows[0].color, Color::Green);
    assert_eq!(rows[1].plus_minus, "-");
    assert_eq!(rows[1].state_color, Color::Reset);
    assert_eq!(rows[1].color, Color::Reset);
    assert_eq!(rows[1].state, "not-repo");
    assert_eq!(rows[1].star, "");
}

fn opts() -> AppOpts {
    AppOpts {
        target: PathBuf::from("/tmp/repos"),
        no_fetch: false,
        fetch_ttl_secs: 60,
        force_fetch: false,
        refresh_interval_secs: 30,
    }
}

fn key(c: char, ctrl: bool) -> KeyEvent {
    KeyEvent { code: KeyCode::Char(c), ctrl, press: true }
}

#[test]
fn key_commands() {
    assert_eq!(command_for(key('q', false)), Command::Quit);
    assert_eq!(command_for(KeyEvent { code: KeyCode::Esc, ctrl: false, press: true }), Command::Quit);
    assert_eq!(command_for(key('c', true)), Command::Quit);
    assert_eq!(command_for(key('c', false)), Command::Ignore);
    assert_eq!(command_for(key('r', false)), Command::Rescan);
    assert_eq!(command_for(key('f', false)), Command::ForceFetch);
    assert_eq!(command_for(KeyEvent { code: KeyCode::Char('q'), ctrl: false, press: false }), Command::Ignore);
    assert_eq!(command_for(KeyEvent { code: KeyCode::Other, ctrl: false, press: true }), Command::Ignore);
}

#[test]
fn scan_lifecycle() {
    let mut app = App::new(opts(), 5);
    assert!(!app.scanning);
    assert_eq!(app.next_auto_scan_ns, 5);
    assert!(matches!(app.footer(5), Footer::Nothing));

    // The first tick starts the first scan, without a forced fetch.
    let o = app.tick(5).expect("scan due");
    assert!(o.fetch && !o.force_fetch && o.fetch_ttl_secs == 60);
    assert!(app.scanning);
    assert!(matches!(app.footer(6), Footer::Scanning));

    // While it runs, further requests are refused, but `f` is remembered.
    assert!(app.request_scan(false).is_none());
    assert!(matches!(app.on_key(key('f', false)), Reaction::Nothing));
    assert!(app.force_pending);

    // Its result arrives.
    app.drain_results(
        vec![ScanResult { repos: vec![repo(State::Synced, false)], duration_ns: 1_500_000_000 }],
        2_000_000_000,
    );
    assert!(!app.scanning);
    assert_eq!(app.repos.len(), 1);
    assert_eq!(app.next_auto_scan_ns, 32_000_000_000);
    match app.footer(9_999_999_999) {
        Footer::LastScan { duration_ns, ago_secs } => {
            assert_eq!(duration_ns, 1_500_000_000);
            assert_eq!(ago_secs, 7);
        }
        _ => panic!("expected the last scan"),
    }

    // Nothing is due before the refresh interval has passed.
    assert!(app.tick(31_999_999_999).is_none());
    // The automatic rescan carries the `f` pressed during the last scan.
    let o = app.tick(32_000_000_000).expect("scan due");
    assert!(o.force_fetch);
    assert!(!app.force_pending);
    app.drain_results(vec![ScanResult { repos: Vec::new(), duration_ns: 1 }], 33_000_000_000);
    // A plain rescan by key does not force the fetch.
    match app.on_key(key('r', false)) {
        Reaction::Scan(o) => assert!(!o.force_fetch),
        _ => panic!("expected a scan"),
    }
    assert!(matches!(app.on_key(key('q', false)), Reaction::Quit));

    // An empty batch of results changes nothing.
    app.drain_results(Vec::new(), 40_000_000_000);
    assert!(app.scanning);
}

#[test]
fn no_fetch_option() {
    let mut o = opts();
    o.no_fetch = true;
    let mut app = App::new(o, 0);
    let s = app.request_scan(false).unwrap();
    assert!(!s.fetch);
}

#[test]
fn command_line_defaults() {
    assert_eq!(default_target(Some("/home/me".to_string())), "/home/me/PANTHEON");
    assert_eq!(default_target(None), "//PANTHEON");
    assert_eq!(worker_threads(0), 1);
    assert_eq!(worker_threads(16), 16);
}

#[test]
fn force_fetch_option_forces_every_scan() {
    let mut o = opts();
    o.force_fetch = true;
    let mut app = App::new(o, 0);
    assert!(app.request_scan(false).unwrap().force_fetch);
}
