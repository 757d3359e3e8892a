//! The dashboard's decisions: when to scan, what a key press does, what the
//! header, table and footer say. Drawing them is left to the caller.

use vstd::prelude::*;

use std::path::PathBuf;

use crate::repo::{state_color, state_label, Color, Repo, RepoView, State};
use crate::scan::ScanOpts;
use crate::text::{decimal, to_decimal};

verus! {

#[verifier::external_type_specification]
#[verifier::external_body]
pub struct ExPathBuf(PathBuf);

/// How the dashboard runs.
pub struct AppOpts {
    /// The directory whose subdirectories are scanned.
    pub target: PathBuf,
    /// Never fetch.
    pub no_fetch: bool,
    /// A fetch younger than this many seconds is not repeated.
    pub fetch_ttl_secs: u64,
    /// Ignore the fetch cache: every scan fetches every repository.
    pub force_fetch: bool,
    /// Seconds from the end of one scan to the next automatic one.
    pub refresh_interval_secs: u64,
}

/// What one finished scan hands back: the rows and how long the scan took,
/// in nanoseconds.
pub struct ScanResult {
    pub repos: Vec<Repo>,
    pub duration_ns: u128,
}

/// The dashboard's state. Times are nanoseconds on a monotonic clock.
pub struct App {
    pub opts: AppOpts,
    pub repos: Vec<Repo>,
    pub scanning: bool,
    /// A forced fetch was asked for while a scan ran; the next scan forces it.
    pub force_pending: bool,
    pub last_scan_at_ns: Option<u128>,
    pub last_scan_duration_ns: Option<u128>,
    pub next_auto_scan_ns: u128,
}

pub open spec fn secs_to_ns(secs: u64) -> int {
    secs * 1_000_000_000
}

/// What a scan asked for now is told about the network: it fetches unless
/// fetching is off, and forces the fetch where asked to or where the
/// dashboard always does.
pub open spec fn scan_opts_for(opts: AppOpts, force_fetch: bool) -> ScanOpts {
    ScanOpts {
        fetch: !opts.no_fetch,
        fetch_ttl_secs: opts.fetch_ttl_secs,
        force_fetch: force_fetch || opts.force_fetch,
    }
}

/// A request for a scan. While one runs it is refused, but a forced fetch it
/// asks for is kept for the next scan. Otherwise the dashboard is marked as
/// scanning and the scan's options are handed out, forcing the fetch where
/// this request or a refused one asked for it.
pub open spec fn requested(a: App, force_fetch: bool) -> (App, Option<ScanOpts>) {
    if a.scanning {
        (App { force_pending: a.force_pending || force_fetch, ..a }, None)
    } else {
        (
            App { scanning: true, force_pending: false, ..a },
            Some(scan_opts_for(a.opts, force_fetch || a.force_pending)),
        )
    }
}

/// Finished scans taken in at time `now`: the last one's rows are shown, and
/// the next automatic scan is due one refresh interval later.
pub open spec fn drained(a: App, results: Seq<ScanResult>, now: u128) -> App {
    if results.len() == 0 {
        a
    } else {
        App {
            repos: results.last().repos,
            last_scan_at_ns: Some(now),
            last_scan_duration_ns: Some(results.last().duration_ns),
            scanning: false,
            next_auto_scan_ns: (now + secs_to_ns(a.opts.refresh_interval_secs)) as u128,
            ..a
        }
    }
}

/// The clock at `now`: once the next automatic scan is due, a scan without a
/// forced fetch is requested.
pub open spec fn ticked(a: App, now: u128) -> (App, Option<ScanOpts>) {
    if now >= a.next_auto_scan_ns {
        requested(a, false)
    } else {
        (a, None)
    }
}

impl App {
    /// A dashboard started at `now_ns`, with nothing scanned yet and the first
    /// scan due at once.
    pub fn new(opts: AppOpts, now_ns: u128) -> (a: App)
        ensures
            a.opts == opts,
            a.repos@.len() == 0,
            !a.scanning,
            !a.force_pending,
            a.last_scan_at_ns is None,
            a.last_scan_duration_ns is None,
            a.next_auto_scan_ns == now_ns,
    {
        App {
            next_auto_scan_ns: now_ns,
            scanning: false,
            force_pending: false,
            last_scan_at_ns: None,
            last_scan_duration_ns: None,
            repos: Vec::new(),
            opts,
        }
    }

    /// Asks for a scan; the options come back where one is to be started.
    pub fn request_scan(&mut self, force_fetch: bool) -> (r: Option<ScanOpts>)
        ensures
            (*final(self), r) == requested(*old(self), force_fetch),
            r is Some <==> !old(self).scanning,
            r matches Some(o) ==> o.fetch == !old(self).opts.no_fetch && o.fetch_ttl_secs
                == old(self).opts.fetch_ttl_secs && o.force_fetch == (force_fetch
                || old(self).force_pending || old(self).opts.force_fetch),
    {
        proof {
            law_scan_carries_options(*old(self), force_fetch);
        }
        if self.scanning {
            self.force_pending = self.force_pending || force_fetch;
            return None;
        }
        let force = force_fetch || self.force_pending;
        self.scanning = true;
        self.force_pending = false;
        Some(
            ScanOpts {
                fetch: !self.opts.no_fetch,
                fetch_ttl_secs: self.opts.fetch_ttl_secs,
                force_fetch: force || self.opts.force_fetch,
            },
        )
    }

    /// Takes in the scans that finished since the last call, oldest first.
    pub fn drain_results(&mut self, results: Vec<ScanResult>, now_ns: u128)
        requires
            results@.len() > 0 ==> now_ns + secs_to_ns(old(self).opts.refresh_interval_secs)
                <= u128::MAX,
        ensures
            *final(self) == drained(*old(self), results@, now_ns),
    {
        let ghost all = results@;
        let mut results = results;
        match results.pop() {
            Some(r) => {
                assert(r == all.last());
                self.repos = r.repos;
                self.last_scan_at_ns = Some(now_ns);
                self.last_scan_duration_ns = Some(r.duration_ns);
                self.scanning = false;
                self.next_auto_scan_ns = now_ns + (self.opts.refresh_interval_secs as u128)
                    * 1_000_000_000;
            },
            None => {},
        }
    }

    /// Lets time pass: at or after the due time, an automatic scan is requested.
    pub fn tick(&mut self, now_ns: u128) -> (r: Option<ScanOpts>)
        ensures
            (*final(self), r) == ticked(*old(self), now_ns),
    {
        if now_ns >= self.next_auto_scan_ns {
            self.request_scan(false)
        } else {
            None
        }
    }
}

// ---------------------------------------------------------------------------
// Keys
// ---------------------------------------------------------------------------

/// The key of a key event.
#[derive(Clone, Copy, Debug, PartialEq, Eq, Structural)]
pub enum KeyCode {
    Char(char),
    Esc,
    Other,
}

/// A key event: its key, whether Control was held, and whether it is a press
/// (as opposed to a release or a repeat).
#[derive(Clone, Copy, Debug, PartialEq, Eq, Structural)]
pub struct KeyEvent {
    pub code: KeyCode,
    pub ctrl: bool,
    pub press: bool,
}

/// What a key asks of the dashboard.
#[derive(Clone, Copy, Debug, PartialEq, Eq, Structural)]
pub enum Command {
    Quit,
    Rescan,
    ForceFetch,
    Ignore,
}

/// `q`, Esc and Ctrl-C quit; `r` rescans; `f` rescans with a forced fetch;
/// anything else, and any key that is not a press, is ignored.
pub open spec fn command_spec(k: KeyEvent) -> Command {
    if !k.press {
        Command::Ignore
    } else {
        match k.code {
            KeyCode::Char(c) => if c == 'q' {
                Command::Quit
            } else if c == 'c' && k.ctrl {
                Command::Quit
            } else if c == 'r' {
                Command::Rescan
            } else if c == 'f' {
                Command::ForceFetch
            } else {
                Command::Ignore
            },
            KeyCode::Esc => Command::Quit,
            KeyCode::Other => Command::Ignore,
        }
    }
}

pub fn command_for(k: KeyEvent) -> (c: Command)
    ensures
        c == command_spec(k),
{
    if !k.press {
        return Command::Ignore;
    }
    match k.code {
        KeyCode::Char('q') | KeyCode::Esc => Command::Quit,
        KeyCode::Char('c') if k.ctrl => Command::Quit,
        KeyCode::Char('r') => Command::Rescan,
        KeyCode::Char('f') => Command::ForceFetch,
        _ => Command::Ignore,
    }
}

/// What the event loop does after a key.
pub enum Reaction {
    Quit,
    Scan(ScanOpts),
    Nothing,
}

pub open spec fn keyed(a: App, k: KeyEvent) -> (App, Reaction) {
    match command_spec(k) {
        Command::Quit => (a, Reaction::Quit),
        Command::Rescan => match requested(a, false) {
            (b, Some(o)) => (b, Reaction::Scan(o)),
            (b, None) => (b, Reaction::Nothing),
        },
        Command::ForceFetch => match requested(a, true) {
            (b, Some(o)) => (b, Reaction::Scan(o)),
            (b, None) => (b, Reaction::Nothing),
        },
        Command::Ignore => (a, Reaction::Nothing),
    }
}

impl App {
    /// Handles a key event.
    pub fn on_key(&mut self, k: KeyEvent) -> (r: Reaction)
        ensures
            (*final(self), r) == keyed(*old(self), k),
    {
        let scan = match command_for(k) {
            Command::Quit => return Reaction::Quit,
            Command::Rescan => self.request_scan(false),
            Command::ForceFetch => self.request_scan(true),
            Command::Ignore => None,
        };
        match scan {
            Some(o) => Reaction::Scan(o),
            None => Reaction::Nothing,
        }
    }
}

// ---------------------------------------------------------------------------
// Footer
// ---------------------------------------------------------------------------

/// What the footer reports after its key help.
pub enum Footer {
    Scanning,
    /// The last scan's duration, and whole seconds since it finished.
    LastScan { duration_ns: u128, ago_secs: u128 },
    Nothing,
}

pub open spec fn footer_spec(a: App, now: u128) -> Footer {
    if a.scanning {
        Footer::Scanning
    } else {
        match a.last_scan_duration_ns {
            Some(d) => Footer::LastScan {
                duration_ns: d,
                ago_secs: match a.last_scan_at_ns {
                    Some(t) => if now >= t {
                        ((now - t) / 1_000_000_000) as u128
                    } else {
                        0
                    },
                    None => 0,
                },
            },
            None => Footer::Nothing,
        }
    }
}

impl App {
    /// The footer's report at time `now_ns`.
    pub fn footer(&self, now_ns: u128) -> (f: Footer)
        ensures
            f == footer_spec(*self, now_ns),
    {
        if self.scanning {
            return Footer::Scanning;
        }
        match self.last_scan_duration_ns {
            Some(d) => {
                let ago = match self.last_scan_at_ns {
                    Some(t) => if now_ns >= t {
                        (now_ns - t) / 1_000_000_000
                    } else {
                        0
                    },
                    None => 0,
                };
                Footer::LastScan { duration_ns: d, ago_secs: ago }
            },
            None => Footer::Nothing,
        }
    }
}

// ---------------------------------------------------------------------------
// Header
// ---------------------------------------------------------------------------

/// The summary over all rows.
pub struct Counts {
    /// Rows with commits to push: `push` and `diverged`.
    pub push: usize,
    /// Rows with commits to pull: `pull` and `diverged`.
    pub pull: usize,
    pub dirty: usize,
    pub no_upstream: usize,
    /// Rows that are repositories.
    pub total: usize,
}

/// The number of items of `s` for which `p` holds.
pub open spec fn count_where(s: Seq<Repo>, p: spec_fn(Repo) -> bool) -> nat
    decreases s.len(),
{
    if s.len() == 0 {
        0
    } else {
        count_where(s.drop_last(), p) + if p(s.last()) {
            1nat
        } else {
            0nat
        }
    }
}

pub proof fn lemma_count_where_bound(s: Seq<Repo>, p: spec_fn(Repo) -> bool)
    ensures
        count_where(s, p) <= s.len(),
    decreases s.len(),
{
    if s.len() > 0 {
        lemma_count_where_bound(s.drop_last(), p);
    }
}

pub open spec fn has_push(r: Repo) -> bool {
    r.state == State::Push || r.state == State::Diverged
}

pub open spec fn has_pull(r: Repo) -> bool {
    r.state == State::Pull || r.state == State::Diverged
}

pub open spec fn is_dirty(r: Repo) -> bool {
    r.dirty
}

pub open spec fn lacks_upstream(r: Repo) -> bool {
    r.state == State::NoUpstream
}

pub open spec fn is_repository(r: Repo) -> bool {
    r.state != State::NotRepo
}

pub fn counts(repos: &[Repo]) -> (c: Counts)
    ensures
        c.push == count_where(repos@, |r: Repo| has_push(r)),
        c.pull == count_where(repos@, |r: Repo| has_pull(r)),
        c.dirty == count_where(repos@, |r: Repo| is_dirty(r)),
        c.no_upstream == count_where(repos@, |r: Repo| lacks_upstream(r)),
        c.total == count_where(repos@, |r: Repo| is_repository(r)),
        c.push == count_where(repos@, |r: Repo| r.state == State::Push) + count_where(
            repos@,
            |r: Repo| r.state == State::Diverged,
        ),
        c.pull == count_where(repos@, |r: Repo| r.state == State::Pull) + count_where(
            repos@,
            |r: Repo| r.state == State::Diverged,
        ),
        c.dirty == count_where(repos@, |r: Repo| r.dirty),
        c.no_upstream == count_where(repos@, |r: Repo| r.state == State::NoUpstream),
        c.total + count_where(repos@, |r: Repo| r.state == State::NotRepo) == repos@.len(),
{
    proof {
        law_counts_by_state(repos@);
    }
    let mut c = Counts { push: 0, pull: 0, dirty: 0, no_upstream: 0, total: 0 };
    let n = repos.len();
    for i in 0..n
        invariant
            n == repos@.len(),
            c.push == count_where(repos@.take(i as int), |r: Repo| has_push(r)),
            c.pull == count_where(repos@.take(i as int), |r: Repo| has_pull(r)),
            c.dirty == count_where(repos@.take(i as int), |r: Repo| is_dirty(r)),
            c.no_upstream == count_where(repos@.take(i as int), |r: Repo| lacks_upstream(r)),
            c.total == count_where(repos@.take(i as int), |r: Repo| is_repository(r)),
    {
        let ghost prefix = repos@.take(i + 1);
        assert(prefix.drop_last() =~= repos@.take(i as int));
        assert(prefix.last() == repos@[i as int]);
        proof {
            lemma_count_where_bound(repos@.take(i as int), |r: Repo| has_push(r));
            lemma_count_where_bound(repos@.take(i as int), |r: Repo| has_pull(r));
            lemma_count_where_bound(repos@.take(i as int), |r: Repo| is_dirty(r));
            lemma_count_where_bound(repos@.take(i as int), |r: Repo| lacks_upstream(r));
            lemma_count_where_bound(repos@.take(i as int), |r: Repo| is_repository(r));
        }
        let r = &repos[i];
        let state = r.state;
        if state == State::Push || state == State::Diverged {
            c.push = c.push + 1;
        }
        if state == State::Pull || state == State::Diverged {
            c.pull = c.pull + 1;
        }
        if r.dirty {
            c.dirty = c.dirty + 1;
        }
        if state == State::NoUpstream {
            c.no_upstream = c.no_upstream + 1;
        }
        if state != State::NotRepo {
            c.total = c.total + 1;
        }
    }
    assert(repos@.take(n as int) =~= repos@);
    c
}

/// A summary item of the header: a coloured label and a count out of the total.
pub struct Chip {
    pub label: String,
    pub color: Color,
    pub value: String,
}

/// `<n>/<total>`, then two spaces where another item follows.
pub open spec fn chip_value(n: nat, total: nat, trailing_gap: bool) -> Seq<char> {
    decimal(n) + "/"@ + decimal(total) + if trailing_gap {
        "  "@
    } else {
        Seq::empty()
    }
}

pub fn count_chip(label: &str, color: Color, n: usize, total: usize, trailing_gap: bool) -> (c:
    Chip)
    ensures
        c.label@ == label@ + ": "@,
        c.color == color,
        c.value@ == chip_value(n as nat, total as nat, trailing_gap),
{
    let mut value = to_decimal(n as u64);
    value.append("/");
    value.append(to_decimal(total as u64).as_str());
    if trailing_gap {
        value.append("  ");
    } else {
        proof {
            reveal_strlit("");
        }
        assert(value@ + Seq::<char>::empty() =~= value@);
    }
    Chip { label: String::from_str(label).concat(": "), color, value }
}

/// What each count of the header counts, by state: rows to push are those in
/// `push` or `diverged`, rows to pull those in `pull` or `diverged`, dirty
/// rows those marked dirty, rows without upstream those in `no-upstream`, and
/// the repositories all rows but those in `not-repo`.
pub proof fn law_counts_by_state(s: Seq<Repo>)
    ensures
        count_where(s, |r: Repo| has_push(r)) == count_where(s, |r: Repo| r.state == State::Push)
            + count_where(s, |r: Repo| r.state == State::Diverged),
        count_where(s, |r: Repo| has_pull(r)) == count_where(s, |r: Repo| r.state == State::Pull)
            + count_where(s, |r: Repo| r.state == State::Diverged),
        count_where(s, |r: Repo| is_dirty(r)) == count_where(s, |r: Repo| r.dirty),
        count_where(s, |r: Repo| lacks_upstream(r)) == count_where(
            s,
            |r: Repo| r.state == State::NoUpstream,
        ),
        count_where(s, |r: Repo| is_repository(r)) + count_where(
            s,
            |r: Repo| r.state == State::NotRepo,
        ) == s.len(),
    decreases s.len(),
{
    if s.len() > 0 {
        law_counts_by_state(s.drop_last());
    }
}

/// The header's summary items: pull, push, dirty, and no upstream, each out
/// of the number of repositories.
pub fn header_chips(c: &Counts) -> (chips: Vec<Chip>)
    ensures
        chips@.len() == 4,
        chips@[0].label@ == "Pull: "@,
        chips@[0].color == Color::Yellow,
        chips@[0].value@ == chip_value(c.pull as nat, c.total as nat, true),
        chips@[1].label@ == "Push: "@,
        chips@[1].color == Color::Red,
        chips@[1].value@ == chip_value(c.push as nat, c.total as nat, true),
        chips@[2].label@ == "Dirty: "@,
        chips@[2].color == Color::Magenta,
        chips@[2].value@ == chip_value(c.dirty as nat, c.total as nat, true),
        chips@[3].label@ == "No upstream: "@,
        chips@[3].color == Color::Cyan,
        chips@[3].value@ == chip_value(c.no_upstream as nat, c.total as nat, false),
{
    proof {
        reveal_strlit("Pull");
        reveal_strlit("Push");
        reveal_strlit("Dirty");
        reveal_strlit("No upstream");
        reveal_strlit(": ");
        reveal_strlit("Pull: ");
        reveal_strlit("Push: ");
        reveal_strlit("Dirty: ");
        reveal_strlit("No upstream: ");
    }
    let mut chips: Vec<Chip> = Vec::new();
    chips.push(count_chip("Pull", Color::Yellow, c.pull, c.total, true));
    chips.push(count_chip("Push", Color::Red, c.push, c.total, true));
    chips.push(count_chip("Dirty", Color::Magenta, c.dirty, c.total, true));
    chips.push(count_chip("No upstream", Color::Cyan, c.no_upstream, c.total, false));
    chips
}

// ---------------------------------------------------------------------------
// Table
// ---------------------------------------------------------------------------

/// The cells of one table row, under the columns `#`, `repo`, `state`, `*`,
/// `+/-`, `last commit` and `Σ`. The row is painted in its state's colour;
/// the `*` cell, which marks uncommitted work, in magenta.
pub struct Row {
    pub color: Color,
    pub index: String,
    pub name: String,
    pub state: String,
    pub state_color: Color,
    pub star: String,
    pub star_color: Color,
    pub plus_minus: String,
    pub last_commit: String,
    pub commits: String,
}

/// `*` where the work tree has uncommitted changes, else nothing.
pub open spec fn star_text(r: RepoView) -> Seq<char> {
    if r.dirty {
        "*"@
    } else {
        Seq::empty()
    }
}

/// `<ahead>/<behind>`, or `-` where the directory is not a repository.
pub open spec fn plus_minus(r: RepoView) -> Seq<char> {
    if r.state == State::NotRepo {
        "-"@
    } else {
        decimal(r.ahead as nat) + "/"@ + decimal(r.behind as nat)
    }
}

/// The row at position `i` (counting from 0) shows `r`.
pub open spec fn is_row_of(row: Row, i: int, r: RepoView) -> bool {
    &&& row.color == state_color(r.state)
    &&& row.index@ == decimal((i + 1) as nat)
    &&& row.name@ == r.name
    &&& row.state@ == state_label(r.state)
    &&& row.state_color == state_color(r.state)
    &&& row.star@ == star_text(r)
    &&& row.star_color == Color::Magenta
    &&& row.plus_minus@ == plus_minus(r)
    &&& row.last_commit@ == r.last_commit
    &&& row.commits@ == decimal(r.commits as nat)
}

pub fn table_row(i: usize, r: &Repo) -> (row: Row)
    requires
        i < usize::MAX,
    ensures
        is_row_of(row, i as int, r@),
{
    let plus_minus = if r.state == State::NotRepo {
        String::from_str("-")
    } else {
        let mut t = to_decimal(r.ahead as u64);
        t.append("/");
        t.append(to_decimal(r.behind as u64).as_str());
        t
    };
    let star = if r.dirty {
        String::from_str("*")
    } else {
        String::new()
    };
    Row {
        color: r.state.color(),
        index: to_decimal((i + 1) as u64),
        name: r.name.clone(),
        state: String::from_str(r.state.label()),
        state_color: r.state.color(),
        star,
        star_color: Color::Magenta,
        plus_minus,
        last_commit: r.last_commit.clone(),
        commits: to_decimal(r.commits),
    }
}

/// The table's rows, one per repository, in order.
pub fn table_rows(repos: &[Repo]) -> (rows: Vec<Row>)
    ensures
        rows@.len() == repos@.len(),
        forall|i: int| 0 <= i < rows@.len() ==> is_row_of(#[trigger] rows@[i], i, repos@[i]@),
{
    let mut rows: Vec<Row> = Vec::new();
    let n = repos.len();
    for i in 0..n
        invariant
            n == repos@.len(),
            rows@.len() == i,
            forall|k: int| 0 <= k < i ==> is_row_of(#[trigger] rows@[k], k, repos@[k]@),
    {
        rows.push(table_row(i, &repos[i]));
    }
    rows
}

// ---------------------------------------------------------------------------
// Laws
// ---------------------------------------------------------------------------

/// Once a scan has been granted, every further request is refused until its
/// result is taken in.
pub proof fn law_one_scan_at_a_time(a: App, first: bool, second: bool)
    ensures
        requested(a, first).0.scanning,
        requested(requested(a, first).0, second).1 is None,
        requested(requested(a, first).0, second).0.scanning,
{
}

/// Taking in a finished scan ends the scanning, so the next request is
/// granted, forcing the fetch where this request or an earlier refused one
/// asked for it.
pub proof fn law_drain_reopens(a: App, results: Seq<ScanResult>, now: u128, force_fetch: bool)
    requires
        results.len() > 0,
    ensures
        !drained(a, results, now).scanning,
        requested(drained(a, results, now), force_fetch).1 == Some(
            scan_opts_for(a.opts, force_fetch || a.force_pending),
        ),
{
}

/// `f` pressed while a scan runs is not lost: the next scan, whether asked
/// for by key or started by the clock, forces the fetch.
pub proof fn law_force_fetch_kept(a: App, results: Seq<ScanResult>, now: u128, later: u128)
    requires
        a.scanning,
        results.len() > 0,
    ensures
        ({
            let pressed = keyed(a, KeyEvent { code: KeyCode::Char('f'), ctrl: false, press: true });
            let idle = drained(pressed.0, results, now);
            &&& pressed.1 == Reaction::Nothing
            &&& requested(idle, false).1 == Some(scan_opts_for(a.opts, true))
            &&& later >= idle.next_auto_scan_ns ==> ticked(idle, later).1 == Some(
                scan_opts_for(a.opts, true),
            )
        }),
{
}

/// No automatic scan before it is due; once due, an idle dashboard starts
/// one, forcing the fetch only where a forced fetch is pending.
pub proof fn law_auto_scan(a: App, now: u128)
    ensures
        now < a.next_auto_scan_ns ==> ticked(a, now) == (a, None::<ScanOpts>),
        now >= a.next_auto_scan_ns && !a.scanning ==> ticked(a, now).1 == Some(
            scan_opts_for(a.opts, a.force_pending),
        ),
{
}

/// `r` rescans and `f` rescans forcing the fetch, where no scan is running;
/// `q`, Esc and Ctrl-C quit without touching the state.
pub proof fn law_keys(a: App, ctrl: bool)
    ensures
        keyed(a, KeyEvent { code: KeyCode::Char('q'), ctrl, press: true }) == (a, Reaction::Quit),
        keyed(a, KeyEvent { code: KeyCode::Esc, ctrl, press: true }) == (a, Reaction::Quit),
        keyed(a, KeyEvent { code: KeyCode::Char('c'), ctrl: true, press: true }) == (
            a,
            Reaction::Quit,
        ),
        !a.scanning ==> keyed(a, KeyEvent { code: KeyCode::Char('r'), ctrl, press: true }).1
            == Reaction::Scan(scan_opts_for(a.opts, a.force_pending)),
        !a.scanning ==> keyed(a, KeyEvent { code: KeyCode::Char('f'), ctrl, press: true }).1
            == Reaction::Scan(scan_opts_for(a.opts, true)),
{
}

/// A scan is granted exactly when none runs, and it carries the dashboard's
/// options unchanged: it fetches unless `--no-fetch`, with the dashboard's
/// time to live, and forces the fetch exactly where this request, an `f`
/// pressed during the last scan, or `--force-fetch` asks for it. The same
/// holds of scans started by the clock and by keys.
pub proof fn law_scan_carries_options(a: App, force_fetch: bool)
    ensures
        requested(a, force_fetch).1 is Some <==> !a.scanning,
        requested(a, force_fetch).1 matches Some(o) ==> o.fetch == !a.opts.no_fetch
            && o.fetch_ttl_secs == a.opts.fetch_ttl_secs && o.force_fetch == (force_fetch
            || a.force_pending || a.opts.force_fetch),
        forall|now: u128|
            #[trigger] ticked(a, now).1 matches Some(o) ==> o.fetch == !a.opts.no_fetch
                && o.fetch_ttl_secs == a.opts.fetch_ttl_secs && o.force_fetch == (
            a.force_pending || a.opts.force_fetch),
        forall|k: KeyEvent|
            #[trigger] keyed(a, k).1 matches Reaction::Scan(o) ==> o.fetch == !a.opts.no_fetch
                && o.fetch_ttl_secs == a.opts.fetch_ttl_secs,
{
}

/// Something that happens to the dashboard.
pub enum AppEvent {
    Request(bool),
    Tick(u128),
    Key(KeyEvent),
    /// Finished scans taken in at a time.
    Drain(Seq<ScanResult>, u128),
}

/// An event's effect: the new state, whether a scan was started, and how
/// many finished scans were taken in.
pub open spec fn event_step(a: App, e: AppEvent) -> (App, bool, nat) {
    match e {
        AppEvent::Request(f) => (requested(a, f).0, requested(a, f).1 is Some, 0),
        AppEvent::Tick(t) => (ticked(a, t).0, ticked(a, t).1 is Some, 0),
        AppEvent::Key(k) => (keyed(a, k).0, keyed(a, k).1 is Scan, 0),
        AppEvent::Drain(rs, t) => (drained(a, rs, t), false, rs.len()),
    }
}

/// Scans started and not yet taken in, after an event.
pub open spec fn in_flight_after(n: nat, step: (App, bool, nat)) -> int {
    n + (if step.1 {
        1int
    } else {
        0int
    }) - step.2
}

/// Every event of `es` can happen: no more finished scans are taken in than
/// have been started and not yet taken in.
pub open spec fn can_happen(a: App, n: nat, es: Seq<AppEvent>) -> bool
    decreases es.len(),
{
    if es.len() == 0 {
        true
    } else {
        let step = event_step(a, es[0]);
        &&& in_flight_after(n, step) >= 0
        &&& can_happen(step.0, in_flight_after(n, step) as nat, es.drop_first())
    }
}

/// The state and the number of scans in flight after the events `es`.
pub open spec fn after_events(a: App, n: nat, es: Seq<AppEvent>) -> (App, nat)
    decreases es.len(),
{
    if es.len() == 0 {
        (a, n)
    } else {
        let step = event_step(a, es[0]);
        after_events(step.0, in_flight_after(n, step) as nat, es.drop_first())
    }
}

/// At most one scan is in flight, and one is exactly when the dashboard says
/// it is scanning.
pub open spec fn one_in_flight(a: App, n: nat) -> bool {
    n <= 1 && (n == 1 <==> a.scanning)
}

/// Whatever happens, no two scans ever run at once: from a dashboard whose
/// scanning mark matches the scans in flight (a new one, with none), every
/// run of events keeps at most one scan in flight, marked as scanning.
pub proof fn law_at_most_one_scan(a: App, n: nat, es: Seq<AppEvent>)
    requires
        one_in_flight(a, n),
        can_happen(a, n, es),
    ensures
        one_in_flight(after_events(a, n, es).0, after_events(a, n, es).1),
    decreases es.len(),
{
    if es.len() > 0 {
        let step = event_step(a, es[0]);
        assert(one_in_flight(step.0, in_flight_after(n, step) as nat));
        law_at_most_one_scan(step.0, in_flight_after(n, step) as nat, es.drop_first());
    }
}

proof fn lemma_count_where_mono(s: Seq<Repo>, p: spec_fn(Repo) -> bool, q: spec_fn(Repo) -> bool)
    requires
        forall|r: Repo| #[trigger] p(r) ==> q(r),
    ensures
        count_where(s, p) <= count_where(s, q),
    decreases s.len(),
{
    if s.len() > 0 {
        lemma_count_where_mono(s.drop_last(), p, q);
    }
}

/// Every count of the header is out of the number of repositories: rows to
/// push, to pull, and without upstream are all repositories.
pub proof fn law_counts_within_total(s: Seq<Repo>)
    ensures
        count_where(s, |r: Repo| has_push(r)) <= count_where(s, |r: Repo| is_repository(r)),
        count_where(s, |r: Repo| has_pull(r)) <= count_where(s, |r: Repo| is_repository(r)),
        count_where(s, |r: Repo| lacks_upstream(r)) <= count_where(
            s,
            |r: Repo| is_repository(r),
        ),
{
    lemma_count_where_mono(s, |r: Repo| has_push(r), |r: Repo| is_repository(r));
    lemma_count_where_mono(s, |r: Repo| has_pull(r), |r: Repo| is_repository(r));
    lemma_count_where_mono(s, |r: Repo| lacks_upstream(r), |r: Repo| is_repository(r));
}

/// Every count of the header adds up over joined lists of rows, and is 0
/// for no rows.
pub proof fn law_count_adds_up(a: Seq<Repo>, b: Seq<Repo>, p: spec_fn(Repo) -> bool)
    ensures
        count_where(a + b, p) == count_where(a, p) + count_where(b, p),
        count_where(Seq::<Repo>::empty(), p) == 0,
    decreases b.len(),
{
    if b.len() == 0 {
        assert(a + b =~= a);
    } else {
        law_count_adds_up(a, b.drop_last(), p);
        assert((a + b).drop_last() =~= a + b.drop_last());
        assert((a + b).last() == b.last());
    }
}

/// Every count of the header ignores the order of the rows: lists holding
/// the same rows, each as often, count the same.
pub proof fn law_count_ignores_order(s: Seq<Repo>, t: Seq<Repo>, p: spec_fn(Repo) -> bool)
    requires
        s.to_multiset() == t.to_multiset(),
    ensures
        count_where(s, p) == count_where(t, p),
    decreases s.len(),
{
    broadcast use vstd::seq_lib::group_to_multiset_ensures;

    s.to_multiset_ensures();
    t.to_multiset_ensures();
    if s.len() == 0 {
        assert(t.to_multiset().len() == s.to_multiset().len());
        assert(t.len() == 0);
        assert(t =~= s);
    } else {
        let x = s.last();
        let s0 = s.drop_last();
        assert(s0.push(x) =~= s);
        assert(t.to_multiset().count(x) > 0);
        assert(t.contains(x));
        let i = choose|i: int| 0 <= i < t.len() && t[i] == x;
        let t0 = t.remove(i);
        assert(s0.to_multiset() =~= s.to_multiset().remove(x));
        assert(t0.to_multiset() =~= t.to_multiset().remove(x));
        law_count_ignores_order(s0, t0, p);
        assert(t =~= t.take(i) + seq![x] + t.skip(i + 1));
        assert(t0 =~= t.take(i) + t.skip(i + 1));
        law_count_adds_up(t.take(i) + seq![x], t.skip(i + 1), p);
        law_count_adds_up(t.take(i), seq![x], p);
        law_count_adds_up(t.take(i), t.skip(i + 1), p);
        assert(seq![x].drop_last() =~= Seq::<Repo>::empty());
        assert(s0 + seq![x] =~= s);
        law_count_adds_up(s0, seq![x], p);
    }
}

pub open spec fn is_synced(r: Repo) -> bool {
    r.state == State::Synced
}

pub open spec fn is_diverged(r: Repo) -> bool {
    r.state == State::Diverged
}

/// The header's counts agree: rows to push, rows to pull, rows without
/// upstream and synced rows make up the repositories, with diverged rows
/// counted twice (they are both to push and to pull).
pub proof fn law_counts_identity(s: Seq<Repo>)
    ensures
        count_where(s, |r: Repo| has_push(r)) + count_where(s, |r: Repo| has_pull(r))
            + count_where(s, |r: Repo| lacks_upstream(r)) + count_where(s, |r: Repo| is_synced(r))
            == count_where(s, |r: Repo| is_repository(r)) + count_where(
            s,
            |r: Repo| is_diverged(r),
        ),
    decreases s.len(),
{
    if s.len() > 0 {
        law_counts_identity(s.drop_last());
    }
}

} // verus!
