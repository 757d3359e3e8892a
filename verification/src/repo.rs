use vstd::prelude::*;

verus! {

/// Where a clone stands relative to its upstream branch.
///
/// The declaration order is the display order: repositories that need a push
/// come first, those that are not repositories at all come last.
#[derive(Clone, Copy, Debug, PartialEq, Eq, Structural)]
pub enum State {
    Push,
    Diverged,
    Pull,
    NoUpstream,
    Synced,
    NotRepo,
}

/// The palette the dashboard paints with.
#[derive(Clone, Copy, Debug, PartialEq, Eq, Structural)]
pub enum Color {
    Reset,
    Red,
    Green,
    Yellow,
    Cyan,
    Magenta,
}

/// The label shown in the `state` column.
pub open spec fn state_label(s: State) -> Seq<char> {
    match s {
        State::Push => "push"@,
        State::Diverged => "diverged"@,
        State::Pull => "pull"@,
        State::NoUpstream => "no-upstream"@,
        State::Synced => "synced"@,
        State::NotRepo => "not-repo"@,
    }
}

/// The colour a state is painted in.
pub open spec fn state_color(s: State) -> Color {
    match s {
        State::Push => Color::Red,
        State::Diverged | State::Pull => Color::Yellow,
        State::NoUpstream => Color::Cyan,
        State::Synced => Color::Green,
        State::NotRepo => Color::Reset,
    }
}

/// The position of a state in the display order.
pub open spec fn state_rank(s: State) -> u8 {
    match s {
        State::Push => 0,
        State::Diverged => 1,
        State::Pull => 2,
        State::NoUpstream => 3,
        State::Synced => 4,
        State::NotRepo => 5,
    }
}

impl State {
    pub fn label(self) -> (s: &'static str)
        ensures
            s@ == state_label(self),
    {
        match self {
            State::Push => "push",
            State::Diverged => "diverged",
            State::Pull => "pull",
            State::NoUpstream => "no-upstream",
            State::Synced => "synced",
            State::NotRepo => "not-repo",
        }
    }

    pub fn color(self) -> (c: Color)
        ensures
            c == state_color(self),
    {
        match self {
            State::Push => Color::Red,
            State::Diverged | State::Pull => Color::Yellow,
            State::NoUpstream => Color::Cyan,
            State::Synced => Color::Green,
            State::NotRepo => Color::Reset,
        }
    }

    /// The position of this state in the display order (its declaration order).
    pub fn rank(self) -> (r: u8)
        ensures
            r == state_rank(self),
    {
        match self {
            State::Push => 0,
            State::Diverged => 1,
            State::Pull => 2,
            State::NoUpstream => 3,
            State::Synced => 4,
            State::NotRepo => 5,
        }
    }
}

/// One row of the dashboard.
pub struct Repo {
    pub name: String,
    pub state: State,
    pub dirty: bool,
    pub ahead: u32,
    pub behind: u32,
    pub branch: String,
    pub last_commit: String,
    pub commits: u64,
}

/// A row of the dashboard with its text taken by its characters.
#[verifier::ext_equal]
pub struct RepoView {
    pub name: Seq<char>,
    pub state: State,
    pub dirty: bool,
    pub ahead: u32,
    pub behind: u32,
    pub branch: Seq<char>,
    pub last_commit: Seq<char>,
    pub commits: u64,
}

impl View for Repo {
    type V = RepoView;

    open spec fn view(&self) -> RepoView {
        RepoView {
            name: self.name@,
            state: self.state,
            dirty: self.dirty,
            ahead: self.ahead,
            behind: self.behind,
            branch: self.branch@,
            last_commit: self.last_commit@,
            commits: self.commits,
        }
    }
}

/// The row of a directory about which nothing beyond its name and state is known.
pub open spec fn placeholder_view(name: Seq<char>, state: State) -> RepoView {
    RepoView {
        name,
        state,
        dirty: false,
        ahead: 0,
        behind: 0,
        branch: "(n/a)"@,
        last_commit: "N/A"@,
        commits: 0,
    }
}

impl Repo {
    /// A row for a directory about which nothing beyond its name and state is known.
    pub fn placeholder(name: String, state: State) -> (r: Repo)
        ensures
            r@ == placeholder_view(name@, state),
    {
        Repo {
            name,
            state,
            dirty: false,
            ahead: 0,
            behind: 0,
            branch: String::from_str("(n/a)"),
            last_commit: String::from_str("N/A"),
            commits: 0,
        }
    }
}

} // verus!
