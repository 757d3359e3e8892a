//! Command-line defaults.

use vstd::prelude::*;

verus! {

/// The home directory's `PANTHEON`; with no usable home directory, `/` stands
/// in for it.
pub open spec fn default_target_spec(home: Option<Seq<char>>) -> Seq<char> {
    let base = match home {
        Some(h) => h,
        None => "/"@,
    };
    base + "/PANTHEON"@
}

/// The directory scanned when none is given. `home` is the value of `HOME`,
/// where it is set and valid Unicode.
pub fn default_target(home: Option<String>) -> (t: String)
    ensures
        t@ == default_target_spec(
            match home {
                Some(h) => Some(h@),
                None => None,
            },
        ),
{
    let base = match home {
        Some(h) => h,
        None => String::from_str("/"),
    };
    base.concat("/PANTHEON")
}

/// The size of the worker pool: the number asked for, but at least one.
pub fn worker_threads(jobs: usize) -> (n: usize)
    ensures
        n == if jobs == 0 {
            1
        } else {
            jobs
        },
{
    if jobs == 0 {
        1
    } else {
        jobs
    }
}

} // verus!
