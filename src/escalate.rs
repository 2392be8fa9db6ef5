//! The command line of a rerun with higher privileges, and how its end is passed on.
use vstd::prelude::*;

use crate::text::views;

verus! {

/// The arguments for the privilege helper: `HOME=<home>` to keep the invoking user's home
/// directory, then the command line as invoked, whose program is replaced by `exe`, its
/// absolute path, where that is known.
pub open spec fn escalation_args_of(args: Seq<Seq<char>>, exe: Option<Seq<char>>, home: Seq<char>) -> Seq<
    Seq<char>,
> {
    let program = match exe {
        Some(e) => if args.len() > 0 {
            args.update(0, e)
        } else {
            args
        },
        None => args,
    };
    seq!["HOME="@ + home] + program
}

pub open spec fn opt_view(o: Option<String>) -> Option<Seq<char>> {
    match o {
        Some(s) => Some(s@),
        None => None,
    }
}

/// Builds the arguments for the privilege helper.
pub fn escalation_args(args: &Vec<String>, exe: Option<String>, home: &str) -> (r: Vec<String>)
    ensures
        views(r@) == escalation_args_of(views(args@), opt_view(exe), home@),
{
    let mut r: Vec<String> = Vec::new();
    r.push("HOME=".to_owned().concat(home));
    let n = args.len();
    let mut i: usize = 0;
    while i < n
        invariant
            n == args@.len(),
            i <= n,
            r@.len() == i + 1,
            r@[0]@ == "HOME="@ + home@,
            forall|k: int| 0 < k <= i ==> #[trigger] r@[k] == args@[k - 1],
        decreases n - i,
    {
        r.push(args[i].clone());
        i = i + 1;
    }
    if n > 0 {
        if let Some(e) = exe {
            r.set(1, e);
        }
    }
    assert(views(r@) =~= escalation_args_of(views(args@), opt_view(exe), home@));
    r
}

/// The exit status that a rerun passes on: zero where it succeeded, else its own status, or
/// one where it has none (it was ended by a signal).
pub fn escalated_exit_code(success: bool, code: Option<i32>) -> (r: i32)
    ensures
        r == (if success {
            0i32
        } else {
            match code {
                Some(c) => c,
                None => 1i32,
            }
        }),
{
    if success {
        0
    } else {
        match code {
            Some(c) => c,
            None => 1,
        }
    }
}

} // verus!
