//! Choosing the working directory the server is rooted at; the server takes
//! its default workspace from it.

use vstd::prelude::*;
use crate::text::chars_of;

verus! {

/// Whether a command-line argument can name the working directory: flags,
/// which start with `-`, cannot.
pub fn is_path_argument(arg: &str) -> (b: bool)
    ensures
        b == !(arg@.len() > 0 && arg@[0] == '-'),
{
    let v = chars_of(arg);
    !(v.len() > 0 && v[0] == '-')
}

/// The command-line argument the server is rooted at: the first of `args`
/// that is not a flag and names an existing directory (`is_dir[i]` says
/// whether `args[i]` does), none when there is no such argument.
pub fn select_cwd_arg(args: &Vec<String>, is_dir: &Vec<bool>) -> (r: Option<usize>)
    requires
        args.len() == is_dir.len(),
    ensures
        match r {
            Some(i) => {
                &&& i < args.len()
                &&& cwd_arg_ok(args@[i as int]@, is_dir@[i as int])
                &&& forall|j: int| 0 <= j < i ==> !cwd_arg_ok(#[trigger] args@[j]@, is_dir@[j])
            },
            None => forall|j: int| 0 <= j < args.len() ==> !cwd_arg_ok(#[trigger] args@[j]@, is_dir@[j]),
        },
{
    let mut i: usize = 0;
    while i < args.len()
        invariant
            i <= args.len() == is_dir.len(),
            forall|j: int| 0 <= j < i ==> !cwd_arg_ok(#[trigger] args@[j]@, is_dir@[j]),
        decreases args.len() - i,
    {
        if is_path_argument(args[i].as_str()) && is_dir[i] {
            return Some(i);
        }
        i = i + 1;
    }
    None
}

/// Whether an argument with text `arg` can be the working directory, given
/// whether it names an existing directory.
pub open spec fn cwd_arg_ok(arg: Seq<char>, is_dir: bool) -> bool {
    !(arg.len() > 0 && arg[0] == '-') && is_dir
}

/// Law: an argument is taken as the working directory exactly when it names
/// an existing directory and is not a flag. Any text that does not start
/// with `-` (spaces, drive letters and all) qualifies once it names a
/// directory; a flag or a text that names no directory never does.
pub proof fn lemma_cwd_arg_accepts_directories(a: Seq<char>, d: bool)
    ensures
        (a.len() == 0 || a[0] != '-') ==> cwd_arg_ok(a, true),
        !d ==> !cwd_arg_ok(a, d),
        (a.len() > 0 && a[0] == '-') ==> !cwd_arg_ok(a, d),
{
}

/// The home directory to try: `USERPROFILE` when it is set, else `HOME`.
pub fn home_candidate<T>(userprofile: Option<T>, home: Option<T>) -> (dir: Option<T>)
    ensures
        dir == (match userprofile {
            Some(p) => Some(p),
            None => home,
        }),
{
    match userprofile {
        Some(p) => Some(p),
        None => home,
    }
}

/// The home directory actually used: the candidate when it is an existing
/// directory, else the current directory when it is known, else `fallback`
/// (`.`). A candidate that is not a directory is not replaced by the other
/// variable.
pub fn settle_home<T>(candidate: Option<T>, candidate_is_dir: bool, current: Option<T>, fallback: T) -> (dir: T)
    ensures
        dir == (match candidate {
            Some(c) => if candidate_is_dir {
                c
            } else {
                match current {
                    Some(d) => d,
                    None => fallback,
                }
            },
            None => match current {
                Some(d) => d,
                None => fallback,
            },
        }),
{
    match candidate {
        Some(c) => {
            if candidate_is_dir {
                return c;
            }
        },
        None => {},
    }
    match current {
        Some(d) => d,
        None => fallback,
    }
}

} // verus!
