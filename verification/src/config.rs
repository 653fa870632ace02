//! Building a run configuration out of raw arguments and the state of the
//! case-insensitivity environment flag.

use vstd::prelude::*;
use vstd::string::StringExecFns;

verus! {

/// Some argument is the literal mode flag `--igc`.  Every argument slot is
/// scanned, the program-name, query and path slots included.
pub open spec fn flag_in_args(args: Seq<String>) -> bool {
    exists|i: int| 0 <= i < args.len() && args[i]@ == "--igc"@
}

/// What one invocation searches for, where, and how.
pub struct Config {
    /// The substring to look for.
    pub query: String,
    /// The path of the file to search in.
    pub file_path: String,
    /// Whether matching lowercases both sides first.
    pub ignore_case: bool,
}

impl Config {
    /// Builds a configuration from the raw argument list: the query is the
    /// second argument, the file path the third, and matching is
    /// case-insensitive when the environment flag was set or any argument
    /// equals `--igc`.  Fails when fewer than three arguments are given.
    pub fn build(args: &Vec<String>, env_ignore_case: bool) -> (r: Result<Config, &'static str>)
        ensures
            args@.len() < 3 <==> r is Err,
            r is Err ==> r->Err_0@ == "Not enough arguments"@,
            r is Ok ==> {
                &&& r->Ok_0.query@ == args@[1]@
                &&& r->Ok_0.file_path@ == args@[2]@
                &&& r->Ok_0.ignore_case == (env_ignore_case || flag_in_args(args@))
            },
    {
        if args.len() < 3 {
            return Err("Not enough arguments");
        }
        let query = args[1].clone();
        let file_path = args[2].clone();
        let mut ignore_case = env_ignore_case;
        let flag = String::from_str("--igc");
        let n = args.len();
        let mut i: usize = 0;
        while i < n
            invariant
                n == args@.len(),
                i <= n,
                flag@ == "--igc"@,
                ignore_case == (env_ignore_case || exists|k: int|
                    0 <= k < i && args@[k]@ == "--igc"@),
            decreases n - i,
        {
            if args[i] == flag {
                ignore_case = true;
            }
            i += 1;
        }
        Ok(Config { query, file_path, ignore_case })
    }
}

} // verus!
