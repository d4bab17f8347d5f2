//! Command-line argument parsing: each flag is located by name anywhere in
//! the argument vector and its value is the token that follows it.

use vstd::prelude::*;
use crate::numerals::{digits_only, dec_value, parse_usize};

verus! {

/// The three run parameters every invocation must supply.
#[derive(Debug, PartialEq, Eq)]
pub struct RunParams {
    /// Output directory.
    pub folder: String,
    /// Identifiers `1..=files` are downloaded.
    pub files: usize,
    /// Concurrency bound: at most this many downloads run at once.
    pub threads: usize,
}

/// Why an argument vector was rejected, in the order the flags are examined:
/// a missing flag or missing value is a usage error, a present but
/// non-numeric value is specific to its flag.
#[derive(Clone, Copy, PartialEq, Eq, Structural, Debug)]
pub enum ArgError {
    /// `--folder`, `--files` or `--threads` is absent or has no value token.
    Usage,
    /// The value of `--files` is not a `usize` numeral.
    BadFiles,
    /// The value of `--threads` is not a `usize` numeral.
    BadThreads,
}

/// The index of the first argument equal to `flag`, or `args.len()` when no
/// argument matches.
pub open spec fn flag_slot(args: Seq<String>, flag: Seq<char>) -> int
    decreases args.len(),
{
    if args.len() == 0 {
        0
    } else if args[0]@ == flag {
        0
    } else {
        1 + flag_slot(args.drop_first(), flag)
    }
}

/// The value of `flag`: the token right after its first occurrence. `None`
/// when the flag is absent or is the last token.
pub open spec fn flag_value(args: Seq<String>, flag: Seq<char>) -> Option<Seq<char>> {
    if flag_slot(args, flag) + 1 < args.len() {
        Some(args[flag_slot(args, flag) + 1]@)
    } else {
        None
    }
}

/// A non-empty, all-digit numeral whose value fits in `usize`: exactly the
/// strings `parse_usize` accepts.
pub open spec fn numeral_ok(s: Seq<char>) -> bool {
    s.len() > 0 && digits_only(s) && dec_value(s) <= usize::MAX
}

proof fn lemma_flag_slot_found(args: Seq<String>, flag: Seq<char>, i: int)
    requires
        0 <= i < args.len(),
        args[i]@ == flag,
        forall|j: int| 0 <= j < i ==> #[trigger] args[j]@ != flag,
    ensures
        flag_slot(args, flag) == i,
    decreases args.len(),
{
    if i > 0 {
        let rest = args.drop_first();
        assert(forall|j: int| 0 <= j < i - 1 ==> #[trigger] rest[j]@ != flag);
        lemma_flag_slot_found(rest, flag, i - 1);
    }
}

proof fn lemma_flag_slot_absent(args: Seq<String>, flag: Seq<char>)
    requires
        forall|j: int| 0 <= j < args.len() ==> #[trigger] args[j]@ != flag,
    ensures
        flag_slot(args, flag) == args.len(),
    decreases args.len(),
{
    if args.len() > 0 {
        let rest = args.drop_first();
        assert(forall|j: int| 0 <= j < rest.len() ==> #[trigger] rest[j]@ != flag);
        lemma_flag_slot_absent(rest, flag);
    }
}

/// Character-by-character string equality.
fn str_eq(a: &str, b: &str) -> (r: bool)
    ensures
        r == (a@ == b@),
{
    let n = a.unicode_len();
    if n != b.unicode_len() {
        return false;
    }
    let mut i: usize = 0;
    while i < n
        invariant
            n == a@.len() == b@.len(),
            0 <= i <= n,
            forall|j: int| 0 <= j < i ==> a@[j] == b@[j],
        decreases n - i,
    {
        if a.get_char(i) != b.get_char(i) {
            return false;
        }
        i = i + 1;
    }
    proof {
        assert(a@ =~= b@);
    }
    true
}

/// Looks up the value of `flag`: the token right after the first argument
/// equal to `flag`.
pub fn find_flag_value(args: &Vec<String>, flag: &str) -> (r: Option<String>)
    ensures
        r is Some <==> flag_value(args@, flag@) is Some,
        r is Some ==> r->0@ == flag_value(args@, flag@)->0,
{
    let n = args.len();
    let mut i: usize = 0;
    while i < n
        invariant
            n == args@.len(),
            0 <= i <= n,
            forall|j: int| 0 <= j < i ==> #[trigger] args@[j]@ != flag@,
        decreases n - i,
    {
        if str_eq(args[i].as_str(), flag) {
            proof {
                lemma_flag_slot_found(args@, flag@, i as int);
            }
            if i + 1 < n {
                return Some(args[i + 1].clone());
            } else {
                return None;
            }
        }
        i = i + 1;
    }
    proof {
        lemma_flag_slot_absent(args@, flag@);
    }
    None
}

/// Parses the argument vector. `Ok` exactly when all three flags have a
/// value token and the `--files` / `--threads` values are `usize` numerals;
/// otherwise the error names the first check that failed, examined in the
/// order folder, files presence, files numeral, threads presence, threads
/// numeral.
pub fn parse_run_args(args: &Vec<String>) -> (r: Result<RunParams, ArgError>)
    ensures
        ({
            let fo = flag_value(args@, "--folder"@);
            let fi = flag_value(args@, "--files"@);
            let th = flag_value(args@, "--threads"@);
            &&& (r is Ok <==> fo is Some && fi is Some && th is Some && numeral_ok(fi->0)
                && numeral_ok(th->0))
            &&& (r is Ok ==> r->Ok_0.folder@ == fo->0 && r->Ok_0.files == dec_value(fi->0)
                && r->Ok_0.threads == dec_value(th->0))
            &&& ((r is Err && r->Err_0 == ArgError::Usage) <==> fo is None || fi is None || (fi is Some
                && numeral_ok(fi->0) && th is None))
            &&& ((r is Err && r->Err_0 == ArgError::BadFiles) <==> fo is Some && fi is Some && !numeral_ok(
                fi->0,
            ))
            &&& ((r is Err && r->Err_0 == ArgError::BadThreads) <==> fo is Some && fi is Some && numeral_ok(
                fi->0,
            ) && th is Some && !numeral_ok(th->0))
        }),
{
    let folder = match find_flag_value(args, "--folder") {
        Some(f) => f,
        None => {
            return Err(ArgError::Usage);
        },
    };
    let files_str = match find_flag_value(args, "--files") {
        Some(f) => f,
        None => {
            return Err(ArgError::Usage);
        },
    };
    let files = match parse_usize(files_str.as_str()) {
        Some(v) => v,
        None => {
            return Err(ArgError::BadFiles);
        },
    };
    let threads_str = match find_flag_value(args, "--threads") {
        Some(f) => f,
        None => {
            return Err(ArgError::Usage);
        },
    };
    let threads = match parse_usize(threads_str.as_str()) {
        Some(v) => v,
        None => {
            return Err(ArgError::BadThreads);
        },
    };
    Ok(RunParams { folder, files, threads })
}

impl ArgError {
    /// The diagnostic the driver prints for this error: the usage banner for
    /// a missing flag, or which flag's value failed to parse.
    pub fn message(&self) -> (r: String)
        ensures
            *self == ArgError::Usage ==> r@ == (
            "Usage: --folder <folder_path> --files <number_of_files> --threads <number_of_threads>")@,
            *self == ArgError::BadFiles ==> r@ == ("Invalid number for --files")@,
            *self == ArgError::BadThreads ==> r@ == ("Invalid number for --threads")@,
    {
        match self {
            ArgError::Usage => String::from_str(
                "Usage: --folder <folder_path> --files <number_of_files> --threads <number_of_threads>",
            ),
            ArgError::BadFiles => String::from_str("Invalid number for --files"),
            ArgError::BadThreads => String::from_str("Invalid number for --threads"),
        }
    }
}

} // verus!
