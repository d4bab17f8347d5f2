//! Status classification and the lines the program prints: the per-file
//! stdout and stderr lines and the final summary.

use vstd::prelude::*;
use crate::numerals::{dec_rep, digit_char, digit_str, format_usize};

verus! {

/// Whether an HTTP status code counts as success: exactly the 2xx class.
pub open spec fn status_ok(code: int) -> bool {
    200 <= code < 300
}

/// The error message recorded for a non-2xx response, carrying the numeric
/// status.
pub open spec fn status_error_spec(code: nat) -> Seq<char> {
    "Failed to download file: HTTP "@ + dec_rep(code)
}

/// The stdout line for a completed download of identifier `i` to `dest`.
pub open spec fn success_line_spec(i: nat, dest: Seq<char>) -> Seq<char> {
    "File "@ + dec_rep(i) + " downloaded successfully to "@ + dest
}

/// The stderr line for a failed download of identifier `i` with error `err`.
pub open spec fn failure_line_spec(i: nat, err: Seq<char>) -> Seq<char> {
    "Failed to download file "@ + dec_rep(i) + ": "@ + err
}

/// Elapsed milliseconds rendered as seconds with two decimals, truncated:
/// whole seconds, a point, tenths, hundredths.
pub open spec fn elapsed_spec(ms: nat) -> Seq<char> {
    dec_rep(ms / 1000) + "."@ + seq![
        digit_char(((ms % 1000) / 100) as int),
        digit_char(((ms % 100) / 10) as int),
    ]
}

/// The one summary line printed after all tasks join.
pub open spec fn summary_spec(
    files: nat,
    elapsed_ms: nat,
    threads: nat,
    success: nat,
    failure: nat,
) -> Seq<char> {
    "Downloaded "@ + dec_rep(files) + " files in "@ + elapsed_spec(elapsed_ms)
        + " seconds using "@ + dec_rep(threads) + " threads ("@ + dec_rep(success)
        + " succeeded, "@ + dec_rep(failure) + " failed)"@
}

/// Whether `code` is in the 2xx class, the only class treated as success.
pub fn is_success_status(code: u16) -> (r: bool)
    ensures
        r == status_ok(code as int),
{
    200 <= code && code < 300
}

/// The error message for a non-2xx response with status `code`.
pub fn status_error(code: u16) -> (r: String)
    ensures
        r@ == status_error_spec(code as nat),
{
    let mut s = String::from_str("Failed to download file: HTTP ");
    s.append(format_usize(code as usize).as_str());
    s
}

/// The download decision on a response status: `Ok` exactly on a 2xx status,
/// telling the driver to write the body; otherwise the error message naming
/// the numeric status, and nothing is written.
pub fn classify_status(code: u16) -> (r: Result<(), String>)
    ensures
        r is Ok <==> status_ok(code as int),
        r is Err ==> r->Err_0@ == status_error_spec(code as nat),
{
    if is_success_status(code) {
        Ok(())
    } else {
        Err(status_error(code))
    }
}

/// The stdout line for a download of `i` that completed at `dest`.
pub fn success_line(i: usize, dest: &str) -> (r: String)
    ensures
        r@ == success_line_spec(i as nat, dest@),
{
    let mut s = String::from_str("File ");
    s.append(format_usize(i).as_str());
    s.append(" downloaded successfully to ");
    s.append(dest);
    proof {
        assert(s@ =~= success_line_spec(i as nat, dest@));
    }
    s
}

/// The stderr line for a download of `i` that failed with `err`.
pub fn failure_line(i: usize, err: &str) -> (r: String)
    ensures
        r@ == failure_line_spec(i as nat, err@),
{
    let mut s = String::from_str("Failed to download file ");
    s.append(format_usize(i).as_str());
    s.append(": ");
    s.append(err);
    proof {
        assert(s@ =~= failure_line_spec(i as nat, err@));
    }
    s
}

/// The summary line: file total, elapsed seconds to two decimals, thread
/// count, and the two final counters.
pub fn summary_line(
    files: usize,
    elapsed_ms: usize,
    threads: usize,
    success: usize,
    failure: usize,
) -> (r: String)
    ensures
        r@ == summary_spec(files as nat, elapsed_ms as nat, threads as nat, success as nat,
            failure as nat),
{
    let mut s = String::from_str("Downloaded ");
    s.append(format_usize(files).as_str());
    s.append(" files in ");
    s.append(format_usize(elapsed_ms / 1000).as_str());
    s.append(".");
    s.append(digit_str((elapsed_ms % 1000) / 100));
    s.append(digit_str((elapsed_ms % 100) / 10));
    s.append(" seconds using ");
    s.append(format_usize(threads).as_str());
    s.append(" threads (");
    s.append(format_usize(success).as_str());
    s.append(" succeeded, ");
    s.append(format_usize(failure).as_str());
    s.append(" failed)");
    proof {
        assert(s@ =~= summary_spec(files as nat, elapsed_ms as nat, threads as nat,
            success as nat, failure as nat));
    }
    s
}

} // verus!
