//! Interpretation of the ancestry oracle's answers: the current-revision
//! query and the is-ancestor query, each decided from the exit status and
//! captured output of one finished oracle invocation.

use vstd::prelude::*;
use vstd::string::*;

use crate::errors::OracleError;

verus! {

/// A query output with its trailing line ending removed: a final line feed
/// goes, and a carriage return just before it goes with it.
pub open spec fn chomp_line_ending(s: Seq<char>) -> Seq<char> {
    let a = if s.len() > 0 && s[s.len() - 1] == '\n' {
        s.drop_last()
    } else {
        s
    };
    if a.len() > 0 && a[a.len() - 1] == '\r' {
        a.drop_last()
    } else {
        a
    }
}

/// Interpret the current-revision query's outcome. On a zero exit the
/// revision identifier is the output text without its trailing line ending;
/// any other exit is an oracle failure carrying the captured error text.
pub fn revision_from_output(exit_code: i32, stdout_text: &str, stderr_text: String) -> (r: Result<
    String,
    OracleError,
>)
    ensures
        match r {
            Ok(rev) => exit_code == 0 && rev@ == chomp_line_ending(stdout_text@),
            Err(e) => exit_code != 0 && e.exit_code == exit_code && e.stderr@ == stderr_text@,
        },
{
    if exit_code != 0 {
        return Err(OracleError { exit_code, stderr: stderr_text });
    }
    let n = stdout_text.unicode_len();
    let end1 = if n > 0 && stdout_text.get_char(n - 1) == '\n' {
        n - 1
    } else {
        n
    };
    let end2 = if end1 > 0 && stdout_text.get_char(end1 - 1) == '\r' {
        end1 - 1
    } else {
        end1
    };
    let rev = stdout_text.substring_char(0, end2).to_owned();
    proof {
        assert(rev@ =~= chomp_line_ending(stdout_text@));
    }
    Ok(rev)
}

/// Interpret the ancestry query's exit status: the expected success code
/// means the candidate is an ancestor, the expected failure code means it
/// is not, and any other exit is an oracle failure.
pub fn ancestor_from_exit_code(exit_code: i32, stderr_text: String) -> (r: Result<
    bool,
    OracleError,
>)
    ensures
        match r {
            Ok(b) => (exit_code == 0 || exit_code == 1) && b == (exit_code == 0),
            Err(e) => {
                &&& exit_code != 0
                &&& exit_code != 1
                &&& e.exit_code == exit_code
                &&& e.stderr@ == stderr_text@
            },
        },
{
    if exit_code == 0 {
        Ok(true)
    } else if exit_code == 1 {
        Ok(false)
    } else {
        Err(OracleError { exit_code, stderr: stderr_text })
    }
}

} // verus!
