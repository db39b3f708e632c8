//! The history trace invoker's configuration: which file, which revision
//! range, and which flags a reverse trace is requested with, plus the
//! interpretation of a finished trace invocation's outcome.

use vstd::prelude::*;
use vstd::string::*;

use crate::errors::OracleError;
use crate::errors::RelocError;
use crate::model::CommentTag;
use crate::parse::blame_lines;
use crate::parse::parse_blame_output;
use crate::parse::parse_line_spec;
use crate::parse::record_matches;
use crate::parse::GitBlameResult;

verus! {

/// Configuration for one reverse-history trace invocation. Constructed
/// directly; `reverse` and `line_number` default to off only by the
/// caller's choice.
#[derive(Debug, PartialEq)]
pub struct GitBlameOption {
    pub file: String,
    pub repo_path: Option<String>,
    pub reverse: bool,
    pub line_number: bool,
    pub revision: String,
}

/// The character sequences of a sequence of argument strings.
pub open spec fn strs_view(v: Seq<String>) -> Seq<Seq<char>> {
    v.map_values(|a: String| a@)
}

/// The working-tree arguments of a trace invocation.
pub open spec fn spec_repo_args(o: GitBlameOption) -> Seq<Seq<char>> {
    match o.repo_path {
        Option::Some(rp) => seq!["-C"@, rp@],
        Option::None => Seq::empty(),
    }
}

/// The flag arguments of a trace invocation.
pub open spec fn spec_flag_args(o: GitBlameOption) -> Seq<Seq<char>> {
    (if o.reverse {
        seq!["--reverse"@]
    } else {
        Seq::empty()
    }) + (if o.line_number {
        seq!["-n"@]
    } else {
        Seq::empty()
    })
}

/// The full argument list a trace configuration denotes, after the oracle
/// program's own name.
pub open spec fn spec_blame_args(o: GitBlameOption) -> Seq<Seq<char>> {
    spec_repo_args(o) + seq!["blame"@] + spec_flag_args(o) + seq![o.revision@, o.file@]
}

impl GitBlameOption {
    /// Build the argument vector of the trace invocation: the optional
    /// working-tree override, the subcommand, the requested flags, then the
    /// revision range and the file.
    pub fn build_args(&self) -> (args: Vec<String>)
        ensures
            strs_view(args@) == spec_blame_args(*self),
    {
        let mut args: Vec<String> = Vec::new();
        match &self.repo_path {
            Option::Some(rp) => {
                args.push("-C".to_owned());
                args.push(rp.clone());
            },
            Option::None => {},
        }
        proof {
            assert(strs_view(args@) =~= spec_repo_args(*self));
        }
        args.push("blame".to_owned());
        if self.reverse {
            args.push("--reverse".to_owned());
        }
        if self.line_number {
            args.push("-n".to_owned());
        }
        proof {
            assert(strs_view(args@) =~= spec_repo_args(*self) + seq!["blame"@] + spec_flag_args(
                *self,
            ));
        }
        args.push(self.revision.clone());
        args.push(self.file.clone());
        proof {
            assert(strs_view(args@) =~= spec_blame_args(*self));
        }
        args
    }
}

/// The revision range a relocation trace walks: from the given revision to
/// the present tip.
pub fn revision_range(rev: &String) -> (r: String)
    ensures
        r@ == rev@ + "..HEAD"@,
{
    let base = rev.clone();
    base.concat("..HEAD")
}

/// The trace configuration the orchestrator uses for one tag: reverse and
/// line-numbered, over the range from the tag's revision to the present.
pub fn relocation_blame_option(file_path: &String, repo_path: &String, tag: &CommentTag) -> (o:
    GitBlameOption)
    ensures
        o.file@ == file_path@,
        o.repo_path matches Some(rp) && rp@ == repo_path@,
        o.reverse == true,
        o.line_number == true,
        o.revision@ == tag.revision@ + "..HEAD"@,
{
    GitBlameOption {
        file: file_path.clone(),
        repo_path: Some(repo_path.clone()),
        reverse: true,
        line_number: true,
        revision: revision_range(&tag.revision),
    }
}

/// Interpret a finished trace invocation. A non-zero exit is an oracle
/// failure carrying the exit code and the captured error text; on a zero
/// exit every output line is parsed, in order, and the first malformed line
/// aborts with a parse failure.
pub fn blame_results_from_output(exit_code: i32, stdout_text: &str, stderr_text: String) -> (r:
    Result<Vec<GitBlameResult>, RelocError>)
    ensures
        match r {
            Ok(v) => {
                &&& exit_code == 0
                &&& v@.len() == blame_lines(stdout_text@).len()
                &&& forall|i: int|
                    0 <= i < v@.len() ==> record_matches(
                        #[trigger] v@[i],
                        blame_lines(stdout_text@)[i],
                    )
            },
            Err(RelocError::Oracle(e)) => {
                &&& exit_code != 0
                &&& e.exit_code == exit_code
                &&& e.stderr@ == stderr_text@
            },
            Err(RelocError::Parse(e)) => {
                &&& exit_code == 0
                &&& exists|i: int|
                    {
                        &&& 0 <= i < blame_lines(stdout_text@).len()
                        &&& parse_line_spec(#[trigger] blame_lines(stdout_text@)[i]) is None
                        &&& e.line@ == blame_lines(stdout_text@)[i]
                        &&& forall|j: int|
                            0 <= j < i ==> parse_line_spec(blame_lines(stdout_text@)[j]) is Some
                    }
            },
        },
{
    if exit_code != 0 {
        return Err(RelocError::Oracle(OracleError { exit_code, stderr: stderr_text }));
    }
    match parse_blame_output(stdout_text) {
        Ok(v) => Ok(v),
        Err(e) => Err(RelocError::Parse(e)),
    }
}

} // verus!
