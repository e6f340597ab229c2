//! Structural statistics over newline-delimited JSON.
//!
//! The library walks parsed JSON documents, collects which paths occur with
//! which value types, classifies per-record failures without halting, and
//! merges partial statistics with an associative combine operation so that
//! sequential and sharded runs agree.
//!
//! This crate root holds the run configuration: the plain flags consumed as
//! data, and the settings derived from them once at startup, including the
//! compiled query selector from serde_json_path.

pub mod decimal;
pub mod json;

use vstd::prelude::*;

verus! {

/// The run configuration, consumed as plain data: an optional line limit,
/// an optional path-query string, how to walk arrays, and the execution
/// strategy choices.
#[derive(Debug, Clone, PartialEq, Eq)]
pub struct Cli {
    /// Limit inspection to the first n records.
    pub lines: Option<usize>,
    /// A path-query to re-select sub-documents before walking.
    pub jsonpath: Option<String>,
    /// Walk array elements under the shared segment `[*]`.
    pub inspect_arrays: bool,
    /// Walk array elements under per-element segments `[0]`, `[1]`, ...
    pub explode_arrays: bool,
    /// Combine the statistics of several files at the end.
    pub merge: bool,
    /// Use the sharded execution strategy.
    pub parallel: bool,
}

impl Default for Cli {
    /// No limit, no query, arrays are leaves, sequential, no merging.
    fn default() -> (r: Cli)
        ensures
            r.lines is None,
            r.jsonpath is None,
            !r.inspect_arrays,
            !r.explode_arrays,
            !r.merge,
            !r.parallel,
    {
        Cli {
            lines: None,
            jsonpath: None,
            inspect_arrays: false,
            explode_arrays: false,
            merge: false,
            parallel: false,
        }
    }
}

/// A failure before any processing starts. Unlike a per-record error it is
/// fatal: no statistics are produced.
#[derive(Debug, Clone, Copy, PartialEq, Eq, Structural)]
pub enum StartupError {
    /// `explode_arrays` and `inspect_arrays` are mutually exclusive.
    ConflictingArrayFlags,
    /// The configured path-query is not valid query syntax.
    InvalidQuery,
}

#[verifier::external_type_specification]
#[verifier::external_body]
pub struct ExJsonPath(serde_json_path::JsonPath);

/// The query text a compiled selector stands for.
pub uninterp spec fn selector_text(p: serde_json_path::JsonPath) -> Seq<char>;

/// Whether a query string is valid path-query syntax.
pub uninterp spec fn query_text_valid(q: Seq<char>) -> bool;

/// Relies on serde_json_path::JsonPath::parse: compiling succeeds exactly
/// on valid query syntax, and is a deterministic function of the text.
#[verifier::external_body]
fn compile_query(q: &str) -> (r: Option<serde_json_path::JsonPath>)
    ensures
        r is Some <==> query_text_valid(q@),
        r matches Some(p) ==> selector_text(p) == q@,
{
    serde_json_path::JsonPath::parse(q).ok()
}

/// The validated run configuration: the flags together with the compiled
/// query selector, built once at startup.
pub struct Settings {
    pub args: Cli,
    pub jsonpath_selector: Option<serde_json_path::JsonPath>,
}

/// The configured query text, if any.
pub open spec fn qtext_of(s: Settings) -> Option<Seq<char>> {
    match s.args.jsonpath {
        Some(q) => Some(q@),
        None => None,
    }
}

impl Settings {
    /// A selector is compiled exactly when a query is configured, it stands
    /// for that query text, and the two array-walking flags do not clash.
    pub open spec fn wf(&self) -> bool {
        &&& (self.jsonpath_selector is Some <==> self.args.jsonpath is Some)
        &&& (self.jsonpath_selector matches Some(p) ==> selector_text(p)
            == self.args.jsonpath->0@)
        &&& !(self.args.explode_arrays && self.args.inspect_arrays)
    }

    /// Validates the configuration and compiles the query, if one is set.
    /// Setting both array-walking flags, or an invalid query, is a startup
    /// failure: nothing is processed.
    pub fn init(args: Cli) -> (r: Result<Settings, StartupError>)
        ensures
            r matches Ok(s) ==> s.wf() && s.args == args,
            r is Ok <==> !(args.explode_arrays && args.inspect_arrays) && (args.jsonpath matches
                Some(q) ==> query_text_valid(q@)),
            r matches Err(e) ==> (e is ConflictingArrayFlags <==> (args.explode_arrays
                && args.inspect_arrays)),
    {
        if args.explode_arrays && args.inspect_arrays {
            return Err(StartupError::ConflictingArrayFlags);
        }
        let jsonpath_selector = match &args.jsonpath {
            Some(q) => {
                match compile_query(q.as_str()) {
                    Some(p) => Some(p),
                    None => {
                        return Err(StartupError::InvalidQuery);
                    },
                }
            },
            None => None,
        };
        Ok(Settings { args, jsonpath_selector })
    }
}

} // verus!
