//! The command line as plain values: what the operator asked for.

use std::path::PathBuf;
use vstd::prelude::*;

verus! {

/// `std::path::PathBuf`: a destination in the file system, carried through untouched.
#[verifier::external_type_specification]
#[verifier::external_body]
pub struct ExPathBuf(PathBuf);

/// The endpoint that is asked where none is given.
pub const DEFAULT_URL: &'static str = "http://localhost:3000/api-docs/openapi.json";

/// The destination where none is given.
pub const DEFAULT_OUT: &'static str = "openapi/backend_openapi.json";

/// The destination of the outline beside the document, when watching.
pub const DEFAULT_OUTLINE_OUT: &'static str = "openapi/backend_openapi.outline.json";

/// The sections kept when watching, where none are named.
pub const DEFAULT_REDUCE: &'static str = "paths,components";

/// The time between two cycles of a watch, in milliseconds, where none is given.
pub const DEFAULT_INTERVAL_MS: u64 = 2_000;

/// What is written: the document, or its outline.
#[derive(Debug, Clone, Copy, PartialEq, Eq, Structural)]
pub enum OutputProfile {
    Full,
    Outline,
}

/// A parsed command line.
#[derive(Debug)]
pub struct Cli {
    pub command: Option<Command>,
    pub common: CommonArgs,
}

/// The subcommands.
#[derive(Debug)]
pub enum Command {
    Watch(WatchArgs),
}

/// The flags shared by a one-shot run and a watch.
#[derive(Debug, Clone)]
pub struct CommonArgs {
    pub url: Option<String>,
    pub out: Option<PathBuf>,
    pub outline_out: Option<PathBuf>,
    pub reduce: Option<String>,
    pub profile: OutputProfile,
    pub minify: bool,
    pub timeout_ms: u64,
    pub header: Vec<String>,
    pub stdout: bool,
}

/// The flags of a watch.
#[derive(Debug, Clone)]
pub struct WatchArgs {
    pub interval_ms: u64,
    pub no_outline: bool,
}

/// The path that `PathBuf::from` makes of a string.
pub uninterp spec fn path_of(s: Seq<char>) -> PathBuf;

/// `PathBuf::from`: the path spelled by the string.
#[verifier::external_body]
pub(crate) fn path_from(s: &str) -> (r: PathBuf)
    ensures
        r == path_of(s@),
{
    PathBuf::from(s)
}

} // verus!
