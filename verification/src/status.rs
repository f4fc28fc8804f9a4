//! What to make of the answers the graphics context gives while a shader
//! program is built.
//!
//! Compiling a shader and linking a program both end with a status query,
//! whose answer may or may not be a boolean, and on failure with a query for
//! the info log, which may or may not exist. The rules here turn those
//! answers into an outcome and an error message.

use vstd::prelude::*;

verus! {

/// Why a shader program could not be built.
#[derive(Debug, PartialEq, Eq)]
pub enum BuildFailure {
    /// The context handed out no shader object.
    NoShaderObject,
    /// A shader did not compile. Holds the info log if the context had one.
    Compile(Option<String>),
    /// The program did not link. Holds the info log if the context had one.
    Link(Option<String>),
}

/// The text reported for a failure: the context's info log where it gave
/// one, and a fixed sentence otherwise.
pub open spec fn failure_text(failure: BuildFailure) -> Seq<char> {
    match failure {
        BuildFailure::NoShaderObject => "Unable to create shader object"@,
        BuildFailure::Compile(Some(log)) => log@,
        BuildFailure::Compile(None) => "Unknown error creating shader"@,
        BuildFailure::Link(Some(log)) => log@,
        BuildFailure::Link(None) => "Unknown error linking program"@,
    }
}

impl BuildFailure {
    /// The message to report for this failure.
    pub fn message(self) -> (text: String)
        ensures
            text@ == failure_text(self),
    {
        match self {
            BuildFailure::NoShaderObject => "Unable to create shader object".to_owned(),
            BuildFailure::Compile(Some(log)) => log,
            BuildFailure::Compile(None) => "Unknown error creating shader".to_owned(),
            BuildFailure::Link(Some(log)) => log,
            BuildFailure::Link(None) => "Unknown error linking program".to_owned(),
        }
    }
}

/// Whether a compile or link step succeeded, given the answer to its status
/// query. Only a boolean `true` counts; an answer that is no boolean at all
/// counts as failure.
pub fn status_passed(status: Option<bool>) -> (passed: bool)
    ensures
        passed == (status == Some(true)),
{
    match status {
        Some(flag) => flag,
        None => false,
    }
}

} // verus!
