//! The failure taxonomy of the pipeline.

use vstd::prelude::*;

verus! {

/// Why a pipeline run failed.  Every failure is detected at its origin and
/// carries a short human-readable diagnostic, which becomes the body of the
/// failure response.
#[derive(Debug, Clone)]
pub enum MyError {
    /// A filesystem operation failed, or the scanner signalled an error.
    Io(String),
    /// The target URL was unreachable or answered with a non-success status.
    RequestGet(String),
    /// The external clone invocation failed to run, or ran but produced no
    /// repository.
    GitClone(String),
    /// No usable temporary path could be materialized for the workspace.
    TempPath(String),
}

impl MyError {
    /// The diagnostic message, as a response body shows it.
    pub open spec fn message_spec(&self) -> Seq<char> {
        match self {
            MyError::Io(m) => m@,
            MyError::RequestGet(m) => m@,
            MyError::GitClone(m) => m@,
            MyError::TempPath(m) => m@,
        }
    }

    /// Hands out the diagnostic message carried by the variant.
    pub fn message(&self) -> (m: &String)
        ensures
            m@ == self.message_spec(),
    {
        match self {
            MyError::Io(m) => m,
            MyError::RequestGet(m) => m,
            MyError::GitClone(m) => m,
            MyError::TempPath(m) => m,
        }
    }
}

} // verus!
