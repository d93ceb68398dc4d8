//! The error type shared by the whole crate.

use vstd::prelude::*;

verus! {

/// How the process should die: print to stdout and exit 0, or print to
/// stderr and exit 1.  An empty message prints nothing, but the exit code
/// is still obeyed.
#[derive(Debug, Clone, PartialEq, Eq)]
pub enum Die {
    Stdout(String),
    Stderr(String),
}

/// Result type used across the crate to propagate fatal errors.
pub type CompResult<T> = Result<T, Die>;

impl Die {
    /// Shorthand for an early exit that prints `msg` to stdout.
    pub fn stdout<T>(msg: String) -> (r: CompResult<T>)
        ensures
            r == Err::<T, Die>(Die::Stdout(msg)),
    {
        Err(Die::Stdout(msg))
    }

    /// Shorthand for an early exit that prints `msg` to stderr.
    pub fn stderr<T>(msg: String) -> (r: CompResult<T>)
        ensures
            r == Err::<T, Die>(Die::Stderr(msg)),
    {
        Err(Die::Stderr(msg))
    }

    /// The message carried by this error, whichever stream it is bound for.
    pub fn message(&self) -> (r: &String)
        ensures
            r@ == self.message_view(),
    {
        match self {
            Die::Stdout(m) => m,
            Die::Stderr(m) => m,
        }
    }

    /// The message as a sequence of characters.
    pub open spec fn message_view(&self) -> Seq<char> {
        match self {
            Die::Stdout(m) => m@,
            Die::Stderr(m) => m@,
        }
    }
}

} // verus!
