//! What can go wrong: settings that rule a traversal out, and a root that
//! cannot be read.

use vstd::prelude::*;

verus! {

/// A setting that rules out a traversal before it starts.
#[derive(Debug)]
pub enum ConfigError {
    /// A depth was given although recursion was not asked for.
    DepthWithoutRecursion,
    /// The pattern did not compile: it is no regular expression, or the
    /// program that it compiles to is too large.
    InvalidPattern(regex::Error),
}

/// What stops a traversal after it has started.
#[derive(Clone, Copy, Debug, PartialEq, Eq, Structural)]
pub enum TraversalError {
    /// The root could not be read, and a pattern was given.
    RootUnreadable,
}

} // verus!
