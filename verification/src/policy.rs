//! The settings of a traversal, and how they follow from the options given.

use vstd::prelude::*;
use crate::error::ConfigError;

verus! {

/// What a traversal shows and how deep it goes. Fixed once resolved.
#[derive(Clone, Copy, Debug, PartialEq, Eq, Structural)]
pub struct TraversalPolicy {
    /// The deepest level that is shown; the root's own entries are at
    /// level 0. `usize::MAX` stands for no limit.
    pub max_depth: usize,
    pub show_files: bool,
    pub show_symlinks: bool,
}

impl TraversalPolicy {
    /// The policy that the options ask for: without recursion only level 0,
    /// with recursion the depth given, or no limit if none is given.
    pub open spec fn resolved(
        recursive: bool,
        depth: Option<usize>,
        show_files: bool,
        show_symlinks: bool,
    ) -> TraversalPolicy {
        TraversalPolicy {
            max_depth: if !recursive {
                0
            } else {
                match depth {
                    Some(limit) => limit,
                    None => usize::MAX,
                }
            },
            show_files,
            show_symlinks,
        }
    }

    /// Whether level `depth` is shown.
    pub open spec fn admits(&self, depth: nat) -> bool {
        depth <= self.max_depth
    }

    /// Turns the options into a policy. A depth without recursion is
    /// refused; every other combination resolves.
    pub fn resolve(
        recursive: bool,
        depth: Option<usize>,
        show_files: bool,
        show_symlinks: bool,
    ) -> (result: Result<TraversalPolicy, ConfigError>)
        ensures
            depth.is_some() && !recursive ==> result matches Err(
                ConfigError::DepthWithoutRecursion,
            ),
            !(depth.is_some() && !recursive) ==> result == Ok::<TraversalPolicy, ConfigError>(
                Self::resolved(recursive, depth, show_files, show_symlinks),
            ),
    {
        if !recursive {
            match depth {
                Some(_) => Err(ConfigError::DepthWithoutRecursion),
                None => Ok(TraversalPolicy { max_depth: 0, show_files, show_symlinks }),
            }
        } else {
            let max_depth: usize = match depth {
                Some(limit) => limit,
                None => usize::MAX,
            };
            Ok(TraversalPolicy { max_depth, show_files, show_symlinks })
        }
    }

    /// Whether the entries of a directory found at level `depth` are shown,
    /// that is, whether level `depth + 1` is.
    pub fn descends(&self, depth: usize) -> (deeper: bool)
        ensures
            deeper == self.admits(depth as nat + 1),
    {
        depth < self.max_depth
    }
}

} // verus!
