//! Renders a directory tree as indented text, either in full or narrowed
//! to the entries whose names a pattern accepts.

pub mod display;
pub mod entry;
pub mod error;
pub mod filtered;
pub mod line;
pub mod pattern;
pub mod policy;
pub mod soundness;
pub mod unfiltered;
