//! Recursively find the entries of a directory tree that match a list of
//! glob patterns, with `!`-negated patterns that exclude and prune.
//!
//! The library holds the decisions of a walk: how a pattern list becomes an
//! ordered rule set, which verdict the rule set gives a path (the last rule
//! that matches wins), and what a walk does with each entry it meets (emit
//! it, skip the subtree of an excluded directory, or go on). Compiling and
//! matching a single glob is done by the `ignore` crate.
pub mod builder;
pub mod glob;
pub mod pattern;
pub mod rules;
pub mod walker;

pub use pattern::{parse_pattern, Pattern};
pub use rules::{GlobError, RuleSet, Verdict};
pub use walker::{Action, Event, GlobWalker};
pub use builder::{glob, GlobWalkerBuilder, WalkSettings};
