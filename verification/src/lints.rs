//! The `[lints]` section of a manifest.

use vstd::prelude::*;
use crate::strmap::StrMap;

verus! {

/// How strictly a lint is held.
#[derive(Debug, PartialEq, Eq, Copy, Clone, Hash, Structural)]
pub enum LintLevel {
    Allow,
    Warn,
    Deny,
    Forbid,
}

/// The setting of a lint.
#[derive(Debug, Clone, PartialEq, Eq)]
pub enum Lint {
    /// A level and nothing else.
    Simple(LintLevel),
    /// A level, and which of two settings wins where lints overlap.
    Detailed { level: LintLevel, priority: Option<i32> },
}

/// Lints under their names.
pub type LintSet = StrMap<Lint>;

/// Sets of lints under the names of the tools they belong to.
pub type LintGroups = StrMap<LintSet>;

/// The `[lints]` section.
#[derive(Debug, Clone, PartialEq)]
pub struct Lints {
    /// Whether the lints of the workspace are taken over.
    pub workspace: bool,
    /// The lints, by tool.
    pub groups: LintGroups,
}

} // verus!
