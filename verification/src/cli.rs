//! The data of the command surface: a parsed invocation, the two
//! operations it can ask for, and how the restriction flags select a
//! search target.

use vstd::prelude::*;

use crate::query::SearchTarget;

verus! {

/// One parsed invocation of the command surface.
pub struct Args {
    pub command: Command,
}

/// The two operations the command surface offers.
pub enum Command {
    /// List the rules a pattern hits.
    Search {
        /// Path of the grammar file; reading standard input when absent.
        file: Option<String>,
        /// The pattern to hold against each rule.
        pattern: String,
        /// Treat the pattern as a regular expression.
        regex: bool,
        /// Search rule names only.
        lhs: bool,
        /// Search rule bodies only.
        rhs: bool,
    },
    /// Print one rule's alternatives.
    Show {
        /// Path of the grammar file; reading standard input when absent.
        file: Option<String>,
        /// The exact name of the rule to expand.
        rule_name: String,
        /// Include precedence directives in the output.
        include_prec: bool,
        /// Print each alternative as a bullet.
        md: bool,
    },
}

/// The search target the two restriction flags select: naming a side
/// restricts the search to it, naming neither searches both.
pub fn target_from_flags(lhs: bool, rhs: bool) -> (r: SearchTarget)
    requires
        !(lhs && rhs),
    ensures
        lhs ==> r == SearchTarget::Lhs,
        rhs ==> r == SearchTarget::Rhs,
        !lhs && !rhs ==> r == SearchTarget::Both,
{
    if lhs {
        SearchTarget::Lhs
    } else if rhs {
        SearchTarget::Rhs
    } else {
        SearchTarget::Both
    }
}

} // verus!
