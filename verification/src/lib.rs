//! A query engine for yacc/bison-style grammars: search the rules of a
//! parsed grammar tree by name or body text, and expand one rule into
//! its alternatives, with embedded action code always excluded and
//! precedence directives included on request.

use vstd::prelude::*;

pub mod cli;
pub mod decompose;
pub mod laws;
pub mod locate;
pub mod pattern;
pub mod query;
pub mod text;
pub mod tree;

verus! {

pub use cli::Args;
pub use cli::Command;
pub use cli::target_from_flags;
pub use decompose::extract_rhs_text;
pub use decompose::extract_rhs_variants;
pub use decompose::join_symbols;
pub use locate::all_rules;
pub use locate::find_rule_by_exact_match;
pub use locate::rule_name;
pub use locate::tree_has_errors;
pub use pattern::CompiledPattern;
pub use query::ExtractOutcome;
pub use query::QueryError;
pub use query::SearchOutcome;
pub use query::SearchTarget;
pub use query::extract;
pub use query::search_rules;
pub use tree::NodeKind;
pub use tree::SyntaxNode;

} // verus!
