//! The library's model of a concrete syntax tree: each node carries the
//! tag it was parsed with, its source text, its children in source order,
//! and whether the parser marked it as an error node.

use vstd::prelude::*;

verus! {

broadcast use vstd::std_specs::vec::axiom_vec_decreases_to_view;

/// The closed set of node tags the engine distinguishes. Every tag the
/// parser emits that the engine does not care about maps to `Symbol`.
#[derive(PartialEq, Eq, Structural, Clone, Copy, Debug)]
pub enum NodeKind {
    /// One named production.
    GrammarRule,
    /// The declaration token holding a rule's name.
    RuleDeclaration,
    /// The `:` between a rule's name and its body.
    Colon,
    /// The `;` closing a rule.
    Semicolon,
    /// A comment.
    Comment,
    /// A precedence directive such as `%prec X`.
    Precedence,
    /// The `|` separating two alternatives.
    Separator,
    /// An embedded semantic action.
    Action,
    /// An embedded code block.
    CodeBlock,
    /// An error-sentinel token.
    ErrorSentinel,
    /// Any other token: a terminal, nonterminal or literal.
    Symbol,
}

/// One node of the parsed grammar's syntax tree.
pub struct SyntaxNode {
    pub kind: NodeKind,
    pub text: String,
    pub children: Vec<SyntaxNode>,
    pub is_error: bool,
}

/// All `GrammarRule` nodes of the tree rooted at `n`, in pre-order:
/// the node itself before its children, children left to right.
pub open spec fn rules_in(n: SyntaxNode) -> Seq<SyntaxNode>
    decreases n,
{
    let own = if n.kind == NodeKind::GrammarRule {
        seq![n]
    } else {
        Seq::<SyntaxNode>::empty()
    };
    own + rules_in_seq(n.children@)
}

/// All `GrammarRule` nodes of the trees rooted at the nodes of `s`,
/// in pre-order, left to right.
pub open spec fn rules_in_seq(s: Seq<SyntaxNode>) -> Seq<SyntaxNode>
    decreases s,
{
    if s.len() == 0 {
        Seq::<SyntaxNode>::empty()
    } else {
        rules_in(s[0]) + rules_in_seq(s.drop_first())
    }
}

/// The text of the first direct child of `s` tagged as a rule declaration.
pub open spec fn first_decl_text(s: Seq<SyntaxNode>) -> Option<Seq<char>>
    decreases s.len(),
{
    if s.len() == 0 {
        None
    } else if s[0].kind == NodeKind::RuleDeclaration {
        Some(s[0].text@)
    } else {
        first_decl_text(s.drop_first())
    }
}

/// The name under which a rule node is addressed, if it declares one.
pub open spec fn spec_rule_name(n: SyntaxNode) -> Option<Seq<char>> {
    first_decl_text(n.children@)
}

/// The node itself, or some node below it, is an error node.
pub open spec fn has_error_node(n: SyntaxNode) -> bool
    decreases n,
{
    n.is_error || has_error_in(n.children@)
}

/// Some node of some tree rooted in `s` is an error node.
pub open spec fn has_error_in(s: Seq<SyntaxNode>) -> bool
    decreases s,
{
    if s.len() == 0 {
        false
    } else {
        has_error_node(s[0]) || has_error_in(s.drop_first())
    }
}

} // verus!
