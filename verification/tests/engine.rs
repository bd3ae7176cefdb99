//! Tests for the engine's pieces: the locator, the body-text corpus,
//! the pattern wrappers and the presentation join.

use bison_explorer::CompiledPattern;
use bison_explorer::NodeKind;
use bison_explorer::SearchTarget;
use bison_explorer::SyntaxNode;
use bison_explorer::extract_rhs_text;
use bison_explorer::find_rule_by_exact_match;
use bison_explorer::join_symbols;
use bison_explorer::query::find_rule_names_by_substring;
use bison_explorer::query::find_rules_by_both_regex;
use bison_explorer::query::find_rules_by_rhs_substring;
use bison_explorer::rule_name;
use bison_explorer::target_from_flags;
use bison_explorer::tree_has_errors;

fn leaf(kind: NodeKind, text: &str) -> SyntaxNode {
    SyntaxNode { kind, text: text.to_string(), children: Vec::new(), is_error: false }
}

fn rule(name: &str, body: Vec<SyntaxNode>) -> SyntaxNode {
    let mut children = vec![
        leaf(NodeKind::RuleDeclaration, name),
        leaf(NodeKind::Colon, ":"),
    ];
    children.extend(body);
    children.push(leaf(NodeKind::Semicolon, ";"));
    SyntaxNode {
        kind: NodeKind::GrammarRule,
        text: String::new(),
        children,
        is_error: false,
    }
}

fn grammar(rules: Vec<SyntaxNode>) -> SyntaxNode {
    SyntaxNode { kind: NodeKind::Symbol, text: String::new(), children: rules, is_error: false }
}

fn sym(text: &str) -> SyntaxNode {
    leaf(NodeKind::Symbol, text)
}

/// The corpus joins trimmed symbol texts with spaces and stands each
/// separator as a blank part of its own; precedence text never enters.
#[test]
fn rhs_text_joins_parts() {
    let r = rule(
        "r",
        vec![
            sym("a"),
            leaf(NodeKind::Separator, "|"),
            sym("b"),
            leaf(NodeKind::Precedence, "%prec X"),
        ],
    );
    assert_eq!(extract_rhs_text(&r), "a   b".to_string());
}

/// The corpus of an empty body is empty.
#[test]
fn rhs_text_empty_body() {
    let r = rule("r", vec![]);
    assert_eq!(extract_rhs_text(&r), String::new());
}

/// The locator finds the first rule with the exact name and reads the
/// declared name back.
#[test]
fn locate_exact_rule() {
    let g = grammar(vec![
        rule("alpha", vec![sym("'a'")]),
        rule("beta", vec![sym("'b'")]),
    ]);
    let found = find_rule_by_exact_match(&g, "beta").unwrap();
    assert_eq!(rule_name(found), Some("beta".to_string()));
    assert!(find_rule_by_exact_match(&g, "bet").is_none());
}

/// Substring search on names matches anywhere in the name.
#[test]
fn substring_search_on_names() {
    let g = grammar(vec![
        rule("statement", vec![sym("'s'")]),
        rule("statement_list", vec![sym("statement")]),
        rule("expr", vec![sym("'e'")]),
    ]);
    let names = find_rule_names_by_substring(&g, "statement");
    assert_eq!(names, vec!["statement".to_string(), "statement_list".to_string()]);
}

/// Substring search on bodies ignores names.
#[test]
fn substring_search_on_bodies() {
    let g = grammar(vec![
        rule("statement", vec![sym("'s'")]),
        rule("list", vec![sym("statement")]),
    ]);
    let names = find_rules_by_rhs_substring(&g, "statement");
    assert_eq!(names, vec!["list".to_string()]);
}

/// A compiled expression works against either side.
#[test]
fn regex_search_on_both_sides() {
    let g = grammar(vec![
        rule("expr_stmt", vec![sym("expr")]),
        rule("decl", vec![sym("expr_tail")]),
        rule("other", vec![sym("'o'")]),
    ]);
    let p = CompiledPattern::new("^expr_").unwrap();
    let names = find_rules_by_both_regex(&g, &p);
    assert_eq!(names, vec!["expr_stmt".to_string(), "decl".to_string()]);
}

/// An invalid expression never compiles.
#[test]
fn invalid_regex_does_not_compile() {
    assert!(CompiledPattern::new("[unclosed").is_none());
}

/// The error diagnostic sees error nodes at any depth.
#[test]
fn error_flag_reaches_deep_nodes() {
    let mut deep = sym("x");
    deep.is_error = true;
    let g = grammar(vec![rule("r", vec![deep])]);
    assert!(tree_has_errors(&g));
    let clean = grammar(vec![rule("r", vec![sym("x")])]);
    assert!(!tree_has_errors(&clean));
}

/// Joining symbols puts single spaces between them.
#[test]
fn join_symbols_spaces() {
    let alt = vec!["a".to_string(), "'+'".to_string(), "b".to_string()];
    assert_eq!(join_symbols(&alt), "a '+' b".to_string());
    assert_eq!(join_symbols(&Vec::new()), String::new());
}

/// The flag pair maps to the three targets.
#[test]
fn flags_select_target() {
    assert_eq!(target_from_flags(true, false), SearchTarget::Lhs);
    assert_eq!(target_from_flags(false, true), SearchTarget::Rhs);
    assert_eq!(target_from_flags(false, false), SearchTarget::Both);
}

/// Substring containment behaves as on the character sequences.
#[test]
fn contains_str_basics() {
    assert!(bison_explorer::text::contains_str("hello world", "lo w"));
    assert!(bison_explorer::text::contains_str("abc", ""));
    assert!(bison_explorer::text::contains_str("", ""));
    assert!(!bison_explorer::text::contains_str("", "x"));
    assert!(!bison_explorer::text::contains_str("abc", "abcd"));
}

/// Trimming strips blanks from both ends only.
#[test]
fn trim_str_basics() {
    assert_eq!(bison_explorer::text::trim_str("  a b\t\n"), "a b");
    assert_eq!(bison_explorer::text::trim_str("   "), "");
    assert_eq!(bison_explorer::text::trim_str("x"), "x");
}

/// String equality compares character-wise.
#[test]
fn str_eq_basics() {
    assert!(bison_explorer::text::str_eq("same", "same"));
    assert!(!bison_explorer::text::str_eq("same", "Same"));
    assert!(!bison_explorer::text::str_eq("same", "sam"));
}
