//! Scenario tests for the query engine, each written against the tree
//! shape the grammar producer's contract promises for the given source
//! text.

use bison_explorer::NodeKind;
use bison_explorer::QueryError;
use bison_explorer::SearchTarget;
use bison_explorer::SyntaxNode;
use bison_explorer::extract;
use bison_explorer::search_rules;

fn leaf(kind: NodeKind, text: &str) -> SyntaxNode {
    SyntaxNode { kind, text: text.to_string(), children: Vec::new(), is_error: false }
}

fn error_node(text: &str) -> SyntaxNode {
    SyntaxNode {
        kind: NodeKind::Symbol,
        text: text.to_string(),
        children: Vec::new(),
        is_error: true,
    }
}

fn rule(name: &str, body: Vec<SyntaxNode>) -> SyntaxNode {
    let mut children = vec![
        leaf(NodeKind::RuleDeclaration, name),
        leaf(NodeKind::Colon, ":"),
    ];
    children.extend(body);
    children.push(leaf(NodeKind::Semicolon, ";"));
    SyntaxNode {
        kind: NodeKind::GrammarRule,
        text: String::new(),
        children,
        is_error: false,
    }
}

fn grammar(rules: Vec<SyntaxNode>) -> SyntaxNode {
    SyntaxNode { kind: NodeKind::Symbol, text: String::new(), children: rules, is_error: false }
}

fn sym(text: &str) -> SyntaxNode {
    leaf(NodeKind::Symbol, text)
}

/// `expr: expr '+' term { action } | term ;` decomposes into two
/// alternatives with the action dropped.
#[test]
fn extract_drops_action_and_splits_alternatives() {
    let g = grammar(vec![rule(
        "expr",
        vec![
            sym("expr"),
            sym("'+'"),
            sym("term"),
            leaf(NodeKind::Action, "{ action }"),
            leaf(NodeKind::Separator, "|"),
            sym("term"),
        ],
    )]);
    let out = extract(&g, "expr", false).unwrap();
    assert_eq!(
        out.alternatives,
        vec![
            vec!["expr".to_string(), "'+'".to_string(), "term".to_string()],
            vec!["term".to_string()],
        ]
    );
    assert!(!out.grammar_has_errors);
}

/// `empty: ;` yields exactly one empty alternative.
#[test]
fn extract_epsilon_production() {
    let g = grammar(vec![rule("empty", vec![])]);
    let out = extract(&g, "empty", false).unwrap();
    assert_eq!(out.alternatives, vec![Vec::<String>::new()]);
}

/// A lone separator yields two empty alternatives.
#[test]
fn extract_two_epsilon_alternatives() {
    let g = grammar(vec![rule("maybe", vec![leaf(NodeKind::Separator, "|")])]);
    let out = extract(&g, "maybe", false).unwrap();
    assert_eq!(out.alternatives, vec![Vec::<String>::new(), Vec::<String>::new()]);
}

/// With `foo: 'a';` and `bar: 'b';`, searching bodies for `a` finds
/// `foo` alone; a body-only pattern against the names finds nothing.
#[test]
fn search_rhs_hits_body_lhs_rejects() {
    let g = grammar(vec![
        rule("foo", vec![sym("'a'")]),
        rule("bar", vec![sym("'b'")]),
    ]);
    let out = search_rules(&g, "a", false, SearchTarget::Rhs).unwrap();
    assert_eq!(out.names, vec!["foo".to_string()]);
    let out = search_rules(&g, "'a'", false, SearchTarget::Rhs).unwrap();
    assert_eq!(out.names, vec!["foo".to_string()]);
    let err = search_rules(&g, "'a'", false, SearchTarget::Lhs).unwrap_err();
    assert_eq!(err, QueryError::NoMatch);
}

/// `stmt: expr %prec UMINUS ;` keeps the precedence text only when
/// asked to.
#[test]
fn extract_precedence_only_on_request() {
    let g = grammar(vec![rule(
        "stmt",
        vec![sym("expr"), leaf(NodeKind::Precedence, "%prec UMINUS")],
    )]);
    let with = extract(&g, "stmt", true).unwrap();
    assert_eq!(
        with.alternatives,
        vec![vec!["expr".to_string(), "%prec UMINUS".to_string()]]
    );
    let without = extract(&g, "stmt", false).unwrap();
    assert_eq!(without.alternatives, vec![vec!["expr".to_string()]]);
}

/// A tree broken past one well-formed rule still serves that rule and
/// reports the non-fatal diagnostic.
#[test]
fn extract_succeeds_beside_error_nodes() {
    let g = grammar(vec![
        rule("good", vec![sym("token")]),
        error_node("%% garbage !!"),
    ]);
    let out = extract(&g, "good", false).unwrap();
    assert_eq!(out.alternatives, vec![vec!["token".to_string()]]);
    assert!(out.grammar_has_errors);
}

/// Error nodes inside a rule body never contribute symbols.
#[test]
fn extract_skips_error_children() {
    let g = grammar(vec![rule(
        "r",
        vec![sym("left"), error_node("@@@"), sym("right")],
    )]);
    let out = extract(&g, "r", false).unwrap();
    assert_eq!(out.alternatives, vec![vec!["left".to_string(), "right".to_string()]]);
    assert!(out.grammar_has_errors);
}

/// `^expr.*$` against names finds `expr` and `expression` in document
/// order, not `stmt`.
#[test]
fn search_regex_on_names() {
    let g = grammar(vec![
        rule("expr", vec![sym("term")]),
        rule("expression", vec![sym("expr")]),
        rule("stmt", vec![sym("expr")]),
    ]);
    let out = search_rules(&g, "^expr.*$", true, SearchTarget::Lhs).unwrap();
    assert_eq!(out.names, vec!["expr".to_string(), "expression".to_string()]);
}

/// An uncompilable pattern is rejected before any traversal.
#[test]
fn search_rejects_invalid_regex() {
    let g = grammar(vec![rule("foo", vec![sym("'a'")])]);
    let err = search_rules(&g, "(unclosed", true, SearchTarget::Both).unwrap_err();
    assert_eq!(err, QueryError::InvalidPattern);
}

/// Extraction of an unknown name is rejected.
#[test]
fn extract_rejects_unknown_rule() {
    let g = grammar(vec![rule("foo", vec![sym("'a'")])]);
    let err = extract(&g, "nope", false).unwrap_err();
    assert_eq!(err, QueryError::RuleNotFound);
}

/// A search against both sides reports the union of what each side
/// alone reports, in document order.
#[test]
fn search_both_covers_lhs_and_rhs_hits() {
    let g = grammar(vec![
        rule("foo", vec![sym("'a'")]),
        rule("bar", vec![sym("foo")]),
        rule("baz", vec![sym("'z'")]),
    ]);
    let both = search_rules(&g, "foo", false, SearchTarget::Both).unwrap();
    assert_eq!(both.names, vec!["foo".to_string(), "bar".to_string()]);
    let lhs = search_rules(&g, "foo", false, SearchTarget::Lhs).unwrap();
    assert_eq!(lhs.names, vec!["foo".to_string()]);
    let rhs = search_rules(&g, "foo", false, SearchTarget::Rhs).unwrap();
    assert_eq!(rhs.names, vec!["bar".to_string()]);
}

/// When two rules share a name, extraction serves the first in
/// document order and search reports both.
#[test]
fn duplicate_names_first_wins_for_extract() {
    let g = grammar(vec![
        rule("dup", vec![sym("first")]),
        rule("dup", vec![sym("second")]),
    ]);
    let out = extract(&g, "dup", false).unwrap();
    assert_eq!(out.alternatives, vec![vec!["first".to_string()]]);
    let found = search_rules(&g, "dup", false, SearchTarget::Lhs).unwrap();
    assert_eq!(found.names, vec!["dup".to_string(), "dup".to_string()]);
}

/// Decomposing the same rule again gives the same alternatives.
#[test]
fn extract_is_repeatable() {
    let g = grammar(vec![rule(
        "expr",
        vec![sym("expr"), sym("'+'"), sym("term"), leaf(NodeKind::Separator, "|"), sym("term")],
    )]);
    let first = extract(&g, "expr", false).unwrap();
    let second = extract(&g, "expr", false).unwrap();
    assert_eq!(first.alternatives, second.alternatives);
}

/// Symbol texts are trimmed, and blank-only texts contribute nothing.
#[test]
fn extract_trims_and_drops_blank_symbols() {
    let g = grammar(vec![rule(
        "r",
        vec![sym("  padded\t"), sym("   "), sym("end")],
    )]);
    let out = extract(&g, "r", false).unwrap();
    assert_eq!(out.alternatives, vec![vec!["padded".to_string(), "end".to_string()]]);
}

/// Comments, code blocks and error sentinels in a body never become
/// symbols.
#[test]
fn extract_skips_comments_and_code() {
    let g = grammar(vec![rule(
        "r",
        vec![
            leaf(NodeKind::Comment, "/* note */"),
            sym("a"),
            leaf(NodeKind::CodeBlock, "%{ int x; %}"),
            leaf(NodeKind::ErrorSentinel, "error"),
            sym("b"),
        ],
    )]);
    let out = extract(&g, "r", false).unwrap();
    assert_eq!(out.alternatives, vec![vec!["a".to_string(), "b".to_string()]]);
}

/// A precedence directive in a later alternative lands in that
/// alternative.
#[test]
fn precedence_lands_in_its_own_alternative() {
    let g = grammar(vec![rule(
        "r",
        vec![
            sym("a"),
            leaf(NodeKind::Separator, "|"),
            sym("b"),
            leaf(NodeKind::Precedence, "%prec HIGH"),
        ],
    )]);
    let out = extract(&g, "r", true).unwrap();
    assert_eq!(
        out.alternatives,
        vec![
            vec!["a".to_string()],
            vec!["b".to_string(), "%prec HIGH".to_string()],
        ]
    );
}

/// A grammar without rules matches nothing.
#[test]
fn search_empty_grammar_is_no_match() {
    let g = grammar(vec![]);
    let err = search_rules(&g, "", false, SearchTarget::Both).unwrap_err();
    assert_eq!(err, QueryError::NoMatch);
}

/// A successful search still reports the error-node diagnostic.
#[test]
fn search_reports_error_diagnostic() {
    let g = grammar(vec![
        rule("good", vec![sym("token")]),
        error_node("%% broken"),
    ]);
    let out = search_rules(&g, "good", false, SearchTarget::Lhs).unwrap();
    assert_eq!(out.names, vec!["good".to_string()]);
    assert!(out.grammar_has_errors);
}

/// A rule node without a declaration child is never reported.
#[test]
fn search_skips_rules_without_declaration() {
    let nameless = SyntaxNode {
        kind: NodeKind::GrammarRule,
        text: String::new(),
        children: vec![leaf(NodeKind::Colon, ":"), sym("'x'")],
        is_error: false,
    };
    let g = grammar(vec![nameless, rule("named", vec![sym("'y'")])]);
    let out = search_rules(&g, "", false, SearchTarget::Lhs).unwrap();
    assert_eq!(out.names, vec!["named".to_string()]);
}

/// Rules are reported in pre-order: a rule before any rule nested
/// under it.
#[test]
fn search_reports_preorder() {
    let inner = rule("inner", vec![sym("leaf")]);
    let mut outer = rule("outer", vec![sym("head")]);
    outer.children.push(inner);
    let g = grammar(vec![outer, rule("tail", vec![sym("'t'")])]);
    let out = search_rules(&g, "", false, SearchTarget::Lhs).unwrap();
    assert_eq!(
        out.names,
        vec!["outer".to_string(), "inner".to_string(), "tail".to_string()]
    );
}
