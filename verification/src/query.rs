//! The query engine: searching rule names by pattern against left-hand
//! sides, right-hand sides or both, and extracting one rule's
//! decomposed alternatives.

use vstd::prelude::*;

use crate::decompose::decompose_spec;
use crate::decompose::extract_rhs_text;
use crate::decompose::extract_rhs_variants;
use crate::decompose::rhs_text_spec;
use crate::locate::all_rules;
use crate::locate::derefed;
use crate::locate::find_rule_by_exact_match;
use crate::locate::first_rule_named;
use crate::locate::rule_name;
use crate::locate::tree_has_errors;
use crate::pattern::CompiledPattern;
use crate::pattern::RulePattern;
use crate::pattern::regex_ok;
use crate::pattern::text_hit;
use crate::tree::SyntaxNode;
use crate::tree::has_error_node;
use crate::tree::rules_in;
use crate::tree::spec_rule_name;

verus! {

/// Which derived text of a rule a search pattern is held against.
#[derive(Debug, Clone, Copy, PartialEq, Eq, Structural)]
pub enum SearchTarget {
    /// The rule's declared name.
    Lhs,
    /// The rule's flattened body text.
    Rhs,
    /// Either of the two.
    Both,
}

impl Default for SearchTarget {
    /// A search looks at both sides unless told otherwise.
    fn default() -> (r: Self)
        ensures
            r == SearchTarget::Both,
    {
        SearchTarget::Both
    }
}

/// Why a query returned no result.
#[derive(Debug, Clone, Copy, PartialEq, Eq, Structural)]
pub enum QueryError {
    /// The producer could not build any tree from the source text.
    ParseFailure,
    /// The supplied regular expression does not compile.
    InvalidPattern,
    /// No rule qualified for the search.
    NoMatch,
    /// No rule carries the requested name.
    RuleNotFound,
}

/// A successful search: matching rule names in document order, and
/// whether the tree holds error nodes, in which case the result may
/// be incomplete.
#[derive(Debug)]
pub struct SearchOutcome {
    pub names: Vec<String>,
    pub grammar_has_errors: bool,
}

/// A successful extraction: the rule's alternatives, and whether the
/// tree holds error nodes, in which case the result may be incomplete.
#[derive(Debug)]
pub struct ExtractOutcome {
    pub alternatives: Vec<Vec<String>>,
    pub grammar_has_errors: bool,
}

/// The name a search reports for a rule node.
pub open spec fn name_of(n: SyntaxNode) -> Seq<char> {
    match spec_rule_name(n) {
        Some(t) => t,
        None => Seq::<char>::empty(),
    }
}

/// Whether a rule qualifies for a search: it must declare a name, and
/// the pattern must hit the text the target selects. For `Both`, either
/// side suffices.
pub open spec fn rule_hit(
    n: SyntaxNode,
    use_regex: bool,
    pat: Seq<char>,
    target: SearchTarget,
) -> bool {
    match spec_rule_name(n) {
        None => false,
        Some(name) => match target {
            SearchTarget::Lhs => text_hit(use_regex, pat, name),
            SearchTarget::Rhs => text_hit(use_regex, pat, rhs_text_spec(n)),
            SearchTarget::Both => text_hit(use_regex, pat, name) || text_hit(
                use_regex,
                pat,
                rhs_text_spec(n),
            ),
        },
    }
}

/// The names of the qualifying rules of `rules`, in order, duplicates
/// preserved.
pub open spec fn search_hits(
    rules: Seq<SyntaxNode>,
    use_regex: bool,
    pat: Seq<char>,
    target: SearchTarget,
) -> Seq<Seq<char>>
    decreases rules.len(),
{
    if rules.len() == 0 {
        Seq::<Seq<char>>::empty()
    } else {
        let rest = search_hits(rules.drop_first(), use_regex, pat, target);
        if rule_hit(rules[0], use_regex, pat, target) {
            seq![name_of(rules[0])] + rest
        } else {
            rest
        }
    }
}

fn collect_matching(root: &SyntaxNode, p: &RulePattern<'_>, target: SearchTarget) -> (r: Vec<
    String,
>)
    ensures
        r.deep_view() == search_hits(rules_in(*root), p.is_regex(), p.pat(), target),
{
    let rules = all_rules(root);
    let ghost all = rules_in(*root);
    let mut out: Vec<String> = Vec::new();
    proof {
        assert(all.subrange(0, all.len() as int) =~= all);
        assert(out.deep_view() + search_hits(all, p.is_regex(), p.pat(), target)
            =~~= search_hits(all, p.is_regex(), p.pat(), target));
    }
    let mut i: usize = 0;
    while i < rules.len()
        invariant
            0 <= i <= rules@.len(),
            derefed(rules@) == all,
            all == rules_in(*root),
            search_hits(all, p.is_regex(), p.pat(), target) == out.deep_view() + search_hits(
                all.subrange(i as int, all.len() as int),
                p.is_regex(),
                p.pat(),
                target,
            ),
        decreases rules@.len() - i,
    {
        let len: usize = rules.len();
        proof {
            let rest = all.subrange(i as int, len as int);
            assert(rest[0] == all[i as int]);
            assert(rest.drop_first() =~= all.subrange(i + 1, len as int));
            assert(*rules@[i as int] == all[i as int]);
        }
        let node: &SyntaxNode = rules[i];
        let name_opt = rule_name(node);
        match name_opt {
            None => {},
            Some(name) => {
                let hit: bool = match target {
                    SearchTarget::Lhs => p.hit(name.as_str()),
                    SearchTarget::Rhs => {
                        let t = extract_rhs_text(node);
                        p.hit(t.as_str())
                    },
                    SearchTarget::Both => {
                        if p.hit(name.as_str()) {
                            true
                        } else {
                            let t = extract_rhs_text(node);
                            p.hit(t.as_str())
                        }
                    },
                };
                if hit {
                    let ghost old_out = out.deep_view();
                    out.push(name);
                    proof {
                        assert(out.deep_view() =~~= old_out.push(name_of(all[i as int])));
                        assert(old_out + (seq![name_of(all[i as int])] + search_hits(
                            all.subrange(i + 1, len as int),
                            p.is_regex(),
                            p.pat(),
                            target,
                        )) =~~= old_out.push(name_of(all[i as int])) + search_hits(
                            all.subrange(i + 1, len as int),
                            p.is_regex(),
                            p.pat(),
                            target,
                        ));
                    }
                }
            },
        }
        i = i + 1;
    }
    proof {
        let len = all.len() as int;
        assert(all.subrange(len, len) =~= Seq::<SyntaxNode>::empty());
        assert(out.deep_view() + Seq::<Seq<char>>::empty() =~~= out.deep_view());
    }
    out
}

/// The rules whose declared name holds `pattern` as a substring.
pub fn find_rule_names_by_substring(root: &SyntaxNode, pattern: &str) -> (r: Vec<String>)
    ensures
        r.deep_view() == search_hits(rules_in(*root), false, pattern@, SearchTarget::Lhs),
{
    collect_matching(root, &RulePattern::Literal(pattern), SearchTarget::Lhs)
}

/// The rules whose declared name matches the compiled expression.
pub fn find_rule_names_by_regex(root: &SyntaxNode, pattern: &CompiledPattern) -> (r: Vec<String>)
    ensures
        r.deep_view() == search_hits(rules_in(*root), true, pattern.src(), SearchTarget::Lhs),
{
    collect_matching(root, &RulePattern::Rx(pattern), SearchTarget::Lhs)
}

/// The rules whose flattened body text holds `pattern` as a substring.
pub fn find_rules_by_rhs_substring(root: &SyntaxNode, pattern: &str) -> (r: Vec<String>)
    ensures
        r.deep_view() == search_hits(rules_in(*root), false, pattern@, SearchTarget::Rhs),
{
    collect_matching(root, &RulePattern::Literal(pattern), SearchTarget::Rhs)
}

/// The rules whose flattened body text matches the compiled expression.
pub fn find_rules_by_rhs_regex(root: &SyntaxNode, pattern: &CompiledPattern) -> (r: Vec<String>)
    ensures
        r.deep_view() == search_hits(rules_in(*root), true, pattern.src(), SearchTarget::Rhs),
{
    collect_matching(root, &RulePattern::Rx(pattern), SearchTarget::Rhs)
}

/// The rules either of whose sides holds `pattern` as a substring.
pub fn find_rules_by_both_substring(root: &SyntaxNode, pattern: &str) -> (r: Vec<String>)
    ensures
        r.deep_view() == search_hits(rules_in(*root), false, pattern@, SearchTarget::Both),
{
    collect_matching(root, &RulePattern::Literal(pattern), SearchTarget::Both)
}

/// The rules either of whose sides matches the compiled expression.
pub fn find_rules_by_both_regex(root: &SyntaxNode, pattern: &CompiledPattern) -> (r: Vec<String>)
    ensures
        r.deep_view() == search_hits(rules_in(*root), true, pattern.src(), SearchTarget::Both),
{
    collect_matching(root, &RulePattern::Rx(pattern), SearchTarget::Both)
}

/// Search a parsed grammar for rule names hitting `pattern`.
///
/// With `use_regex`, an uncompilable pattern is rejected as
/// `InvalidPattern`. A search that qualifies no rule is rejected as
/// `NoMatch`; otherwise the qualifying names come back in document
/// order, duplicates preserved, beside the non-fatal diagnostic that
/// the tree holds error nodes.
pub fn search_rules(
    root: &SyntaxNode,
    pattern: &str,
    use_regex: bool,
    search_target: SearchTarget,
) -> (r: Result<SearchOutcome, QueryError>)
    ensures
        use_regex && !regex_ok(pattern@) ==> r == Err::<SearchOutcome, QueryError>(
            QueryError::InvalidPattern,
        ),
        (use_regex ==> regex_ok(pattern@)) && search_hits(
            rules_in(*root),
            use_regex,
            pattern@,
            search_target,
        ).len() == 0 ==> r == Err::<SearchOutcome, QueryError>(QueryError::NoMatch),
        (use_regex ==> regex_ok(pattern@)) && search_hits(
            rules_in(*root),
            use_regex,
            pattern@,
            search_target,
        ).len() > 0 ==> (r matches Ok(out) && out.names.deep_view() == search_hits(
            rules_in(*root),
            use_regex,
            pattern@,
            search_target,
        ) && out.grammar_has_errors == has_error_node(*root)),
{
    let names: Vec<String> = if use_regex {
        let compiled = CompiledPattern::new(pattern);
        match compiled {
            None => {
                return Err(QueryError::InvalidPattern);
            },
            Some(cp) => collect_matching(root, &RulePattern::Rx(&cp), search_target),
        }
    } else {
        collect_matching(root, &RulePattern::Literal(pattern), search_target)
    };
    if names.len() == 0 {
        return Err(QueryError::NoMatch);
    }
    let grammar_has_errors = tree_has_errors(root);
    Ok(SearchOutcome { names, grammar_has_errors })
}

/// Extract the alternatives of the first rule, in document order, whose
/// declared name is exactly `rule_name`; `RuleNotFound` when no rule
/// carries the name. The diagnostic beside the result reports error
/// nodes anywhere in the tree.
pub fn extract(root: &SyntaxNode, rule_name: &str, include_prec: bool) -> (r: Result<
    ExtractOutcome,
    QueryError,
>)
    ensures
        first_rule_named(rules_in(*root), rule_name@) is None ==> r == Err::<
            ExtractOutcome,
            QueryError,
        >(QueryError::RuleNotFound),
        first_rule_named(rules_in(*root), rule_name@) matches Some(rule) ==> (r matches Ok(out)
            && out.alternatives.deep_view() == decompose_spec(rule, include_prec)
            && out.grammar_has_errors == has_error_node(*root)),
{
    let found = find_rule_by_exact_match(root, rule_name);
    match found {
        None => Err(QueryError::RuleNotFound),
        Some(node) => {
            let alternatives = extract_rhs_variants(node, include_prec);
            let grammar_has_errors = tree_has_errors(root);
            Ok(ExtractOutcome { alternatives, grammar_has_errors })
        },
    }
}

} // verus!
