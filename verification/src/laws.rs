//! Laws the engine obeys, stated over the specification functions and
//! proved once and for all: how many alternatives a decomposition
//! yields, where a symbol can come from, when precedence text appears,
//! and how the search targets relate.

use vstd::prelude::*;

use crate::decompose::child_is_ignored;
use crate::decompose::child_is_symbol;
use crate::decompose::decomp;
use crate::decompose::decompose_spec;
use crate::query::SearchTarget;
use crate::query::rule_hit;
use crate::query::search_hits;
use crate::text::trim_spec;
use crate::tree::NodeKind;
use crate::tree::SyntaxNode;

verus! {

/// The number of alternative separators among the direct children,
/// error nodes not counted.
pub open spec fn separator_count(s: Seq<SyntaxNode>) -> nat
    decreases s.len(),
{
    if s.len() == 0 {
        0
    } else {
        (if s[0].kind == NodeKind::Separator && !s[0].is_error {
            1nat
        } else {
            0nat
        }) + separator_count(s.drop_first())
    }
}

proof fn lemma_decomp_len(s: Seq<SyntaxNode>, include_prec: bool, cur: Seq<Seq<char>>)
    ensures
        decomp(s, include_prec, cur).len() == 1 + separator_count(s),
    decreases s.len(),
{
    if s.len() > 0 {
        let c = s[0];
        let rest = s.drop_first();
        if child_is_ignored(c, include_prec) {
            lemma_decomp_len(rest, include_prec, cur);
        } else if c.kind == NodeKind::Separator {
            lemma_decomp_len(rest, include_prec, Seq::<Seq<char>>::empty());
        } else if trim_spec(c.text@).len() > 0 {
            lemma_decomp_len(rest, include_prec, cur.push(trim_spec(c.text@)));
        } else {
            lemma_decomp_len(rest, include_prec, cur);
        }
    }
}

/// A rule body with `k` separators decomposes into exactly `k + 1`
/// alternatives, whatever the precedence flag.
pub proof fn lemma_decompose_alternative_count(rule: SyntaxNode, include_prec: bool)
    ensures
        decompose_spec(rule, include_prec).len() == 1 + separator_count(rule.children@),
{
    lemma_decomp_len(rule.children@, include_prec, Seq::<Seq<char>>::empty());
}

/// A rule body without separators decomposes into exactly one
/// alternative.
pub proof fn lemma_decompose_single_alternative(rule: SyntaxNode, include_prec: bool)
    requires
        separator_count(rule.children@) == 0,
    ensures
        decompose_spec(rule, include_prec).len() == 1,
{
    lemma_decompose_alternative_count(rule, include_prec);
}

/// `sym` is the trimmed text of some direct child that contributes
/// symbols under the given precedence flag.
pub open spec fn symbol_from_child(s: Seq<SyntaxNode>, include_prec: bool, sym: Seq<char>) -> bool {
    exists|j: int|
        0 <= j < s.len() && child_is_symbol(s[j], include_prec) && sym == trim_spec(s[j].text@)
}

proof fn lemma_decomp_provenance(s: Seq<SyntaxNode>, include_prec: bool, cur: Seq<Seq<char>>)
    ensures
        forall|a: int, k: int|
            0 <= a < decomp(s, include_prec, cur).len() && 0 <= k < decomp(s, include_prec, cur)[a].len()
                ==> cur.contains(decomp(s, include_prec, cur)[a][k]) || symbol_from_child(
                s,
                include_prec,
                decomp(s, include_prec, cur)[a][k],
            ),
    decreases s.len(),
{
    let d = decomp(s, include_prec, cur);
    if s.len() == 0 {
        assert forall|a: int, k: int| 0 <= a < d.len() && 0 <= k < d[a].len() implies cur.contains(
            d[a][k],
        ) || symbol_from_child(s, include_prec, d[a][k]) by {
            assert(d[a] == cur);
            assert(cur.contains(cur[k]));
        }
    } else {
        let c = s[0];
        let rest = s.drop_first();
        assert(forall|j: int| 0 <= j < rest.len() ==> rest[j] == s[j + 1]);
        if child_is_ignored(c, include_prec) || (c.kind != NodeKind::Separator && trim_spec(
            c.text@,
        ).len() == 0) {
            lemma_decomp_provenance(rest, include_prec, cur);
            assert(d == decomp(rest, include_prec, cur));
            assert forall|a: int, k: int|
                0 <= a < d.len() && 0 <= k < d[a].len() implies cur.contains(d[a][k])
                || symbol_from_child(s, include_prec, d[a][k]) by {
                let x = decomp(rest, include_prec, cur)[a][k];
                assert(cur.contains(x) || symbol_from_child(rest, include_prec, x));
                if !cur.contains(x) {
                    let j = choose|j: int|
                        0 <= j < rest.len() && child_is_symbol(rest[j], include_prec) && x
                            == trim_spec(rest[j].text@);
                    assert(s[j + 1] == rest[j]);
                    assert(child_is_symbol(s[j + 1], include_prec) && x == trim_spec(
                        s[j + 1].text@,
                    ));
                }
            }
        } else if c.kind == NodeKind::Separator {
            let empty = Seq::<Seq<char>>::empty();
            lemma_decomp_provenance(rest, include_prec, empty);
            let drest = decomp(rest, include_prec, empty);
            assert(d == seq![cur] + drest);
            assert forall|a: int, k: int|
                0 <= a < d.len() && 0 <= k < d[a].len() implies cur.contains(d[a][k])
                || symbol_from_child(s, include_prec, d[a][k]) by {
                if a == 0 {
                    assert(d[0] == cur);
                    assert(cur.contains(cur[k]));
                } else {
                    assert(d[a] == drest[a - 1]);
                    let x = drest[a - 1][k];
                    assert(empty.contains(x) || symbol_from_child(rest, include_prec, x));
                    assert(!empty.contains(x));
                    let j = choose|j: int|
                        0 <= j < rest.len() && child_is_symbol(rest[j], include_prec) && x
                            == trim_spec(rest[j].text@);
                    assert(s[j + 1] == rest[j]);
                    assert(child_is_symbol(s[j + 1], include_prec) && x == trim_spec(
                        s[j + 1].text@,
                    ));
                }
            }
        } else {
            let t = trim_spec(c.text@);
            let cur2 = cur.push(t);
            lemma_decomp_provenance(rest, include_prec, cur2);
            assert(d == decomp(rest, include_prec, cur2));
            assert forall|a: int, k: int|
                0 <= a < d.len() && 0 <= k < d[a].len() implies cur.contains(d[a][k])
                || symbol_from_child(s, include_prec, d[a][k]) by {
                let x = decomp(rest, include_prec, cur2)[a][k];
                assert(cur2.contains(x) || symbol_from_child(rest, include_prec, x));
                if !cur.contains(x) {
                    if cur2.contains(x) {
                        let m = choose|m: int| 0 <= m < cur2.len() && cur2[m] == x;
                        if m < cur.len() {
                            assert(cur[m] == x);
                            assert(cur.contains(x));
                        } else {
                            assert(x == t);
                            assert(child_is_symbol(s[0], include_prec));
                        }
                    } else {
                        let j = choose|j: int|
                            0 <= j < rest.len() && child_is_symbol(rest[j], include_prec) && x
                                == trim_spec(rest[j].text@);
                        assert(s[j + 1] == rest[j]);
                        assert(child_is_symbol(s[j + 1], include_prec) && x == trim_spec(
                            s[j + 1].text@,
                        ));
                    }
                }
            }
        }
    }
}

/// Every symbol of every alternative is the trimmed text of a
/// contributing direct child: never of an error node, an action, a code
/// block, an error sentinel, nor — unless requested — a precedence
/// directive.
pub proof fn lemma_symbols_have_symbol_provenance(rule: SyntaxNode, include_prec: bool)
    ensures
        forall|a: int, k: int|
            0 <= a < decompose_spec(rule, include_prec).len() && 0 <= k < decompose_spec(
                rule,
                include_prec,
            )[a].len() ==> symbol_from_child(
                rule.children@,
                include_prec,
                decompose_spec(rule, include_prec)[a][k],
            ),
{
    lemma_decomp_provenance(rule.children@, include_prec, Seq::<Seq<char>>::empty());
}

/// `sym` is the trimmed text of a direct child that is no error node
/// and none of the always-dropped kinds.
pub open spec fn ordinary_symbol_source(rule: SyntaxNode, sym: Seq<char>) -> bool {
    exists|j: int|
        0 <= j < rule.children@.len() && !(#[trigger] rule.children@[j]).is_error
            && rule.children@[j].kind != NodeKind::Precedence && rule.children@[j].kind
            != NodeKind::Action && rule.children@[j].kind != NodeKind::CodeBlock
            && rule.children@[j].kind != NodeKind::ErrorSentinel && sym == trim_spec(
            rule.children@[j].text@,
        )
}

/// With precedence excluded, no emitted symbol derives from a
/// precedence directive, an action, a code block, an error sentinel or
/// an error node: each comes from an ordinary non-error child.
pub proof fn lemma_no_excluded_symbol_sources(rule: SyntaxNode)
    ensures
        forall|a: int, k: int|
            0 <= a < decompose_spec(rule, false).len() && 0 <= k < decompose_spec(
                rule,
                false,
            )[a].len() ==> ordinary_symbol_source(
                rule,
                #[trigger] decompose_spec(rule, false)[a][k],
            ),
{
    lemma_symbols_have_symbol_provenance(rule, false);
    let d = decompose_spec(rule, false);
    assert forall|a: int, k: int|
        0 <= a < d.len() && 0 <= k < d[a].len() implies ordinary_symbol_source(
        rule,
        d[a][k],
    ) by {
        let x = d[a][k];
        assert(symbol_from_child(rule.children@, false, x));
        let j = choose|j: int|
            0 <= j < rule.children@.len() && child_is_symbol(rule.children@[j], false) && x
                == trim_spec(rule.children@[j].text@);
        assert(!child_is_ignored(rule.children@[j], false));
        assert(!rule.children@[j].is_error && rule.children@[j].kind != NodeKind::Precedence
            && rule.children@[j].kind != NodeKind::Action && rule.children@[j].kind
            != NodeKind::CodeBlock && rule.children@[j].kind != NodeKind::ErrorSentinel && x
            == trim_spec(rule.children@[j].text@));
    }
}

proof fn lemma_decomp_first_prefix(s: Seq<SyntaxNode>, include_prec: bool, cur: Seq<Seq<char>>)
    ensures
        decomp(s, include_prec, cur).len() >= 1,
        decomp(s, include_prec, cur)[0].len() >= cur.len(),
        forall|k: int| 0 <= k < cur.len() ==> decomp(s, include_prec, cur)[0][k] == cur[k],
    decreases s.len(),
{
    if s.len() > 0 {
        let c = s[0];
        let rest = s.drop_first();
        let d = decomp(s, include_prec, cur);
        if child_is_ignored(c, include_prec) {
            lemma_decomp_first_prefix(rest, include_prec, cur);
            assert(d == decomp(rest, include_prec, cur));
        } else if c.kind == NodeKind::Separator {
            lemma_decomp_first_prefix(rest, include_prec, Seq::<Seq<char>>::empty());
            assert(d[0] == cur);
        } else if trim_spec(c.text@).len() > 0 {
            let cur2 = cur.push(trim_spec(c.text@));
            lemma_decomp_first_prefix(rest, include_prec, cur2);
            assert(d == decomp(rest, include_prec, cur2));
            assert forall|k: int| 0 <= k < cur.len() implies d[0][k] == cur[k] by {
                assert(decomp(rest, include_prec, cur2)[0][k] == cur2[k]);
                assert(cur2[k] == cur[k]);
            }
        } else {
            lemma_decomp_first_prefix(rest, include_prec, cur);
            assert(d == decomp(rest, include_prec, cur));
        }
    }
}

proof fn lemma_prec_included(s: Seq<SyntaxNode>, cur: Seq<Seq<char>>, j: int)
    requires
        0 <= j < s.len(),
        s[j].kind == NodeKind::Precedence,
        !s[j].is_error,
        trim_spec(s[j].text@).len() > 0,
    ensures
        separator_count(s.take(j)) < decomp(s, true, cur).len(),
        exists|k: int|
            0 <= k < decomp(s, true, cur)[separator_count(s.take(j)) as int].len() && decomp(
                s,
                true,
                cur,
            )[separator_count(s.take(j)) as int][k] == trim_spec(s[j].text@),
    decreases s.len(),
{
    let d = decomp(s, true, cur);
    let c = s[0];
    let rest = s.drop_first();
    lemma_decomp_len(s, true, cur);
    assert(forall|m: int| 0 <= m < rest.len() ==> rest[m] == s[m + 1]);
    if j == 0 {
        assert(s.take(0) =~= Seq::<SyntaxNode>::empty());
        assert(separator_count(s.take(0)) == 0);
        let t = trim_spec(c.text@);
        assert(!child_is_ignored(c, true));
        assert(c.kind != NodeKind::Separator);
        let cur2 = cur.push(t);
        lemma_decomp_first_prefix(rest, true, cur2);
        assert(cur2[cur.len() as int] == t);
        assert(decomp(rest, true, cur2)[0].len() >= cur2.len());
        assert(decomp(rest, true, cur2)[0][cur.len() as int] == cur2[cur.len() as int]);
        assert(d == decomp(rest, true, cur2));
        assert(d[0][cur.len() as int] == t);
        assert(0 <= cur.len() < d[0].len() && d[0][cur.len() as int] == trim_spec(s[j].text@));
    } else {
        assert(s.take(j)[0] == s[0]);
        assert(s.take(j).drop_first() =~= rest.take(j - 1));
        let a0 = separator_count(s.take(j)) as int;
        let arest = separator_count(rest.take(j - 1)) as int;
        if child_is_ignored(c, true) || (c.kind != NodeKind::Separator && trim_spec(
            c.text@,
        ).len() == 0) {
            assert(a0 == arest);
            lemma_prec_included(rest, cur, j - 1);
            assert(d == decomp(rest, true, cur));
        } else if c.kind == NodeKind::Separator {
            assert(a0 == 1 + arest);
            let empty = Seq::<Seq<char>>::empty();
            lemma_prec_included(rest, empty, j - 1);
            let drest = decomp(rest, true, empty);
            assert(d == seq![cur] + drest);
            assert(d[arest + 1] == drest[arest]);
            let k = choose|k: int|
                0 <= k < drest[arest].len() && drest[arest][k] == trim_spec(rest[j - 1].text@);
            assert(rest[j - 1] == s[j]);
            assert(0 <= k < d[a0].len() && d[a0][k] == trim_spec(s[j].text@));
        } else {
            assert(a0 == arest);
            lemma_prec_included(rest, cur.push(trim_spec(c.text@)), j - 1);
            assert(d == decomp(rest, true, cur.push(trim_spec(c.text@))));
        }
    }
}

/// With precedence included, the trimmed text of every non-error
/// precedence-directive child that trims to something appears as a
/// symbol of its originating alternative: the one opened after the
/// separators standing before the directive.
pub proof fn lemma_precedence_text_included(rule: SyntaxNode, j: int)
    requires
        0 <= j < rule.children@.len(),
        rule.children@[j].kind == NodeKind::Precedence,
        !rule.children@[j].is_error,
        trim_spec(rule.children@[j].text@).len() > 0,
    ensures
        separator_count(rule.children@.take(j)) < decompose_spec(rule, true).len(),
        exists|k: int|
            0 <= k < decompose_spec(rule, true)[separator_count(rule.children@.take(j)) as int].len()
                && decompose_spec(rule, true)[separator_count(rule.children@.take(j)) as int][k]
                == trim_spec(rule.children@[j].text@),
{
    lemma_prec_included(rule.children@, Seq::<Seq<char>>::empty(), j);
    let d1 = decomp(rule.children@, true, Seq::<Seq<char>>::empty());
    assert(decompose_spec(rule, true) == d1);
    let a0 = separator_count(rule.children@.take(j)) as int;
    let k = choose|k: int|
        0 <= k < d1[a0].len() && d1[a0][k] == trim_spec(rule.children@[j].text@);
    assert(0 <= k < decompose_spec(rule, true)[a0].len() && decompose_spec(rule, true)[a0][k]
        == trim_spec(rule.children@[j].text@));
}

/// `a` occurs inside `b` in order: `b` is `a` with extra elements
/// interleaved.
pub open spec fn is_subsequence(a: Seq<Seq<char>>, b: Seq<Seq<char>>) -> bool
    decreases a.len() + b.len(),
{
    if a.len() == 0 {
        true
    } else if b.len() == 0 {
        false
    } else {
        (a[0] == b[0] && is_subsequence(a.drop_first(), b.drop_first())) || is_subsequence(
            a,
            b.drop_first(),
        )
    }
}

proof fn lemma_hits_subsequence(
    rules: Seq<SyntaxNode>,
    use_regex: bool,
    pat: Seq<char>,
    target: SearchTarget,
)
    requires
        target == SearchTarget::Lhs || target == SearchTarget::Rhs,
    ensures
        is_subsequence(
            search_hits(rules, use_regex, pat, target),
            search_hits(rules, use_regex, pat, SearchTarget::Both),
        ),
    decreases rules.len(),
{
    if rules.len() > 0 {
        let rest = rules.drop_first();
        lemma_hits_subsequence(rest, use_regex, pat, target);
        let ht = rule_hit(rules[0], use_regex, pat, target);
        let hb = rule_hit(rules[0], use_regex, pat, SearchTarget::Both);
        let st = search_hits(rules, use_regex, pat, target);
        let sb = search_hits(rules, use_regex, pat, SearchTarget::Both);
        let rt = search_hits(rest, use_regex, pat, target);
        let rb = search_hits(rest, use_regex, pat, SearchTarget::Both);
        if ht {
            assert(hb);
            assert(st.drop_first() =~= rt);
            assert(sb.drop_first() =~= rb);
            assert(st[0] == sb[0]);
        } else if hb {
            assert(st =~= rt);
            assert(sb.drop_first() =~= rb);
            if st.len() > 0 {
                assert(is_subsequence(st, sb.drop_first()));
            }
        } else {
            assert(st =~= rt);
            assert(sb =~= rb);
        }
    }
}

/// A search against both sides reports every rule an equal search
/// against the names alone reports, in the same order.
pub proof fn lemma_both_subsumes_lhs(rules: Seq<SyntaxNode>, use_regex: bool, pat: Seq<char>)
    ensures
        is_subsequence(
            search_hits(rules, use_regex, pat, SearchTarget::Lhs),
            search_hits(rules, use_regex, pat, SearchTarget::Both),
        ),
{
    lemma_hits_subsequence(rules, use_regex, pat, SearchTarget::Lhs);
}

/// A search against both sides reports every rule an equal search
/// against the body texts alone reports, in the same order.
pub proof fn lemma_both_subsumes_rhs(rules: Seq<SyntaxNode>, use_regex: bool, pat: Seq<char>)
    ensures
        is_subsequence(
            search_hits(rules, use_regex, pat, SearchTarget::Rhs),
            search_hits(rules, use_regex, pat, SearchTarget::Both),
        ),
{
    lemma_hits_subsequence(rules, use_regex, pat, SearchTarget::Rhs);
}

} // verus!
