//! The alternative decomposer and the right-hand-side text extractor:
//! how a rule node's direct children become alternatives of symbols, and
//! the flattened one-line body text used as the search corpus.

use vstd::prelude::*;

use crate::text::trim_spec;
use crate::text::trim_str;
use crate::tree::NodeKind;
use crate::tree::SyntaxNode;

verus! {

/// A direct child that never contributes to an alternative: error nodes,
/// the declaration token, punctuation, comments, embedded action or code
/// text, error sentinels, and precedence directives unless requested.
pub open spec fn child_is_ignored(c: SyntaxNode, include_prec: bool) -> bool {
    ||| c.is_error
    ||| c.kind == NodeKind::RuleDeclaration
    ||| c.kind == NodeKind::Colon
    ||| c.kind == NodeKind::Semicolon
    ||| c.kind == NodeKind::Comment
    ||| (c.kind == NodeKind::Precedence && !include_prec)
    ||| c.kind == NodeKind::Action
    ||| c.kind == NodeKind::CodeBlock
    ||| c.kind == NodeKind::ErrorSentinel
}

/// A direct child whose trimmed text is appended to the alternative
/// being built.
pub open spec fn child_is_symbol(c: SyntaxNode, include_prec: bool) -> bool {
    &&& !child_is_ignored(c, include_prec)
    &&& c.kind != NodeKind::Separator
}

/// The alternatives a run of direct children `s` completes, given the
/// symbols `cur` already gathered for the alternative under construction.
/// A separator closes the current alternative; a symbol child appends its
/// trimmed text when that text is not empty; everything else is skipped.
/// The pending alternative is always flushed at the end, so a body with
/// `k` separators yields `k + 1` alternatives.
pub open spec fn decomp(s: Seq<SyntaxNode>, include_prec: bool, cur: Seq<Seq<char>>) -> Seq<
    Seq<Seq<char>>,
>
    decreases s.len(),
{
    if s.len() == 0 {
        seq![cur]
    } else {
        let c = s[0];
        let rest = s.drop_first();
        if child_is_ignored(c, include_prec) {
            decomp(rest, include_prec, cur)
        } else if c.kind == NodeKind::Separator {
            seq![cur] + decomp(rest, include_prec, Seq::empty())
        } else if trim_spec(c.text@).len() > 0 {
            decomp(rest, include_prec, cur.push(trim_spec(c.text@)))
        } else {
            decomp(rest, include_prec, cur)
        }
    }
}

/// The decomposition of a rule node into its alternatives.
pub open spec fn decompose_spec(rule: SyntaxNode, include_prec: bool) -> Seq<Seq<Seq<char>>> {
    decomp(rule.children@, include_prec, Seq::<Seq<char>>::empty())
}

/// The parts of a rule body's flattened text: the trimmed text of each
/// contributing child, with each separator standing as a lone blank part.
/// Precedence directives never contribute here.
pub open spec fn rhs_parts(s: Seq<SyntaxNode>) -> Seq<Seq<char>>
    decreases s.len(),
{
    if s.len() == 0 {
        Seq::<Seq<char>>::empty()
    } else {
        let c = s[0];
        let rest = s.drop_first();
        if child_is_ignored(c, false) {
            rhs_parts(rest)
        } else if c.kind == NodeKind::Separator {
            seq![seq![' ']] + rhs_parts(rest)
        } else if trim_spec(c.text@).len() > 0 {
            seq![trim_spec(c.text@)] + rhs_parts(rest)
        } else {
            rhs_parts(rest)
        }
    }
}

/// `parts` joined with a single space between neighbours.
pub open spec fn join_spaces(parts: Seq<Seq<char>>) -> Seq<char>
    decreases parts.len(),
{
    if parts.len() == 0 {
        Seq::<char>::empty()
    } else if parts.len() == 1 {
        parts[0]
    } else {
        parts[0] + seq![' '] + join_spaces(parts.drop_first())
    }
}

/// The flattened right-hand-side text of a rule node.
pub open spec fn rhs_text_spec(rule: SyntaxNode) -> Seq<char> {
    join_spaces(rhs_parts(rule.children@))
}

/// Appending one more part extends the joined text by a space and the part.
pub proof fn lemma_join_push(parts: Seq<Seq<char>>, x: Seq<char>)
    ensures
        parts.len() == 0 ==> join_spaces(parts.push(x)) == x,
        parts.len() > 0 ==> join_spaces(parts.push(x)) == join_spaces(parts) + seq![' '] + x,
    decreases parts.len(),
{
    if parts.len() == 0 {
        assert(parts.push(x)[0] == x);
    } else if parts.len() == 1 {
        assert(parts.push(x)[0] == parts[0]);
        assert(parts.push(x).drop_first() =~= parts.drop_first().push(x));
        lemma_join_push(parts.drop_first(), x);
    } else {
        assert(parts.push(x)[0] == parts[0]);
        assert(parts.push(x).drop_first() =~= parts.drop_first().push(x));
        lemma_join_push(parts.drop_first(), x);
    }
}

fn child_ignored(c: &SyntaxNode, include_prec: bool) -> (r: bool)
    ensures
        r == child_is_ignored(*c, include_prec),
{
    if c.is_error {
        return true;
    }
    match c.kind {
        NodeKind::RuleDeclaration => true,
        NodeKind::Colon => true,
        NodeKind::Semicolon => true,
        NodeKind::Comment => true,
        NodeKind::Action => true,
        NodeKind::CodeBlock => true,
        NodeKind::ErrorSentinel => true,
        NodeKind::Precedence => !include_prec,
        _ => false,
    }
}

/// The ordered alternatives of a rule node, each an ordered list of
/// symbol texts. Embedded action code never appears; precedence text
/// appears only when `include_prec` is set.
pub fn extract_rhs_variants(rule_node: &SyntaxNode, include_prec: bool) -> (r: Vec<Vec<String>>)
    ensures
        r.deep_view() == decompose_spec(*rule_node, include_prec),
{
    let ghost children = rule_node.children@;
    let mut result: Vec<Vec<String>> = Vec::new();
    let mut current: Vec<String> = Vec::new();
    proof {
        assert(children.subrange(0, children.len() as int) =~= children);
        assert(current.deep_view() =~= Seq::<Seq<char>>::empty());
        assert(result.deep_view() + decomp(children, include_prec, current.deep_view()) =~~= decomp(
            children,
            include_prec,
            Seq::<Seq<char>>::empty(),
        ));
    }
    let mut i: usize = 0;
    while i < rule_node.children.len()
        invariant
            0 <= i <= children.len(),
            children == rule_node.children@,
            decompose_spec(*rule_node, include_prec) == result.deep_view() + decomp(
                children.subrange(i as int, children.len() as int),
                include_prec,
                current.deep_view(),
            ),
        decreases children.len() - i,
    {
        let len: usize = rule_node.children.len();
        proof {
            let rest = children.subrange(i as int, len as int);
            assert(rest[0] == children[i as int]);
            assert(rest.drop_first() =~= children.subrange(i + 1, len as int));
        }
        let child = &rule_node.children[i];
        if child_ignored(child, include_prec) {
        } else if child.kind == NodeKind::Separator {
            let ghost old_result = result.deep_view();
            let ghost closed = current.deep_view();
            let done = current;
            current = Vec::new();
            result.push(done);
            proof {
                assert(result.deep_view() =~~= old_result.push(closed));
                assert(current.deep_view() =~= Seq::<Seq<char>>::empty());
                assert(old_result + (seq![closed] + decomp(
                    children.subrange(i + 1, len as int),
                    include_prec,
                    Seq::<Seq<char>>::empty(),
                )) =~~= old_result.push(closed) + decomp(
                    children.subrange(i + 1, len as int),
                    include_prec,
                    Seq::<Seq<char>>::empty(),
                ));
            }
        } else {
            let t = trim_str(child.text.as_str());
            if !t.is_empty() {
                let ghost old_current = current.deep_view();
                current.push(t.to_owned());
                proof {
                    assert(current.deep_view() =~= old_current.push(trim_spec(
                        children[i as int].text@,
                    )));
                }
            }
        }
        i = i + 1;
    }
    proof {
        let len = children.len() as int;
        assert(children.subrange(len, len) =~= Seq::<SyntaxNode>::empty());
    }
    let ghost old_result = result.deep_view();
    let ghost closed = current.deep_view();
    result.push(current);
    proof {
        assert(result.deep_view() =~~= old_result.push(closed));
        assert(old_result + seq![closed] =~~= old_result.push(closed));
    }
    result
}

/// One alternative's symbols joined with single spaces, the line the
/// command surface prints for it.
pub fn join_symbols(symbols: &Vec<String>) -> (r: String)
    ensures
        r@ == join_spaces(symbols.deep_view()),
{
    let mut out = String::new();
    proof {
        assert(symbols.deep_view().subrange(0, 0) =~= Seq::<Seq<char>>::empty());
    }
    let mut i: usize = 0;
    while i < symbols.len()
        invariant
            0 <= i <= symbols@.len(),
            out@ == join_spaces(symbols.deep_view().subrange(0, i as int)),
        decreases symbols@.len() - i,
    {
        if i > 0 {
            out.append(" ");
        }
        out.append(symbols[i].as_str());
        proof {
            reveal_strlit(" ");
            assert(" "@ =~= seq![' ']);
            let sofar = symbols.deep_view().subrange(0, i as int);
            lemma_join_push(sofar, symbols.deep_view()[i as int]);
            assert(sofar.push(symbols.deep_view()[i as int]) =~= symbols.deep_view().subrange(
                0,
                i + 1,
            ));
        }
        i = i + 1;
    }
    proof {
        assert(symbols.deep_view().subrange(0, symbols@.len() as int) =~= symbols.deep_view());
    }
    out
}

/// The flattened, space-joined body text of a rule node, the corpus that
/// right-hand-side searches run against.
pub fn extract_rhs_text(rule_node: &SyntaxNode) -> (r: String)
    ensures
        r@ == rhs_text_spec(*rule_node),
{
    let ghost children = rule_node.children@;
    let mut out = String::new();
    let mut started = false;
    let ghost mut gparts: Seq<Seq<char>> = Seq::<Seq<char>>::empty();
    proof {
        assert(children.subrange(0, children.len() as int) =~= children);
        assert(gparts + rhs_parts(children) =~~= rhs_parts(children));
    }
    let mut i: usize = 0;
    while i < rule_node.children.len()
        invariant
            0 <= i <= children.len(),
            children == rule_node.children@,
            rhs_parts(children) == gparts + rhs_parts(
                children.subrange(i as int, children.len() as int),
            ),
            out@ == join_spaces(gparts),
            started == (gparts.len() > 0),
        decreases children.len() - i,
    {
        let len: usize = rule_node.children.len();
        proof {
            let rest = children.subrange(i as int, len as int);
            assert(rest[0] == children[i as int]);
            assert(rest.drop_first() =~= children.subrange(i + 1, len as int));
        }
        let child = &rule_node.children[i];
        if child_ignored(child, false) {
        } else if child.kind == NodeKind::Separator {
            if started {
                out.append(" ");
            }
            out.append(" ");
            proof {
                reveal_strlit(" ");
                assert(" "@ =~= seq![' ']);
                lemma_join_push(gparts, seq![' ']);
                gparts = gparts.push(seq![' ']);
                assert(gparts + rhs_parts(children.subrange(i + 1, len as int)) =~~= rhs_parts(
                    children,
                ));
            }
            started = true;
        } else {
            let t = trim_str(child.text.as_str());
            if !t.is_empty() {
                if started {
                    out.append(" ");
                }
                out.append(t);
                proof {
                    reveal_strlit(" ");
                    assert(" "@ =~= seq![' ']);
                    lemma_join_push(gparts, trim_spec(children[i as int].text@));
                    gparts = gparts.push(trim_spec(children[i as int].text@));
                    assert(gparts + rhs_parts(children.subrange(i + 1, len as int)) =~~= rhs_parts(
                        children,
                    ));
                }
                started = true;
            }
        }
        i = i + 1;
    }
    proof {
        let len = children.len() as int;
        assert(children.subrange(len, len) =~= Seq::<SyntaxNode>::empty());
        assert(gparts + rhs_parts(children.subrange(len, len)) =~~= gparts);
    }
    out
}

} // verus!
