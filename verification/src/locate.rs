//! The rule locator: pre-order traversal of a syntax tree, gathering
//! rule nodes, reading a rule's declared name, and finding the first
//! rule with a given name.

use vstd::prelude::*;

use crate::text::str_eq;
use crate::tree::NodeKind;
use crate::tree::SyntaxNode;
use crate::tree::first_decl_text;
use crate::tree::has_error_in;
use crate::tree::has_error_node;
use crate::tree::rules_in;
use crate::tree::rules_in_seq;
use crate::tree::spec_rule_name;

verus! {

broadcast use vstd::std_specs::vec::axiom_vec_decreases_to_view;

/// A sequence of borrowed nodes, read as the nodes themselves.
pub open spec fn derefed(s: Seq<&SyntaxNode>) -> Seq<SyntaxNode> {
    s.map_values(|r: &SyntaxNode| *r)
}

/// The first rule of `rules` whose declared name is `name`.
pub open spec fn first_rule_named(rules: Seq<SyntaxNode>, name: Seq<char>) -> Option<SyntaxNode>
    decreases rules.len(),
{
    if rules.len() == 0 {
        None
    } else if spec_rule_name(rules[0]) == Some(name) {
        Some(rules[0])
    } else {
        first_rule_named(rules.drop_first(), name)
    }
}

/// Every rule node of the tree under `root`, in pre-order.
pub fn all_rules<'a>(root: &'a SyntaxNode) -> (r: Vec<&'a SyntaxNode>)
    ensures
        derefed(r@) == rules_in(*root),
    decreases *root,
{
    let mut result: Vec<&'a SyntaxNode> = Vec::new();
    if root.kind == NodeKind::GrammarRule {
        result.push(root);
    }
    proof {
        assert(root.children@.subrange(0, root.children@.len() as int) =~= root.children@);
        assert(derefed(result@) + rules_in_seq(root.children@) =~= rules_in(*root));
    }
    let mut i: usize = 0;
    while i < root.children.len()
        invariant
            0 <= i <= root.children@.len(),
            rules_in(*root) == derefed(result@) + rules_in_seq(
                root.children@.subrange(i as int, root.children@.len() as int),
            ),
        decreases root.children@.len() - i,
    {
        let len: usize = root.children.len();
        let mut sub = all_rules(&root.children[i]);
        proof {
            let rest = root.children@.subrange(i as int, len as int);
            assert(rest[0] == root.children@[i as int]);
            assert(rest.drop_first() =~= root.children@.subrange(i + 1, len as int));
            assert(derefed(result@ + sub@) =~= derefed(result@) + derefed(sub@));
        }
        result.append(&mut sub);
        i = i + 1;
    }
    proof {
        let len = root.children@.len() as int;
        assert(root.children@.subrange(len, len) =~= Seq::<SyntaxNode>::empty());
        assert(derefed(result@) + Seq::<SyntaxNode>::empty() =~= derefed(result@));
    }
    result
}

/// Whether the tree under `root` holds any error node.
pub fn tree_has_errors(root: &SyntaxNode) -> (r: bool)
    ensures
        r == has_error_node(*root),
    decreases *root,
{
    if root.is_error {
        return true;
    }
    proof {
        assert(root.children@.subrange(0, root.children@.len() as int) =~= root.children@);
    }
    let mut i: usize = 0;
    while i < root.children.len()
        invariant
            0 <= i <= root.children@.len(),
            !root.is_error,
            has_error_node(*root) == has_error_in(
                root.children@.subrange(i as int, root.children@.len() as int),
            ),
        decreases root.children@.len() - i,
    {
        let len: usize = root.children.len();
        proof {
            let rest = root.children@.subrange(i as int, len as int);
            assert(rest[0] == root.children@[i as int]);
            assert(rest.drop_first() =~= root.children@.subrange(i + 1, len as int));
        }
        if tree_has_errors(&root.children[i]) {
            return true;
        }
        i = i + 1;
    }
    proof {
        let len = root.children@.len() as int;
        assert(root.children@.subrange(len, len) =~= Seq::<SyntaxNode>::empty());
    }
    false
}

/// The name a rule node declares: the text of its first declaration child.
pub fn rule_name(node: &SyntaxNode) -> (r: Option<String>)
    ensures
        spec_rule_name(*node) is None ==> r is None,
        spec_rule_name(*node) matches Some(t) ==> (r matches Some(s) && s@ == t),
{
    proof {
        assert(node.children@.subrange(0, node.children@.len() as int) =~= node.children@);
    }
    let mut i: usize = 0;
    while i < node.children.len()
        invariant
            0 <= i <= node.children@.len(),
            first_decl_text(node.children@) == first_decl_text(
                node.children@.subrange(i as int, node.children@.len() as int),
            ),
        decreases node.children@.len() - i,
    {
        let len: usize = node.children.len();
        proof {
            let rest = node.children@.subrange(i as int, len as int);
            assert(rest[0] == node.children@[i as int]);
            assert(rest.drop_first() =~= node.children@.subrange(i + 1, len as int));
        }
        if node.children[i].kind == NodeKind::RuleDeclaration {
            return Some(node.children[i].text.clone());
        }
        i = i + 1;
    }
    proof {
        let len = node.children@.len() as int;
        assert(node.children@.subrange(len, len) =~= Seq::<SyntaxNode>::empty());
    }
    None
}

/// The first rule of the tree under `root`, in pre-order, whose declared
/// name is exactly `expected`; rules declaring no name never match.
pub fn find_rule_by_exact_match<'a>(root: &'a SyntaxNode, expected: &str) -> (r: Option<
    &'a SyntaxNode,
>)
    ensures
        first_rule_named(rules_in(*root), expected@) is None ==> r is None,
        first_rule_named(rules_in(*root), expected@) matches Some(n) ==> (r matches Some(f)
            && *f == n),
{
    let rules = all_rules(root);
    let ghost all = rules_in(*root);
    proof {
        assert(all.subrange(0, all.len() as int) =~= all);
    }
    let mut i: usize = 0;
    while i < rules.len()
        invariant
            0 <= i <= rules@.len(),
            derefed(rules@) == all,
            all == rules_in(*root),
            first_rule_named(all, expected@) == first_rule_named(
                all.subrange(i as int, all.len() as int),
                expected@,
            ),
        decreases rules@.len() - i,
    {
        let len: usize = rules.len();
        proof {
            let rest = all.subrange(i as int, len as int);
            assert(rest[0] == all[i as int]);
            assert(rest.drop_first() =~= all.subrange(i + 1, len as int));
            assert(*rules@[i as int] == all[i as int]);
        }
        let node: &SyntaxNode = rules[i];
        let name = rule_name(node);
        match name {
            Some(n) => {
                if str_eq(n.as_str(), expected) {
                    return Some(node);
                }
            },
            None => {},
        }
        i = i + 1;
    }
    proof {
        let len = all.len() as int;
        assert(all.subrange(len, len) =~= Seq::<SyntaxNode>::empty());
    }
    None
}

} // verus!
