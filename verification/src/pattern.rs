//! Search patterns: a literal substring, or a compiled regular
//! expression supplied by the regex crate behind trusted contracts.

use vstd::prelude::*;

use crate::text::contains_substring;
use crate::text::contains_str;

verus! {

#[verifier::external_type_specification]
#[verifier::external_body]
pub struct ExRegex(regex::Regex);

/// Whether `regex::Regex::new` accepts the pattern text `pat`.
pub uninterp spec fn regex_ok(pat: Seq<char>) -> bool;

/// Whether the expression compiled from `pat` matches somewhere in `text`.
pub uninterp spec fn regex_match(pat: Seq<char>, text: Seq<char>) -> bool;

/// Relies on regex::Regex::new: compilation is deterministic in the
/// pattern text, succeeding exactly on the syntactically valid patterns.
#[verifier::external_body]
fn regex_compile(pat: &str) -> (r: Option<regex::Regex>)
    ensures
        r is Some <==> regex_ok(pat@),
{
    regex::Regex::new(pat).ok()
}

/// A compiled pattern together with the text it was compiled from.
pub struct CompiledPattern {
    re: regex::Regex,
    source: String,
}

/// Relies on regex::Regex::is_match: whether a match exists depends only
/// on the compiled pattern and the haystack text. The expression `p.re`
/// is compiled from `p.source`: `CompiledPattern::new` is the one place
/// that builds a `CompiledPattern`, and it pairs the two.
#[verifier::external_body]
fn regex_is_match(p: &CompiledPattern, text: &str) -> (r: bool)
    ensures
        r == regex_match(p.src(), text@),
{
    p.re.is_match(text)
}

impl CompiledPattern {
    /// The pattern text this expression was compiled from.
    pub closed spec fn src(&self) -> Seq<char> {
        self.source@
    }

    /// Compile `pat`; `None` exactly when the pattern is invalid.
    pub fn new(pat: &str) -> (r: Option<CompiledPattern>)
        ensures
            r is Some <==> regex_ok(pat@),
            r matches Some(p) ==> p.src() == pat@,
    {
        match regex_compile(pat) {
            Some(re) => Some(CompiledPattern { re, source: pat.to_owned() }),
            None => None,
        }
    }

    /// Whether this expression matches somewhere in `text`.
    pub fn is_match(&self, text: &str) -> (r: bool)
        ensures
            r == regex_match(self.src(), text@),
    {
        regex_is_match(self, text)
    }
}

/// How a query tests a candidate text: by literal substring containment,
/// or by a compiled regular expression.
pub enum RulePattern<'a> {
    Literal(&'a str),
    Rx(&'a CompiledPattern),
}

/// The match relation a pattern mode stands for.
pub open spec fn text_hit(use_regex: bool, pat: Seq<char>, text: Seq<char>) -> bool {
    if use_regex {
        regex_match(pat, text)
    } else {
        contains_substring(text, pat)
    }
}

impl<'a> RulePattern<'a> {
    /// Whether this pattern is a regular expression.
    pub open spec fn is_regex(&self) -> bool {
        self matches RulePattern::Rx(_)
    }

    /// The pattern text.
    pub open spec fn pat(&self) -> Seq<char> {
        match *self {
            RulePattern::Literal(s) => s@,
            RulePattern::Rx(c) => c.src(),
        }
    }

    /// Test this pattern against `text`.
    pub fn hit(&self, text: &str) -> (r: bool)
        ensures
            r == text_hit(self.is_regex(), self.pat(), text@),
    {
        match self {
            RulePattern::Literal(s) => contains_str(text, s),
            RulePattern::Rx(c) => c.is_match(text),
        }
    }
}

} // verus!
