//! Route rules: a path pattern with at most one trailing wildcard, and the
//! HTTP methods the rule is meant for.

use crate::text::{chars_of, path_end, path_of, starts_with};
use vstd::prelude::*;

verus! {

/// An HTTP method.
#[derive(Clone, Copy, Debug, PartialEq, Eq, Structural)]
pub enum Method {
    Get,
    Post,
    Put,
    Delete,
    Options,
    Head,
    Patch,
    Connect,
    Trace,
}

/// An inbound request as the interceptors see it: its method and its raw
/// target, which may still carry a query string.
#[derive(Clone, Debug)]
pub struct Request {
    pub method: Method,
    pub target: String,
}

impl Request {
    pub fn new(method: Method, target: &str) -> (request: Request)
        ensures
            request.method == method,
            request.target@ == target@,
    {
        Request { method, target: String::from_str(target) }
    }
}

/// What a rule stands for: the pattern as it was written, and the methods
/// it is limited to (`None`: every method).
pub struct RuleView {
    pub pattern: Seq<char>,
    pub verbs: Option<Set<Method>>,
}

/// A compiled route rule. The pattern is split once, when the rule is made,
/// into its literal part and the wildcard flag; a rule never changes.
#[derive(Debug)]
pub struct RouteRule {
    prefix: Vec<char>,
    wildcard: bool,
    verbs: Option<Vec<Method>>,
}

/// Whether `pattern` matches `path`. A pattern that ends in `*` matches every
/// path that starts with what stands before the `*`; any other pattern
/// matches the identical path only. A `*` elsewhere is an ordinary character.
/// The comparison is case-sensitive.
pub open spec fn pattern_matches(pattern: Seq<char>, path: Seq<char>) -> bool {
    if pattern.len() > 0 && pattern.last() == '*' {
        pattern.drop_last().is_prefix_of(path)
    } else {
        path == pattern
    }
}

/// Whether a rule limited to `verbs` covers `method`.
pub open spec fn verb_allowed(verbs: Option<Set<Method>>, method: Method) -> bool {
    match verbs {
        None => true,
        Some(allowed) => allowed.contains(method),
    }
}

/// Whether `rule` applies to a request: its method is covered and the path of
/// its target, query string excluded, matches the pattern.
pub open spec fn rule_applies(rule: RuleView, method: Method, target: Seq<char>) -> bool {
    verb_allowed(rule.verbs, method) && pattern_matches(rule.pattern, path_of(target))
}

impl View for RouteRule {
    type V = RuleView;

    closed spec fn view(&self) -> RuleView {
        RuleView {
            pattern: if self.wildcard {
                self.prefix@.push('*')
            } else {
                self.prefix@
            },
            verbs: match self.verbs {
                None => None,
                Some(list) => Some(list@.to_set()),
            },
        }
    }
}

/// Whether `method` occurs in `verbs`.
fn lists_method(verbs: &Vec<Method>, method: Method) -> (found: bool)
    ensures
        found == verbs@.contains(method),
{
    let mut i: usize = 0;
    while i < verbs.len()
        invariant
            i <= verbs@.len(),
            forall|j: int| 0 <= j < i ==> verbs@[j] != method,
        decreases verbs@.len() - i,
    {
        if verbs[i] == method {
            return true;
        }
        i += 1;
    }
    false
}

impl RouteRule {
    /// A literal part that is not followed by the wildcard does not itself
    /// end in `*`: the flag alone says whether the pattern has a wildcard.
    #[verifier::type_invariant]
    spec fn flag_agrees(self) -> bool {
        self.wildcard || self.prefix@.len() == 0 || self.prefix@.last() != '*'
    }

    /// Splits `pattern` into its literal part and the wildcard flag.
    fn build(pattern: &str, verbs: Option<Vec<Method>>) -> (rule: RouteRule)
        ensures
            rule@.pattern == pattern@,
            rule.verbs == verbs,
    {
        let mut prefix = chars_of(pattern);
        let ghost whole = prefix@;
        let n = prefix.len();
        let wildcard = n > 0 && prefix[n - 1] == '*';
        if wildcard {
            prefix.pop();
            assert(prefix@.push('*') =~= whole);
        }
        RouteRule { prefix, wildcard, verbs }
    }

    /// Compiles `pattern` into a rule for every method.
    pub fn compile(pattern: &str) -> (rule: RouteRule)
        ensures
            rule@.pattern == pattern@,
            rule@.verbs is None,
    {
        Self::build(pattern, None)
    }

    /// Compiles `pattern` into a rule for the methods in `verbs` only.
    pub fn compile_for(pattern: &str, verbs: Vec<Method>) -> (rule: RouteRule)
        ensures
            rule@.pattern == pattern@,
            rule@.verbs == Some(verbs@.to_set()),
    {
        Self::build(pattern, Some(verbs))
    }

    /// Whether the pattern ends in the wildcard.
    pub fn is_wildcard(&self) -> (yes: bool)
        ensures
            yes == (self@.pattern.len() > 0 && self@.pattern.last() == '*'),
    {
        proof {
            use_type_invariant(self);
        }
        self.wildcard
    }

    /// Whether the rule's pattern matches the path of `target`. The query
    /// string, if `target` has one, takes no part.
    pub fn matches(&self, target: &str) -> (yes: bool)
        ensures
            yes == pattern_matches(self@.pattern, path_of(target@)),
    {
        proof {
            use_type_invariant(self);
        }
        let chars = chars_of(target);
        let end = path_end(&chars);
        let starts = starts_with(&chars, end, &self.prefix);
        if self.wildcard {
            assert(self.prefix@.push('*').drop_last() =~= self.prefix@);
            starts
        } else {
            let same = starts && self.prefix.len() == end;
            proof {
                let path = chars@.take(end as int);
                if same {
                    assert(path =~= self.prefix@);
                }
                if path == self.prefix@ {
                    assert(self.prefix@ =~= path.subrange(0, path.len() as int));
                }
            }
            same
        }
    }

    /// Whether the rule covers `method`.
    pub fn allows(&self, method: Method) -> (yes: bool)
        ensures
            yes == verb_allowed(self@.verbs, method),
    {
        match &self.verbs {
            None => true,
            Some(list) => lists_method(list, method),
        }
    }

    /// Whether the rule applies to `request`.
    pub fn applies(&self, request: &Request) -> (yes: bool)
        ensures
            yes == rule_applies(self@, request.method, request.target@),
    {
        self.allows(request.method) && self.matches(request.target.as_str())
    }
}

impl Clone for RouteRule {
    fn clone(&self) -> (rule: RouteRule)
        ensures
            rule@ == self@,
    {
        proof {
            use_type_invariant(self);
        }
        let prefix = self.prefix.clone();
        assert(prefix@ =~= self.prefix@);
        let verbs = match &self.verbs {
            None => None,
            Some(list) => {
                let copy = list.clone();
                assert(copy@ =~= list@);
                Some(copy)
            },
        };
        RouteRule { prefix, wildcard: self.wildcard, verbs }
    }
}

/// A pattern without a trailing wildcard matches itself and nothing else.
pub proof fn lemma_literal_matches_only_itself(pattern: Seq<char>, path: Seq<char>)
    requires
        pattern.len() == 0 || pattern.last() != '*',
    ensures
        pattern_matches(pattern, path) <==> path == pattern,
{
}

/// A wildcard pattern matches every path that continues its literal part,
/// whatever follows.
pub proof fn lemma_wildcard_matches_any_suffix(literal: Seq<char>, suffix: Seq<char>)
    ensures
        pattern_matches(literal.push('*'), literal + suffix),
{
    let pattern = literal.push('*');
    assert(pattern.drop_last() =~= literal);
    assert(literal =~= (literal + suffix).subrange(0, literal.len() as int));
}

/// A query string never changes whether a rule applies: the target and its
/// path get the same answer.
pub proof fn lemma_query_string_is_ignored(rule: RuleView, method: Method, target: Seq<char>)
    ensures
        rule_applies(rule, method, target) == rule_applies(rule, method, path_of(target)),
{
    crate::text::lemma_path_of_idempotent(target);
}

} // verus!
