//! The authorisation guard. It knows two sets of route rules: the protected
//! paths, which ask for a valid credential, and the exempt paths, which never
//! do. The exempt rules are consulted first, so that a login path stays
//! reachable even where a protected rule covers it too.

use crate::error::{AuthError, TelemetryError};
use crate::route::{rule_applies, Method, Request, RouteRule, RuleView};
use vstd::prelude::*;

verus! {

/// What came with a request in place of a session credential.
#[derive(Clone, Copy, Debug, PartialEq, Eq, Structural)]
pub enum Credential {
    /// Nothing.
    Missing,
    /// Something that could not be read as a credential.
    Malformed,
    /// A credential that was read and not accepted.
    Invalid,
    /// A credential that was accepted.
    Valid,
}

/// The standing of a credential that could be read, by what the session
/// store said of it: valid where the store knows its session, invalid where
/// it does not, and invalid too where the store gave no answer.
pub open spec fn standing(lookup: Result<bool, TelemetryError>) -> Credential {
    if lookup == Ok::<bool, TelemetryError>(true) {
        Credential::Valid
    } else {
        Credential::Invalid
    }
}

impl Credential {
    /// Judges a credential that could be read by the session store's answer.
    /// A store that cannot be asked accepts nobody.
    pub fn from_lookup(lookup: Result<bool, TelemetryError>) -> (credential: Credential)
        ensures
            credential == standing(lookup),
    {
        match lookup {
            Ok(known) => if known {
                Credential::Valid
            } else {
                Credential::Invalid
            },
            Err(_) => Credential::Invalid,
        }
    }
}

/// What the guard is configured with.
pub struct AuthView {
    pub protected: Seq<RuleView>,
    pub exempt: Seq<RuleView>,
}

/// The views of `rules`, in order.
pub open spec fn views_of(rules: Seq<RouteRule>) -> Seq<RuleView> {
    Seq::new(rules.len(), |i: int| rules[i]@)
}

/// The rules that the patterns in `patterns` compile to, each for every
/// method.
pub open spec fn compiled(patterns: Seq<String>) -> Seq<RuleView> {
    Seq::new(patterns.len(), |i: int| RuleView { pattern: patterns[i]@, verbs: None })
}

/// Whether at least one of `rules` applies to the request.
pub open spec fn any_applies(rules: Seq<RuleView>, method: Method, target: Seq<char>) -> bool {
    exists|i: int| 0 <= i < rules.len() && rule_applies(#[trigger] rules[i], method, target)
}

/// Whether the request has to come with a valid credential: no exempt rule
/// applies to it and a protected rule does.
pub open spec fn needs_credential(auth: AuthView, method: Method, target: Seq<char>) -> bool {
    !any_applies(auth.exempt, method, target) && any_applies(auth.protected, method, target)
}

/// The error a credential is turned away with where one is needed, if it is.
/// An unreadable credential counts as a missing one.
pub open spec fn refusal(credential: Credential) -> Option<AuthError> {
    match credential {
        Credential::Valid => None,
        Credential::Invalid => Some(AuthError::InvalidCredential),
        Credential::Missing => Some(AuthError::MissingCredential),
        Credential::Malformed => Some(AuthError::MissingCredential),
    }
}

/// The guard's decision on a request: `Ok` lets it through, `Err` turns it
/// away.
pub open spec fn verdict(
    auth: AuthView,
    method: Method,
    target: Seq<char>,
    credential: Credential,
) -> Result<(), AuthError> {
    if needs_credential(auth, method, target) && refusal(credential) is Some {
        Err(refusal(credential)->0)
    } else {
        Ok(())
    }
}

/// The authorisation guard.
#[derive(Clone, Debug)]
pub struct AuthInterceptor {
    protected: Vec<RouteRule>,
    exempt: Vec<RouteRule>,
}

impl View for AuthInterceptor {
    type V = AuthView;

    closed spec fn view(&self) -> AuthView {
        AuthView { protected: views_of(self.protected@), exempt: views_of(self.exempt@) }
    }
}

/// Compiles each pattern into a rule for every method.
fn compile_all(patterns: &Vec<String>) -> (rules: Vec<RouteRule>)
    ensures
        views_of(rules@) == compiled(patterns@),
{
    let mut rules: Vec<RouteRule> = Vec::new();
    let mut i: usize = 0;
    while i < patterns.len()
        invariant
            i <= patterns@.len(),
            rules@.len() == i,
            forall|j: int|
                0 <= j < i ==> (#[trigger] rules@[j])@ == (RuleView {
                    pattern: patterns@[j]@,
                    verbs: None,
                }),
        decreases patterns@.len() - i,
    {
        let rule = RouteRule::compile(patterns[i].as_str());
        rules.push(rule);
        i += 1;
    }
    assert(views_of(rules@) =~= compiled(patterns@));
    rules
}

/// Whether at least one of `rules` applies to `request`.
fn some_rule_applies(rules: &Vec<RouteRule>, request: &Request) -> (found: bool)
    ensures
        found == any_applies(views_of(rules@), request.method, request.target@),
{
    let ghost views = views_of(rules@);
    let mut i: usize = 0;
    while i < rules.len()
        invariant
            i <= rules@.len(),
            views == views_of(rules@),
            forall|j: int|
                0 <= j < i ==> !rule_applies(#[trigger] views[j], request.method, request.target@),
        decreases rules@.len() - i,
    {
        if rules[i].applies(request) {
            assert(rule_applies(views[i as int], request.method, request.target@));
            return true;
        }
        i += 1;
    }
    false
}

impl AuthInterceptor {
    /// A guard over the protected and the exempt path patterns, each of which
    /// stands for every method.
    pub fn new(protected: Vec<String>, exempt: Vec<String>) -> (auth: AuthInterceptor)
        ensures
            auth@.protected == compiled(protected@),
            auth@.exempt == compiled(exempt@),
    {
        AuthInterceptor { protected: compile_all(&protected), exempt: compile_all(&exempt) }
    }

    /// A guard over rules that were compiled already.
    pub fn with_rules(protected: Vec<RouteRule>, exempt: Vec<RouteRule>) -> (auth: AuthInterceptor)
        ensures
            auth@.protected == views_of(protected@),
            auth@.exempt == views_of(exempt@),
    {
        AuthInterceptor { protected, exempt }
    }

    /// Whether `request` has to come with a valid credential. Where it need
    /// not, the caller can spare itself the look at the credential.
    pub fn requires_credential(&self, request: &Request) -> (needed: bool)
        ensures
            needed == needs_credential(self@, request.method, request.target@),
    {
        if some_rule_applies(&self.exempt, request) {
            false
        } else {
            some_rule_applies(&self.protected, request)
        }
    }

    /// Decides on `request`: `Ok` lets it through to what lies behind the
    /// guard, `Err` turns it away before anything behind the guard runs.
    pub fn authorize(&self, request: &Request, credential: Credential) -> (decision: Result<
        (),
        AuthError,
    >)
        ensures
            decision == verdict(self@, request.method, request.target@, credential),
    {
        if !self.requires_credential(request) {
            return Ok(());
        }
        match credential {
            Credential::Valid => Ok(()),
            Credential::Invalid => Err(AuthError::InvalidCredential),
            Credential::Missing => Err(AuthError::MissingCredential),
            Credential::Malformed => Err(AuthError::MissingCredential),
        }
    }
}

/// A request that an exempt rule applies to is let through, whatever came as
/// its credential and whatever the protected rules say.
pub proof fn lemma_exempt_is_let_through(
    auth: AuthView,
    method: Method,
    target: Seq<char>,
    credential: Credential,
)
    requires
        any_applies(auth.exempt, method, target),
    ensures
        verdict(auth, method, target, credential) is Ok,
{
}

/// A request to a protected path that no exempt rule applies to is turned
/// away unless its credential is valid.
pub proof fn lemma_protected_needs_valid_credential(
    auth: AuthView,
    method: Method,
    target: Seq<char>,
    credential: Credential,
)
    requires
        any_applies(auth.protected, method, target),
        !any_applies(auth.exempt, method, target),
    ensures
        verdict(auth, method, target, credential) is Ok <==> credential == Credential::Valid,
{
}

/// A request that no protected rule applies to is let through.
pub proof fn lemma_unprotected_is_let_through(
    auth: AuthView,
    method: Method,
    target: Seq<char>,
    credential: Credential,
)
    requires
        !any_applies(auth.protected, method, target),
    ensures
        verdict(auth, method, target, credential) is Ok,
{
}

/// An unreadable credential gets the decision a missing one gets.
pub proof fn lemma_malformed_is_missing(auth: AuthView, method: Method, target: Seq<char>)
    ensures
        verdict(auth, method, target, Credential::Malformed) == verdict(
            auth,
            method,
            target,
            Credential::Missing,
        ),
{
}

} // verus!
