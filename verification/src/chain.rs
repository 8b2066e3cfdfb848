//! The interceptor chain: an ordered list of stages around the handler. A
//! request passes the stages from the outside in; its response passes back
//! through those it entered, from the inside out. Only the authorisation guard
//! can cut a passage short, and then nothing inside the guard runs.
//!
//! The order this backend runs with is `Cors`, `Logger`, `AccessCounter`,
//! `Auth`: every attempt is counted, also one that the guard then turns away.
//! The other order that keeps `Cors` and `Logger` outermost, with the guard
//! before the counter, counts only what the guard let through.

use crate::auth::{
    any_applies, needs_credential, verdict, AuthInterceptor, AuthView, Credential,
};
use crate::counter::{command_for, AccessCounter, CommandView, CounterCommand};
use crate::envelope::{failure, well_formed, CODE_UNAUTHORIZED};
use crate::error::AuthError;
use crate::route::{Method, Request};
use vstd::prelude::*;

verus! {

/// An interceptor of the chain.
#[derive(Clone, Copy, Debug, PartialEq, Eq, Structural)]
pub enum Stage {
    Cors,
    Logger,
    AccessCounter,
    Auth,
}

/// One step of a passage.
#[derive(Clone, Copy, Debug, PartialEq, Eq, Structural)]
pub enum Event {
    /// The request enters a stage: its part before the inner stages runs.
    Enter(Stage),
    /// The router hands the request to its handler.
    Dispatch,
    /// The guard answers in the handler's place.
    Reject,
    /// The response leaves a stage: its part after the inner stages runs.
    Leave(Stage),
}

/// Whether `stage` is one of the two that wrap everything else.
pub open spec fn is_outer(stage: Stage) -> bool {
    stage == Stage::Cors || stage == Stage::Logger
}

/// The orders a chain can have: each of the four stages once, the two outer
/// ones first.
pub open spec fn valid_order(order: Seq<Stage>) -> bool {
    &&& order.len() == 4
    &&& order.no_duplicates()
    &&& is_outer(order[0])
    &&& is_outer(order[1])
}

/// The order this backend runs with, outermost first.
pub open spec fn standard_order() -> Seq<Stage> {
    seq![Stage::Cors, Stage::Logger, Stage::AccessCounter, Stage::Auth]
}

/// The passage of a request through the stages in `order`, outermost first,
/// where `allowed` says whether the guard lets it through. Each stage wraps
/// what lies inside it; the handler lies innermost.
pub open spec fn passage_of(order: Seq<Stage>, allowed: bool) -> Seq<Event>
    decreases order.len(),
{
    if order.len() == 0 {
        seq![Event::Dispatch]
    } else if order[0] == Stage::Auth && !allowed {
        seq![Event::Enter(Stage::Auth), Event::Reject]
    } else {
        seq![Event::Enter(order[0])] + passage_of(order.drop_first(), allowed) + seq![
            Event::Leave(order[0]),
        ]
    }
}

/// Whether a request on this passage reaches the access counter.
pub open spec fn is_counted(order: Seq<Stage>, allowed: bool) -> bool {
    passage_of(order, allowed).contains(Event::Enter(Stage::AccessCounter))
}

/// What a chain is made of.
pub struct ChainView {
    pub order: Seq<Stage>,
    pub auth: AuthView,
    pub key: Seq<char>,
}

/// What the chain decided for one request: the steps to take, in order, the
/// increment to hand to the counter store where the passage enters the
/// counter, and the error to answer with where the guard turned the request
/// away.
#[derive(Debug)]
pub struct Passage {
    pub trace: Vec<Event>,
    pub command: Option<CounterCommand>,
    pub rejection: Option<AuthError>,
}

/// What a passage stands for.
pub struct PassageView {
    pub trace: Seq<Event>,
    pub command: Option<CommandView>,
    pub rejection: Option<AuthError>,
}

impl View for Passage {
    type V = PassageView;

    open spec fn view(&self) -> PassageView {
        PassageView {
            trace: self.trace@,
            command: match self.command {
                Some(c) => Some(c@),
                None => None,
            },
            rejection: self.rejection,
        }
    }
}

/// The passage that `chain` decides for a request: the steps follow from the
/// order and the guard's verdict, the increment is there exactly where the
/// steps enter the counter, and the rejection is the guard's error.
pub open spec fn passage_for(
    chain: ChainView,
    method: Method,
    target: Seq<char>,
    credential: Credential,
) -> PassageView {
    let decision = verdict(chain.auth, method, target, credential);
    PassageView {
        trace: passage_of(chain.order, decision is Ok),
        command: if is_counted(chain.order, decision is Ok) {
            Some(command_for(chain.key, target))
        } else {
            None
        },
        rejection: match decision {
            Ok(_) => None,
            Err(error) => Some(error),
        },
    }
}

/// The interceptor chain.
#[derive(Debug)]
pub struct InterceptorChain {
    order: Vec<Stage>,
    auth: AuthInterceptor,
    counter: AccessCounter,
}

impl View for InterceptorChain {
    type V = ChainView;

    closed spec fn view(&self) -> ChainView {
        ChainView { order: self.order@, auth: self.auth@, key: self.counter.store_key() }
    }
}

fn stage_is_outer(stage: Stage) -> (outer: bool)
    ensures
        outer == is_outer(stage),
{
    match stage {
        Stage::Cors => true,
        Stage::Logger => true,
        Stage::AccessCounter => false,
        Stage::Auth => false,
    }
}

/// Whether `order` is one a chain can have.
pub fn check_order(order: &Vec<Stage>) -> (valid: bool)
    ensures
        valid == valid_order(order@),
{
    if order.len() != 4 {
        return false;
    }
    let valid = stage_is_outer(order[0]) && stage_is_outer(order[1]) && order[0] != order[1]
        && !stage_is_outer(order[2]) && !stage_is_outer(order[3]) && order[2] != order[3];
    proof {
        let s = order@;
        if valid {
            assert forall|i: int, j: int| 0 <= i < s.len() && 0 <= j < s.len() && i != j implies s[i]
                != s[j] by {}
        }
        if valid_order(s) {
            assert(s[0] != s[1]);
            assert(s[2] != s[0] && s[2] != s[1]);
            assert(s[3] != s[0] && s[3] != s[1]);
            assert(s[2] != s[3]);
        }
    }
    valid
}

/// Appends to `trace` the passage through the stages of `order` from index
/// `from` on.
fn walk(order: &Vec<Stage>, from: usize, allowed: bool, trace: &mut Vec<Event>)
    requires
        from <= order@.len(),
    ensures
        final(trace)@ == old(trace)@ + passage_of(order@.skip(from as int), allowed),
    decreases order@.len() - from,
{
    let ghost inner = order@.skip(from as int);
    if from == order.len() {
        trace.push(Event::Dispatch);
        assert(trace@ =~= old(trace)@ + passage_of(inner, allowed));
    } else {
        let stage = order[from];
        assert(inner[0] == stage);
        assert(inner.drop_first() =~= order@.skip(from as int + 1));
        if stage == Stage::Auth && !allowed {
            trace.push(Event::Enter(Stage::Auth));
            trace.push(Event::Reject);
            assert(trace@ =~= old(trace)@ + passage_of(inner, allowed));
        } else {
            trace.push(Event::Enter(stage));
            walk(order, from + 1, allowed, trace);
            trace.push(Event::Leave(stage));
            assert(trace@ =~= old(trace)@ + passage_of(inner, allowed));
        }
    }
}

/// Whether `event` occurs in `trace`.
fn occurs(trace: &Vec<Event>, event: Event) -> (found: bool)
    ensures
        found == trace@.contains(event),
{
    let mut i: usize = 0;
    while i < trace.len()
        invariant
            i <= trace@.len(),
            forall|j: int| 0 <= j < i ==> trace@[j] != event,
        decreases trace@.len() - i,
    {
        if trace[i] == event {
            return true;
        }
        i += 1;
    }
    false
}

impl InterceptorChain {
    #[verifier::type_invariant]
    spec fn order_is_valid(self) -> bool {
        valid_order(self.order@)
    }

    /// The chain this backend runs with: `Cors`, `Logger`, `AccessCounter`,
    /// `Auth`, then the handler.
    pub fn new(auth: AuthInterceptor, counter: AccessCounter) -> (chain: InterceptorChain)
        ensures
            chain@.order == standard_order(),
            chain@.auth == auth@,
            chain@.key == counter.store_key(),
    {
        let mut order: Vec<Stage> = Vec::new();
        order.push(Stage::Cors);
        order.push(Stage::Logger);
        order.push(Stage::AccessCounter);
        order.push(Stage::Auth);
        assert(order@ =~= standard_order());
        InterceptorChain { order, auth, counter }
    }

    /// A chain with the stages in `order`, outermost first; none where
    /// `order` is not one a chain can have.
    pub fn with_order(order: Vec<Stage>, auth: AuthInterceptor, counter: AccessCounter) -> (made:
        Option<InterceptorChain>)
        ensures
            made is Some <==> valid_order(order@),
            made matches Some(chain) ==> chain@.order == order@ && chain@.auth == auth@
                && chain@.key == counter.store_key(),
    {
        if check_order(&order) {
            Some(InterceptorChain { order, auth, counter })
        } else {
            None
        }
    }

    /// The stages, outermost first.
    pub fn order(&self) -> (order: Vec<Stage>)
        ensures
            order@ == self@.order,
            valid_order(order@),
    {
        proof {
            use_type_invariant(self);
        }
        let order = self.order.clone();
        assert(order@ =~= self.order@);
        order
    }

    /// Whether `request` has to come with a valid credential to reach the
    /// handler. Where it need not, `process` gives the same passage for
    /// every credential, and the caller can spare itself the look at it.
    pub fn requires_credential(&self, request: &Request) -> (needed: bool)
        ensures
            needed == needs_credential(self@.auth, request.method, request.target@),
    {
        self.auth.requires_credential(request)
    }

    /// Decides the passage of `request`, which came with `credential`.
    pub fn process(&self, request: &Request, credential: Credential) -> (passage: Passage)
        ensures
            passage@ == passage_for(self@, request.method, request.target@, credential),
    {
        let decision = self.auth.authorize(request, credential);
        let (allowed, rejection) = match decision {
            Ok(_) => (true, None),
            Err(error) => (false, Some(error)),
        };
        let mut trace: Vec<Event> = Vec::new();
        walk(&self.order, 0, allowed, &mut trace);
        assert(self.order@.skip(0) =~= self.order@);
        assert(trace@ =~= passage_of(self.order@, allowed));
        let command = if occurs(&trace, Event::Enter(Stage::AccessCounter)) {
            Some(self.counter.command(request))
        } else {
            None
        };
        Passage { trace, command, rejection }
    }
}

/// The parts of a concatenation hold what the whole holds.
proof fn lemma_concat_contains(front: Seq<Event>, back: Seq<Event>, event: Event)
    ensures
        (front + back).contains(event) <==> front.contains(event) || back.contains(event),
{
    let whole = front + back;
    if front.contains(event) {
        let i = choose|i: int| 0 <= i < front.len() && front[i] == event;
        assert(whole[i] == event);
    }
    if back.contains(event) {
        let i = choose|i: int| 0 <= i < back.len() && back[i] == event;
        assert(whole[front.len() + i] == event);
    }
    if whole.contains(event) {
        let i = choose|i: int| 0 <= i < whole.len() && whole[i] == event;
        if i < front.len() {
            assert(front[i] == event);
        } else {
            assert(back[i - front.len()] == event);
        }
    }
}

/// What a passage holds, told by what the passage inside its first stage
/// holds.
proof fn lemma_wrapped_contains(order: Seq<Stage>, allowed: bool, event: Event)
    requires
        order.len() > 0,
        order[0] != Stage::Auth || allowed,
    ensures
        passage_of(order, allowed).contains(event) <==> event == Event::Enter(order[0])
            || passage_of(order.drop_first(), allowed).contains(event) || event == Event::Leave(
            order[0],
        ),
{
    let enter = seq![Event::Enter(order[0])];
    let inner = passage_of(order.drop_first(), allowed);
    let leave = seq![Event::Leave(order[0])];
    lemma_concat_contains(enter + inner, leave, event);
    lemma_concat_contains(enter, inner, event);
    assert(enter.contains(event) <==> event == Event::Enter(order[0])) by {
        if event == Event::Enter(order[0]) {
            assert(enter[0] == event);
        }
    }
    assert(leave.contains(event) <==> event == Event::Leave(order[0])) by {
        if event == Event::Leave(order[0]) {
            assert(leave[0] == event);
        }
    }
}

/// Every passage ends in exactly one of two ways. It reaches the handler
/// where the guard lets the request through, or where the order has no guard;
/// else the guard answers, and the handler is never reached.
pub proof fn lemma_handler_or_rejection(order: Seq<Stage>, allowed: bool)
    ensures
        passage_of(order, allowed).contains(Event::Dispatch) <==> allowed || !order.contains(
            Stage::Auth,
        ),
        passage_of(order, allowed).contains(Event::Reject) <==> !allowed && order.contains(
            Stage::Auth,
        ),
    decreases order.len(),
{
    let trace = passage_of(order, allowed);
    if order.len() == 0 {
        assert(trace[0] == Event::Dispatch);
    } else if order[0] == Stage::Auth && !allowed {
        assert(trace[1] == Event::Reject);
    } else {
        let rest = order.drop_first();
        lemma_handler_or_rejection(rest, allowed);
        lemma_wrapped_contains(order, allowed, Event::Dispatch);
        lemma_wrapped_contains(order, allowed, Event::Reject);
        if rest.contains(Stage::Auth) {
            let i = choose|i: int| 0 <= i < rest.len() && rest[i] == Stage::Auth;
            assert(order[i + 1] == Stage::Auth);
        }
        if order.contains(Stage::Auth) && !allowed {
            let i = choose|i: int| 0 <= i < order.len() && order[i] == Stage::Auth;
            assert(rest[i - 1] == Stage::Auth);
        }
    }
}

/// A chain's order holds the guard.
pub proof fn lemma_valid_order_has_guard(order: Seq<Stage>)
    requires
        valid_order(order),
    ensures
        order.contains(Stage::Auth),
        order.contains(Stage::AccessCounter),
        order[2] == Stage::Auth && order[3] == Stage::AccessCounter || order[2]
            == Stage::AccessCounter && order[3] == Stage::Auth,
{
    assert(order[0] != order[1]);
    assert(order[2] != order[0] && order[2] != order[1]);
    assert(order[3] != order[0] && order[3] != order[1]);
    assert(order[2] != order[3]);
}

/// The two outer stages wrap every passage of a chain, also one that the
/// guard cuts short: the passage begins by entering them and ends by leaving
/// them, in the opposite order.
pub proof fn lemma_outer_stages_wrap_everything(order: Seq<Stage>, allowed: bool)
    requires
        valid_order(order),
    ensures
        ({
            let trace = passage_of(order, allowed);
            let inner = passage_of(order.skip(2), allowed);
            trace == seq![Event::Enter(order[0]), Event::Enter(order[1])] + inner + seq![
                Event::Leave(order[1]),
                Event::Leave(order[0]),
            ]
        }),
{
    let first = order.drop_first();
    assert(first[0] == order[1]);
    assert(first.drop_first() =~= order.skip(2));
    let inner = passage_of(order.skip(2), allowed);
    assert(passage_of(first, allowed) == seq![Event::Enter(order[1])] + inner + seq![
        Event::Leave(order[1]),
    ]);
    assert(passage_of(order, allowed) =~= seq![Event::Enter(order[0]), Event::Enter(order[1])]
        + inner + seq![Event::Leave(order[1]), Event::Leave(order[0])]);
}

/// A chain counts a request that the guard lets through, and counts one that
/// the guard turns away exactly where the counter stands outside the guard.
pub proof fn lemma_what_is_counted(order: Seq<Stage>, allowed: bool)
    requires
        valid_order(order),
    ensures
        is_counted(order, allowed) <==> allowed || order[2] == Stage::AccessCounter,
{
    lemma_valid_order_has_guard(order);
    let counting = Event::Enter(Stage::AccessCounter);
    let first = order.drop_first();
    let second = first.drop_first();
    let third = second.drop_first();
    let fourth = third.drop_first();
    assert(first[0] == order[1] && second[0] == order[2] && third[0] == order[3]);
    assert(fourth.len() == 0);
    lemma_wrapped_contains(order, allowed, counting);
    lemma_wrapped_contains(first, allowed, counting);
    assert(passage_of(fourth, allowed)[0] == Event::Dispatch);
    if allowed {
        lemma_wrapped_contains(second, allowed, counting);
        lemma_wrapped_contains(third, allowed, counting);
    } else if order[2] == Stage::AccessCounter {
        lemma_wrapped_contains(second, allowed, counting);
    } else {
        let cut = passage_of(second, allowed);
        assert(cut =~= seq![Event::Enter(Stage::Auth), Event::Reject]);
    }
}

/// The passages of the order this backend runs with. Either way the request
/// is counted; the guard decides only whether the handler runs.
pub proof fn lemma_standard_passages()
    ensures
        valid_order(standard_order()),
        passage_of(standard_order(), true) == seq![
            Event::Enter(Stage::Cors),
            Event::Enter(Stage::Logger),
            Event::Enter(Stage::AccessCounter),
            Event::Enter(Stage::Auth),
            Event::Dispatch,
            Event::Leave(Stage::Auth),
            Event::Leave(Stage::AccessCounter),
            Event::Leave(Stage::Logger),
            Event::Leave(Stage::Cors),
        ],
        passage_of(standard_order(), false) == seq![
            Event::Enter(Stage::Cors),
            Event::Enter(Stage::Logger),
            Event::Enter(Stage::AccessCounter),
            Event::Enter(Stage::Auth),
            Event::Reject,
            Event::Leave(Stage::AccessCounter),
            Event::Leave(Stage::Logger),
            Event::Leave(Stage::Cors),
        ],
{
    let order = standard_order();
    let first = order.drop_first();
    let second = first.drop_first();
    let third = second.drop_first();
    assert(first =~= seq![Stage::Logger, Stage::AccessCounter, Stage::Auth]);
    assert(second =~= seq![Stage::AccessCounter, Stage::Auth]);
    assert(third =~= seq![Stage::Auth]);
    assert(third.drop_first() =~= Seq::<Stage>::empty());
    reveal_with_fuel(passage_of, 5);
    assert(passage_of(order, true) =~= seq![Event::Enter(Stage::Cors)] + passage_of(first, true)
        + seq![Event::Leave(Stage::Cors)]);
    assert(passage_of(order, false) =~= seq![Event::Enter(Stage::Cors)] + passage_of(first, false)
        + seq![Event::Leave(Stage::Cors)]);
}

/// Where no credential is needed, the credential has no say in the passage.
pub proof fn lemma_credential_is_immaterial_where_not_needed(
    chain: ChainView,
    method: Method,
    target: Seq<char>,
    one: Credential,
    other: Credential,
)
    requires
        !needs_credential(chain.auth, method, target),
    ensures
        passage_for(chain, method, target, one) == passage_for(chain, method, target, other),
{
}

/// A request that an exempt rule applies to reaches the handler, whatever
/// came as its credential, and nothing is answered in the handler's place.
pub proof fn lemma_exempt_request_is_served(
    chain: ChainView,
    method: Method,
    target: Seq<char>,
    credential: Credential,
)
    requires
        any_applies(chain.auth.exempt, method, target),
    ensures
        passage_for(chain, method, target, credential).trace.contains(Event::Dispatch),
        !passage_for(chain, method, target, credential).trace.contains(Event::Reject),
        passage_for(chain, method, target, credential).rejection is None,
{
    lemma_handler_or_rejection(chain.order, true);
}

/// A request to a protected path that no exempt rule applies to, and that
/// comes without a valid credential, never reaches the handler: the guard
/// answers it, with an envelope whose code is not 0 and which has no
/// payload.
pub proof fn lemma_unauthorized_request_is_turned_away<T>(
    chain: ChainView,
    method: Method,
    target: Seq<char>,
    credential: Credential,
)
    requires
        valid_order(chain.order),
        any_applies(chain.auth.protected, method, target),
        !any_applies(chain.auth.exempt, method, target),
        credential != Credential::Valid,
    ensures
        !passage_for(chain, method, target, credential).trace.contains(Event::Dispatch),
        passage_for(chain, method, target, credential).trace.contains(Event::Reject),
        passage_for(chain, method, target, credential).rejection matches Some(error) && ({
            let envelope = failure::<T>(CODE_UNAUTHORIZED as int, error.text());
            well_formed(envelope) && envelope.code != 0 && envelope.data is None
        }),
{
    lemma_valid_order_has_guard(chain.order);
    lemma_handler_or_rejection(chain.order, false);
}

} // verus!
