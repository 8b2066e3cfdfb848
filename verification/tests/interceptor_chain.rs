use blog_core::auth::{AuthInterceptor, Credential};
use blog_core::chain::{check_order, Event, InterceptorChain, Passage, Stage};
use blog_core::counter::{AccessCounter, CounterCommand};
use blog_core::envelope::ResultEnvelope;
use blog_core::error::AuthError;
use blog_core::route::{Method, Request};

fn guard() -> AuthInterceptor {
    AuthInterceptor::new(vec!["/admin/*".to_string()], vec!["/admin/login".to_string()])
}

fn standard() -> InterceptorChain {
    InterceptorChain::new(guard(), AccessCounter::new())
}

fn guard_first() -> InterceptorChain {
    let order = vec![Stage::Cors, Stage::Logger, Stage::Auth, Stage::AccessCounter];
    InterceptorChain::with_order(order, guard(), AccessCounter::new()).unwrap()
}

fn increment(path: &str) -> Option<CounterCommand> {
    Some(CounterCommand { key: "blog_access_cnt".to_string(), field: path.to_string(), delta: 1 })
}

fn handler_runs(passage: &Passage) -> bool {
    passage.trace.contains(&Event::Dispatch)
}

#[test]
fn standard_order_counts_before_the_guard() {
    assert_eq!(
        standard().order(),
        vec![Stage::Cors, Stage::Logger, Stage::AccessCounter, Stage::Auth]
    );
}

#[test]
fn allowed_request_passes_every_stage_and_back() {
    let passage = standard().process(&Request::new(Method::Get, "/article/all"), Credential::Missing);
    assert_eq!(
        passage.trace,
        vec![
            Event::Enter(Stage::Cors),
            Event::Enter(Stage::Logger),
            Event::Enter(Stage::AccessCounter),
            Event::Enter(Stage::Auth),
            Event::Dispatch,
            Event::Leave(Stage::Auth),
            Event::Leave(Stage::AccessCounter),
            Event::Leave(Stage::Logger),
            Event::Leave(Stage::Cors),
        ]
    );
    assert_eq!(passage.rejection, None);
    assert_eq!(passage.command, increment("/article/all"));
}

#[test]
fn rejected_request_never_reaches_the_handler() {
    let request = Request::new(Method::Get, "/admin/articles?page=1");
    for credential in [Credential::Missing, Credential::Malformed, Credential::Invalid] {
        let passage = standard().process(&request, credential);
        assert_eq!(
            passage.trace,
            vec![
                Event::Enter(Stage::Cors),
                Event::Enter(Stage::Logger),
                Event::Enter(Stage::AccessCounter),
                Event::Enter(Stage::Auth),
                Event::Reject,
                Event::Leave(Stage::AccessCounter),
                Event::Leave(Stage::Logger),
                Event::Leave(Stage::Cors),
            ]
        );
        assert!(!handler_runs(&passage));
        let error = passage.rejection.expect("the guard turned the request away");
        let envelope: ResultEnvelope<String> = ResultEnvelope::from_auth(&error);
        assert_ne!(envelope.code(), 0);
        assert_eq!(envelope.code(), 401);
        assert!(envelope.data().is_none());
    }
}

#[test]
fn rejection_names_what_was_wrong_with_the_credential() {
    let request = Request::new(Method::Get, "/admin/articles");
    let chain = standard();
    assert_eq!(
        chain.process(&request, Credential::Missing).rejection,
        Some(AuthError::MissingCredential)
    );
    assert_eq!(
        chain.process(&request, Credential::Malformed).rejection,
        Some(AuthError::MissingCredential)
    );
    assert_eq!(
        chain.process(&request, Credential::Invalid).rejection,
        Some(AuthError::InvalidCredential)
    );
    assert_eq!(chain.process(&request, Credential::Valid).rejection, None);
}

#[test]
fn exempt_request_is_served_without_credential() {
    let request = Request::new(Method::Post, "/admin/login");
    for chain in [standard(), guard_first()] {
        for credential in [Credential::Missing, Credential::Malformed, Credential::Invalid] {
            let passage = chain.process(&request, credential);
            assert!(handler_runs(&passage));
            assert!(!passage.trace.contains(&Event::Reject));
            assert_eq!(passage.rejection, None);
        }
    }
}

#[test]
fn valid_credential_opens_protected_path() {
    let request = Request::new(Method::Get, "/admin/articles");
    let passage = standard().process(&request, Credential::Valid);
    assert!(handler_runs(&passage));
    assert_eq!(passage.rejection, None);
}

#[test]
fn standard_order_counts_rejected_attempts_too() {
    let request = Request::new(Method::Get, "/admin/articles?page=1");
    let passage = standard().process(&request, Credential::Missing);
    assert!(!handler_runs(&passage));
    assert_eq!(passage.command, increment("/admin/articles"));
}

#[test]
fn guard_first_order_counts_only_what_passed() {
    let chain = guard_first();
    let request = Request::new(Method::Get, "/admin/articles");
    let rejected = chain.process(&request, Credential::Invalid);
    assert_eq!(
        rejected.trace,
        vec![
            Event::Enter(Stage::Cors),
            Event::Enter(Stage::Logger),
            Event::Enter(Stage::Auth),
            Event::Reject,
            Event::Leave(Stage::Logger),
            Event::Leave(Stage::Cors),
        ]
    );
    assert_eq!(rejected.command, None);
    assert_eq!(rejected.rejection, Some(AuthError::InvalidCredential));
    let allowed = chain.process(&request, Credential::Valid);
    assert_eq!(
        allowed.trace,
        vec![
            Event::Enter(Stage::Cors),
            Event::Enter(Stage::Logger),
            Event::Enter(Stage::Auth),
            Event::Enter(Stage::AccessCounter),
            Event::Dispatch,
            Event::Leave(Stage::AccessCounter),
            Event::Leave(Stage::Auth),
            Event::Leave(Stage::Logger),
            Event::Leave(Stage::Cors),
        ]
    );
    assert_eq!(allowed.command, increment("/admin/articles"));
}

#[test]
fn outer_stages_wrap_every_passage() {
    let orders = [
        vec![Stage::Cors, Stage::Logger, Stage::AccessCounter, Stage::Auth],
        vec![Stage::Logger, Stage::Cors, Stage::AccessCounter, Stage::Auth],
        vec![Stage::Cors, Stage::Logger, Stage::Auth, Stage::AccessCounter],
        vec![Stage::Logger, Stage::Cors, Stage::Auth, Stage::AccessCounter],
    ];
    for order in orders {
        let chain =
            InterceptorChain::with_order(order.clone(), guard(), AccessCounter::new()).unwrap();
        for (target, credential) in [
            ("/admin/x", Credential::Missing),
            ("/admin/x", Credential::Valid),
            ("/public", Credential::Missing),
        ] {
            let trace = chain.process(&Request::new(Method::Get, target), credential).trace;
            let n = trace.len();
            assert_eq!(trace[0], Event::Enter(order[0]));
            assert_eq!(trace[1], Event::Enter(order[1]));
            assert_eq!(trace[n - 2], Event::Leave(order[1]));
            assert_eq!(trace[n - 1], Event::Leave(order[0]));
            let ends = trace.iter().filter(|e| **e == Event::Dispatch || **e == Event::Reject);
            assert_eq!(ends.count(), 1);
        }
    }
}

#[test]
fn orders_with_an_inner_stage_outside_are_refused() {
    let refused = [
        vec![Stage::Auth, Stage::Cors, Stage::Logger, Stage::AccessCounter],
        vec![Stage::Cors, Stage::AccessCounter, Stage::Logger, Stage::Auth],
        vec![Stage::AccessCounter, Stage::Auth, Stage::Cors, Stage::Logger],
    ];
    for order in refused {
        assert!(!check_order(&order));
        assert!(InterceptorChain::with_order(order, guard(), AccessCounter::new()).is_none());
    }
}

#[test]
fn orders_that_miss_or_repeat_a_stage_are_refused() {
    let refused = [
        vec![],
        vec![Stage::Cors, Stage::Logger, Stage::Auth],
        vec![Stage::Cors, Stage::Cors, Stage::Auth, Stage::AccessCounter],
        vec![Stage::Cors, Stage::Logger, Stage::Auth, Stage::Auth],
        vec![Stage::Cors, Stage::Logger, Stage::AccessCounter, Stage::AccessCounter],
        vec![Stage::Cors, Stage::Logger, Stage::AccessCounter, Stage::Auth, Stage::Auth],
    ];
    for order in refused {
        assert!(!check_order(&order));
        assert!(InterceptorChain::with_order(order, guard(), AccessCounter::new()).is_none());
    }
}

#[test]
fn valid_orders_are_accepted_as_given() {
    let order = vec![Stage::Logger, Stage::Cors, Stage::Auth, Stage::AccessCounter];
    assert!(check_order(&order));
    let chain = InterceptorChain::with_order(order.clone(), guard(), AccessCounter::new()).unwrap();
    assert_eq!(chain.order(), order);
}

#[test]
fn chain_tells_when_the_credential_matters() {
    let chain = standard();
    assert!(chain.requires_credential(&Request::new(Method::Get, "/admin/articles")));
    assert!(!chain.requires_credential(&Request::new(Method::Get, "/admin/login")));
    assert!(!chain.requires_credential(&Request::new(Method::Get, "/article/all")));
}

/// Takes the steps of a passage against a handler that counts its calls and
/// a counter store that counts its increments.
fn take_steps(passage: &Passage, handled: &mut u32, counted: &mut u32) {
    for event in &passage.trace {
        match event {
            Event::Dispatch => *handled += 1,
            Event::Enter(Stage::AccessCounter) => *counted += 1,
            _ => {}
        }
    }
}

#[test]
fn handler_sees_nothing_of_a_rejected_request() {
    let chain = standard();
    let (mut handled, mut counted) = (0, 0);
    for credential in [Credential::Missing, Credential::Malformed, Credential::Invalid] {
        let passage = chain.process(&Request::new(Method::Delete, "/admin/article/1"), credential);
        take_steps(&passage, &mut handled, &mut counted);
    }
    assert_eq!(handled, 0);
    assert_eq!(counted, 3);
    let passage = chain.process(&Request::new(Method::Delete, "/admin/article/1"), Credential::Valid);
    take_steps(&passage, &mut handled, &mut counted);
    assert_eq!(handled, 1);
    assert_eq!(counted, 4);
}
