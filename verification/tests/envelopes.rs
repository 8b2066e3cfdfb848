use blog_core::envelope::{
    ResultEnvelope, CODE_CLIENT_ERROR, CODE_FAILURE, CODE_OK, CODE_UNAUTHORIZED,
};
use blog_core::error::{AuthError, DomainError, ValidationError};

fn has_one_shape<T>(envelope: &ResultEnvelope<T>) -> bool {
    let success = envelope.code() == 0 && envelope.data().is_some();
    let error = envelope.code() != 0 && envelope.data().is_none();
    success != error
}

#[test]
fn codes_are_told_apart() {
    assert_eq!(CODE_OK, 0);
    assert_eq!(CODE_CLIENT_ERROR, 400);
    assert_eq!(CODE_UNAUTHORIZED, 401);
    assert_eq!(CODE_FAILURE, 500);
}

#[test]
fn success_has_code_zero_payload_and_no_message() {
    let envelope = ResultEnvelope::ok(vec![1, 2, 3]);
    assert!(envelope.is_ok());
    assert_eq!(envelope.code(), 0);
    assert_eq!(envelope.message(), "");
    assert_eq!(envelope.data(), &Some(vec![1, 2, 3]));
    assert_eq!(envelope.into_parts(), (0, String::new(), Some(vec![1, 2, 3])));
}

#[test]
fn generic_failure_carries_its_message() {
    let envelope: ResultEnvelope<u32> = ResultEnvelope::errm("something broke");
    assert!(!envelope.is_ok());
    assert_eq!(envelope.into_parts(), (500, "something broke".to_string(), None));
}

#[test]
fn validation_failure_is_a_client_error() {
    let envelope: ResultEnvelope<u32> = ResultEnvelope::from_validation(&ValidationError::EmptyId);
    assert_eq!(envelope.into_parts(), (400, "id is empty".to_string(), None));
    assert_eq!(ValidationError::EmptyId.message(), "id is empty");
}

#[test]
fn gateway_failure_carries_the_gateway_message() {
    let not_found = DomainError::NotFound("no article 7".to_string());
    let envelope: ResultEnvelope<u32> = ResultEnvelope::from_domain(&not_found);
    assert_eq!(envelope.into_parts(), (500, "no article 7".to_string(), None));
    let broken = DomainError::Persistence("connection reset".to_string());
    assert_eq!(broken.message(), "connection reset");
    let envelope: ResultEnvelope<u32> = ResultEnvelope::from_domain(&broken);
    assert_eq!(envelope.into_parts(), (500, "connection reset".to_string(), None));
}

#[test]
fn auth_failure_is_unauthorized() {
    for error in [AuthError::MissingCredential, AuthError::InvalidCredential] {
        let envelope: ResultEnvelope<u32> = ResultEnvelope::from_auth(&error);
        assert_eq!(envelope.into_parts(), (401, "unauthorized".to_string(), None));
    }
}

#[test]
fn gateway_outcome_becomes_the_response() {
    let found: Result<String, DomainError> = Ok("an article".to_string());
    let envelope = ResultEnvelope::from_result(found);
    assert_eq!(envelope.into_parts(), (0, String::new(), Some("an article".to_string())));
    let missing: Result<String, DomainError> = Err(DomainError::NotFound("gone".to_string()));
    let envelope = ResultEnvelope::from_result(missing);
    assert_eq!(envelope.into_parts(), (500, "gone".to_string(), None));
}

#[test]
fn failure_with_empty_message_is_still_a_failure() {
    let outcome: Result<u8, DomainError> = Err(DomainError::Persistence(String::new()));
    let envelope = ResultEnvelope::from_result(outcome);
    assert!(!envelope.is_ok());
    assert_eq!(envelope.into_parts(), (500, String::new(), None));
}

#[test]
fn every_envelope_is_success_or_error_never_both() {
    assert!(has_one_shape(&ResultEnvelope::ok(1u8)));
    assert!(has_one_shape(&ResultEnvelope::ok(())));
    assert!(has_one_shape(&ResultEnvelope::<u8>::errm("")));
    assert!(has_one_shape(&ResultEnvelope::<u8>::errm("x")));
    assert!(has_one_shape(&ResultEnvelope::<u8>::from_validation(&ValidationError::EmptyId)));
    assert!(has_one_shape(&ResultEnvelope::<u8>::from_auth(&AuthError::InvalidCredential)));
    assert!(has_one_shape(&ResultEnvelope::<u8>::from_domain(&DomainError::NotFound(
        "x".to_string()
    ))));
    assert!(has_one_shape(&ResultEnvelope::<u8>::from_result(Ok(3))));
    assert!(has_one_shape(&ResultEnvelope::<u8>::from_result(Err(DomainError::Persistence(
        "x".to_string()
    )))));
}

#[test]
fn parts_with_the_shape_of_an_envelope_are_put_together() {
    let success = ResultEnvelope::from_parts(0, String::new(), Some(7u8)).unwrap();
    assert_eq!(success.into_parts(), (0, String::new(), Some(7)));
    let error = ResultEnvelope::<u8>::from_parts(-3, "odd".to_string(), None).unwrap();
    assert_eq!(error.into_parts(), (-3, "odd".to_string(), None));
    let silent = ResultEnvelope::<u8>::from_parts(500, String::new(), None).unwrap();
    assert!(!silent.is_ok());
}

#[test]
fn parts_without_the_shape_of_an_envelope_are_refused() {
    assert!(ResultEnvelope::from_parts(0, "note".to_string(), Some(7u8)).is_none());
    assert!(ResultEnvelope::<u8>::from_parts(0, String::new(), None).is_none());
    assert!(ResultEnvelope::from_parts(500, "broken".to_string(), Some(7u8)).is_none());
    assert!(ResultEnvelope::from_parts(500, String::new(), Some(7u8)).is_none());
}
