//! The uniform response envelope: a status code, a message and an optional
//! payload. Code 0 means success and comes with a payload and an empty
//! message; any other code comes without a payload.

use crate::error::{AuthError, DomainError, ValidationError};
use vstd::prelude::*;

verus! {

/// The code of every successful response.
pub const CODE_OK: i32 = 0;

/// The code of a request turned away by validation.
pub const CODE_CLIENT_ERROR: i32 = 400;

/// The code of a request turned away for want of a valid credential.
pub const CODE_UNAUTHORIZED: i32 = 401;

/// The code of a failure reported by the persistence gateway.
pub const CODE_FAILURE: i32 = 500;

/// What an envelope holds.
pub struct EnvelopeView<T> {
    pub code: int,
    pub message: Seq<char>,
    pub data: Option<T>,
}

/// The shape every envelope has: a payload exactly when the code is 0, and
/// no message beside a payload.
pub open spec fn well_formed<T>(envelope: EnvelopeView<T>) -> bool {
    &&& envelope.code == 0 <==> envelope.data is Some
    &&& envelope.code == 0 ==> envelope.message.len() == 0
}

/// The success envelope around `data`.
pub open spec fn success<T>(data: T) -> EnvelopeView<T> {
    EnvelopeView { code: CODE_OK as int, message: Seq::empty(), data: Some(data) }
}

/// The error envelope with `code` and `message`.
pub open spec fn failure<T>(code: int, message: Seq<char>) -> EnvelopeView<T> {
    EnvelopeView { code, message, data: None }
}

/// The envelope with these three parts.
pub open spec fn parts_view<T>(code: i32, message: String, data: Option<T>) -> EnvelopeView<T> {
    EnvelopeView { code: code as int, message: message@, data }
}

/// The envelope a gateway outcome is answered with: success around the
/// record, or the generic failure code with the gateway's message.
pub open spec fn envelope_of<T>(outcome: Result<T, DomainError>) -> EnvelopeView<T> {
    match outcome {
        Ok(data) => success(data),
        Err(error) => failure(CODE_FAILURE as int, error.text()),
    }
}

/// A response envelope. Its fields are private, so every value of the type
/// has the shape `well_formed` describes.
#[derive(Debug)]
pub struct ResultEnvelope<T> {
    code: i32,
    message: String,
    data: Option<T>,
}

impl<T> View for ResultEnvelope<T> {
    type V = EnvelopeView<T>;

    closed spec fn view(&self) -> EnvelopeView<T> {
        EnvelopeView { code: self.code as int, message: self.message@, data: self.data }
    }
}

impl<T> ResultEnvelope<T> {
    #[verifier::type_invariant]
    spec fn shape_holds(self) -> bool {
        well_formed(self@)
    }

    /// Success: code 0, no message, the payload present.
    pub fn ok(data: T) -> (envelope: Self)
        ensures
            envelope@ == success(data),
    {
        ResultEnvelope { code: CODE_OK, message: String::new(), data: Some(data) }
    }

    /// The generic failure with `message`.
    pub fn errm(message: &str) -> (envelope: Self)
        ensures
            envelope@ == failure::<T>(CODE_FAILURE as int, message@),
    {
        ResultEnvelope { code: CODE_FAILURE, message: String::from_str(message), data: None }
    }

    /// The client-error envelope for a request that validation turned away.
    pub fn from_validation(error: &ValidationError) -> (envelope: Self)
        ensures
            envelope@ == failure::<T>(CODE_CLIENT_ERROR as int, error.text()),
    {
        ResultEnvelope { code: CODE_CLIENT_ERROR, message: error.message(), data: None }
    }

    /// The generic error envelope for a gateway failure, carrying the
    /// gateway's message.
    pub fn from_domain(error: &DomainError) -> (envelope: Self)
        ensures
            envelope@ == failure::<T>(CODE_FAILURE as int, error.text()),
    {
        ResultEnvelope { code: CODE_FAILURE, message: error.message(), data: None }
    }

    /// The unauthorized envelope.
    pub fn from_auth(error: &AuthError) -> (envelope: Self)
        ensures
            envelope@ == failure::<T>(CODE_UNAUTHORIZED as int, error.text()),
    {
        ResultEnvelope { code: CODE_UNAUTHORIZED, message: error.message(), data: None }
    }

    /// Turns what the gateway answered into the envelope for the client: the
    /// one place where a gateway failure becomes a response.
    pub fn from_result(outcome: Result<T, DomainError>) -> (envelope: Self)
        ensures
            envelope@ == envelope_of(outcome),
    {
        match outcome {
            Ok(data) => Self::ok(data),
            Err(error) => Self::from_domain(&error),
        }
    }

    /// Puts an envelope together from its three parts, as they were read
    /// from the wire; none where the parts do not have the shape of an
    /// envelope.
    pub fn from_parts(code: i32, message: String, data: Option<T>) -> (made: Option<Self>)
        ensures
            made is Some <==> well_formed(parts_view(code, message, data)),
            made matches Some(envelope) ==> envelope@ == parts_view(code, message, data),
    {
        let shaped = match &data {
            Some(_) => code == CODE_OK && message.as_str().is_empty(),
            None => code != CODE_OK,
        };
        if shaped {
            Some(ResultEnvelope { code, message, data })
        } else {
            None
        }
    }

    pub fn code(&self) -> (code: i32)
        ensures
            code == self@.code,
            well_formed(self@),
    {
        proof {
            use_type_invariant(self);
        }
        self.code
    }

    pub fn message(&self) -> (message: &str)
        ensures
            message@ == self@.message,
            well_formed(self@),
    {
        proof {
            use_type_invariant(self);
        }
        self.message.as_str()
    }

    pub fn data(&self) -> (data: &Option<T>)
        ensures
            *data == self@.data,
            well_formed(self@),
    {
        proof {
            use_type_invariant(self);
        }
        &self.data
    }

    /// Whether this is a success. A success has code 0 and a payload; anything
    /// else has another code and none.
    pub fn is_ok(&self) -> (ok: bool)
        ensures
            ok <==> self@.code == 0 && self@.data is Some,
            !ok <==> self@.code != 0 && self@.data is None,
            ok ==> self@.message.len() == 0,
    {
        proof {
            use_type_invariant(self);
        }
        self.code == CODE_OK
    }

    /// Takes the envelope apart into code, message and payload.
    pub fn into_parts(self) -> (parts: (i32, String, Option<T>))
        ensures
            parts.0 == self@.code,
            parts.1@ == self@.message,
            parts.2 == self@.data,
            well_formed(self@),
    {
        proof {
            use_type_invariant(&self);
        }
        (self.code, self.message, self.data)
    }
}

/// Of a well-formed envelope exactly one holds: it is a success with a
/// payload, or it is an error without one.
pub proof fn lemma_success_or_error<T>(envelope: EnvelopeView<T>)
    requires
        well_formed(envelope),
    ensures
        (envelope.code == 0 && envelope.data is Some) != (envelope.code != 0
            && envelope.data is None),
{
}

/// Whatever the gateway answered, the envelope made of it is well-formed; it
/// is a success exactly when the gateway succeeded, and then carries the
/// gateway's record unchanged.
pub proof fn lemma_envelope_of_outcome<T>(outcome: Result<T, DomainError>)
    ensures
        well_formed(envelope_of(outcome)),
        envelope_of(outcome).code == 0 <==> outcome is Ok,
        outcome matches Ok(data) ==> envelope_of(outcome).data == Some(data),
        outcome matches Err(error) ==> envelope_of(outcome).message == error.text(),
{
}

} // verus!
