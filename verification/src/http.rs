//! How the answer of the remote source to one request is classified.
//!
//! The caller sends the request and reads the body; this module says how
//! the body is to be read for a status, and what the answer amounts to.

use vstd::prelude::*;
use crate::code_map::CodeMap;
use crate::exchange::{codes_match, ApiError, Currencies, Currency};

verus! {

/// The status with which the remote source rejects a request.
pub const UNPROCESSABLE: u16 = 422;

/// Whether `status` reports success.
pub open spec fn is_success(status: u16) -> bool {
    200 <= status <= 299
}

/// How the body of an answer is to be read.
#[derive(Clone, Copy, Debug, PartialEq, Eq, Structural)]
pub enum BodyKind {
    /// As the payload that was asked for.
    Payload,
    /// As the rejection of the request.
    Rejection,
    /// Not at all: the status alone makes the request a failure.
    Unread,
}

/// What the caller made of the body of an answer.
#[derive(Debug)]
pub enum Body<T> {
    /// The body was read as the payload.
    Payload(T),
    /// The body was read as a rejection.
    Rejection(ApiError),
    /// The body was not read, or could not be read as it was to be, for
    /// this reason.
    Unreadable(String),
}

/// The outcome of one request to the remote source.
#[derive(Debug)]
pub enum FetchOutcome<T> {
    /// The source answered with the payload.
    Success(T),
    /// The source rejected the request.
    ApiRejected(ApiError),
    /// The source could not be reached, or its answer could not be read,
    /// for this reason.
    TransportOrParseFailure(String),
}

/// How the body of an answer with `status` is to be read: an unprocessable
/// request is answered with a rejection, a success with the payload, and
/// after any other status the body does not count.
pub open spec fn expected_kind(status: u16) -> BodyKind {
    if status == UNPROCESSABLE {
        BodyKind::Rejection
    } else if is_success(status) {
        BodyKind::Payload
    } else {
        BodyKind::Unread
    }
}

/// How the body of an answer with `status` is to be read.
#[verifier::when_used_as_spec(expected_kind)]
pub fn expected_body(status: u16) -> (kind: BodyKind)
    ensures
        kind == expected_kind(status),
{
    if status == UNPROCESSABLE {
        BodyKind::Rejection
    } else if 200 <= status && status <= 299 {
        BodyKind::Payload
    } else {
        BodyKind::Unread
    }
}

/// The kind of body the caller read.
pub open spec fn kind_of<T>(body: Body<T>) -> BodyKind {
    match body {
        Body::Payload(_) => BodyKind::Payload,
        Body::Rejection(_) => BodyKind::Rejection,
        Body::Unreadable(_) => BodyKind::Unread,
    }
}

/// The reason given where an answer has a status that is neither a
/// success nor a rejection.
pub open spec fn unexpected_status_text() -> Seq<char> {
    "Unexpected response status"@
}

/// The reason given where the body was not read as its status asks.
pub open spec fn unexpected_body_text() -> Seq<char> {
    "Response body does not match its status"@
}

/// The reason given where a body was read that the status does not ask
/// for.
pub open spec fn mismatch_text(status: u16) -> Seq<char> {
    if expected_kind(status) == BodyKind::Unread {
        unexpected_status_text()
    } else {
        unexpected_body_text()
    }
}

/// What an answer with `status` and `body` amounts to. A rejection counts
/// only under the unprocessable status, and a payload only under a success
/// status; everything else is a failure of transport or parsing.
pub fn classify<T>(status: u16, body: Body<T>) -> (outcome: FetchOutcome<T>)
    ensures
        body matches Body::Rejection(error) ==> (status == UNPROCESSABLE ==> outcome
            == FetchOutcome::<T>::ApiRejected(error)),
        body matches Body::Payload(payload) ==> (is_success(status) ==> outcome
            == FetchOutcome::Success(payload)),
        body matches Body::Unreadable(reason) ==> outcome
            == FetchOutcome::<T>::TransportOrParseFailure(reason),
        !(body is Unreadable) && kind_of(body) != expected_kind(status) ==> (
        outcome matches FetchOutcome::TransportOrParseFailure(cause) && cause@ == mismatch_text(
            status,
        )),
{
    match body {
        Body::Rejection(error) => {
            if status == UNPROCESSABLE {
                FetchOutcome::ApiRejected(error)
            } else if 200 <= status && status <= 299 {
                FetchOutcome::TransportOrParseFailure(
                    "Response body does not match its status".to_owned(),
                )
            } else {
                FetchOutcome::TransportOrParseFailure("Unexpected response status".to_owned())
            }
        },
        Body::Payload(payload) => {
            if 200 <= status && status <= 299 {
                FetchOutcome::Success(payload)
            } else if status == UNPROCESSABLE {
                FetchOutcome::TransportOrParseFailure(
                    "Response body does not match its status".to_owned(),
                )
            } else {
                FetchOutcome::TransportOrParseFailure("Unexpected response status".to_owned())
            }
        },
        Body::Unreadable(reason) => FetchOutcome::TransportOrParseFailure(reason),
    }
}

/// The reason given where the currencies of a payload are no directory.
pub open spec fn mismatched_code_text() -> Seq<char> {
    "Currency directory holds a currency under another code than its own"@
}

/// The body of an answer to a request for the directory, from the
/// currencies that were read in it. Currencies of which one stands under
/// another code than its own are no directory: such a body is unreadable.
pub fn directory_body<R>(body: Body<CodeMap<Currency<R>>>) -> (read: Body<Currencies<R>>)
    ensures
        body matches Body::Rejection(error) ==> read == Body::<Currencies<R>>::Rejection(error),
        body matches Body::Unreadable(reason) ==> read == Body::<Currencies<R>>::Unreadable(
            reason,
        ),
        body matches Body::Payload(data) ==> (read is Payload <==> codes_match(data@)),
        body matches Body::Payload(data) ==> (read matches Body::Payload(directory)
            ==> directory@ == data@),
        body matches Body::Payload(data) ==> (!codes_match(data@) ==> (
        read matches Body::Unreadable(reason) && reason@ == mismatched_code_text())),
{
    match body {
        Body::Rejection(error) => Body::Rejection(error),
        Body::Unreadable(reason) => Body::Unreadable(reason),
        Body::Payload(data) => match Currencies::new(data) {
            Some(directory) => Body::Payload(directory),
            None => Body::Unreadable(
                "Currency directory holds a currency under another code than its own".to_owned(),
            ),
        },
    }
}

} // verus!
