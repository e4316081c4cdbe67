//! What comes back: whether a response's status lets its body be decoded,
//! and what a decoded body or a failure becomes for the caller.

use crate::stream::decodes_to;
use vstd::prelude::*;

verus! {

/// A response that the server answered with a status other than a success.
/// It carries the status and the body as far as they were read.
#[derive(Debug, Clone, PartialEq, Eq)]
pub struct StatusError {
    pub status: u16,
    pub body: Vec<u8>,
}

/// Whether `status` is one of the success codes, 200 to 299.
pub open spec fn is_success(status: u16) -> bool {
    200 <= status <= 299
}

/// Whether `status` is one of the success codes, 200 to 299.
pub fn succeeded(status: u16) -> (success: bool)
    ensures
        success == is_success(status),
{
    200 <= status && status <= 299
}

/// Lets the body of a successful response through, untouched, and turns any
/// other response into the error that carries its status and body.
pub fn check_status(status: u16, body: Vec<u8>) -> (checked: Result<Vec<u8>, StatusError>)
    ensures
        is_success(status) ==> checked == Ok::<Vec<u8>, StatusError>(body),
        !is_success(status) ==> checked == Err::<Vec<u8>, StatusError>(
            StatusError { status, body },
        ),
{
    if succeeded(status) {
        Ok(body)
    } else {
        Err(StatusError { status, body })
    }
}

/// Why a response gave no value.
#[derive(Debug)]
pub enum ResponseError<E> {
    /// The status was not a success; the body was not decoded.
    Status(StatusError),
    /// The status was a success, and decoding the body failed with this
    /// error.
    Decode(E),
}

/// Turns a response that has been read to its end into its value. The body
/// of a successful response is decoded with one call of `decode`, and what
/// that call returns is handed on as it is, value or error. The body of any
/// other response is not decoded: the answer is the error that carries the
/// status and the body.
pub fn decode_response<T, E, F: Fn(&[u8]) -> Result<T, E>>(
    status: u16,
    body: Vec<u8>,
    decode: F,
) -> (answer: Result<T, ResponseError<E>>)
    requires
        forall|bytes: &[u8]| decode.requires((bytes,)),
    ensures
        match answer {
            Ok(value) => is_success(status) && decodes_to(decode, body@, Ok(value)),
            Err(ResponseError::Decode(error)) => is_success(status) && decodes_to(
                decode,
                body@,
                Err(error),
            ),
            Err(ResponseError::Status(error)) => !is_success(status) && error == (StatusError {
                status,
                body,
            }),
        },
{
    match check_status(status, body) {
        Ok(body) => {
            let bytes = body.as_slice();
            match decode(bytes) {
                Ok(value) => Ok(value),
                Err(error) => Err(ResponseError::Decode(error)),
            }
        },
        Err(error) => Err(ResponseError::Status(error)),
    }
}

} // verus!
