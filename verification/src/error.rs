//! The error type of the engine and the classification of I/O failures.

use serde_cbor::error::Error as CborError;
use vstd::prelude::*;

verus! {

/// Declares `std::io::Error`. Its values are carried through unread.
#[verifier::external_type_specification]
#[verifier::external_body]
pub struct ExIoError(std::io::Error);

/// Declares `serde_cbor::error::Error`. Its values are carried through unread.
#[verifier::external_type_specification]
#[verifier::external_body]
pub struct ExCborError(CborError);

/// Everything that can go wrong while persisting or recovering data.
#[derive(Debug)]
pub enum Error {
    /// A snapshot or a mutation payload could not be encoded or decoded.
    Cbor(CborError),
    /// A file operation failed.
    Io(std::io::Error),
    /// A journal record names a mutation type that was never registered.
    UnregisteredMutation { id: u32 },
}

/// The kind of an error, without the outside value that it may carry.
pub enum Failure {
    Cbor,
    Io,
    UnregisteredMutation { id: u32 },
}

impl Error {
    /// The kind of this error.
    pub open spec fn failure(self) -> Failure {
        match self {
            Error::Cbor(_) => Failure::Cbor,
            Error::Io(_) => Failure::Io,
            Error::UnregisteredMutation { id } => Failure::UnregisteredMutation { id },
        }
    }
}

/// A result with its error reduced to the error's kind.
pub open spec fn outcome<V>(result: Result<V, Error>) -> Result<V, Failure> {
    match result {
        Ok(value) => Ok(value),
        Err(error) => Err(error.failure()),
    }
}

impl From<CborError> for Error {
    fn from(err: CborError) -> (r: Error) {
        Error::Cbor(err)
    }
}

impl vstd::std_specs::convert::FromSpecImpl<CborError> for Error {
    open spec fn obeys_from_spec() -> bool {
        true
    }

    open spec fn from_spec(err: CborError) -> Error {
        Error::Cbor(err)
    }
}

impl From<std::io::Error> for Error {
    fn from(err: std::io::Error) -> (r: Error) {
        Error::Io(err)
    }
}

impl vstd::std_specs::convert::FromSpecImpl<std::io::Error> for Error {
    open spec fn obeys_from_spec() -> bool {
        true
    }

    open spec fn from_spec(err: std::io::Error) -> Error {
        Error::Io(err)
    }
}

/// Whether `std::io::Error::kind` reports `ErrorKind::UnexpectedEof` for `err`.
pub uninterp spec fn is_unexpected_eof(err: std::io::Error) -> bool;

/// Calls `std::io::Error::kind` and tells whether the kind is
/// `ErrorKind::UnexpectedEof`. The kind is a plain attribute of the error
/// value; the contract gives it the name [`is_unexpected_eof`].
#[verifier::external_body]
fn has_unexpected_eof_kind(err: &std::io::Error) -> (eof: bool)
    ensures
        eof == is_unexpected_eof(*err),
{
    match err.kind() {
        std::io::ErrorKind::UnexpectedEof => true,
        _ => false,
    }
}

/// Turns "the input ended early" into the absence of a value.
///
/// A read that ran into the end of its input yields `Ok(None)`: the bytes of
/// an incomplete trailing item count as absent. A successful read yields its
/// value, and every other failure is passed on unchanged as [`Error::Io`].
pub fn ignore_eof<V>(result: Result<V, std::io::Error>) -> (r: Result<Option<V>, Error>)
    ensures
        match result {
            Ok(value) => r == Ok::<Option<V>, Error>(Some(value)),
            Err(err) => if is_unexpected_eof(err) {
                r == Ok::<Option<V>, Error>(None)
            } else {
                r == Err::<Option<V>, Error>(Error::Io(err))
            },
        },
{
    match result {
        Ok(value) => Ok(Some(value)),
        Err(err) => {
            if has_unexpected_eof_kind(&err) {
                Ok(None)
            } else {
                Err(Error::Io(err))
            }
        },
    }
}

} // verus!
