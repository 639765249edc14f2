//! What the engine asks of the data it guards and of the mutations applied to it.
//!
//! Both have a byte form. The spec functions `encoded` and `decoded` name
//! what `encode` and `decode` compute, so that contracts can speak of stored
//! bytes. They make the two functions of their argument alone: the same value
//! always has the same bytes, and the same bytes always decode to the same
//! value.

use serde_cbor::error::Error as CborError;
use vstd::prelude::*;

verus! {

/// A type whose values the engine can keep on disk.
pub trait Survivable: Default + Sized {
    /// The byte form of `self`; `None` where the value cannot be encoded.
    /// Unless an implementation says more, it is some function of the value
    /// of which nothing is known.
    open spec fn encoded(&self) -> Option<Seq<u8>> {
        (arbitrary::<spec_fn(Self) -> Option<Seq<u8>>>())(*self)
    }

    /// The value that `bytes` stand for; `None` where they stand for none.
    /// Unless an implementation says more, it is some function of the bytes
    /// of which nothing is known.
    open spec fn decoded(bytes: Seq<u8>) -> Option<Self> {
        (arbitrary::<spec_fn(Seq<u8>) -> Option<Self>>())(bytes)
    }

    /// The value that `state_loaded` leaves behind. Unless an implementation
    /// says more, it is some function of the value of which nothing is known.
    open spec fn after_load(self) -> Self {
        (arbitrary::<spec_fn(Self) -> Self>())(self)
    }

    /// Serialises the value.
    fn encode(&self) -> (r: Result<Vec<u8>, CborError>)
        ensures
            match self.encoded() {
                Some(bytes) => r is Ok && r->Ok_0@ == bytes,
                None => r is Err,
            },
    ;

    /// Deserialises a value.
    fn decode(bytes: &[u8]) -> (r: Result<Self, CborError>)
        ensures
            match Self::decoded(bytes@) {
                Some(value) => r == Ok::<Self, CborError>(value),
                None => r is Err,
            },
    ;

    /// Called once the state has been read from its snapshot and before the
    /// journal is replayed. Where no snapshot exists it is called on the
    /// default value.
    fn state_loaded(&mut self)
        ensures
            *final(self) == old(self).after_load(),
    ;
}

/// A serialisable change to a `Survivable` value.
///
/// `mutate` must be deterministic: replaying a journal applies the same
/// mutations again and has to arrive at the same data. The spec function
/// `applied` is that function.
pub trait Mutation<T: Survivable>: Sized {
    /// The identifier under which records of this type are journalled.
    const ID: u32;

    /// What `mutate` hands back to the caller.
    type Result;

    /// The byte form of `self`; `None` where the mutation cannot be encoded.
    /// Unless an implementation says more, it is some function of the
    /// mutation of which nothing is known.
    open spec fn encoded(&self) -> Option<Seq<u8>> {
        (arbitrary::<spec_fn(Self) -> Option<Seq<u8>>>())(*self)
    }

    /// The mutation that `payload` stands for; `None` where it stands for
    /// none. Unless an implementation says more, it is some function of the
    /// payload of which nothing is known.
    open spec fn decoded(payload: Seq<u8>) -> Option<Self> {
        (arbitrary::<spec_fn(Seq<u8>) -> Option<Self>>())(payload)
    }

    /// The data after the mutation, and the mutation's result. Unless an
    /// implementation says more, it is some function of the mutation and the
    /// data of which nothing is known.
    open spec fn applied(self, data: T) -> (T, Self::Result) {
        (arbitrary::<spec_fn(Self, T) -> (T, Self::Result)>())(self, data)
    }

    /// Serialises the mutation.
    fn encode(&self) -> (r: Result<Vec<u8>, CborError>)
        ensures
            match self.encoded() {
                Some(payload) => r is Ok && r->Ok_0@ == payload,
                None => r is Err,
            },
    ;

    /// Deserialises a mutation.
    fn decode(payload: &[u8]) -> (r: Result<Self, CborError>)
        ensures
            match Self::decoded(payload@) {
                Some(mutation) => r == Ok::<Self, CborError>(mutation),
                None => r is Err,
            },
    ;

    /// Commits the change to `data`.
    fn mutate(self, data: &mut T) -> (r: Self::Result)
        ensures
            (*final(data), r) == self.applied(*old(data)),
    ;
}

/// Whether a snapshot of `data` can be written and reads back as `data`.
pub open spec fn survives_encoding<T: Survivable>(data: T) -> bool {
    match data.encoded() {
        Some(bytes) => T::decoded(bytes) == Some(data),
        None => false,
    }
}

/// Whether a mutation can be journalled and replayed: it has a byte form
/// that fits a frame and that decodes to the mutation again.
pub open spec fn journalable<T: Survivable, M: Mutation<T>>(mutation: M) -> bool {
    match mutation.encoded() {
        Some(payload) => payload.len() <= u32::MAX && M::decoded(payload) == Some(mutation),
        None => false,
    }
}

} // verus!
