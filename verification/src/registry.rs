//! The mutation registry: which mutation types a journal may hold, and how a
//! record of each is decoded and applied.
//!
//! A registry is built once, one type at a time, and never changes
//! afterwards. Its type lists the registered mutation types, so that a record
//! is dispatched without any dynamic typing.

use crate::data::{Mutation, Survivable};
use crate::error::Error;
use core::marker::PhantomData;
use vstd::prelude::*;

verus! {

/// What dispatching one record does.
pub enum Dispatched<T> {
    /// The payload decoded to a mutation, which turned the data into this value.
    Applied(T),
    /// No mutation type is registered under the record's identifier.
    Unregistered,
    /// The identifier is registered, but the payload does not decode.
    Undecodable,
}

/// A set of mutation types, each known by its identifier.
pub trait Registry<T: Survivable> {
    /// The registered identifiers.
    spec fn ids(&self) -> Set<u32>;

    /// What a record with this identifier and payload does to `data`.
    spec fn dispatched(&self, id: u32, payload: Seq<u8>, data: T) -> Dispatched<T>;

    /// Membership and dispatch agree: a record is unregistered exactly when
    /// its identifier is not in `ids`.
    proof fn lemma_unregistered(&self, id: u32, payload: Seq<u8>, data: T)
        ensures
            self.dispatched(id, payload, data) is Unregistered <==> !self.ids().contains(id),
    ;

    /// Whether a mutation type is registered under `id`.
    fn contains(&self, id: u32) -> (found: bool)
        ensures
            found == self.ids().contains(id),
    ;

    /// Decodes `payload` with the mutation type registered under `id` and
    /// applies the mutation to `data`. On failure `data` is left as it was.
    fn dispatch(&self, id: u32, payload: &[u8], data: &mut T) -> (r: Result<(), Error>)
        ensures
            match self.dispatched(id, payload@, *old(data)) {
                Dispatched::Applied(after) => r is Ok && *final(data) == after,
                Dispatched::Unregistered => {
                    &&& r == Err::<(), Error>(Error::UnregisteredMutation { id })
                    &&& *final(data) == *old(data)
                },
                Dispatched::Undecodable => {
                    &&& r is Err
                    &&& r->Err_0 is Cbor
                    &&& *final(data) == *old(data)
                },
            },
    ;
}

/// The registry without any mutation type.
pub struct Empty;

impl<T: Survivable> Registry<T> for Empty {
    open spec fn ids(&self) -> Set<u32> {
        Set::empty()
    }

    open spec fn dispatched(&self, id: u32, payload: Seq<u8>, data: T) -> Dispatched<T> {
        Dispatched::Unregistered
    }

    proof fn lemma_unregistered(&self, id: u32, payload: Seq<u8>, data: T) {
    }

    fn contains(&self, id: u32) -> (found: bool) {
        false
    }

    fn dispatch(&self, id: u32, payload: &[u8], data: &mut T) -> (r: Result<(), Error>) {
        Err(Error::UnregisteredMutation { id })
    }
}

/// The registry `rest` with the mutation type `M` added.
pub struct With<M, R> {
    pub rest: R,
    pub marker: PhantomData<M>,
}

/// What a record of type `M` with this payload does to `data`.
pub open spec fn decode_and_apply<T: Survivable, M: Mutation<T>>(
    payload: Seq<u8>,
    data: T,
) -> Dispatched<T> {
    match M::decoded(payload) {
        Some(mutation) => Dispatched::Applied(mutation.applied(data).0),
        None => Dispatched::Undecodable,
    }
}

impl<T: Survivable, M: Mutation<T>, R: Registry<T>> Registry<T> for With<M, R> {
    open spec fn ids(&self) -> Set<u32> {
        self.rest.ids().insert(M::ID)
    }

    open spec fn dispatched(&self, id: u32, payload: Seq<u8>, data: T) -> Dispatched<T> {
        if id == M::ID {
            decode_and_apply::<T, M>(payload, data)
        } else {
            self.rest.dispatched(id, payload, data)
        }
    }

    proof fn lemma_unregistered(&self, id: u32, payload: Seq<u8>, data: T) {
        self.rest.lemma_unregistered(id, payload, data);
    }

    fn contains(&self, id: u32) -> (found: bool) {
        id == M::ID || self.rest.contains(id)
    }

    fn dispatch(&self, id: u32, payload: &[u8], data: &mut T) -> (r: Result<(), Error>) {
        if id == M::ID {
            match M::decode(payload) {
                Ok(mutation) => {
                    mutation.mutate(data);
                    Ok(())
                },
                Err(err) => Err(Error::Cbor(err)),
            }
        } else {
            self.rest.dispatch(id, payload, data)
        }
    }
}

/// Whether a registry dispatches the records of `M::ID` to the mutation type `M`.
pub open spec fn handles<T: Survivable, M: Mutation<T>, R: Registry<T>>(registry: R) -> bool {
    forall|payload: Seq<u8>, data: T| #[trigger]
        registry.dispatched(M::ID, payload, data) == decode_and_apply::<T, M>(payload, data)
}

/// A registry handles the mutation type that was registered last.
pub proof fn lemma_handles_newest<T: Survivable, M: Mutation<T>, R: Registry<T>>(
    registry: With<M, R>,
)
    ensures
        handles::<T, M, With<M, R>>(registry),
{
}

/// Registering a further mutation type under another identifier leaves the
/// types registered before as they were.
pub proof fn lemma_handles_earlier<
    T: Survivable,
    M: Mutation<T>,
    N: Mutation<T>,
    R: Registry<T>,
>(registry: With<N, R>)
    requires
        handles::<T, M, R>(registry.rest),
        M::ID != N::ID,
    ensures
        handles::<T, M, With<N, R>>(registry),
{
    assert forall|payload: Seq<u8>, data: T| #[trigger]
        registry.dispatched(M::ID, payload, data) == decode_and_apply::<T, M>(
            payload,
            data,
        ) by {
        assert(registry.dispatched(M::ID, payload, data) == registry.rest.dispatched(
            M::ID,
            payload,
            data,
        ));
    }
}

} // verus!
