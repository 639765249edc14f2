//! The entry point: collects the mutation types and the settings, and opens
//! a store with them.

use crate::data::{Mutation, Survivable};
use crate::directory::{Directory, FileOp};
use crate::error::Error;
use crate::options::{Options, DEFAULT_MAX_JOURNAL_FILE_LENGTH};
use crate::registry::{Empty, Registry, With};
use crate::store::{contents, opens, restores, Survive};
use core::marker::PhantomData;
use vstd::prelude::*;

verus! {

/// Collects what a store needs before it is opened: the mutation types that
/// its journal may hold, and its settings.
pub struct Builder<T, R> {
    options: Options,
    registry: R,
    marker: PhantomData<T>,
}

impl<T: Survivable> Builder<T, Empty> {
    /// A builder with the default settings and no mutation type.
    pub fn new() -> (builder: Builder<T, Empty>)
        ensures
            builder.options().max_journal_file_length == Some(DEFAULT_MAX_JOURNAL_FILE_LENGTH),
            builder.options().use_journal_buffer,
            builder.registry() == Empty,
    {
        Builder { options: Options::default(), registry: Empty, marker: PhantomData }
    }
}

impl<T: Survivable, R: Registry<T>> Builder<T, R> {
    /// The settings collected so far.
    pub closed spec fn options(&self) -> Options {
        self.options
    }

    /// The mutation types collected so far.
    pub closed spec fn registry(&self) -> R {
        self.registry
    }

    /// The settings collected so far.
    pub fn options_value(&self) -> (options: Options)
        ensures
            options == self.options(),
    {
        self.options
    }

    /// The mutation types collected so far.
    pub fn registry_ref(&self) -> (registry: &R)
        ensures
            *registry == self.registry(),
    {
        &self.registry
    }

    /// Whether a mutation type is registered under `id`.
    pub fn is_registered(&self, id: u32) -> (found: bool)
        ensures
            found == self.registry().ids().contains(id),
    {
        self.registry.contains(id)
    }

    /// Registers the mutation type `M`, so that records of it can be replayed
    /// from a journal. No other type may be registered under `M::ID` yet.
    pub fn register<M: Mutation<T>>(self) -> (builder: Builder<T, With<M, R>>)
        requires
            !self.registry().ids().contains(M::ID),
        ensures
            builder.options() == self.options(),
            builder.registry() == (With::<M, R> { rest: self.registry(), marker: PhantomData }),
    {
        Builder {
            options: self.options,
            registry: With { rest: self.registry, marker: PhantomData },
            marker: PhantomData,
        }
    }

    /// Sets the journal length, in bytes, above which the store compacts of
    /// its own accord. `None` switches that off; with `Some(0)` the store
    /// compacts after every mutation.
    pub fn max_journal_file_length(&mut self, max: Option<usize>) -> (builder: &mut Builder<T, R>)
        ensures
            *final(self) == *final(builder),
            builder.registry() == old(self).registry(),
            builder.options() == (Options { max_journal_file_length: max, ..old(self).options() }),
    {
        self.options.max_journal_file_length = max;
        self
    }

    /// Sets whether journal writes may stay in a buffer. With the buffer a
    /// mutation returns sooner, but the records that are still buffered are
    /// lost when the process dies. Without it every record is flushed before
    /// the mutation returns.
    pub fn use_journal_buffer(&mut self, use_it: bool) -> (builder: &mut Builder<T, R>)
        ensures
            *final(self) == *final(builder),
            builder.registry() == old(self).registry(),
            builder.options() == (Options { use_journal_buffer: use_it, ..old(self).options() }),
    {
        self.options.use_journal_buffer = use_it;
        self
    }

    /// Builds the store for the files of a directory after recovery. See
    /// [`Survive::restore`].
    pub fn restore(&self, snapshot: Option<&[u8]>, journal: Option<&[u8]>) -> (r: Result<
        (Survive<T>, Vec<FileOp>),
        Error,
    >)
        ensures
            restores(self.registry(), self.options(), contents(snapshot), contents(journal), r),
    {
        Survive::restore(snapshot, journal, self)
    }

    /// Opens the store of a directory. See [`Survive::open`].
    pub fn open(&self, dir: &mut Directory) -> (r: Result<Survive<T>, Error>)
        ensures
            opens(self.registry(), self.options(), old(dir)@, r, final(dir)@),
    {
        Survive::open(dir, self)
    }
}

} // verus!
