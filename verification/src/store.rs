//! The durable store: the live data, the tracked journal length, and every
//! operation on them.
//!
//! Each operation exists in two forms. The steps (`restore`, `record`,
//! `apply`, `recorded`, `compaction`, `compaction_done`) decide and compute,
//! and leave the file operations to a driver. The whole operations (`open`,
//! `mutate`, `compact`) run the steps in order against a [`Directory`].

use crate::builder::Builder;
use crate::data::{Mutation, Survivable};
use crate::directory::{
    after, lemma_runnable_prefix, ops, runnable, Directory, FileOp, Files, Op,
};
use crate::error::{outcome, Error, Failure};
use crate::journal::{first_record, frame, read_record, records, write_record, HEADER_LEN};
use crate::options::Options;
use crate::recovery::{
    lemma_recovery, loaded, plan, recovered, recovery_script, replayed, Loaded, Replayed,
};
use crate::registry::{Dispatched, Registry};
use vstd::prelude::*;
use vstd::slice::slice_subrange;

verus! {

/// A store as a mathematical value.
pub struct State<T> {
    /// The live data.
    pub data: T,
    /// The number of journal bytes written since the last compaction.
    pub journal_file_length: usize,
    /// The settings the store was opened with.
    pub options: Options,
}

/// The live data of one persistence directory, together with what the store
/// has to remember about its journal.
///
/// The data is handed out read-only. It changes through a mutation alone,
/// on the one path on which a journal record is written as well.
pub struct Survive<T: Survivable> {
    data: T,
    journal_file_length: usize,
    options: Options,
}

impl<T: Survivable> View for Survive<T> {
    type V = State<T>;

    closed spec fn view(&self) -> State<T> {
        State {
            data: self.data,
            journal_file_length: self.journal_file_length,
            options: self.options,
        }
    }
}

/// The operations of a compaction that writes `snapshot`, in order.
///
/// The new snapshot is first written beside the old one. Only then is the
/// old snapshot deleted and the journal cleared, and the new snapshot takes
/// the old one's place last. Wherever this sequence is interrupted, recovery
/// finds either the old snapshot with its journal or the new snapshot alone.
pub open spec fn compaction_script(snapshot: Seq<u8>) -> Seq<Op> {
    seq![
        Op::WriteTransitional { bytes: snapshot },
        Op::RemoveState,
        Op::ClearJournal,
        Op::PromoteTransitional,
    ]
}

/// The number of operations of a compaction after which the journal is empty.
pub const JOURNAL_CLEARED_AFTER: usize = 3;

/// The tracked journal length after `added` more bytes. It stops at the
/// largest number that fits.
pub open spec fn grown(length: usize, added: nat) -> usize {
    if length + added > usize::MAX {
        usize::MAX
    } else {
        (length + added) as usize
    }
}

/// Whether a journal of `length` bytes is longer than the settings allow.
pub open spec fn over_limit(options: Options, length: usize) -> bool {
    match options.max_journal_file_length {
        Some(max) => length > max,
        None => false,
    }
}

/// The number of bytes that `op` adds to the journal.
pub open spec fn appended(op: Op) -> nat {
    match op {
        Op::AppendJournal { bytes, flush } => bytes.len(),
        _ => 0,
    }
}

/// The contents of a file that was read, if it was.
pub open spec fn contents(file: Option<&[u8]>) -> Option<Seq<u8>> {
    match file {
        Some(bytes) => Some(bytes@),
        None => None,
    }
}

/// A directory right after a compaction: the snapshot and an empty journal.
pub open spec fn compacted_files(snapshot: Seq<u8>) -> Files {
    Files { state: Some(snapshot), journal: Some(Seq::empty()), transitional: None }
}

/// How restoring ends for the data that the files stand for: with a store
/// of that data and the operations that finish the opening, which open the
/// journal and then compact; or, where the data cannot be encoded, with an
/// error.
pub open spec fn restored_with<T: Survivable>(
    data: T,
    options: Options,
    r: Result<(Survive<T>, Vec<FileOp>), Error>,
) -> bool {
    match data.encoded() {
        Some(snapshot) => {
            &&& r is Ok
            &&& r->Ok_0.0@ == (State { data, journal_file_length: 0, options })
            &&& ops(r->Ok_0.1@) == seq![Op::OpenJournal] + compaction_script(snapshot)
        },
        None => r is Err && r->Err_0 is Cbor,
    }
}

/// The store and the directory after `compact`, and how it ends.
///
/// Data that cannot be encoded leaves both untouched. Without a journal to
/// clear the compaction breaks off after the old snapshot has been deleted,
/// and the new snapshot stays behind as the transitional file.
pub open spec fn after_compact<T: Survivable>(store: State<T>, files: Files) -> (
    State<T>,
    Files,
    Result<(), Failure>,
) {
    match store.data.encoded() {
        None => (store, files, Err(Failure::Cbor)),
        Some(snapshot) => if files.journal is Some {
            (State { journal_file_length: 0, ..store }, compacted_files(snapshot), Ok(()))
        } else {
            (
                store,
                Files { state: None, journal: None, transitional: Some(snapshot) },
                Err(Failure::Io),
            )
        },
    }
}

/// The store after `apply`, and the mutation's result.
pub open spec fn after_apply<T: Survivable, M: Mutation<T>>(store: State<T>, mutation: M) -> (
    State<T>,
    M::Result,
) {
    (State { data: mutation.applied(store.data).0, ..store }, mutation.applied(store.data).1)
}

/// The store after `recorded`, and whether a compaction is due, for a record
/// of `added` bytes whose write succeeded or failed.
///
/// A failed write leaves the tracked length alone and makes a compaction
/// due. A successful one adds the record's size, and a compaction is due
/// where the length has passed the configured maximum.
pub open spec fn after_recorded<T>(store: State<T>, added: nat, written: bool) -> (
    State<T>,
    bool,
) {
    if written {
        let length = grown(store.journal_file_length, added);
        (State { journal_file_length: length, ..store }, over_limit(store.options, length))
    } else {
        (store, true)
    }
}

/// The store after `compaction_done` for the first `done` operations of a
/// compaction.
pub open spec fn after_compaction_done<T>(store: State<T>, done: nat) -> State<T> {
    if done >= JOURNAL_CLEARED_AFTER {
        State { journal_file_length: 0, ..store }
    } else {
        store
    }
}

/// What the steps of a mutation come to on `files`, where the write of the
/// record succeeded (`written`) or failed.
///
/// A mutation that cannot be serialised changes nothing. Otherwise the
/// mutation is applied to the live data, whatever becomes of its record, and
/// is never taken back. Its record is appended to the journal. Where that
/// failed, or where the journal has grown past its limit, the directory is
/// compacted with the data as it is after the mutation, so that the snapshot
/// holds the mutation whose record the compaction clears. A compaction that
/// fails is the error of the whole, with the mutation still applied.
pub open spec fn after_mutation<T: Survivable, M: Mutation<T>>(
    store: State<T>,
    files: Files,
    mutation: M,
    written: bool,
) -> (State<T>, Files, Result<M::Result, Failure>) {
    match mutation.encoded() {
        None => (store, files, Err(Failure::Cbor)),
        Some(payload) => {
            let record = frame(M::ID, payload);
            let (applied, result) = after_apply(store, mutation);
            let (noted, due) = after_recorded(applied, record.len(), written);
            let extended = if written {
                (Op::AppendJournal { bytes: record, flush: !store.options.use_journal_buffer })
                    .effect(files)
            } else {
                files
            };
            if due {
                let (kept, left, compaction) = after_compact(noted, extended);
                (
                    kept,
                    left,
                    match compaction {
                        Ok(()) => Ok(result),
                        Err(failure) => Err(failure),
                    },
                )
            } else {
                (noted, extended, Ok(result))
            }
        },
    }
}

/// The store and the directory after `mutate`, and the mutation's result.
/// In a directory held in memory the write of the record succeeds exactly
/// where there is a journal to append to.
pub open spec fn after_mutate<T: Survivable, M: Mutation<T>>(
    store: State<T>,
    files: Files,
    mutation: M,
) -> (State<T>, Files, Result<M::Result, Failure>) {
    after_mutation(store, files, mutation, files.journal is Some)
}

/// How opening ends for the data that the directory stands for, where it
/// stands for any: with a store of that data on a compacted directory, or,
/// where the data cannot be encoded, with an error on the directory as
/// recovery left it.
pub open spec fn opened_with<T: Survivable>(
    data: T,
    ready: Files,
    options: Options,
    r: Result<Survive<T>, Error>,
    files: Files,
) -> bool {
    match data.encoded() {
        Some(snapshot) => {
            &&& r is Ok
            &&& r->Ok_0@ == (State { data, journal_file_length: 0, options })
            &&& files == compacted_files(snapshot)
        },
        None => r is Err && r->Err_0 is Cbor && files == ready,
    }
}

/// What `restore` returns for the files of a directory after recovery.
///
/// The store holds the data that the files stand for or, where they stand
/// for none, the default value after `state_loaded`. Data that cannot be
/// loaded or cannot be encoded again is an error.
pub open spec fn restores<T: Survivable, R: Registry<T>>(
    registry: R,
    options: Options,
    snapshot: Option<Seq<u8>>,
    journal: Option<Seq<u8>>,
    r: Result<(Survive<T>, Vec<FileOp>), Error>,
) -> bool {
    match loaded::<T, R>(registry, snapshot, journal) {
        Loaded::Nothing => exists|initial: T| #[trigger]
            call_ensures(T::default, (), initial) && restored_with(
                initial.after_load(),
                options,
                r,
            ),
        Loaded::Data(data) => restored_with(data, options, r),
        Loaded::BadSnapshot => r is Err && r->Err_0 is Cbor,
        Loaded::Unregistered(id) => r is Err && r->Err_0 == (Error::UnregisteredMutation { id }),
        Loaded::BadRecord => r is Err && r->Err_0 is Cbor,
    }
}

/// What `open` returns for a directory, and what it leaves of `before`.
///
/// The directory is repaired first. The store then holds the data that the
/// repaired directory stands for or, where it stands for none, the default
/// value after `state_loaded`, and the directory is compacted. Where the
/// data cannot be loaded or cannot be encoded again, the directory stays as
/// the repair left it.
pub open spec fn opens<T: Survivable, R: Registry<T>>(
    registry: R,
    options: Options,
    before: Files,
    r: Result<Survive<T>, Error>,
    files: Files,
) -> bool {
    let ready = recovered(before);
    match loaded::<T, R>(registry, ready.state, ready.journal) {
        Loaded::Nothing => exists|initial: T| #[trigger]
            call_ensures(T::default, (), initial) && opened_with(
                initial.after_load(),
                ready,
                options,
                r,
                files,
            ),
        Loaded::Data(data) => opened_with(data, ready, options, r, files),
        Loaded::BadSnapshot => r is Err && r->Err_0 is Cbor && files == ready,
        Loaded::Unregistered(id) => {
            &&& r is Err
            &&& r->Err_0 == (Error::UnregisteredMutation { id })
            &&& files == ready
        },
        Loaded::BadRecord => r is Err && r->Err_0 is Cbor && files == ready,
    }
}

impl<T: Survivable> Survive<T> {
    /// Rebuilds the data of a directory from its files, after recovery:
    /// `snapshot` is the content of the snapshot, if there is one, and
    /// `journal` the content of the journal, if it is to be replayed.
    ///
    /// Without a snapshot there is no data. With one, the snapshot is
    /// decoded, `state_loaded` is called, and the whole records of the
    /// journal are dispatched in file order. A torn record at the end of the
    /// journal counts as absent. A snapshot or a payload that does not decode
    /// and a record of an unregistered type are errors.
    pub fn load<R: Registry<T>>(
        snapshot: Option<&[u8]>,
        journal: Option<&[u8]>,
        registry: &R,
    ) -> (r: Result<Option<T>, Error>)
        ensures
            match loaded::<T, R>(*registry, contents(snapshot), contents(journal)) {
                Loaded::Nothing => r == Ok::<Option<T>, Error>(None),
                Loaded::Data(data) => r == Ok::<Option<T>, Error>(Some(data)),
                Loaded::BadSnapshot => r is Err && r->Err_0 is Cbor,
                Loaded::Unregistered(id) => r == Err::<Option<T>, Error>(
                    Error::UnregisteredMutation { id },
                ),
                Loaded::BadRecord => r is Err && r->Err_0 is Cbor,
            },
    {
        let bytes = match snapshot {
            Some(bytes) => bytes,
            None => {
                return Ok(None);
            },
        };
        let mut data = match T::decode(bytes) {
            Ok(data) => data,
            Err(err) => {
                return Err(Error::Cbor(err));
            },
        };
        data.state_loaded();
        if let Some(log) = journal {
            let ghost start = data;
            let mut rest: &[u8] = log;
            loop
                invariant
                    replayed(*registry, records(rest@), data) == replayed(
                        *registry,
                        records(log@),
                        start,
                    ),
                    snapshot == Some(bytes),
                    journal == Some(log),
                    T::decoded(bytes@) matches Some(state) && state.after_load() == start,
                ensures
                    replayed(*registry, records(log@), start) == Replayed::Done(data),
                decreases rest@.len(),
            {
                let (record, used) = match read_record(rest) {
                    Ok(Some(found)) => found,
                    Ok(None) => {
                        assert(records(rest@).len() == 0);
                        break ;
                    },
                    Err(err) => {
                        return Err(err);
                    },
                };
                let ghost before = rest@;
                let ghost entry = first_record(rest@).unwrap();
                let ghost tail = records(rest@.skip(HEADER_LEN + entry.payload.len()));
                let ghost prior = data;
                proof {
                    assert(records(rest@) == seq![entry] + tail);
                    assert(records(rest@)[0] == entry);
                    assert(records(rest@).skip(1) =~= tail);
                    assert(replayed(*registry, records(rest@), prior) == match registry.dispatched(
                        entry.type_id,
                        entry.payload,
                        prior,
                    ) {
                        Dispatched::Applied(next) => replayed(*registry, tail, next),
                        Dispatched::Unregistered => Replayed::Unregistered(entry.type_id),
                        Dispatched::Undecodable => Replayed::Undecodable,
                    });
                }
                match registry.dispatch(record.type_id, record.payload.as_slice(), &mut data) {
                    Ok(()) => {},
                    Err(err) => {
                        return Err(err);
                    },
                }
                rest = slice_subrange(rest, used, rest.len());
                assert(rest@ =~= before.skip(HEADER_LEN + entry.payload.len()));
            }
        }
        Ok(Some(data))
    }

    /// Builds the store for the files of a directory after recovery;
    /// `snapshot` and `journal` are as in [`Survive::load`].
    ///
    /// The store holds the loaded data or, where there is no snapshot, the
    /// default value after `state_loaded`. It comes with the operations that
    /// complete the opening: the journal is opened for appending, and the
    /// directory is compacted, so that it holds a snapshot of the data and an
    /// empty journal before the first mutation.
    pub fn restore<R: Registry<T>>(
        snapshot: Option<&[u8]>,
        journal: Option<&[u8]>,
        builder: &Builder<T, R>,
    ) -> (r: Result<(Survive<T>, Vec<FileOp>), Error>)
        ensures
            restores(
                builder.registry(),
                builder.options(),
                contents(snapshot),
                contents(journal),
                r,
            ),
    {
        let data = match Self::load(snapshot, journal, builder.registry_ref()) {
            Ok(Some(data)) => data,
            Ok(None) => {
                let mut data = T::default();
                data.state_loaded();
                data
            },
            Err(err) => {
                return Err(err);
            },
        };
        let store = Survive { data, journal_file_length: 0, options: builder.options_value() };
        let mut compaction = match store.compaction() {
            Ok(compaction) => compaction,
            Err(err) => {
                return Err(err);
            },
        };
        let ghost rest = ops(compaction@);
        let mut script: Vec<FileOp> = Vec::new();
        script.push(FileOp::OpenJournal);
        script.append(&mut compaction);
        assert(ops(script@) =~= seq![Op::OpenJournal] + rest);
        Ok((store, script))
    }

    /// Opens the store of a directory.
    ///
    /// The directory is first repaired as [`plan`] says. The store then holds
    /// the data that the snapshot and the journal stand for, or the default
    /// value where the directory holds no snapshot, and the directory is
    /// compacted: it holds a snapshot of that data and an empty journal.
    /// Where the data cannot be had, the directory stays as the repair left it.
    pub fn open<R: Registry<T>>(dir: &mut Directory, builder: &Builder<T, R>) -> (r: Result<
        Survive<T>,
        Error,
    >)
        ensures
            opens(builder.registry(), builder.options(), old(dir)@, r, final(dir)@),
    {
        let recovery = plan(dir.presence());
        proof {
            lemma_recovery(dir@);
        }
        let (repaired, repair) = dir.run(&recovery.script);
        if let Err(err) = repair {
            proof {
                lemma_runnable_prefix(
                    old(dir)@,
                    recovery_script(old(dir)@.presence()),
                    recovery.script@.len(),
                    repaired as nat,
                );
            }
            return Err(Error::Io(err));
        }
        let snapshot: Option<&[u8]> = match &dir.state {
            Some(bytes) => Some(bytes.as_slice()),
            None => None,
        };
        let journal: Option<&[u8]> = match &dir.journal {
            Some(bytes) => Some(bytes.as_slice()),
            None => None,
        };
        let (store, script) = match Self::restore(snapshot, journal, builder) {
            Ok(restored) => restored,
            Err(err) => {
                return Err(err);
            },
        };
        let ghost ready = dir@;
        let ghost bytes = store@.data.encoded().unwrap();
        let ghost steps = ops(script@);
        let completion = dir.run(&script).1;
        proof {
            assert(steps[0] == Op::OpenJournal);
            assert(steps[1] == Op::WriteTransitional { bytes });
            assert(steps[2] == Op::RemoveState);
            assert(steps[3] == Op::ClearJournal);
            assert(steps[4] == Op::PromoteTransitional);
            reveal_with_fuel(runnable, 6);
            reveal_with_fuel(after, 6);
            assert(after(ready, steps, 5) == compacted_files(bytes));
        }
        match completion {
            Ok(()) => Ok(store),
            Err(err) => Err(Error::Io(err)),
        }
    }

    /// The live data.
    pub fn get(&self) -> (data: &T)
        ensures
            *data == self@.data,
    {
        &self.data
    }

    /// The number of journal bytes written since the last compaction,
    /// whether or not they have reached the file yet.
    pub fn journal_file_length(&self) -> (length: usize)
        ensures
            length == self@.journal_file_length,
    {
        self.journal_file_length
    }

    /// The first step of a mutation: the journal record of `mutation`, as
    /// the operation that appends it to the journal. The record is flushed
    /// at once unless the store buffers its journal.
    ///
    /// A mutation that cannot be encoded is an error. Nothing is to be
    /// written for it, and it is not to be applied.
    pub fn record<M: Mutation<T>>(&self, mutation: &M) -> (r: Result<FileOp, Error>)
        ensures
            match mutation.encoded() {
                Some(payload) => r is Ok && r->Ok_0@ == (Op::AppendJournal {
                    bytes: frame(M::ID, payload),
                    flush: !self@.options.use_journal_buffer,
                }),
                None => r is Err && r->Err_0 is Cbor,
            },
    {
        let payload = match mutation.encode() {
            Ok(payload) => payload,
            Err(err) => {
                return Err(Error::Cbor(err));
            },
        };
        let mut bytes: Vec<u8> = Vec::new();
        write_record(&mut bytes, M::ID, payload.as_slice());
        assert(bytes@ =~= frame(M::ID, payload@));
        Ok(FileOp::AppendJournal { bytes, flush: !self.options.use_journal_buffer })
    }

    /// The second step of a mutation: applies it to the live data and hands
    /// back its result. The mutation stays applied whatever becomes of its
    /// record.
    pub fn apply<M: Mutation<T>>(&mut self, mutation: M) -> (result: M::Result)
        ensures
            (final(self)@, result) == after_apply(old(self)@, mutation),
    {
        mutation.mutate(&mut self.data)
    }

    /// The third step of a mutation: takes note of how appending the record
    /// `op` went, and tells whether the directory has to be compacted now.
    ///
    /// After a failed write the journal may end in garbage, so a compaction
    /// is due at once. After a successful one the record's size is added to
    /// the tracked journal length, and a compaction is due where that length
    /// has passed the configured maximum. Either way the compaction folds in
    /// the mutation, which has been applied by then.
    pub fn recorded(&mut self, op: &FileOp, written: &Result<(), std::io::Error>) -> (due: bool)
        ensures
            (final(self)@, due) == after_recorded(old(self)@, appended(op@), written is Ok),
    {
        if written.is_err() {
            return true;
        }
        let added: usize = match op {
            FileOp::AppendJournal { bytes, flush } => bytes.len(),
            _ => 0,
        };
        self.journal_file_length = if added > usize::MAX - self.journal_file_length {
            usize::MAX
        } else {
            self.journal_file_length + added
        };
        match self.options.max_journal_file_length {
            Some(max) => self.journal_file_length > max,
            None => false,
        }
    }

    /// Performs a mutation on the data and records it in the journal of `dir`.
    ///
    /// The mutation is serialised, applied to the live data, and its record
    /// appended to the journal. If the write fails, or if the journal has
    /// grown past the configured maximum, the directory is compacted, with
    /// the mutation in the snapshot. The mutation is not taken back where
    /// the write or the compaction fails.
    pub fn mutate<M: Mutation<T>>(&mut self, dir: &mut Directory, mutation: M) -> (r: Result<
        M::Result,
        Error,
    >)
        ensures
            (final(self)@, final(dir)@, outcome(r)) == after_mutate(
                old(self)@,
                old(dir)@,
                mutation,
            ),
    {
        let op = match self.record(&mutation) {
            Ok(op) => op,
            Err(err) => {
                return Err(err);
            },
        };
        let result = self.apply(mutation);
        let written = dir.perform(&op);
        if self.recorded(&op, &written) {
            match self.compact(dir) {
                Ok(()) => {},
                Err(err) => {
                    return Err(err);
                },
            }
        }
        Ok(result)
    }

    /// The operations that fold the live data into a fresh snapshot and
    /// clear the journal. Data that cannot be encoded is an error, and
    /// nothing is to be done to the directory for it.
    pub fn compaction(&self) -> (r: Result<Vec<FileOp>, Error>)
        ensures
            match self@.data.encoded() {
                Some(snapshot) => r is Ok && ops(r->Ok_0@) == compaction_script(snapshot),
                None => r is Err && r->Err_0 is Cbor,
            },
    {
        let bytes = match self.data.encode() {
            Ok(bytes) => bytes,
            Err(err) => {
                return Err(Error::Cbor(err));
            },
        };
        let mut script: Vec<FileOp> = Vec::new();
        script.push(FileOp::WriteTransitional { bytes });
        script.push(FileOp::RemoveState);
        script.push(FileOp::ClearJournal);
        script.push(FileOp::PromoteTransitional);
        assert(ops(script@) =~= compaction_script(self@.data.encoded().unwrap()));
        Ok(script)
    }

    /// Takes note that the first `done` operations of a compaction have been
    /// performed: the tracked journal length is zero once the journal has
    /// been cleared.
    pub fn compaction_done(&mut self, done: usize)
        ensures
            final(self)@ == after_compaction_done(old(self)@, done as nat),
    {
        if done >= JOURNAL_CLEARED_AFTER {
            self.journal_file_length = 0;
        }
    }

    /// Folds the live data into a fresh snapshot in `dir` and clears the
    /// journal.
    pub fn compact(&mut self, dir: &mut Directory) -> (r: Result<(), Error>)
        ensures
            (final(self)@, final(dir)@, outcome(r)) == after_compact(old(self)@, old(dir)@),
    {
        let script = match self.compaction() {
            Ok(script) => script,
            Err(err) => {
                return Err(err);
            },
        };
        let (done, result) = dir.run(&script);
        self.compaction_done(done);
        proof {
            reveal_with_fuel(runnable, 5);
            reveal_with_fuel(after, 5);
        }
        match result {
            Ok(()) => Ok(()),
            Err(err) => Err(Error::Io(err)),
        }
    }
}

} // verus!
