//! What the engine guarantees across crashes and restarts, stated of the
//! whole operations and proved from their contracts.

use crate::data::{journalable, survives_encoding, Mutation, Survivable};
use crate::directory::{after, runnable, Files, Op};
use crate::error::{Error, Failure};
use crate::journal::{
    first_record, framable, frame, frames, lemma_frame_reads_back, lemma_frames_of_one_more,
    lemma_records_are_framable, lemma_records_of_frames, records, whole_records, Entry,
};
use crate::options::Options;
use crate::recovery::{
    lemma_crash_at_any_byte, lemma_replay_one_more, lemma_torn_tail, loaded, recovered,
    recovery_script, replayed, Loaded, Replayed,
};
use crate::registry::{decode_and_apply, handles, Registry};
use crate::store::{
    after_apply, after_compact, after_mutate, after_mutation, after_recorded, compacted_files,
    compaction_script, grown, opens, over_limit, State, Survive,
};
use vstd::prelude::*;

verus! {

/// Whether the directory is in its normal state and stands for the live
/// data: there is a snapshot, no transitional snapshot, and a journal made
/// of whole records, and loading them gives the data of the store.
pub open spec fn recoverable<T: Survivable, R: Registry<T>>(
    registry: R,
    data: T,
    files: Files,
) -> bool {
    &&& files.state is Some
    &&& files.transitional is None
    &&& files.journal is Some
    &&& frames(records(files.journal->Some_0)) == files.journal->Some_0
    &&& loaded::<T, R>(registry, files.state, files.journal) == Loaded::Data(data)
}

/// The store and the directory after the mutations of `mutations`, one
/// `mutate` each.
pub open spec fn after_mutations<T: Survivable, M: Mutation<T>>(
    store: State<T>,
    files: Files,
    mutations: Seq<M>,
) -> (State<T>, Files)
    decreases mutations.len(),
{
    if mutations.len() == 0 {
        (store, files)
    } else {
        let (before, written) = after_mutations(store, files, mutations.drop_last());
        let (next, left, result) = after_mutate(before, written, mutations.last());
        (next, left)
    }
}

/// The data after the mutations of `mutations` have been applied in order.
pub open spec fn applied_all<T: Survivable, M: Mutation<T>>(mutations: Seq<M>, data: T) -> T
    decreases mutations.len(),
{
    if mutations.len() == 0 {
        data
    } else {
        mutations.last().applied(applied_all(mutations.drop_last(), data)).0
    }
}

/// Whether a snapshot of `data` stands for `data`: it can be written, reads
/// back as `data`, and `state_loaded` leaves `data` as it is.
pub open spec fn snapshot_keeps<T: Survivable>(data: T) -> bool {
    &&& survives_encoding(data)
    &&& data.after_load() == data
}

/// After a successful compaction the journal is empty and the snapshot
/// decodes to the live data as it was at the time; the tracked journal
/// length is zero. Reopening the directory then gives that data, after
/// `state_loaded`.
pub proof fn lemma_compaction<T: Survivable, R: Registry<T>>(
    registry: R,
    store: State<T>,
    files: Files,
)
    requires
        after_compact(store, files).2 is Ok,
        survives_encoding(store.data),
    ensures
        ({
            let (kept, left, result) = after_compact(store, files);
            &&& kept == State { journal_file_length: 0, ..store }
            &&& left.journal == Some(Seq::<u8>::empty())
            &&& left.transitional is None
            &&& left.state is Some
            &&& T::decoded(left.state->Some_0) == Some(store.data)
            &&& recovered(left) == left
            &&& loaded::<T, R>(registry, left.state, left.journal) == Loaded::Data(
                store.data.after_load(),
            )
            &&& store.data.after_load() == store.data ==> recoverable(registry, store.data, left)
        }),
{
    let nothing = Seq::<u8>::empty();
    assert(records(nothing) =~= Seq::<Entry>::empty());
    assert(frames(Seq::<Entry>::empty()) =~= nothing);
}

/// A compaction that is interrupted after any number of its operations
/// leaves a directory that recovers to one of two things: the old snapshot
/// with the old journal, or the new snapshot without a journal to replay.
/// Once the old snapshot has been deleted, it is the new one; in particular
/// a directory that holds nothing but the transitional snapshot recovers to
/// the data that was being compacted.
pub proof fn lemma_interrupted_compaction<T: Survivable, R: Registry<T>>(
    registry: R,
    files: Files,
    snapshot: Seq<u8>,
    done: nat,
)
    requires
        files.journal is Some,
        done <= 4,
    ensures
        runnable(files, compaction_script(snapshot), done),
        ({
            let found = recovered(after(files, compaction_script(snapshot), done));
            let old_files = Files { transitional: None, ..files };
            let new_files = Files { state: Some(snapshot), journal: None, transitional: None };
            &&& found.transitional is None
            &&& done == 0 ==> found == recovered(files)
            &&& done == 1 && files.state is Some ==> found == old_files
            &&& done == 1 && files.state is None ==> found == new_files
            &&& done == 2 || done == 3 ==> found == new_files
            &&& done == 4 ==> found == compacted_files(snapshot)
            &&& done >= 2 ==> loaded::<T, R>(registry, found.state, found.journal) == loaded::<
                T,
                R,
            >(registry, Some(snapshot), None)
        }),
{
    reveal_with_fuel(runnable, 5);
    reveal_with_fuel(after, 5);
    let script = compaction_script(snapshot);
    assert(script[0] == Op::WriteTransitional { bytes: snapshot });
    assert(script[1] == Op::RemoveState);
    assert(script[2] == Op::ClearJournal);
    assert(script[3] == Op::PromoteTransitional);
    assert(records(Seq::<u8>::empty()) =~= Seq::<Entry>::empty());
}

/// Reopening a directory that has just been compacted repairs nothing and
/// loads the compacted data, after `state_loaded`. Where `state_loaded`
/// leaves that data as it is, the compaction that ends the reopening writes
/// the same snapshot again.
pub proof fn lemma_reopen_compacted<T: Survivable, R: Registry<T>>(registry: R, data: T)
    requires
        survives_encoding(data),
    ensures
        ({
            let files = compacted_files(data.encoded()->Some_0);
            &&& recovery_script(files.presence()) == Seq::<Op>::empty()
            &&& recovered(files) == files
            &&& loaded::<T, R>(registry, files.state, files.journal) == Loaded::Data(
                data.after_load(),
            )
            &&& data.after_load() == data ==> {
                &&& recoverable(registry, data, files)
                &&& compacted_files(data.after_load().encoded()->Some_0) == files
            }
        }),
{
    assert(records(Seq::<u8>::empty()) =~= Seq::<Entry>::empty());
    assert(frames(Seq::<Entry>::empty()) =~= Seq::<u8>::empty());
}

/// A crash during a compaction loses nothing. Once the old snapshot has
/// been deleted, whatever else of the compaction was done, reopening
/// promotes or finds the new snapshot and loads the data that was being
/// compacted, after `state_loaded`.
pub proof fn lemma_crash_during_compaction<T: Survivable, R: Registry<T>>(
    registry: R,
    files: Files,
    data: T,
    done: nat,
)
    requires
        files.journal is Some,
        survives_encoding(data),
        2 <= done <= 4,
    ensures
        ({
            let found = recovered(after(files, compaction_script(data.encoded()->Some_0), done));
            &&& found.state == data.encoded()
            &&& found.transitional is None
            &&& loaded::<T, R>(registry, found.state, found.journal) == Loaded::Data(
                data.after_load(),
            )
        }),
{
    lemma_interrupted_compaction::<T, R>(registry, files, data.encoded()->Some_0, done);
}

/// A mutation that takes the journal past the configured maximum leaves the
/// tracked journal length at zero: the compaction has run by the time
/// `mutate` returns, and its snapshot holds the data with the mutation.
pub proof fn lemma_auto_compaction<T: Survivable, M: Mutation<T>>(
    store: State<T>,
    files: Files,
    mutation: M,
)
    requires
        mutation.encoded() is Some,
        mutation.applied(store.data).0.encoded() is Some,
        files.journal is Some,
        over_limit(
            store.options,
            grown(
                store.journal_file_length,
                frame(M::ID, mutation.encoded()->Some_0).len(),
            ),
        ),
    ensures
        after_mutate(store, files, mutation) == (
            State {
                data: mutation.applied(store.data).0,
                journal_file_length: 0,
                options: store.options,
            },
            compacted_files(mutation.applied(store.data).0.encoded()->Some_0),
            Ok::<M::Result, Failure>(mutation.applied(store.data).1),
        ),
{
}

/// A mutation whose record could not be written is not lost and not taken
/// back. Where the forced compaction succeeds, the mutation returns its
/// result, the live data holds the mutation, the tracked journal length is
/// zero, the journal is empty, and the snapshot is that of the data with the
/// mutation.
pub proof fn lemma_failed_write_is_compacted<T: Survivable, M: Mutation<T>>(
    store: State<T>,
    files: Files,
    mutation: M,
)
    requires
        mutation.encoded() is Some,
        mutation.applied(store.data).0.encoded() is Some,
        files.journal is Some,
    ensures
        after_recorded(
            after_apply(store, mutation).0,
            frame(M::ID, mutation.encoded()->Some_0).len(),
            false,
        ) == (after_apply(store, mutation).0, true),
        after_mutation(store, files, mutation, false) == (
            State {
                data: mutation.applied(store.data).0,
                journal_file_length: 0,
                options: store.options,
            },
            compacted_files(mutation.applied(store.data).0.encoded()->Some_0),
            Ok::<M::Result, Failure>(mutation.applied(store.data).1),
        ),
        survives_encoding(mutation.applied(store.data).0) ==> T::decoded(
            after_mutation(store, files, mutation, false).1.state->Some_0,
        ) == Some(mutation.applied(store.data).0),
{
}

/// Every successful mutation keeps the directory in step with the live
/// data, whether its record was written or not and whether it compacts or
/// not: reopening the directory afterwards gives the data with the mutation
/// applied.
///
/// Where the mutation compacts, the snapshot has to stand for the new data.
pub proof fn lemma_mutation_is_recoverable<T: Survivable, M: Mutation<T>, R: Registry<T>>(
    registry: R,
    store: State<T>,
    files: Files,
    mutation: M,
    written: bool,
)
    requires
        recoverable(registry, store.data, files),
        handles::<T, M, R>(registry),
        journalable::<T, M>(mutation),
        after_recorded(
            after_apply(store, mutation).0,
            frame(M::ID, mutation.encoded()->Some_0).len(),
            written,
        ).1 ==> snapshot_keeps(mutation.applied(store.data).0),
    ensures
        ({
            let (next, left, result) = after_mutation(store, files, mutation, written);
            &&& result == Ok::<M::Result, Failure>(mutation.applied(store.data).1)
            &&& next.data == mutation.applied(store.data).0
            &&& next.options == store.options
            &&& recovered(left) == left
            &&& recoverable(registry, next.data, left)
        }),
{
    let payload = mutation.encoded()->Some_0;
    let record = frame(M::ID, payload);
    let (applied, result) = after_apply(store, mutation);
    let (noted, due) = after_recorded(applied, record.len(), written);
    if due {
        assert(records(Seq::<u8>::empty()) =~= Seq::<Entry>::empty());
        assert(frames(Seq::<Entry>::empty()) =~= Seq::<u8>::empty());
    } else {
        let entry = Entry { type_id: M::ID, payload };
        let journal = files.journal->Some_0;
        let entries = records(journal);
        let start = T::decoded(files.state->Some_0)->Some_0.after_load();
        lemma_records_are_framable(journal);
        lemma_records_of_frames(entries, record);
        lemma_frame_reads_back(M::ID, payload, Seq::<u8>::empty());
        assert(record + Seq::<u8>::empty() =~= record);
        assert(records(Seq::<u8>::empty()) =~= Seq::<Entry>::empty());
        assert(records(record) =~= seq![entry]);
        assert(entries + seq![entry] =~= entries.push(entry));
        assert(records(journal + record) == entries.push(entry));
        lemma_frames_of_one_more(entries, entry);
        lemma_replay_one_more(registry, entries, entry, start);
        assert(replayed(registry, entries, start) == Replayed::Done(store.data));
        assert(registry.dispatched(M::ID, payload, store.data) == decode_and_apply::<T, M>(
            payload,
            store.data,
        ));
    }
}

/// Round trip, for any sequence of mutations and any settings: after the
/// mutations the live data is the data from before with the mutations
/// applied in order, and the directory stands for exactly that data, so that
/// dropping the store and reopening the directory gives it again. Compactions
/// on the way change nothing of this.
///
/// The codec has to read back what it writes: every mutation, and every
/// state of the data on the way, of which a compaction may take a snapshot.
pub proof fn lemma_round_trip<T: Survivable, M: Mutation<T>, R: Registry<T>>(
    registry: R,
    store: State<T>,
    files: Files,
    mutations: Seq<M>,
)
    requires
        recoverable(registry, store.data, files),
        handles::<T, M, R>(registry),
        forall|i: int| 0 <= i < mutations.len() ==> journalable::<T, M>(#[trigger] mutations[i]),
        forall|count: int|
            0 < count <= mutations.len() ==> snapshot_keeps(
                #[trigger] applied_all(mutations.take(count), store.data),
            ),
    ensures
        ({
            let (last, left) = after_mutations(store, files, mutations);
            &&& last.data == applied_all(mutations, store.data)
            &&& last.options == store.options
            &&& recovered(left) == left
            &&& recoverable(registry, last.data, left)
            &&& loaded::<T, R>(registry, recovered(left).state, recovered(left).journal)
                == Loaded::Data(applied_all(mutations, store.data))
        }),
    decreases mutations.len(),
{
    if mutations.len() > 0 {
        let earlier = mutations.drop_last();
        assert forall|i: int| 0 <= i < earlier.len() implies journalable::<T, M>(
            #[trigger] earlier[i],
        ) by {
            assert(earlier[i] == mutations[i]);
        }
        assert forall|count: int| 0 < count <= earlier.len() implies snapshot_keeps(
            #[trigger] applied_all(earlier.take(count), store.data),
        ) by {
            assert(earlier.take(count) =~= mutations.take(count));
        }
        lemma_round_trip(registry, store, files, earlier);
        let (before, written) = after_mutations(store, files, earlier);
        assert(journalable::<T, M>(mutations[mutations.len() - 1]));
        assert(mutations.take(mutations.len() as int) =~= mutations);
        assert(snapshot_keeps(applied_all(mutations.take(mutations.len() as int), store.data)));
        lemma_mutation_is_recoverable(registry, before, written, mutations.last(), true);
    }
}

/// The journal records of `mutations`, one each, in order.
pub open spec fn entries_of<T: Survivable, M: Mutation<T>>(mutations: Seq<M>) -> Seq<Entry> {
    Seq::new(
        mutations.len(),
        |i: int| Entry { type_id: M::ID, payload: mutations[i].encoded()->Some_0 },
    )
}

/// Replaying the records of some mutations applies each mutation exactly
/// once, in the order of the records.
pub proof fn lemma_replay_of_mutations<T: Survivable, M: Mutation<T>, R: Registry<T>>(
    registry: R,
    mutations: Seq<M>,
    data: T,
)
    requires
        handles::<T, M, R>(registry),
        forall|i: int| 0 <= i < mutations.len() ==> journalable::<T, M>(#[trigger] mutations[i]),
    ensures
        framable(entries_of::<T, M>(mutations)),
        replayed(registry, entries_of::<T, M>(mutations), data) == Replayed::Done(
            applied_all(mutations, data),
        ),
    decreases mutations.len(),
{
    let entries = entries_of::<T, M>(mutations);
    assert forall|i: int| 0 <= i < entries.len() implies (#[trigger] entries[i]).payload.len()
        <= u32::MAX by {
        assert(journalable::<T, M>(mutations[i]));
    }
    if mutations.len() > 0 {
        let earlier = mutations.drop_last();
        let last = mutations.last();
        assert forall|i: int| 0 <= i < earlier.len() implies journalable::<T, M>(
            #[trigger] earlier[i],
        ) by {
            assert(earlier[i] == mutations[i]);
        }
        lemma_replay_of_mutations(registry, earlier, data);
        let entry = Entry { type_id: M::ID, payload: last.encoded()->Some_0 };
        assert(entries =~= entries_of::<T, M>(earlier).push(entry));
        lemma_replay_one_more(registry, entries_of::<T, M>(earlier), entry, data);
        assert(journalable::<T, M>(mutations[mutations.len() - 1]));
        assert(registry.dispatched(M::ID, entry.payload, applied_all(earlier, data))
            == decode_and_apply::<T, M>(entry.payload, applied_all(earlier, data)));
    }
}

/// Loading a snapshot of `data` with a journal of whole records and a torn
/// tail gives `data` with the mutations of the whole records applied, each
/// once and in file order. No byte of the tail is applied.
pub proof fn lemma_load_with_torn_tail<T: Survivable, M: Mutation<T>, R: Registry<T>>(
    registry: R,
    data: T,
    mutations: Seq<M>,
    tail: Seq<u8>,
)
    requires
        snapshot_keeps(data),
        handles::<T, M, R>(registry),
        forall|i: int| 0 <= i < mutations.len() ==> journalable::<T, M>(#[trigger] mutations[i]),
        first_record(tail) is None,
    ensures
        loaded::<T, R>(
            registry,
            data.encoded(),
            Some(frames(entries_of::<T, M>(mutations)) + tail),
        ) == Loaded::Data(applied_all(mutations, data)),
{
    lemma_replay_of_mutations(registry, mutations, data);
    lemma_torn_tail::<T, R>(registry, data.encoded(), entries_of::<T, M>(mutations), tail);
    crate::journal::lemma_journal_reads_back(entries_of::<T, M>(mutations));
}

/// Opening a directory that has just been compacted succeeds with the
/// compacted data and leaves the directory as it was, byte for byte.
pub proof fn lemma_open_compacted<T: Survivable, R: Registry<T>>(
    registry: R,
    options: Options,
    data: T,
    r: Result<Survive<T>, Error>,
    files: Files,
)
    requires
        snapshot_keeps(data),
        opens(registry, options, compacted_files(data.encoded()->Some_0), r, files),
    ensures
        r is Ok,
        r->Ok_0@ == (State { data, journal_file_length: 0, options }),
        files == compacted_files(data.encoded()->Some_0),
{
    lemma_reopen_compacted(registry, data);
}

/// Opening after a crash at any byte of the journal never fails for the
/// journal's sake. Where the uncut journal loads, the cut one loads too, to
/// the snapshot with the whole records in front of the cut applied; the one
/// error left is data that cannot be encoded for the closing compaction.
pub proof fn lemma_open_after_cut<T: Survivable, R: Registry<T>>(
    registry: R,
    options: Options,
    snapshot: Seq<u8>,
    entries: Seq<Entry>,
    cut: nat,
    r: Result<Survive<T>, Error>,
    files: Files,
)
    requires
        framable(entries),
        cut <= frames(entries).len(),
        loaded::<T, R>(registry, Some(snapshot), Some(frames(entries))) is Data,
        opens(
            registry,
            options,
            Files {
                state: Some(snapshot),
                journal: Some(frames(entries).take(cut as int)),
                transitional: None,
            },
            r,
            files,
        ),
    ensures
        ({
            let data = loaded::<T, R>(
                registry,
                Some(snapshot),
                Some(frames(entries).take(cut as int)),
            )->Data_0;
            &&& whole_records(entries, cut) <= entries.len()
            &&& Replayed::Done(data) == replayed(
                registry,
                entries.take(whole_records(entries, cut) as int),
                T::decoded(snapshot)->Some_0.after_load(),
            )
            &&& data.encoded() is Some ==> r is Ok && r->Ok_0@.data == data
            &&& data.encoded() is None ==> r is Err && r->Err_0 is Cbor
        }),
{
    lemma_crash_at_any_byte::<T, R>(registry, snapshot, entries, cut);
}

/// Opening after a crash during a compaction, once the old snapshot had
/// been deleted, succeeds with the data that was being compacted and ends
/// on a compacted directory.
pub proof fn lemma_open_after_crash<T: Survivable, R: Registry<T>>(
    registry: R,
    options: Options,
    before: Files,
    data: T,
    done: nat,
    r: Result<Survive<T>, Error>,
    files: Files,
)
    requires
        before.journal is Some,
        snapshot_keeps(data),
        2 <= done <= 4,
        opens(
            registry,
            options,
            after(before, compaction_script(data.encoded()->Some_0), done),
            r,
            files,
        ),
    ensures
        r is Ok,
        r->Ok_0@ == (State { data, journal_file_length: 0, options }),
        files == compacted_files(data.encoded()->Some_0),
{
    lemma_crash_during_compaction::<T, R>(registry, before, data, done);
}

} // verus!
