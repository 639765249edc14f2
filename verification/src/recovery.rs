//! The recovery loader: what has to be done to a directory, whatever an
//! interrupted run left in it, before its data can be read, and what data a
//! snapshot and a journal stand for.

use crate::data::Survivable;
use crate::directory::{after, ops, runnable, FileOp, Files, Op, Presence};
use crate::journal::{
    first_record, framable, frames, lemma_records_of_frames, lemma_truncated_journal, records,
    whole_records, Entry,
};
use crate::registry::{Dispatched, Registry};
use vstd::prelude::*;

verus! {

/// The decisions of one recovery.
#[derive(Clone, Debug, PartialEq, Eq)]
pub struct Recovery {
    /// The operations that repair the directory, in the order in which they
    /// have to be performed.
    pub script: Vec<FileOp>,
    /// Whether the directory then holds a snapshot to load. Without one the
    /// directory holds no data at all.
    pub snapshot: bool,
    /// Whether the directory then holds a journal to replay on the snapshot.
    pub replay: bool,
}

/// The repair that each combination of files calls for.
///
/// Without a snapshot, a journal is the rest of a compaction that was
/// interrupted after the old snapshot had been deleted: it is deleted, and a
/// transitional snapshot, which that compaction had finished writing, takes
/// the snapshot's place. Beside a snapshot, a transitional snapshot is the
/// rest of a compaction that never got that far: it is deleted.
pub open spec fn recovery_script(found: Presence) -> Seq<Op> {
    if found.state {
        if found.transitional {
            seq![Op::RemoveTransitional]
        } else {
            Seq::empty()
        }
    } else {
        let first = if found.journal {
            seq![Op::RemoveJournal]
        } else {
            Seq::empty()
        };
        if found.transitional {
            first.push(Op::PromoteTransitional)
        } else {
            first
        }
    }
}

/// The directory that recovery leaves behind.
pub open spec fn recovered(files: Files) -> Files {
    if files.state is Some {
        Files { state: files.state, journal: files.journal, transitional: None }
    } else {
        Files { state: files.transitional, journal: None, transitional: None }
    }
}

/// Decides how to repair a directory in which the files `found` exist.
pub fn plan(found: Presence) -> (recovery: Recovery)
    ensures
        ops(recovery.script@) == recovery_script(found),
        recovery.snapshot == (found.state || found.transitional),
        recovery.replay == (found.state && found.journal),
{
    let mut script: Vec<FileOp> = Vec::new();
    if !found.state {
        if found.journal {
            script.push(FileOp::RemoveJournal);
        }
        if found.transitional {
            script.push(FileOp::PromoteTransitional);
        } else {
            return Recovery { script, snapshot: false, replay: false };
        }
    } else if found.transitional {
        script.push(FileOp::RemoveTransitional);
    }
    Recovery { script, snapshot: true, replay: found.state && found.journal }
}

/// Every operation of the recovery script can be performed, and together
/// they turn `files` into `recovered(files)`: a directory without a
/// transitional snapshot, which holds a snapshot exactly when the plan says
/// so and a journal exactly when the plan asks for a replay.
pub proof fn lemma_recovery(files: Files)
    ensures
        ({
            let script = recovery_script(files.presence());
            &&& runnable(files, script, script.len())
            &&& after(files, script, script.len()) == recovered(files)
        }),
        recovered(files).transitional is None,
        recovered(files).state is Some <==> files.state is Some || files.transitional is Some,
        recovered(files).journal is Some <==> files.state is Some && files.journal is Some,
{
    let script = recovery_script(files.presence());
    reveal_with_fuel(runnable, 3);
    reveal_with_fuel(after, 3);
}

/// What replaying a journal does.
pub enum Replayed<T> {
    /// Every record was applied, and the data became this value.
    Done(T),
    /// A record names a mutation type that is not registered.
    Unregistered(u32),
    /// A record's payload does not decode.
    Undecodable,
}

/// The result of dispatching `entries` in order, starting from `data`, and
/// stopping at the first record that cannot be applied.
pub open spec fn replayed<T: Survivable, R: Registry<T>>(
    registry: R,
    entries: Seq<Entry>,
    data: T,
) -> Replayed<T>
    decreases entries.len(),
{
    if entries.len() == 0 {
        Replayed::Done(data)
    } else {
        match registry.dispatched(entries[0].type_id, entries[0].payload, data) {
            Dispatched::Applied(next) => replayed(registry, entries.skip(1), next),
            Dispatched::Unregistered => Replayed::Unregistered(entries[0].type_id),
            Dispatched::Undecodable => Replayed::Undecodable,
        }
    }
}

/// What loading a directory's data gives.
pub enum Loaded<T> {
    /// There is no snapshot, hence no data.
    Nothing,
    /// The snapshot and the journal stand for this value.
    Data(T),
    /// The snapshot does not decode.
    BadSnapshot,
    /// The journal holds a record of a mutation type that is not registered.
    Unregistered(u32),
    /// The journal holds a record whose payload does not decode.
    BadRecord,
}

/// The data that a snapshot and a journal stand for: the snapshot's value,
/// after `state_loaded`, with the whole records of the journal applied in
/// file order.
pub open spec fn loaded<T: Survivable, R: Registry<T>>(
    registry: R,
    snapshot: Option<Seq<u8>>,
    journal: Option<Seq<u8>>,
) -> Loaded<T> {
    match snapshot {
        None => Loaded::Nothing,
        Some(bytes) => match T::decoded(bytes) {
            None => Loaded::BadSnapshot,
            Some(state) => {
                let entries = match journal {
                    Some(journal) => records(journal),
                    None => Seq::empty(),
                };
                match replayed(registry, entries, state.after_load()) {
                    Replayed::Done(data) => Loaded::Data(data),
                    Replayed::Unregistered(id) => Loaded::Unregistered(id),
                    Replayed::Undecodable => Loaded::BadRecord,
                }
            },
        },
    }
}

/// What one more record does to the outcome of a replay.
pub open spec fn replay_step<T: Survivable, R: Registry<T>>(
    registry: R,
    so_far: Replayed<T>,
    entry: Entry,
) -> Replayed<T> {
    match so_far {
        Replayed::Done(data) => match registry.dispatched(entry.type_id, entry.payload, data) {
            Dispatched::Applied(next) => Replayed::Done(next),
            Dispatched::Unregistered => Replayed::Unregistered(entry.type_id),
            Dispatched::Undecodable => Replayed::Undecodable,
        },
        stopped => stopped,
    }
}

/// Replaying a journal in two parts is replaying it whole: the second part
/// goes on from the data that the first part left, and is not looked at
/// where the first part stopped at a record.
pub proof fn lemma_replay_in_parts<T: Survivable, R: Registry<T>>(
    registry: R,
    front: Seq<Entry>,
    back: Seq<Entry>,
    data: T,
)
    ensures
        replayed(registry, front + back, data) == match replayed(registry, front, data) {
            Replayed::Done(between) => replayed(registry, back, between),
            stopped => stopped,
        },
    decreases front.len(),
{
    if front.len() == 0 {
        assert(front + back =~= back);
    } else {
        let whole = front + back;
        assert(whole[0] == front[0]);
        assert(whole.skip(1) =~= front.skip(1) + back);
        match registry.dispatched(front[0].type_id, front[0].payload, data) {
            Dispatched::Applied(next) => {
                lemma_replay_in_parts(registry, front.skip(1), back, next);
            },
            _ => {},
        }
    }
}

/// Replaying one record more is one dispatch more.
pub proof fn lemma_replay_one_more<T: Survivable, R: Registry<T>>(
    registry: R,
    entries: Seq<Entry>,
    entry: Entry,
    data: T,
)
    ensures
        replayed(registry, entries.push(entry), data) == replay_step(
            registry,
            replayed(registry, entries, data),
            entry,
        ),
{
    let last = seq![entry];
    lemma_replay_in_parts(registry, entries, last, data);
    assert(entries.push(entry) =~= entries + last);
    match replayed(registry, entries, data) {
        Replayed::Done(between) => {
            assert(last[0] == entry);
            assert(last.skip(1) =~= Seq::<Entry>::empty());
            reveal_with_fuel(replayed, 2);
        },
        _ => {},
    }
}

/// A journal that replays without error still does so when only its first
/// `count` records are left.
pub proof fn lemma_replay_of_prefix<T: Survivable, R: Registry<T>>(
    registry: R,
    entries: Seq<Entry>,
    count: nat,
    data: T,
)
    requires
        count <= entries.len(),
        replayed(registry, entries, data) is Done,
    ensures
        replayed(registry, entries.take(count as int), data) is Done,
{
    lemma_replay_in_parts(registry, entries.take(count as int), entries.skip(count as int), data);
    assert(entries.take(count as int) + entries.skip(count as int) =~= entries);
}

/// A record of a mutation type that is not registered stops the replay with
/// that type's identifier: the record is not skipped.
pub proof fn lemma_unregistered_record<T: Survivable, R: Registry<T>>(
    registry: R,
    entries: Seq<Entry>,
    at: nat,
    data: T,
)
    requires
        at < entries.len(),
        replayed(registry, entries.take(at as int), data) is Done,
        !registry.ids().contains(entries[at as int].type_id),
    ensures
        replayed(registry, entries, data) == Replayed::<T>::Unregistered(
            entries[at as int].type_id,
        ),
{
    let front = entries.take(at as int);
    let back = entries.skip(at as int);
    lemma_replay_in_parts(registry, front, back, data);
    assert(front + back =~= entries);
    let between = replayed(registry, front, data)->Done_0;
    assert(back[0] == entries[at as int]);
    registry.lemma_unregistered(back[0].type_id, back[0].payload, between);
}

/// A crash at any byte of the journal costs no more than the records from
/// the cut on. Where the whole journal loads without error, so does the
/// journal cut off after `cut` bytes, and it stands for the snapshot with
/// exactly the records applied that lie wholly in front of the cut.
pub proof fn lemma_crash_at_any_byte<T: Survivable, R: Registry<T>>(
    registry: R,
    snapshot: Seq<u8>,
    entries: Seq<Entry>,
    cut: nat,
)
    requires
        framable(entries),
        cut <= frames(entries).len(),
        loaded::<T, R>(registry, Some(snapshot), Some(frames(entries))) is Data,
    ensures
        whole_records(entries, cut) <= entries.len(),
        loaded::<T, R>(registry, Some(snapshot), Some(frames(entries).take(cut as int)))
            is Data,
        Replayed::Done(
            loaded::<T, R>(
                registry,
                Some(snapshot),
                Some(frames(entries).take(cut as int)),
            )->Data_0,
        ) == replayed(
            registry,
            entries.take(whole_records(entries, cut) as int),
            T::decoded(snapshot)->Some_0.after_load(),
        ),
{
    crate::journal::lemma_journal_reads_back(entries);
    lemma_truncated_journal(entries, cut);
    lemma_replay_of_prefix(
        registry,
        entries,
        whole_records(entries, cut),
        T::decoded(snapshot)->Some_0.after_load(),
    );
}

/// A torn record at the end of a journal is never read: the journal loads
/// as the whole frames in front of it do, whatever the bytes of the tail.
pub proof fn lemma_torn_tail<T: Survivable, R: Registry<T>>(
    registry: R,
    snapshot: Option<Seq<u8>>,
    entries: Seq<Entry>,
    tail: Seq<u8>,
)
    requires
        framable(entries),
        first_record(tail) is None,
    ensures
        records(frames(entries) + tail) == entries,
        loaded::<T, R>(registry, snapshot, Some(frames(entries) + tail)) == loaded::<T, R>(
            registry,
            snapshot,
            Some(frames(entries)),
        ),
{
    lemma_records_of_frames(entries, tail);
    lemma_records_of_frames(entries, Seq::<u8>::empty());
    assert(records(Seq::<u8>::empty()) =~= Seq::<Entry>::empty());
    assert(frames(entries) + Seq::<u8>::empty() =~= frames(entries));
    assert(entries + Seq::<Entry>::empty() =~= entries);
}

} // verus!
