use survive::directory::{Directory, FileOp};
use survive::journal::write_record;
use survive::options::{Options, DEFAULT_MAX_JOURNAL_FILE_LENGTH};
use survive::registry::{Empty, Registry};
use survive::{Builder, Error, Mutation, Survivable, Survive};

#[derive(Debug, Default, Clone, PartialEq, Eq)]
struct Counter {
    count: i64,
}

fn cbor_failure() -> serde_cbor::Error {
    serde_cbor::from_slice::<u8>(&[]).unwrap_err()
}

fn cbor(value: i64) -> Vec<u8> {
    serde_cbor::to_vec(&value).unwrap()
}

impl Survivable for Counter {
    fn encode(&self) -> Result<Vec<u8>, serde_cbor::Error> {
        if self.count == i64::MIN {
            return Err(cbor_failure());
        }
        serde_cbor::to_vec(&self.count)
    }

    fn decode(bytes: &[u8]) -> Result<Self, serde_cbor::Error> {
        let count: i64 = serde_cbor::from_slice(bytes)?;
        Ok(Counter { count })
    }

    fn state_loaded(&mut self) {}
}

struct Increment(i64);

impl Mutation<Counter> for Increment {
    const ID: u32 = 1;
    type Result = i64;

    fn encode(&self) -> Result<Vec<u8>, serde_cbor::Error> {
        if self.0 == i64::MAX {
            return Err(cbor_failure());
        }
        serde_cbor::to_vec(&self.0)
    }

    fn decode(bytes: &[u8]) -> Result<Self, serde_cbor::Error> {
        let by: i64 = serde_cbor::from_slice(bytes)?;
        Ok(Increment(by))
    }

    fn mutate(self, data: &mut Counter) -> i64 {
        data.count = data.count.wrapping_add(self.0);
        data.count
    }
}

struct Reset;

impl Mutation<Counter> for Reset {
    const ID: u32 = 2;
    type Result = ();

    fn encode(&self) -> Result<Vec<u8>, serde_cbor::Error> {
        serde_cbor::to_vec(&())
    }

    fn decode(bytes: &[u8]) -> Result<Self, serde_cbor::Error> {
        serde_cbor::from_slice::<()>(bytes)?;
        Ok(Reset)
    }

    fn mutate(self, data: &mut Counter) {
        data.count = 0;
    }
}

fn frame(type_id: u32, payload: &[u8]) -> Vec<u8> {
    let mut out = Vec::new();
    write_record(&mut out, type_id, payload);
    out
}

fn counting() -> Builder<Counter, impl Registry<Counter>> {
    Builder::<Counter, Empty>::new().register::<Increment>().register::<Reset>()
}

fn compacted(count: i64) -> Directory {
    Directory { state: Some(cbor(count)), journal: Some(vec![]), transitional: None }
}

#[test]
fn counter_survives_a_reopen() {
    let mut dir = Directory::new();
    let builder = counting();
    let mut store = builder.open(&mut dir).unwrap();
    assert_eq!(store.get(), &Counter { count: 0 });
    assert_eq!(store.mutate(&mut dir, Increment(5)).unwrap(), 5);
    assert_eq!(store.mutate(&mut dir, Increment(3)).unwrap(), 8);
    assert_eq!(store.get(), &Counter { count: 8 });
    drop(store);
    let reopened: Survive<Counter> = counting().open(&mut dir).unwrap();
    assert_eq!(reopened.get(), &Counter { count: 8 });
}

#[test]
fn open_on_an_empty_directory_compacts_the_default() {
    let mut dir = Directory::new();
    let store = counting().open(&mut dir).unwrap();
    assert_eq!(store.get(), &Counter { count: 0 });
    assert_eq!(store.journal_file_length(), 0);
    assert_eq!(dir, compacted(0));
}

#[test]
fn mutate_appends_one_frame_per_mutation() {
    let mut dir = Directory::new();
    let mut store = counting().open(&mut dir).unwrap();
    store.mutate(&mut dir, Increment(5)).unwrap();
    let first = frame(1, &cbor(5));
    assert_eq!(dir.journal.as_deref(), Some(first.as_slice()));
    assert_eq!(store.journal_file_length(), first.len());
    store.mutate(&mut dir, Reset).unwrap();
    let mut both = first.clone();
    both.extend_from_slice(&frame(2, &serde_cbor::to_vec(&()).unwrap()));
    assert_eq!(dir.journal.as_deref(), Some(both.as_slice()));
    assert_eq!(store.journal_file_length(), both.len());
    assert_eq!(dir.state, Some(cbor(0)));
    assert_eq!(store.get(), &Counter { count: 0 });
}

#[test]
fn replay_dispatches_each_record_to_its_type() {
    let mut dir = Directory::new();
    let mut store = counting().open(&mut dir).unwrap();
    store.mutate(&mut dir, Increment(5)).unwrap();
    store.mutate(&mut dir, Reset).unwrap();
    store.mutate(&mut dir, Increment(2)).unwrap();
    store.mutate(&mut dir, Increment(-7)).unwrap();
    assert_eq!(store.get(), &Counter { count: -5 });
    let reopened = counting().open(&mut dir).unwrap();
    assert_eq!(reopened.get(), &Counter { count: -5 });
    assert_eq!(dir, compacted(-5));
}

#[test]
fn record_is_flushed_only_without_the_buffer() {
    let mut dir = Directory::new();
    let buffered = counting().open(&mut dir).unwrap();
    assert_eq!(
        buffered.record(&Increment(5)).unwrap(),
        FileOp::AppendJournal { bytes: frame(1, &cbor(5)), flush: false }
    );
    let mut builder = counting();
    builder.use_journal_buffer(false);
    let unbuffered = builder.open(&mut dir).unwrap();
    assert_eq!(
        unbuffered.record(&Increment(5)).unwrap(),
        FileOp::AppendJournal { bytes: frame(1, &cbor(5)), flush: true }
    );
}

#[test]
fn record_of_an_unencodable_mutation_is_an_error() {
    let mut dir = Directory::new();
    let store = counting().open(&mut dir).unwrap();
    assert!(matches!(store.record(&Increment(i64::MAX)), Err(Error::Cbor(_))));
}

#[test]
fn recorded_adds_the_record_size() {
    let mut dir = Directory::new();
    let mut store = counting().open(&mut dir).unwrap();
    let op = store.record(&Increment(1000)).unwrap();
    assert!(!store.recorded(&op, &Ok(())));
    assert_eq!(store.journal_file_length(), 8 + cbor(1000).len());
    assert!(!store.recorded(&op, &Ok(())));
    assert_eq!(store.journal_file_length(), 2 * (8 + cbor(1000).len()));
}

#[test]
fn recorded_after_a_failed_write_asks_for_compaction() {
    let mut dir = Directory::new();
    let mut store = counting().open(&mut dir).unwrap();
    let op = store.record(&Increment(1)).unwrap();
    let failed = Err(std::io::Error::new(std::io::ErrorKind::Other, "disk full"));
    assert!(store.recorded(&op, &failed));
    assert_eq!(store.journal_file_length(), 0);
    assert_eq!(store.get(), &Counter { count: 0 });
}

#[test]
fn apply_changes_the_data_and_nothing_else() {
    let mut dir = Directory::new();
    let mut store = counting().open(&mut dir).unwrap();
    assert_eq!(store.apply(Increment(4)), 4);
    assert_eq!(store.get(), &Counter { count: 4 });
    assert_eq!(store.journal_file_length(), 0);
    assert_eq!(dir, compacted(0));
}

#[test]
fn journal_past_the_maximum_is_compacted_at_once() {
    let mut dir = Directory::new();
    let mut builder = counting();
    builder.max_journal_file_length(Some(100));
    let mut store = builder.open(&mut dir).unwrap();
    for n in 1..=11 {
        store.mutate(&mut dir, Increment(1)).unwrap();
        assert_eq!(store.journal_file_length(), 9 * n);
    }
    assert_eq!(store.journal_file_length(), 99);
    assert_eq!(store.mutate(&mut dir, Increment(1)).unwrap(), 12);
    assert_eq!(store.journal_file_length(), 0);
    assert_eq!(dir, compacted(12));
    assert_eq!(store.get(), &Counter { count: 12 });
}

#[test]
fn journal_at_the_maximum_is_not_compacted() {
    let mut dir = Directory::new();
    let mut builder = counting();
    builder.max_journal_file_length(Some(18));
    let mut store = builder.open(&mut dir).unwrap();
    store.mutate(&mut dir, Increment(1)).unwrap();
    store.mutate(&mut dir, Increment(1)).unwrap();
    assert_eq!(store.journal_file_length(), 18);
    assert_eq!(dir.state, Some(cbor(0)));
    store.mutate(&mut dir, Increment(1)).unwrap();
    assert_eq!(store.journal_file_length(), 0);
    assert_eq!(dir, compacted(3));
}

#[test]
fn maximum_of_zero_compacts_after_every_mutation() {
    let mut dir = Directory::new();
    let mut builder = counting();
    builder.max_journal_file_length(Some(0));
    let mut store = builder.open(&mut dir).unwrap();
    assert_eq!(store.mutate(&mut dir, Increment(5)).unwrap(), 5);
    assert_eq!(store.journal_file_length(), 0);
    assert_eq!(dir, compacted(5));
    assert_eq!(store.mutate(&mut dir, Increment(3)).unwrap(), 8);
    assert_eq!(store.journal_file_length(), 0);
    assert_eq!(dir, compacted(8));
    assert_eq!(store.get(), &Counter { count: 8 });
}

#[test]
fn without_a_maximum_the_journal_only_grows() {
    let mut dir = Directory::new();
    let mut builder = counting();
    builder.max_journal_file_length(None);
    let mut store = builder.open(&mut dir).unwrap();
    for _ in 0..500 {
        store.mutate(&mut dir, Increment(1)).unwrap();
    }
    assert_eq!(store.journal_file_length(), 4500);
    assert_eq!(dir.journal.as_ref().map(|j| j.len()), Some(4500));
    assert_eq!(dir.state, Some(cbor(0)));
    let reopened = builder.open(&mut dir).unwrap();
    assert_eq!(reopened.get(), &Counter { count: 500 });
}

#[test]
fn compact_leaves_a_snapshot_of_the_live_data() {
    let mut dir = Directory::new();
    let mut store = counting().open(&mut dir).unwrap();
    store.mutate(&mut dir, Increment(41)).unwrap();
    store.mutate(&mut dir, Increment(1)).unwrap();
    store.compact(&mut dir).unwrap();
    assert_eq!(store.journal_file_length(), 0);
    assert_eq!(dir.journal, Some(vec![]));
    assert_eq!(dir.transitional, None);
    let state = dir.state.clone().unwrap();
    assert_eq!(Counter::decode(&state).unwrap(), Counter { count: 42 });
    assert_eq!(store.get(), &Counter { count: 42 });
}

#[test]
fn compaction_lists_its_operations_in_order() {
    let mut dir = Directory::new();
    let mut store = counting().open(&mut dir).unwrap();
    store.mutate(&mut dir, Increment(6)).unwrap();
    assert_eq!(
        store.compaction().unwrap(),
        vec![
            FileOp::WriteTransitional { bytes: cbor(6) },
            FileOp::RemoveState,
            FileOp::ClearJournal,
            FileOp::PromoteTransitional,
        ]
    );
    assert_eq!(store.journal_file_length(), 9);
}

#[test]
fn compaction_done_resets_the_length_once_the_journal_is_cleared() {
    let mut dir = Directory::new();
    let mut store = counting().open(&mut dir).unwrap();
    store.mutate(&mut dir, Increment(6)).unwrap();
    store.compaction_done(0);
    assert_eq!(store.journal_file_length(), 9);
    store.compaction_done(2);
    assert_eq!(store.journal_file_length(), 9);
    store.compaction_done(3);
    assert_eq!(store.journal_file_length(), 0);
    store.mutate(&mut dir, Increment(6)).unwrap();
    store.compaction_done(4);
    assert_eq!(store.journal_file_length(), 0);
    assert_eq!(store.get(), &Counter { count: 12 });
}

#[test]
fn compact_without_a_journal_breaks_off() {
    let mut dir = Directory::new();
    let mut store = counting().open(&mut dir).unwrap();
    store.mutate(&mut dir, Increment(6)).unwrap();
    dir.journal = None;
    assert!(matches!(store.compact(&mut dir), Err(Error::Io(_))));
    assert_eq!(dir, Directory { state: None, journal: None, transitional: Some(cbor(6)) });
    assert_eq!(store.journal_file_length(), 9);
    let recovered = counting().open(&mut dir).unwrap();
    assert_eq!(recovered.get(), &Counter { count: 6 });
}

#[test]
fn compact_of_unencodable_data_touches_nothing() {
    let mut dir = Directory::new();
    let mut store = counting().open(&mut dir).unwrap();
    store.mutate(&mut dir, Increment(i64::MIN)).unwrap();
    let before = dir.clone();
    assert!(matches!(store.compact(&mut dir), Err(Error::Cbor(_))));
    assert!(matches!(store.compaction(), Err(Error::Cbor(_))));
    assert_eq!(dir, before);
    assert_eq!(store.journal_file_length(), 8 + cbor(i64::MIN).len());
}

#[test]
fn mutate_with_an_unencodable_mutation_changes_nothing() {
    let mut dir = Directory::new();
    let mut store = counting().open(&mut dir).unwrap();
    let before = dir.clone();
    assert!(matches!(store.mutate(&mut dir, Increment(i64::MAX)), Err(Error::Cbor(_))));
    assert_eq!(dir, before);
    assert_eq!(store.get(), &Counter { count: 0 });
    assert_eq!(store.journal_file_length(), 0);
}

#[test]
fn mutate_stays_applied_when_the_forced_compaction_fails() {
    let mut dir = Directory::new();
    let mut store = counting().open(&mut dir).unwrap();
    store.mutate(&mut dir, Increment(2)).unwrap();
    dir.journal = None;
    assert!(matches!(store.mutate(&mut dir, Increment(5)), Err(Error::Io(_))));
    assert_eq!(store.get(), &Counter { count: 7 });
    assert_eq!(store.journal_file_length(), 9);
    assert_eq!(dir, Directory { state: None, journal: None, transitional: Some(cbor(7)) });
    let recovered = counting().open(&mut dir).unwrap();
    assert_eq!(recovered.get(), &Counter { count: 7 });
}

#[test]
fn mutate_stays_applied_when_the_snapshot_cannot_be_encoded() {
    let mut dir = Directory::new();
    let mut builder = counting();
    builder.max_journal_file_length(Some(0));
    let mut store = builder.open(&mut dir).unwrap();
    assert!(matches!(store.mutate(&mut dir, Increment(i64::MIN)), Err(Error::Cbor(_))));
    assert_eq!(store.get(), &Counter { count: i64::MIN });
    let record = frame(1, &cbor(i64::MIN));
    assert_eq!(store.journal_file_length(), record.len());
    assert_eq!(dir, Directory { state: Some(cbor(0)), journal: Some(record), transitional: None });
}

#[test]
fn mutation_that_compacts_survives_a_reopen() {
    let mut dir = Directory::new();
    let mut builder = counting();
    builder.max_journal_file_length(Some(0));
    let mut store = builder.open(&mut dir).unwrap();
    store.mutate(&mut dir, Increment(5)).unwrap();
    assert_eq!(store.get(), &Counter { count: 5 });
    let reopened = builder.open(&mut dir).unwrap();
    assert_eq!(reopened.get(), &Counter { count: 5 });
}

#[test]
fn round_trip_holds_under_every_maximum() {
    let changes = [5i64, -3, 1000, 7, -70000, 1, 1, 2];
    for max in [None, Some(0), Some(9), Some(10), Some(25), Some(1000)] {
        let mut dir = Directory::new();
        let mut builder = counting();
        builder.max_journal_file_length(max);
        let mut store = builder.open(&mut dir).unwrap();
        let mut expected = 0;
        for change in changes.iter() {
            expected += *change;
            assert_eq!(store.mutate(&mut dir, Increment(*change)).unwrap(), expected);
            let mut copy = dir.clone();
            let reopened = builder.open(&mut copy).unwrap();
            assert_eq!(reopened.get(), &Counter { count: expected });
        }
    }
}

#[test]
fn failed_write_is_folded_into_the_forced_compaction() {
    let mut dir = Directory::new();
    let mut store = counting().open(&mut dir).unwrap();
    store.mutate(&mut dir, Increment(2)).unwrap();
    let op = store.record(&Increment(5)).unwrap();
    assert_eq!(store.apply(Increment(5)), 7);
    let failed = Err(std::io::Error::new(std::io::ErrorKind::Other, "disk full"));
    assert!(store.recorded(&op, &failed));
    assert_eq!(store.journal_file_length(), 9);
    let script = store.compaction().unwrap();
    assert_eq!(script[0], FileOp::WriteTransitional { bytes: cbor(7) });
    let (done, result) = dir.run(&script);
    assert!(result.is_ok());
    store.compaction_done(done);
    assert_eq!(store.get(), &Counter { count: 7 });
    assert_eq!(store.journal_file_length(), 0);
    assert_eq!(dir, compacted(7));
    let reopened = counting().open(&mut dir).unwrap();
    assert_eq!(reopened.get(), &Counter { count: 7 });
}

#[test]
fn open_fails_on_a_record_of_an_unregistered_type() {
    let mut journal = frame(1, &cbor(5));
    journal.extend_from_slice(&frame(77, &cbor(1)));
    journal.extend_from_slice(&frame(1, &cbor(2)));
    let mut dir = Directory { state: Some(cbor(0)), journal: Some(journal), transitional: None };
    let before = dir.clone();
    match counting().open(&mut dir) {
        Err(Error::UnregisteredMutation { id }) => assert_eq!(id, 77),
        _ => panic!("expected the unregistered-mutation error"),
    }
    assert_eq!(dir, before);
}

#[test]
fn open_without_registrations_fails_on_the_first_record() {
    let mut dir =
        Directory { state: Some(cbor(0)), journal: Some(frame(1, &cbor(5))), transitional: None };
    match Builder::<Counter, Empty>::new().open(&mut dir) {
        Err(Error::UnregisteredMutation { id }) => assert_eq!(id, 1),
        _ => panic!("expected the unregistered-mutation error"),
    }
}

#[test]
fn open_fails_on_a_snapshot_that_does_not_decode() {
    let mut dir =
        Directory { state: Some(vec![0xff, 0xff, 0xff]), journal: Some(vec![]), transitional: None };
    assert!(matches!(counting().open(&mut dir), Err(Error::Cbor(_))));
}

#[test]
fn open_fails_on_a_payload_that_does_not_decode() {
    let journal = frame(1, &[0xff, 0xff, 0xff]);
    let mut dir = Directory { state: Some(cbor(0)), journal: Some(journal), transitional: None };
    assert!(matches!(counting().open(&mut dir), Err(Error::Cbor(_))));
}

#[test]
fn open_promotes_a_transitional_snapshot_left_alone() {
    let mut dir = Directory { state: None, journal: None, transitional: Some(cbor(42)) };
    let store = counting().open(&mut dir).unwrap();
    assert_eq!(store.get(), &Counter { count: 42 });
    assert_eq!(dir, compacted(42));
}

#[test]
fn open_drops_a_journal_that_has_no_snapshot() {
    let mut with_transitional = Directory {
        state: None,
        journal: Some(frame(1, &cbor(5))),
        transitional: Some(cbor(42)),
    };
    let store = counting().open(&mut with_transitional).unwrap();
    assert_eq!(store.get(), &Counter { count: 42 });
    assert_eq!(with_transitional, compacted(42));
    let mut alone = Directory { state: None, journal: Some(frame(1, &cbor(5))), transitional: None };
    let fresh = counting().open(&mut alone).unwrap();
    assert_eq!(fresh.get(), &Counter { count: 0 });
    assert_eq!(alone, compacted(0));
}

#[test]
fn open_drops_a_transitional_snapshot_beside_a_snapshot() {
    let mut dir = Directory {
        state: Some(cbor(7)),
        journal: Some(frame(1, &cbor(5))),
        transitional: Some(cbor(1000)),
    };
    let store = counting().open(&mut dir).unwrap();
    assert_eq!(store.get(), &Counter { count: 12 });
    assert_eq!(dir, compacted(12));
}

#[test]
fn open_without_a_journal_loads_the_snapshot() {
    let mut dir = Directory { state: Some(cbor(7)), journal: None, transitional: None };
    let store = counting().open(&mut dir).unwrap();
    assert_eq!(store.get(), &Counter { count: 7 });
    assert_eq!(dir, compacted(7));
}

#[test]
fn crash_during_compaction_keeps_old_or_new_data() {
    let mut live = Directory::new();
    let mut store = counting().open(&mut live).unwrap();
    store.mutate(&mut live, Increment(5)).unwrap();
    store.mutate(&mut live, Increment(3)).unwrap();
    let script = store.compaction().unwrap();
    for done in 0..=script.len() {
        let mut crashed = live.clone();
        let (ran, result) = crashed.run(&script[..done].to_vec());
        assert_eq!(ran, done);
        assert!(result.is_ok());
        let reopened = counting().open(&mut crashed).unwrap();
        assert_eq!(reopened.get(), &Counter { count: 8 });
        assert_eq!(crashed, compacted(8));
    }
}

#[test]
fn journal_cut_at_any_byte_loads_the_whole_records() {
    let values = [5i64, 300, -70000, 1];
    let mut journal = Vec::new();
    let mut ends = Vec::new();
    for value in values.iter() {
        journal.extend_from_slice(&frame(1, &cbor(*value)));
        ends.push(journal.len());
    }
    for cut in 0..=journal.len() {
        let mut dir = Directory {
            state: Some(cbor(10)),
            journal: Some(journal[..cut].to_vec()),
            transitional: None,
        };
        let store = counting().open(&mut dir).unwrap();
        let mut expected = 10;
        for (value, end) in values.iter().zip(ends.iter()) {
            if *end <= cut {
                expected += *value;
            }
        }
        assert_eq!(store.get(), &Counter { count: expected });
    }
}

#[test]
fn reopening_a_compacted_directory_keeps_the_snapshot_bytes() {
    let mut dir = Directory::new();
    let mut store = counting().open(&mut dir).unwrap();
    store.mutate(&mut dir, Increment(9)).unwrap();
    store.compact(&mut dir).unwrap();
    let before = dir.clone();
    let reopened = counting().open(&mut dir).unwrap();
    assert_eq!(reopened.get(), &Counter { count: 9 });
    assert_eq!(dir, before);
    let again = counting().open(&mut dir).unwrap();
    assert_eq!(again.get(), &Counter { count: 9 });
    assert_eq!(dir, before);
}

#[test]
fn load_without_a_snapshot_is_nothing() {
    let builder = counting();
    let journal = frame(1, &cbor(5));
    let loaded = Survive::<Counter>::load(None, Some(&journal), builder.registry_ref()).unwrap();
    assert_eq!(loaded, None);
}

#[test]
fn load_replays_the_journal_on_the_snapshot() {
    let builder = counting();
    let mut journal = frame(1, &cbor(5));
    journal.extend_from_slice(&frame(1, &cbor(6)));
    let state = cbor(100);
    let with_journal =
        Survive::<Counter>::load(Some(&state), Some(&journal), builder.registry_ref()).unwrap();
    assert_eq!(with_journal, Some(Counter { count: 111 }));
    let without = Survive::<Counter>::load(Some(&state), None, builder.registry_ref()).unwrap();
    assert_eq!(without, Some(Counter { count: 100 }));
}

#[test]
fn restore_comes_with_the_operations_that_finish_the_opening() {
    let state = cbor(3);
    let journal = frame(1, &cbor(4));
    let (store, script) = counting().restore(Some(&state), Some(&journal)).unwrap();
    assert_eq!(store.get(), &Counter { count: 7 });
    assert_eq!(store.journal_file_length(), 0);
    assert_eq!(
        script,
        vec![
            FileOp::OpenJournal,
            FileOp::WriteTransitional { bytes: cbor(7) },
            FileOp::RemoveState,
            FileOp::ClearJournal,
            FileOp::PromoteTransitional,
        ]
    );
}

#[test]
fn restore_without_a_snapshot_starts_from_the_default() {
    let (store, script) = counting().restore(None, None).unwrap();
    assert_eq!(store.get(), &Counter { count: 0 });
    assert_eq!(script.len(), 5);
    assert_eq!(script[1], FileOp::WriteTransitional { bytes: cbor(0) });
}

#[test]
fn builder_starts_with_the_default_settings() {
    let builder = Builder::<Counter, Empty>::new();
    assert_eq!(
        builder.options_value(),
        Options { max_journal_file_length: Some(10_485_760), use_journal_buffer: true }
    );
    assert_eq!(DEFAULT_MAX_JOURNAL_FILE_LENGTH, 10 * 1024 * 1024);
    assert_eq!(Options::default(), builder.options_value());
    assert!(!builder.is_registered(1));
}

#[test]
fn builder_setters_change_one_setting_each() {
    let mut builder = counting();
    builder.max_journal_file_length(Some(7)).use_journal_buffer(false);
    assert_eq!(
        builder.options_value(),
        Options { max_journal_file_length: Some(7), use_journal_buffer: false }
    );
    builder.max_journal_file_length(None);
    assert_eq!(
        builder.options_value(),
        Options { max_journal_file_length: None, use_journal_buffer: false }
    );
    builder.use_journal_buffer(true);
    assert_eq!(
        builder.options_value(),
        Options { max_journal_file_length: None, use_journal_buffer: true }
    );
    assert!(builder.is_registered(1));
    assert!(builder.is_registered(2));
}

#[test]
fn register_adds_one_identifier() {
    let none = Builder::<Counter, Empty>::new();
    assert!(!none.is_registered(1));
    let one = none.register::<Increment>();
    assert!(one.is_registered(1));
    assert!(!one.is_registered(2));
    let two = one.register::<Reset>();
    assert!(two.is_registered(1));
    assert!(two.is_registered(2));
    assert!(!two.is_registered(3));
}

#[test]
fn dispatch_applies_the_decoded_mutation() {
    let builder = counting();
    let mut data = Counter { count: 1 };
    builder.registry_ref().dispatch(1, &cbor(41), &mut data).unwrap();
    assert_eq!(data, Counter { count: 42 });
    builder.registry_ref().dispatch(2, &serde_cbor::to_vec(&()).unwrap(), &mut data).unwrap();
    assert_eq!(data, Counter { count: 0 });
}

#[test]
fn dispatch_leaves_the_data_alone_on_failure() {
    let builder = counting();
    let mut data = Counter { count: 1 };
    match builder.registry_ref().dispatch(9, &cbor(41), &mut data) {
        Err(Error::UnregisteredMutation { id }) => assert_eq!(id, 9),
        _ => panic!("expected the unregistered-mutation error"),
    }
    assert!(matches!(
        builder.registry_ref().dispatch(1, &[0xff], &mut data),
        Err(Error::Cbor(_))
    ));
    assert_eq!(data, Counter { count: 1 });
    assert!(matches!(
        Registry::<Counter>::dispatch(&Empty, 1, &cbor(1), &mut data),
        Err(Error::UnregisteredMutation { id: 1 })
    ));
}

#[test]
fn errors_convert_from_their_sources() {
    let from_cbor: Error = cbor_failure().into();
    assert!(matches!(from_cbor, Error::Cbor(_)));
    let from_io: Error = std::io::Error::new(std::io::ErrorKind::Other, "no").into();
    assert!(matches!(from_io, Error::Io(_)));
}

#[derive(Debug, Default, PartialEq, Eq)]
struct Hooked {
    value: i64,
    loads: u32,
}

impl Survivable for Hooked {
    fn encode(&self) -> Result<Vec<u8>, serde_cbor::Error> {
        serde_cbor::to_vec(&self.value)
    }

    fn decode(bytes: &[u8]) -> Result<Self, serde_cbor::Error> {
        let value: i64 = serde_cbor::from_slice(bytes)?;
        Ok(Hooked { value, loads: 0 })
    }

    fn state_loaded(&mut self) {
        self.loads += 1;
        self.value *= 2;
    }
}

struct Add(i64);

impl Mutation<Hooked> for Add {
    const ID: u32 = 5;
    type Result = ();

    fn encode(&self) -> Result<Vec<u8>, serde_cbor::Error> {
        serde_cbor::to_vec(&self.0)
    }

    fn decode(bytes: &[u8]) -> Result<Self, serde_cbor::Error> {
        let by: i64 = serde_cbor::from_slice(bytes)?;
        Ok(Add(by))
    }

    fn mutate(self, data: &mut Hooked) {
        data.value += self.0;
    }
}

#[test]
fn state_loaded_runs_on_the_default_value() {
    let mut dir = Directory::new();
    let store = Builder::<Hooked, Empty>::new().register::<Add>().open(&mut dir).unwrap();
    assert_eq!(store.get(), &Hooked { value: 0, loads: 1 });
}

#[test]
fn state_loaded_runs_between_snapshot_and_journal() {
    let mut dir =
        Directory { state: Some(cbor(10)), journal: Some(frame(5, &cbor(1))), transitional: None };
    let store = Builder::<Hooked, Empty>::new().register::<Add>().open(&mut dir).unwrap();
    assert_eq!(store.get(), &Hooked { value: 21, loads: 1 });
    assert_eq!(dir.state, Some(cbor(21)));
}
