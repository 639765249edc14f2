//! The journal format: one frame per applied mutation, each frame made of a
//! little-endian `u32` type identifier, a little-endian `u32` payload length
//! and the payload itself.

use crate::error::{ignore_eof, is_unexpected_eof, Error};
use byteorder::{ByteOrder, LittleEndian, ReadBytesExt};
use vstd::prelude::*;
use vstd::slice::{slice_subrange, slice_to_vec};

verus! {

/// The number of bytes in front of a frame's payload.
pub const HEADER_LEN: usize = 8;

/// The four bytes of `n`, least significant first.
pub open spec fn le_bytes(n: u32) -> Seq<u8> {
    seq![
        (n % 256) as u8,
        ((n / 256) % 256) as u8,
        ((n / 65536) % 256) as u8,
        (n / 16777216) as u8,
    ]
}

/// The number whose little-endian form is the first four bytes of `bytes`.
pub open spec fn le_value(bytes: Seq<u8>) -> int
    recommends
        bytes.len() >= 4,
{
    bytes[0] + 256 * bytes[1] + 65536 * bytes[2] + 16777216 * bytes[3]
}

/// One journal record as a mathematical value.
pub struct Entry {
    pub type_id: u32,
    pub payload: Seq<u8>,
}

/// One journal record.
#[derive(Clone, Debug, PartialEq, Eq)]
pub struct Record {
    /// The identifier of the mutation type.
    pub type_id: u32,
    /// The serialised mutation.
    pub payload: Vec<u8>,
}

impl View for Record {
    type V = Entry;

    open spec fn view(&self) -> Entry {
        Entry { type_id: self.type_id, payload: self.payload@ }
    }
}

/// The length field of a frame: the payload's length, reduced modulo 2^32.
pub open spec fn length_field(len: nat) -> u32 {
    (len % 0x1_0000_0000) as u32
}

/// The bytes of the frame that records `payload` under `type_id`.
pub open spec fn frame(type_id: u32, payload: Seq<u8>) -> Seq<u8> {
    le_bytes(type_id) + le_bytes(length_field(payload.len())) + payload
}

/// The first whole frame of `bytes`, if `bytes` start with one.
///
/// There is none where the bytes end inside the header or inside the
/// payload that the header announces.
pub open spec fn first_record(bytes: Seq<u8>) -> Option<Entry> {
    if bytes.len() < HEADER_LEN {
        None
    } else {
        let len = le_value(bytes.subrange(4, 8));
        if bytes.len() - HEADER_LEN < len {
            None
        } else {
            Some(
                Entry {
                    type_id: le_value(bytes) as u32,
                    payload: bytes.subrange(HEADER_LEN as int, HEADER_LEN + len),
                },
            )
        }
    }
}

/// The whole frames at the front of `bytes`, in file order. Whatever follows
/// the last whole frame is a torn record and counts as absent.
pub open spec fn records(bytes: Seq<u8>) -> Seq<Entry>
    decreases bytes.len(),
{
    match first_record(bytes) {
        None => Seq::empty(),
        Some(entry) => seq![entry] + records(bytes.skip(HEADER_LEN + entry.payload.len())),
    }
}

/// The journal that holds exactly `entries`.
pub open spec fn frames(entries: Seq<Entry>) -> Seq<u8>
    decreases entries.len(),
{
    if entries.len() == 0 {
        Seq::empty()
    } else {
        frame(entries[0].type_id, entries[0].payload) + frames(entries.skip(1))
    }
}

/// Calls `byteorder::ByteOrder::write_u32` of `LittleEndian` on a buffer of
/// four bytes. The contract states the byte order that the crate documents:
/// the least significant byte comes first.
#[verifier::external_body]
fn u32_to_le(n: u32) -> (bytes: Vec<u8>)
    ensures
        bytes@ == le_bytes(n),
{
    let mut buf = [0u8; 4];
    LittleEndian::write_u32(&mut buf, n);
    buf.to_vec()
}

/// Calls `byteorder::ReadBytesExt::read_u32` with `LittleEndian` on `input`
/// as a reader. The crate reads four bytes with `Read::read_exact` and
/// combines them least significant first; on a slice that is shorter,
/// `read_exact` fails with `ErrorKind::UnexpectedEof`.
#[verifier::external_body]
fn u32_from_le(input: &[u8]) -> (r: Result<u32, std::io::Error>)
    ensures
        input@.len() >= 4 ==> r is Ok && r->Ok_0 == le_value(input@),
        input@.len() < 4 ==> r is Err && is_unexpected_eof(r->Err_0),
{
    let mut reader = input;
    reader.read_u32::<LittleEndian>()
}

/// Appends the frame of one record to `out`.
pub fn write_record(out: &mut Vec<u8>, type_id: u32, payload: &[u8])
    ensures
        final(out)@ == old(out)@ + frame(type_id, payload@),
{
    let wide: u64 = payload.len() as u64;
    let len: u32 = (wide % 0x1_0000_0000) as u32;
    let mut id_bytes = u32_to_le(type_id);
    let mut len_bytes = u32_to_le(len);
    let mut body = slice_to_vec(payload);
    out.append(&mut id_bytes);
    out.append(&mut len_bytes);
    out.append(&mut body);
    assert(out@ =~= old(out)@ + frame(type_id, payload@));
}

/// Reads the frame at the front of `input`.
///
/// Returns the record and the number of bytes it occupies, or `None` where
/// `input` does not start with a whole frame: at the clean end of a journal
/// as well as in front of a torn record.
pub fn read_record(input: &[u8]) -> (r: Result<Option<(Record, usize)>, Error>)
    ensures
        r is Ok,
        match first_record(input@) {
            Some(entry) => {
                &&& r->Ok_0 is Some
                &&& r->Ok_0->Some_0.0@ == entry
                &&& r->Ok_0->Some_0.1 == HEADER_LEN + entry.payload.len()
            },
            None => r->Ok_0 is None,
        },
{
    let type_id = match ignore_eof(u32_from_le(input))? {
        Some(type_id) => type_id,
        None => {
            return Ok(None);
        },
    };
    let after_id = slice_subrange(input, 4, input.len());
    let length = match ignore_eof(u32_from_le(after_id))? {
        Some(length) => length as usize,
        None => {
            return Ok(None);
        },
    };
    assert(after_id@ =~= input@.subrange(4, input@.len() as int));
    assert(le_value(after_id@) == le_value(input@.subrange(4, 8)));
    if input.len() - HEADER_LEN < length {
        return Ok(None);
    }
    let payload = slice_to_vec(slice_subrange(input, HEADER_LEN, HEADER_LEN + length));
    Ok(Some((Record { type_id, payload }, HEADER_LEN + length)))
}

/// Whether every payload of `entries` is short enough for its length to fit
/// the length field of a frame.
pub open spec fn framable(entries: Seq<Entry>) -> bool {
    forall|i: int| 0 <= i < entries.len() ==> (#[trigger] entries[i]).payload.len() <= u32::MAX
}

/// The number of records at the front of `entries` whose frames lie wholly
/// within the first `cut` bytes of `frames(entries)`.
pub open spec fn whole_records(entries: Seq<Entry>, cut: nat) -> nat
    decreases entries.len(),
{
    if entries.len() == 0 {
        0
    } else {
        let size = frame(entries[0].type_id, entries[0].payload).len();
        if cut < size {
            0
        } else {
            1 + whole_records(entries.skip(1), (cut - size) as nat)
        }
    }
}

/// Four bytes in little-endian order stand for the number they were made from.
pub proof fn lemma_le_round_trip(n: u32)
    ensures
        le_bytes(n).len() == 4,
        le_value(le_bytes(n)) == n,
{
}

/// A frame is its header and its payload, and reads back as the record it
/// was made from, whatever follows it.
pub proof fn lemma_frame_reads_back(type_id: u32, payload: Seq<u8>, rest: Seq<u8>)
    requires
        payload.len() <= u32::MAX,
    ensures
        frame(type_id, payload).len() == HEADER_LEN + payload.len(),
        first_record(frame(type_id, payload) + rest) == Some(Entry { type_id, payload }),
        (frame(type_id, payload) + rest).skip(HEADER_LEN + payload.len()) == rest,
{
    let bytes = frame(type_id, payload) + rest;
    let len = length_field(payload.len());
    lemma_le_round_trip(type_id);
    lemma_le_round_trip(len);
    assert(len == payload.len());
    assert(bytes.subrange(4, 8) =~= le_bytes(len));
    assert(le_value(bytes) == le_value(le_bytes(type_id)));
    assert(bytes.subrange(HEADER_LEN as int, HEADER_LEN + payload.len()) =~= payload);
    assert(bytes.skip(HEADER_LEN + payload.len()) =~= rest);
}

/// The bytes of a journal cut off inside its first frame hold no record.
pub proof fn lemma_torn_frame(type_id: u32, payload: Seq<u8>, cut: nat)
    requires
        payload.len() <= u32::MAX,
        cut < frame(type_id, payload).len(),
    ensures
        first_record(frame(type_id, payload).take(cut as int)) is None,
        records(frame(type_id, payload).take(cut as int)) == Seq::<Entry>::empty(),
{
    let whole = frame(type_id, payload);
    let torn = whole.take(cut as int);
    let len = length_field(payload.len());
    lemma_le_round_trip(len);
    assert(len == payload.len());
    if cut >= HEADER_LEN {
        assert(torn.subrange(4, 8) =~= le_bytes(len));
    }
}

/// Whole frames in front of further bytes are read back as the framed
/// records, followed by the records of the further bytes.
pub proof fn lemma_records_of_frames(entries: Seq<Entry>, rest: Seq<u8>)
    requires
        framable(entries),
    ensures
        records(frames(entries) + rest) == entries + records(rest),
    decreases entries.len(),
{
    if entries.len() == 0 {
        assert(frames(entries) + rest =~= rest);
        assert(entries + records(rest) =~= records(rest));
    } else {
        let head = entries[0];
        let tail = entries.skip(1);
        let first = frame(head.type_id, head.payload);
        lemma_framable_tail(entries);
        lemma_records_of_frames(tail, rest);
        lemma_frame_reads_back(head.type_id, head.payload, frames(tail) + rest);
        assert(frames(entries) + rest =~= first + (frames(tail) + rest));
        assert(entries + records(rest) =~= seq![head] + (tail + records(rest)));
    }
}

/// A journal made of whole frames reads back as exactly the framed records.
pub proof fn lemma_journal_reads_back(entries: Seq<Entry>)
    requires
        framable(entries),
    ensures
        records(frames(entries)) == entries,
{
    let nothing = Seq::<u8>::empty();
    lemma_records_of_frames(entries, nothing);
    assert(frames(entries) + nothing =~= frames(entries));
    assert(entries + records(nothing) =~= entries);
}

proof fn lemma_framable_tail(entries: Seq<Entry>)
    requires
        framable(entries),
        entries.len() > 0,
    ensures
        framable(entries.skip(1)),
{
    let tail = entries.skip(1);
    assert forall|i: int| 0 <= i < tail.len() implies (#[trigger] tail[i]).payload.len()
        <= u32::MAX by {
        assert(tail[i] == entries[i + 1]);
    }
}

/// A journal cut off at any byte reads back as the records that lie wholly
/// in front of the cut, and as nothing else: a record that the cut runs
/// through is never read.
pub proof fn lemma_truncated_journal(entries: Seq<Entry>, cut: nat)
    requires
        framable(entries),
        cut <= frames(entries).len(),
    ensures
        whole_records(entries, cut) <= entries.len(),
        records(frames(entries).take(cut as int)) == entries.take(
            whole_records(entries, cut) as int,
        ),
    decreases entries.len(),
{
    if entries.len() == 0 {
        assert(frames(entries).take(cut as int) =~= Seq::<u8>::empty());
        assert(entries.take(0) =~= Seq::<Entry>::empty());
    } else {
        let head = entries[0];
        let tail = entries.skip(1);
        let first = frame(head.type_id, head.payload);
        lemma_frame_reads_back(head.type_id, head.payload, frames(tail));
        if cut < first.len() {
            assert(frames(entries).take(cut as int) =~= first.take(cut as int));
            lemma_torn_frame(head.type_id, head.payload, cut);
            assert(entries.take(0) =~= Seq::<Entry>::empty());
        } else {
            let left = (cut - first.len()) as nat;
            lemma_framable_tail(entries);
            lemma_truncated_journal(tail, left);
            let kept = frames(tail).take(left as int);
            assert(frames(entries).take(cut as int) =~= first + kept);
            lemma_frame_reads_back(head.type_id, head.payload, kept);
            assert(entries.take(1 + whole_records(tail, left) as int) =~= seq![head] + tail.take(
                whole_records(tail, left) as int,
            ));
        }
    }
}

/// Every record that is read from a journal has a payload short enough to
/// be framed again.
pub proof fn lemma_records_are_framable(bytes: Seq<u8>)
    ensures
        framable(records(bytes)),
    decreases bytes.len(),
{
    match first_record(bytes) {
        None => {},
        Some(entry) => {
            let rest = bytes.skip(HEADER_LEN + entry.payload.len());
            lemma_records_are_framable(rest);
            let found = records(bytes);
            assert forall|i: int| 0 <= i < found.len() implies (#[trigger] found[i]).payload.len()
                <= u32::MAX by {
                if i > 0 {
                    assert(found[i] == records(rest)[i - 1]);
                }
            }
        },
    }
}

/// The journal of some records and one more is the journal of the records
/// followed by the frame of the one.
pub proof fn lemma_frames_of_one_more(entries: Seq<Entry>, entry: Entry)
    ensures
        frames(entries.push(entry)) == frames(entries) + frame(entry.type_id, entry.payload),
    decreases entries.len(),
{
    let more = entries.push(entry);
    let last = frame(entry.type_id, entry.payload);
    if entries.len() == 0 {
        assert(more.skip(1) =~= Seq::<Entry>::empty());
        assert(frames(more) =~= last + frames(more.skip(1)));
        assert(frames(entries) + last =~= last);
    } else {
        lemma_frames_of_one_more(entries.skip(1), entry);
        assert(more.skip(1) =~= entries.skip(1).push(entry));
        assert(more[0] == entries[0]);
        assert(frames(more) =~= frames(entries) + last);
    }
}

} // verus!
