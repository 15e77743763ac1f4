//! One `blktrace` record: its fixed 48-byte layout, the detection and
//! correction of its byte order, and what its fields mean.

use crate::error::Error;
use crate::text::{decimal, padded, push_decimal, push_padded};
use crate::wire::{
    byte, bytes16, bytes32, bytes64, le16_at, le32_at, le64_at, lemma_bytes_round_trip,
    lemma_swap_involution, read_le16, read_le32, read_le64, spec_swap16, spec_swap32,
    spec_swap64, swap16, swap32, swap64,
};
use vstd::prelude::*;

verus! {

/// The upper 24 bits of every record's `magic`; the low byte is the version.
pub const BLK_IO_TRACE_MAGIC: u32 = 0x6561_7400;

/// The version that current kernels write into the low byte of `magic`.
pub const BLK_IO_TRACE_VERSION: u32 = 0x07;

/// Size of the fixed part of a record on the wire.
pub const TRACE_SIZE: usize = 48;

/// Category bits live in the upper half of `action`.
pub const BLK_TC_SHIFT: u32 = 16;

/// Category bit: reads.
pub const BLK_TC_READ: u32 = 0x0001;

/// Category bit: writes.
pub const BLK_TC_WRITE: u32 = 0x0002;

/// Category bit: synchronous requests.
pub const BLK_TC_SYNC: u32 = 0x0008;

/// Category bit: notifications of the tracer itself.
pub const BLK_TC_NOTIFY: u32 = 0x0400;

/// Category bit: discards.
pub const BLK_TC_DISCARD: u32 = 0x2000;

/// Category bit: data of a driver.
pub const BLK_TC_DRV_DATA: u32 = 0x4000;

/// Action kind: queued.
pub const BLK_TA_QUEUE: u32 = 1;

/// Action kind: merged behind a queued request.
pub const BLK_TA_BACKMERGE: u32 = 2;

/// Action kind: merged in front of a queued request.
pub const BLK_TA_FRONTMERGE: u32 = 3;

/// Action kind: request allocated.
pub const BLK_TA_GETRQ: u32 = 4;

/// Action kind: waited for a request.
pub const BLK_TA_SLEEPRQ: u32 = 5;

/// Action kind: put back into the queue.
pub const BLK_TA_REQUEUE: u32 = 6;

/// Action kind: issued to the driver.
pub const BLK_TA_ISSUE: u32 = 7;

/// Action kind: completed.
pub const BLK_TA_COMPLETE: u32 = 8;

/// Action kind: queue plugged.
pub const BLK_TA_PLUG: u32 = 9;

/// Action kind: queue unplugged by a request.
pub const BLK_TA_UNPLUG_IO: u32 = 10;

/// Action kind: queue unplugged by the timer.
pub const BLK_TA_UNPLUG_TIMER: u32 = 11;

/// Action kind: inserted into the queue.
pub const BLK_TA_INSERT: u32 = 12;

/// Action kind: split.
pub const BLK_TA_SPLIT: u32 = 13;

/// Action kind: bounced.
pub const BLK_TA_BOUNCE: u32 = 14;

/// Action kind: remapped.
pub const BLK_TA_REMAP: u32 = 15;

/// Action kind: aborted.
pub const BLK_TA_ABORT: u32 = 16;

/// Action kind: data of a driver.
pub const BLK_TA_DRV_DATA: u32 = 17;

/// A category bit moved to its place in `action`.
pub open spec fn category_mask(category: u32) -> u32 {
    category << BLK_TC_SHIFT
}

/// A category bit moved to its place in `action`.
#[allow(non_snake_case)]
#[verifier::when_used_as_spec(category_mask)]
pub fn BLK_TC_ACT(act: u32) -> (mask: u32)
    ensures
        mask == category_mask(act),
{
    act << BLK_TC_SHIFT
}

/// Whether `action` carries the category bit `category`.
pub open spec fn has_category(action: u32, category: u32) -> bool {
    action & category_mask(category) != 0
}

/// Whether `magic` carries the trace magic in its upper 24 bits.
pub open spec fn valid_magic(magic: u32) -> bool {
    magic & 0xffff_ff00 == BLK_IO_TRACE_MAGIC
}

/// The byte order of a stream, relative to the little-endian order in which
/// the fields are first read.
#[derive(Clone, Copy, Debug, PartialEq, Eq, Structural)]
pub enum Endianness {
    /// Not detected yet, or the magic is valid in neither order.
    Unknown,
    /// The fields are right as read.
    Native,
    /// Every field has to be byte-swapped.
    NonNative,
}

/// The byte order that a magic, as read, gives away.
pub open spec fn endianness_of(magic: u32) -> Endianness {
    if valid_magic(magic) {
        Endianness::Native
    } else if valid_magic(spec_swap32(magic)) {
        Endianness::NonNative
    } else {
        Endianness::Unknown
    }
}

/// The fields of a record, as plain integers.
#[derive(Clone, Copy, Debug, PartialEq, Eq)]
pub struct RawTrace {
    /// Magic in the upper 24 bits, version in the low byte.
    pub magic: u32,
    /// Sequence number within the stream.
    pub sequence: u32,
    /// Nanoseconds since an arbitrary start.
    pub time: u64,
    /// First sector of the request.
    pub sector: u64,
    /// Size of the request in bytes.
    pub bytes: u32,
    /// Action kind in the low 16 bits, category bits above them.
    pub action: u32,
    /// Process that issued the request.
    pub pid: u32,
    /// Major and minor device number.
    pub device: u32,
    /// CPU that logged the event.
    pub cpu: u32,
    /// Error code; 0 for success.
    pub error: u16,
    /// Length of the payload that follows the fixed part.
    pub pdu_len: u16,
}

/// The fields that the first 48 bytes of `b` spell in little-endian order.
pub open spec fn raw_fields(b: Seq<u8>) -> RawTrace {
    RawTrace {
        magic: le32_at(b, 0),
        sequence: le32_at(b, 4),
        time: le64_at(b, 8),
        sector: le64_at(b, 16),
        bytes: le32_at(b, 24),
        action: le32_at(b, 28),
        pid: le32_at(b, 32),
        device: le32_at(b, 36),
        cpu: le32_at(b, 40),
        error: le16_at(b, 44),
        pdu_len: le16_at(b, 46),
    }
}

/// `r` with every field byte-swapped, each by its own width.
pub open spec fn swapped(r: RawTrace) -> RawTrace {
    RawTrace {
        magic: spec_swap32(r.magic),
        sequence: spec_swap32(r.sequence),
        time: spec_swap64(r.time),
        sector: spec_swap64(r.sector),
        bytes: spec_swap32(r.bytes),
        action: spec_swap32(r.action),
        pid: spec_swap32(r.pid),
        device: spec_swap32(r.device),
        cpu: spec_swap32(r.cpu),
        error: spec_swap16(r.error),
        pdu_len: spec_swap16(r.pdu_len),
    }
}

/// `r` brought to host order, given the byte order of its stream.
pub open spec fn corrected(r: RawTrace, endianness: Endianness) -> RawTrace {
    if endianness == Endianness::NonNative {
        swapped(r)
    } else {
        r
    }
}

/// What 48 bytes decode to when the byte order of their stream is already
/// known: the corrected fields, provided that their magic is then valid.
pub open spec fn decoded_as(b: Seq<u8>, endianness: Endianness) -> Result<RawTrace, Error> {
    let r = corrected(raw_fields(b), endianness);
    if valid_magic(r.magic) {
        Ok(r)
    } else {
        Err(Error::BadMagic)
    }
}

/// What 48 bytes decode to on their own: the byte order is taken from their
/// magic.
pub open spec fn decoded(b: Seq<u8>) -> Result<RawTrace, Error> {
    decoded_as(b, endianness_of(raw_fields(b).magic))
}

/// The 48 bytes that spell `r` in little-endian order.
pub open spec fn wire_bytes(r: RawTrace) -> Seq<u8> {
    bytes32(r.magic) + bytes32(r.sequence) + bytes64(r.time) + bytes64(r.sector) + bytes32(
        r.bytes,
    ) + bytes32(r.action) + bytes32(r.pid) + bytes32(r.device) + bytes32(r.cpu) + bytes16(r.error)
        + bytes16(r.pdu_len)
}

impl RawTrace {
    /// Reads the fields from the first 48 bytes of `b`, in little-endian
    /// order.
    pub fn read(b: &[u8]) -> (r: RawTrace)
        requires
            b@.len() >= TRACE_SIZE,
        ensures
            r == raw_fields(b@),
    {
        RawTrace {
            magic: read_le32(b, 0),
            sequence: read_le32(b, 4),
            time: read_le64(b, 8),
            sector: read_le64(b, 16),
            bytes: read_le32(b, 24),
            action: read_le32(b, 28),
            pid: read_le32(b, 32),
            device: read_le32(b, 36),
            cpu: read_le32(b, 40),
            error: read_le16(b, 44),
            pdu_len: read_le16(b, 46),
        }
    }

    /// The record as it lies in a little-endian stream.
    pub fn to_bytes(&self) -> (b: [u8; 48])
        ensures
            b@ == wire_bytes(*self),
    {
        let m: u64 = self.magic as u64;
        let q: u64 = self.sequence as u64;
        let t: u64 = self.time;
        let s: u64 = self.sector;
        let y: u64 = self.bytes as u64;
        let a: u64 = self.action as u64;
        let p: u64 = self.pid as u64;
        let d: u64 = self.device as u64;
        let c: u64 = self.cpu as u64;
        let e: u64 = self.error as u64;
        let l: u64 = self.pdu_len as u64;
        let b: [u8; 48] = [
            byte(m, 0), byte(m, 1), byte(m, 2), byte(m, 3),
            byte(q, 0), byte(q, 1), byte(q, 2), byte(q, 3),
            byte(t, 0), byte(t, 1), byte(t, 2), byte(t, 3),
            byte(t, 4), byte(t, 5), byte(t, 6), byte(t, 7),
            byte(s, 0), byte(s, 1), byte(s, 2), byte(s, 3),
            byte(s, 4), byte(s, 5), byte(s, 6), byte(s, 7),
            byte(y, 0), byte(y, 1), byte(y, 2), byte(y, 3),
            byte(a, 0), byte(a, 1), byte(a, 2), byte(a, 3),
            byte(p, 0), byte(p, 1), byte(p, 2), byte(p, 3),
            byte(d, 0), byte(d, 1), byte(d, 2), byte(d, 3),
            byte(c, 0), byte(c, 1), byte(c, 2), byte(c, 3),
            byte(e, 0), byte(e, 1),
            byte(l, 0), byte(l, 1),
        ];
        assert(b@ =~= wire_bytes(*self));
        b
    }

    /// The byte order that the magic of this record, as read, gives away.
    pub fn get_data_endianness(&self) -> (order: Endianness)
        ensures
            order == endianness_of(self.magic),
    {
        if self.magic & 0xffff_ff00 == BLK_IO_TRACE_MAGIC {
            Endianness::Native
        } else if swap32(self.magic) & 0xffff_ff00 == BLK_IO_TRACE_MAGIC {
            Endianness::NonNative
        } else {
            Endianness::Unknown
        }
    }

    /// Swaps every field in place, each by its own width.
    pub fn correct_endianness(&mut self)
        ensures
            *final(self) == swapped(*old(self)),
    {
        self.magic = swap32(self.magic);
        self.sequence = swap32(self.sequence);
        self.time = swap64(self.time);
        self.sector = swap64(self.sector);
        self.bytes = swap32(self.bytes);
        self.action = swap32(self.action);
        self.pid = swap32(self.pid);
        self.device = swap32(self.device);
        self.cpu = swap32(self.cpu);
        self.error = swap16(self.error);
        self.pdu_len = swap16(self.pdu_len);
    }

    /// Whether the record is a substantive event: one that is neither a
    /// notification, nor a discard, nor driver data.
    pub open spec fn is_real_event(self) -> bool {
        &&& !has_category(self.action, BLK_TC_NOTIFY)
        &&& !has_category(self.action, BLK_TC_DISCARD)
        &&& !has_category(self.action, BLK_TC_DRV_DATA)
    }

    /// The size of the request in 512-byte blocks.
    pub open spec fn block_count(self) -> u32 {
        (self.bytes / 512) as u32
    }
}

/// The class of I/O that a record belongs to.
#[derive(Clone, Copy, Debug, PartialEq, Eq, Structural)]
pub enum IoCategory {
    Unknown,
    Read,
    Write,
    Discard,
}

/// The category that the bits of `action` name. Where several bits are set,
/// write goes before read, and read before discard.
pub open spec fn category_of(action: u32) -> IoCategory {
    if has_category(action, BLK_TC_WRITE) {
        IoCategory::Write
    } else if has_category(action, BLK_TC_READ) {
        IoCategory::Read
    } else if has_category(action, BLK_TC_DISCARD) {
        IoCategory::Discard
    } else {
        IoCategory::Unknown
    }
}

impl IoCategory {
    /// The category of a record.
    pub fn from(trace: &BlkIoTrace) -> (category: IoCategory)
        ensures
            category == category_of(trace@.action),
    {
        let action: u32 = trace.trace().action;
        if (action & BLK_TC_ACT(BLK_TC_WRITE)) != 0 {
            IoCategory::Write
        } else if (action & BLK_TC_ACT(BLK_TC_READ)) != 0 {
            IoCategory::Read
        } else if (action & BLK_TC_ACT(BLK_TC_DISCARD)) != 0 {
            IoCategory::Discard
        } else {
            IoCategory::Unknown
        }
    }
}

/// What happened to a request, as the low 16 bits of `action` name it.
#[derive(Clone, Copy, Debug, PartialEq, Eq, Structural)]
pub enum IoAction {
    Unknown,
    Queue,
    BackMerge,
    FrontMerge,
    GetRequest,
    SleepRequest,
    Requeue,
    Issue,
    Complete,
    Plug,
    UnplugIO,
    UnplugTimer,
    Insert,
    Split,
    Bounce,
    Remap,
    Abort,
    DriverData,
}

/// The action kind that the low 16 bits of `action` name.
pub open spec fn action_of(action: u32) -> IoAction {
    let kind = action & 0xffff;
    if kind == BLK_TA_QUEUE {
        IoAction::Queue
    } else if kind == BLK_TA_BACKMERGE {
        IoAction::BackMerge
    } else if kind == BLK_TA_FRONTMERGE {
        IoAction::FrontMerge
    } else if kind == BLK_TA_GETRQ {
        IoAction::GetRequest
    } else if kind == BLK_TA_SLEEPRQ {
        IoAction::SleepRequest
    } else if kind == BLK_TA_REQUEUE {
        IoAction::Requeue
    } else if kind == BLK_TA_ISSUE {
        IoAction::Issue
    } else if kind == BLK_TA_COMPLETE {
        IoAction::Complete
    } else if kind == BLK_TA_PLUG {
        IoAction::Plug
    } else if kind == BLK_TA_UNPLUG_IO {
        IoAction::UnplugIO
    } else if kind == BLK_TA_UNPLUG_TIMER {
        IoAction::UnplugTimer
    } else if kind == BLK_TA_INSERT {
        IoAction::Insert
    } else if kind == BLK_TA_SPLIT {
        IoAction::Split
    } else if kind == BLK_TA_BOUNCE {
        IoAction::Bounce
    } else if kind == BLK_TA_REMAP {
        IoAction::Remap
    } else if kind == BLK_TA_ABORT {
        IoAction::Abort
    } else if kind == BLK_TA_DRV_DATA {
        IoAction::DriverData
    } else {
        IoAction::Unknown
    }
}

impl IoAction {
    /// The one-letter code of the action kind; sleep-request and split share
    /// `S`, and an unknown kind is shown as `?`.
    pub open spec fn letter(self) -> char {
        match self {
            IoAction::Queue => 'Q',
            IoAction::BackMerge => 'M',
            IoAction::FrontMerge => 'F',
            IoAction::GetRequest => 'G',
            IoAction::SleepRequest => 'S',
            IoAction::Requeue => 'R',
            IoAction::Issue => 'I',
            IoAction::Complete => 'C',
            IoAction::Plug => 'P',
            IoAction::UnplugIO => 'U',
            IoAction::UnplugTimer => 'T',
            IoAction::Insert => 'A',
            IoAction::Split => 'S',
            IoAction::Bounce => 'B',
            IoAction::Remap => 'm',
            IoAction::Abort => 'X',
            IoAction::DriverData => 'D',
            IoAction::Unknown => '?',
        }
    }

    /// The one-letter code of the action kind, as text.
    pub fn code(&self) -> (text: &'static str)
        ensures
            text@ == seq![self.letter()],
    {
        proof {
            reveal_strlit("Q");
            reveal_strlit("M");
            reveal_strlit("F");
            reveal_strlit("G");
            reveal_strlit("S");
            reveal_strlit("R");
            reveal_strlit("I");
            reveal_strlit("C");
            reveal_strlit("P");
            reveal_strlit("U");
            reveal_strlit("T");
            reveal_strlit("A");
            reveal_strlit("B");
            reveal_strlit("m");
            reveal_strlit("X");
            reveal_strlit("D");
            reveal_strlit("?");
        }
        let text = match self {
            IoAction::Queue => "Q",
            IoAction::BackMerge => "M",
            IoAction::FrontMerge => "F",
            IoAction::GetRequest => "G",
            IoAction::SleepRequest => "S",
            IoAction::Requeue => "R",
            IoAction::Issue => "I",
            IoAction::Complete => "C",
            IoAction::Plug => "P",
            IoAction::UnplugIO => "U",
            IoAction::UnplugTimer => "T",
            IoAction::Insert => "A",
            IoAction::Split => "S",
            IoAction::Bounce => "B",
            IoAction::Remap => "m",
            IoAction::Abort => "X",
            IoAction::DriverData => "D",
            IoAction::Unknown => "?",
        };
        assert(text@ =~= seq![self.letter()]);
        text
    }

    /// The action kind of a record.
    pub fn from(trace: &BlkIoTrace) -> (kind: IoAction)
        ensures
            kind == action_of(trace@.action),
    {
        let act: u32 = trace.trace().action & 0xffff;
        if act == BLK_TA_QUEUE {
            IoAction::Queue
        } else if act == BLK_TA_BACKMERGE {
            IoAction::BackMerge
        } else if act == BLK_TA_FRONTMERGE {
            IoAction::FrontMerge
        } else if act == BLK_TA_GETRQ {
            IoAction::GetRequest
        } else if act == BLK_TA_SLEEPRQ {
            IoAction::SleepRequest
        } else if act == BLK_TA_REQUEUE {
            IoAction::Requeue
        } else if act == BLK_TA_ISSUE {
            IoAction::Issue
        } else if act == BLK_TA_COMPLETE {
            IoAction::Complete
        } else if act == BLK_TA_PLUG {
            IoAction::Plug
        } else if act == BLK_TA_UNPLUG_IO {
            IoAction::UnplugIO
        } else if act == BLK_TA_UNPLUG_TIMER {
            IoAction::UnplugTimer
        } else if act == BLK_TA_INSERT {
            IoAction::Insert
        } else if act == BLK_TA_SPLIT {
            IoAction::Split
        } else if act == BLK_TA_BOUNCE {
            IoAction::Bounce
        } else if act == BLK_TA_REMAP {
            IoAction::Remap
        } else if act == BLK_TA_ABORT {
            IoAction::Abort
        } else if act == BLK_TA_DRV_DATA {
            IoAction::DriverData
        } else {
            IoAction::Unknown
        }
    }
}

/// The letter that shows the direction of a request: `W`, `R`, `D` or `S`
/// for the first of write, read, discard and sync whose bit is set, `N` where
/// none is.
pub open spec fn direction_letter(action: u32) -> char {
    if has_category(action, BLK_TC_WRITE) {
        'W'
    } else if has_category(action, BLK_TC_READ) {
        'R'
    } else if has_category(action, BLK_TC_DISCARD) {
        'D'
    } else if has_category(action, BLK_TC_SYNC) {
        'S'
    } else {
        'N'
    }
}

/// The line that shows a record:
/// `<cpu>,<pid> <sequence> <seconds>.<nanoseconds> <action> <direction> <error> <sector> + <bytes>`,
/// the nanoseconds with nine digits.
pub open spec fn formatted(r: RawTrace) -> Seq<char> {
    decimal(r.cpu as nat) + seq![','] + decimal(r.pid as nat) + seq![' '] + decimal(
        r.sequence as nat,
    ) + seq![' '] + decimal((r.time / 1_000_000_000) as nat) + seq!['.'] + padded(
        (r.time % 1_000_000_000) as nat,
        9,
    ) + seq![' '] + seq![action_of(r.action).letter()] + seq![' '] + seq![
        direction_letter(r.action),
    ] + seq![' '] + decimal(r.error as nat) + seq![' '] + decimal(r.sector as nat) + seq![
        ' ',
        '+',
        ' ',
    ] + decimal(r.bytes as nat)
}

/// The direction letter of `action`, as text.
fn direction_code(action: u32) -> (text: &'static str)
    ensures
        text@ == seq![direction_letter(action)],
{
    proof {
        reveal_strlit("W");
        reveal_strlit("R");
        reveal_strlit("D");
        reveal_strlit("S");
        reveal_strlit("N");
    }
    let text = if (action & BLK_TC_ACT(BLK_TC_WRITE)) != 0 {
        "W"
    } else if (action & BLK_TC_ACT(BLK_TC_READ)) != 0 {
        "R"
    } else if (action & BLK_TC_ACT(BLK_TC_DISCARD)) != 0 {
        "D"
    } else if (action & BLK_TC_ACT(BLK_TC_SYNC)) != 0 {
        "S"
    } else {
        "N"
    };
    assert(text@ =~= seq![direction_letter(action)]);
    text
}

/// A decoded record: its fields are in host order and its magic is valid.
#[derive(Clone, Copy, Debug, PartialEq, Eq)]
pub struct BlkIoTrace(RawTrace);

impl View for BlkIoTrace {
    type V = RawTrace;

    closed spec fn view(&self) -> RawTrace {
        self.0
    }
}

impl BlkIoTrace {
    /// Size of the fixed part of a record on the wire.
    pub const SIZE: usize = 48;

    /// The record whose fields are `raw`.
    pub closed spec fn of(raw: RawTrace) -> BlkIoTrace {
        BlkIoTrace(raw)
    }

    #[verifier::type_invariant]
    spec fn well_formed(self) -> bool {
        valid_magic(self.0.magic)
    }

    /// Decodes the fixed part of a record whose stream has the byte order
    /// `endianness`: the fields are read, swapped where the order is
    /// `NonNative`, and accepted if the magic is then valid.
    pub fn decode(bytes: &[u8], endianness: Endianness) -> (r: Result<BlkIoTrace, Error>)
        requires
            bytes@.len() >= TRACE_SIZE,
        ensures
            r is Ok <==> decoded_as(bytes@, endianness) is Ok,
            r matches Ok(t) ==> decoded_as(bytes@, endianness) == Ok::<RawTrace, Error>(t@),
            r matches Err(e) ==> e == Error::BadMagic,
    {
        let mut raw = RawTrace::read(bytes);
        match endianness {
            Endianness::NonNative => {
                raw.correct_endianness();
            },
            _ => {},
        }
        if raw.magic & 0xffff_ff00 == BLK_IO_TRACE_MAGIC {
            Ok(BlkIoTrace(raw))
        } else {
            Err(Error::BadMagic)
        }
    }

    /// Decodes the fixed part of one record, taking the byte order from its
    /// magic. Fails with `BadMagic` exactly when the magic is valid in neither
    /// order, whatever the other fields hold.
    pub fn from_bytes(bytes: [u8; 48]) -> (r: Result<BlkIoTrace, Error>)
        ensures
            r is Ok <==> endianness_of(raw_fields(bytes@).magic) != Endianness::Unknown,
            r matches Ok(t) ==> decoded(bytes@) == Ok::<RawTrace, Error>(t@),
            r matches Err(e) ==> e == Error::BadMagic,
    {
        let raw = RawTrace::read(bytes.as_slice());
        let endianness = raw.get_data_endianness();
        BlkIoTrace::decode(bytes.as_slice(), endianness)
    }

    /// A sample record: a queued write of 4096 bytes at sector 1024, logged on
    /// CPU 2 for process 123, with the given sequence number and time.
    pub fn for_test(sequence: u32, time: u64) -> (r: Result<BlkIoTrace, Error>)
        ensures
            r matches Ok(t) && t@ == sample(sequence, time),
    {
        let raw = RawTrace {
            magic: BLK_IO_TRACE_MAGIC | BLK_IO_TRACE_VERSION,
            sequence,
            time,
            sector: 1024,
            bytes: 4096,
            action: BLK_TA_QUEUE | BLK_TC_ACT(BLK_TC_WRITE),
            pid: 123,
            device: (253 << 20) | 1,
            cpu: 2,
            error: 0,
            pdu_len: 0,
        };
        proof {
            assert(0x6561_7400u32 | 0x07u32 == 0x6561_7407u32) by (bit_vector);
            assert(0x6561_7407u32 & 0xffff_ff00 == 0x6561_7400u32) by (bit_vector);
            assert(1u32 | (0x0002u32 << 16u32) == 0x0002_0001u32) by (bit_vector);
            assert((253u32 << 20u32) | 1u32 == 0x0fd0_0001u32) by (bit_vector);
            assert(raw == sample(sequence, time));
            lemma_wire_round_trip(raw);
        }
        BlkIoTrace::from_bytes(raw.to_bytes())
    }

    /// The fields of the record.
    pub fn trace(&self) -> (raw: &RawTrace)
        ensures
            *raw == self@,
            valid_magic(raw.magic),
    {
        proof {
            use_type_invariant(self);
        }
        &self.0
    }

    /// Whether the record is a substantive event.
    pub fn real_event(&self) -> (substantive: bool)
        ensures
            substantive == self@.is_real_event(),
    {
        (self.0.action & BLK_TC_ACT(BLK_TC_NOTIFY)) == 0 && (self.0.action & BLK_TC_ACT(
            BLK_TC_DISCARD,
        )) == 0 && (self.0.action & BLK_TC_ACT(BLK_TC_DRV_DATA)) == 0
    }

    /// Moves the time of the record back by `delta`, but not below 0.
    pub fn reduce_time(&mut self, delta: u64)
        ensures
            final(self)@ == reduced(old(self)@, delta),
    {
        proof {
            use_type_invariant(&*self);
        }
        self.0.time = self.0.time.saturating_sub(delta);
    }

    /// The class of I/O of the record.
    pub fn io_category(&self) -> (category: IoCategory)
        ensures
            category == category_of(self@.action),
    {
        IoCategory::from(self)
    }

    /// The action kind of the record.
    pub fn io_action(&self) -> (kind: IoAction)
        ensures
            kind == action_of(self@.action),
    {
        IoAction::from(self)
    }

    /// The record as one line of text.
    pub fn to_string(&self) -> (text: String)
        ensures
            text@ == formatted(self@),
    {
        proof {
            reveal_strlit(",");
            reveal_strlit(" ");
            reveal_strlit(".");
            reveal_strlit(" + ");
        }
        let raw = self.0;
        let mut text = String::new();
        push_decimal(&mut text, raw.cpu as u128);
        text.append(",");
        push_decimal(&mut text, raw.pid as u128);
        text.append(" ");
        push_decimal(&mut text, raw.sequence as u128);
        text.append(" ");
        push_decimal(&mut text, (raw.time / 1_000_000_000) as u128);
        text.append(".");
        push_padded(&mut text, (raw.time % 1_000_000_000) as u128, 9);
        text.append(" ");
        text.append(self.io_action().code());
        text.append(" ");
        text.append(direction_code(raw.action));
        text.append(" ");
        push_decimal(&mut text, raw.error as u128);
        text.append(" ");
        push_decimal(&mut text, raw.sector as u128);
        text.append(" + ");
        push_decimal(&mut text, raw.bytes as u128);
        assert(text@ =~= formatted(self@));
        text
    }

    /// The size of the request in 512-byte blocks.
    pub fn blks(&self) -> (blocks: u32)
        ensures
            blocks == self@.block_count(),
    {
        let bytes: u32 = self.0.bytes;
        assert(bytes >> 9 == bytes / 512) by (bit_vector);
        bytes >> 9
    }
}

/// The fields of the sample record with the given sequence number and time.
pub open spec fn sample(sequence: u32, time: u64) -> RawTrace {
    RawTrace {
        magic: 0x6561_7407,
        sequence,
        time,
        sector: 1024,
        bytes: 4096,
        action: 0x0002_0001,
        pid: 123,
        device: 0x0fd0_0001,
        cpu: 2,
        error: 0,
        pdu_len: 0,
    }
}

/// `r` with its time moved back by `delta`; a time that is earlier than
/// `delta` becomes 0.
pub open spec fn reduced(r: RawTrace, delta: u64) -> RawTrace {
    RawTrace {
        time: if r.time >= delta {
            (r.time - delta) as u64
        } else {
            0
        },
        ..r
    }
}

/// A record is its fields and nothing more: `of` and the view are inverse to
/// each other.
pub broadcast proof fn lemma_record_of_fields(raw: RawTrace)
    ensures
        (#[trigger] BlkIoTrace::of(raw))@ == raw,
{
}

pub broadcast proof fn lemma_fields_of_record(t: BlkIoTrace)
    ensures
        BlkIoTrace::of(#[trigger] t@) == t,
{
}

pub broadcast group group_record_fields {
    lemma_record_of_fields,
    lemma_fields_of_record,
}

/// A valid record decodes to itself from its own bytes, and also from the
/// bytes of its byte-swapped form: the swapped magic gives the foreign byte
/// order away, and swapping every field once more restores the record.
pub proof fn lemma_decode_round_trip(r: RawTrace)
    requires
        valid_magic(r.magic),
    ensures
        decoded(wire_bytes(r)) == Ok::<RawTrace, Error>(r),
        endianness_of(swapped(r).magic) == Endianness::NonNative,
        decoded(wire_bytes(swapped(r))) == Ok::<RawTrace, Error>(r),
{
    let m = r.magic;
    assert(m & 0xffff_ff00 == 0x6561_7400u32 ==> spec_swap32(m) & 0xffff_ff00 != 0x6561_7400u32)
        by (bit_vector);
    lemma_wire_round_trip(r);
    lemma_wire_round_trip(swapped(r));
    lemma_swap_involution(r.error, r.magic, r.time);
    lemma_swap_involution(r.pdu_len, r.sequence, r.sector);
    lemma_swap_involution(0, r.bytes, 0);
    lemma_swap_involution(0, r.action, 0);
    lemma_swap_involution(0, r.pid, 0);
    lemma_swap_involution(0, r.device, 0);
    lemma_swap_involution(0, r.cpu, 0);
}

/// Writing a record out and reading the bytes back gives the same fields.
pub proof fn lemma_wire_round_trip(r: RawTrace)
    ensures
        wire_bytes(r).len() == 48,
        raw_fields(wire_bytes(r)) == r,
{
    lemma_bytes_round_trip(r.error, r.magic, r.time);
    lemma_bytes_round_trip(r.pdu_len, r.sequence, r.sector);
    lemma_bytes_round_trip(0, r.bytes, 0);
    lemma_bytes_round_trip(0, r.action, 0);
    lemma_bytes_round_trip(0, r.pid, 0);
    lemma_bytes_round_trip(0, r.device, 0);
    lemma_bytes_round_trip(0, r.cpu, 0);
}

} // verus!
