//! Reading one trace stream record by record.
//!
//! A stream is a run of frames: the 48-byte fixed part of a record, then as
//! many payload bytes as the record declares. `Framer` decides, one event at a
//! time, what a reader has to do with its byte source; it touches no source
//! itself, so the same decisions serve a file, a pipe or a buffer.
//! `TraceFile` follows those decisions over a stream held in memory.

use crate::blk_io_trace::{
    decoded_as, endianness_of, group_record_fields, raw_fields, BlkIoTrace, Endianness, RawTrace,
    BLK_TC_ACT, BLK_TC_DISCARD, BLK_TC_DRV_DATA, BLK_TC_NOTIFY, TRACE_SIZE,
};
use crate::error::Error;
use crate::trace::{starts, Item, MergeState, Reader};
use vstd::prelude::*;
use vstd::slice::slice_subrange;

verus! {

broadcast use group_record_fields;

/// Whether the record is no substantive event: a notification, a discard or
/// driver data. A reader passes over such records in silence.
pub fn not_real_event(t: &BlkIoTrace) -> (dropped: bool)
    ensures
        dropped == !t@.is_real_event(),
{
    let action: u32 = t.trace().action;
    (action & BLK_TC_ACT(BLK_TC_NOTIFY)) != 0 || (action & BLK_TC_ACT(BLK_TC_DISCARD)) != 0 || (
    action & BLK_TC_ACT(BLK_TC_DRV_DATA)) != 0
}

/// What a reader has to do next.
#[derive(Clone, Copy, Debug, PartialEq, Eq)]
pub enum Action {
    /// Read the next 48 bytes (fewer only where the source ends) and report
    /// them with `on_read`.
    Read,
    /// Move the source forward by this many bytes and report with `on_skip`.
    Skip(u16),
    /// Hand this record to the consumer.
    Yield(BlkIoTrace),
    /// The stream is over.
    End,
    /// The stream is broken.
    Fail(Error),
}

/// What a `Framer` remembers between two events.
#[derive(Clone, Copy, Debug, PartialEq, Eq)]
pub struct FramerState {
    /// The byte order of the stream; `Unknown` until the first record is read.
    pub endianness: Endianness,
    /// The record whose payload is being passed over.
    pub held: Option<BlkIoTrace>,
    /// Set once the stream has ended or failed: nothing is read after that.
    pub closed: bool,
}

impl FramerState {
    /// The state of a reader that has seen nothing yet.
    pub open spec fn fresh() -> FramerState {
        FramerState { endianness: Endianness::Unknown, held: None, closed: false }
    }

    /// The state after the stream has ended or failed.
    pub open spec fn shut(self) -> FramerState {
        FramerState { held: None, closed: true, ..self }
    }

    /// The first action of a pull: read, unless the stream is over.
    pub open spec fn resume(self) -> Action {
        if self.closed {
            Action::End
        } else {
            Action::Read
        }
    }

    /// The byte order in which a frame is decoded: the one found earlier, or
    /// else the one that the magic of this frame gives away.
    pub open spec fn order_for(self, frame: Seq<u8>) -> Endianness {
        if self.endianness == Endianness::Unknown {
            endianness_of(raw_fields(frame).magic)
        } else {
            self.endianness
        }
    }

    /// Hands a record on if it is substantive, and asks for the next frame
    /// otherwise.
    pub open spec fn deliver(self, raw: RawTrace) -> (FramerState, Action) {
        (
            FramerState { held: None, ..self },
            if raw.is_real_event() {
                Action::Yield(BlkIoTrace::of(raw))
            } else {
                Action::Read
            },
        )
    }

    /// The step after `bytes` were read. No byte means a clean end, fewer
    /// than 48 a truncated record. A full frame is decoded in the byte order
    /// of the stream; a record with a payload is held until the payload has
    /// been passed over.
    pub open spec fn read(self, bytes: Seq<u8>) -> (FramerState, Action) {
        if self.closed {
            (self, Action::End)
        } else if bytes.len() == 0 {
            (self.shut(), Action::End)
        } else if bytes.len() < TRACE_SIZE {
            (self.shut(), Action::Fail(Error::Truncated))
        } else {
            let order = self.order_for(bytes);
            let known = FramerState { endianness: order, ..self };
            match decoded_as(bytes, order) {
                Err(e) => (known.shut(), Action::Fail(e)),
                Ok(raw) => if raw.pdu_len > 0 {
                    (
                        FramerState { held: Some(BlkIoTrace::of(raw)), ..known },
                        Action::Skip(raw.pdu_len),
                    )
                } else {
                    known.deliver(raw)
                },
            }
        }
    }

    /// The step after a payload was passed over.
    pub open spec fn skip(self) -> (FramerState, Action) {
        match self.held {
            Some(t) => self.deliver(t@),
            None => (self, self.resume()),
        }
    }

    /// The step after the source failed to read or to skip.
    pub open spec fn failure(self) -> (FramerState, Action) {
        (self.shut(), Action::Fail(Error::Io))
    }
}

/// The decisions of a reader of one stream. It holds no record but the one
/// whose payload is being passed over, whatever the length of the stream.
#[derive(Clone, Copy, Debug)]
pub struct Framer {
    state: FramerState,
}

impl View for Framer {
    type V = FramerState;

    closed spec fn view(&self) -> FramerState {
        self.state
    }
}

impl Framer {
    /// A reader that has seen nothing yet.
    pub fn new() -> (framer: Framer)
        ensures
            framer@ == FramerState::fresh(),
    {
        Framer { state: FramerState { endianness: Endianness::Unknown, held: None, closed: false } }
    }

    /// The first action of a pull.
    pub fn resume(&self) -> (action: Action)
        ensures
            action == self@.resume(),
    {
        if self.state.closed {
            Action::End
        } else {
            Action::Read
        }
    }

    /// Takes what a `Read` brought: the bytes that the source had left, up to
    /// 48 of them (more are ignored).
    pub fn on_read(&mut self, bytes: &[u8]) -> (action: Action)
        ensures
            (final(self)@, action) == old(self)@.read(bytes@),
    {
        if self.state.closed {
            return Action::End;
        }
        let n: usize = bytes.len();
        if n == 0 {
            self.state.held = None;
            self.state.closed = true;
            return Action::End;
        }
        if n < TRACE_SIZE {
            self.state.held = None;
            self.state.closed = true;
            return Action::Fail(Error::Truncated);
        }
        match self.state.endianness {
            Endianness::Unknown => {
                self.state.endianness = RawTrace::read(bytes).get_data_endianness();
            },
            _ => {},
        }
        match BlkIoTrace::decode(bytes, self.state.endianness) {
            Err(e) => {
                self.state.held = None;
                self.state.closed = true;
                Action::Fail(e)
            },
            Ok(t) => {
                let skip: u16 = t.trace().pdu_len;
                if skip > 0 {
                    self.state.held = Some(t);
                    Action::Skip(skip)
                } else {
                    self.state.held = None;
                    if t.real_event() {
                        Action::Yield(t)
                    } else {
                        Action::Read
                    }
                }
            },
        }
    }

    /// Takes the news that a `Skip` was carried out.
    pub fn on_skip(&mut self) -> (action: Action)
        ensures
            (final(self)@, action) == old(self)@.skip(),
    {
        match self.state.held {
            Some(t) => {
                self.state.held = None;
                if t.real_event() {
                    Action::Yield(t)
                } else {
                    Action::Read
                }
            },
            None => self.resume(),
        }
    }

    /// Takes the news that the source failed: the stream is closed and the
    /// failure is the result of the pull.
    pub fn on_failure(&mut self) -> (action: Action)
        ensures
            (final(self)@, action) == old(self)@.failure(),
    {
        self.state.held = None;
        self.state.closed = true;
        Action::Fail(Error::Io)
    }
}

/// A stream of frames with a cursor in it.
pub struct Stream {
    /// All bytes of the stream.
    pub data: Seq<u8>,
    /// Where the next frame starts.
    pub pos: nat,
    /// The byte order of the stream; `Unknown` until the first record is read.
    pub endianness: Endianness,
    /// Set once the stream has ended or failed.
    pub closed: bool,
}

/// The result of one pull from a stream: the item, and the stream after it.
pub struct Pulled {
    /// A substantive record, an error, or `None` at the end.
    pub item: Option<Result<BlkIoTrace, Error>>,
    /// The stream behind the item.
    pub rest: Stream,
}

impl Stream {
    /// A stream over `data`, with the cursor at its start.
    pub open spec fn start(data: Seq<u8>) -> Stream {
        Stream { data, pos: 0, endianness: Endianness::Unknown, closed: false }
    }

    /// The stream with the cursor moved on by `n` bytes, but not beyond the
    /// end.
    pub open spec fn advanced(self, n: nat) -> Stream {
        Stream {
            pos: if self.pos + n <= self.data.len() {
                self.pos + n
            } else {
                self.data.len()
            },
            ..self
        }
    }

    /// The stream after it has ended or failed.
    pub open spec fn shut(self) -> Stream {
        Stream { closed: true, ..self }
    }

    /// The frame at the cursor.
    pub open spec fn frame(self) -> Seq<u8>
        recommends
            self.pos + TRACE_SIZE <= self.data.len(),
    {
        self.data.subrange(self.pos as int, self.pos + TRACE_SIZE)
    }

    /// The byte order in which the frame at the cursor is decoded.
    pub open spec fn order(self) -> Endianness {
        if self.endianness == Endianness::Unknown {
            endianness_of(raw_fields(self.frame()).magic)
        } else {
            self.endianness
        }
    }

    /// One pull: the first substantive record at or behind the cursor, with
    /// the cursor then behind its payload. Records that are not substantive
    /// are passed over together with their payloads. The stream ends cleanly
    /// where no byte is left, is truncated where fewer than 48 are, and has a
    /// bad magic where a frame does not decode in the byte order of the
    /// stream; after any of these it is closed and gives nothing more.
    pub open spec fn next(self) -> Pulled
        decreases self.data.len() - self.pos,
    {
        if self.closed || self.pos >= self.data.len() {
            Pulled { item: None, rest: self.shut() }
        } else if self.data.len() - self.pos < TRACE_SIZE {
            Pulled {
                item: Some(Err(Error::Truncated)),
                rest: self.advanced(TRACE_SIZE as nat).shut(),
            }
        } else {
            let order = self.order();
            let known = Stream { endianness: order, ..self };
            match decoded_as(self.frame(), order) {
                Err(e) => Pulled {
                    item: Some(Err(e)),
                    rest: known.advanced(TRACE_SIZE as nat).shut(),
                },
                Ok(raw) => {
                    let rest = known.advanced(TRACE_SIZE as nat).advanced(raw.pdu_len as nat);
                    if raw.is_real_event() {
                        Pulled { item: Some(Ok(BlkIoTrace::of(raw))), rest }
                    } else {
                        rest.next()
                    }
                },
            }
        }
    }
}

/// A pull leaves the bytes as they are, and a pull that gives a record moves
/// the cursor forward; a pull that gives none closes the stream.
pub proof fn lemma_pull_moves_on(s: Stream)
    ensures
        s.next().rest.data == s.data,
        s.next().item matches Some(Ok(_)) ==> s.pos < s.next().rest.pos <= s.data.len(),
        !(s.next().item matches Some(Ok(_))) ==> s.next().rest.closed,
    decreases s.data.len() - s.pos,
{
    if s.closed || s.pos >= s.data.len() {
    } else if s.data.len() - s.pos < TRACE_SIZE {
    } else {
        let order = s.order();
        let known = Stream { endianness: order, ..s };
        match decoded_as(s.frame(), order) {
            Err(_) => {},
            Ok(raw) => {
                let rest = known.advanced(TRACE_SIZE as nat).advanced(raw.pdu_len as nat);
                if !raw.is_real_event() {
                    lemma_pull_moves_on(rest);
                }
            },
        }
    }
}

/// What a pull will give, seen from the middle of it: the stream as it now
/// stands, the record that is held, and the action that is due.
spec fn outstanding(stream: Stream, held: Option<BlkIoTrace>, action: Action) -> Pulled {
    match action {
        Action::Read => stream.next(),
        Action::Skip(n) => {
            let rest = stream.advanced(n as nat);
            match held {
                Some(t) => if t@.is_real_event() {
                    Pulled { item: Some(Ok(t)), rest }
                } else {
                    rest.next()
                },
                None => rest.next(),
            }
        },
        Action::Yield(t) => Pulled { item: Some(Ok(t)), rest: stream },
        Action::End => Pulled { item: None, rest: stream },
        Action::Fail(e) => Pulled { item: Some(Err(e)), rest: stream },
    }
}

/// How far an action is from the end of its pull, for actions that do not
/// move the cursor.
spec fn rank(action: Action) -> nat {
    match action {
        Action::Skip(_) => 2,
        Action::Read => 1,
        _ => 0,
    }
}

/// A trace stream held in memory, read record by record.
pub struct TraceFile {
    data: Vec<u8>,
    pos: usize,
    framer: Framer,
}

impl View for TraceFile {
    type V = Stream;

    closed spec fn view(&self) -> Stream {
        Stream {
            data: self.data@,
            pos: self.pos as nat,
            endianness: self.framer@.endianness,
            closed: self.framer@.closed,
        }
    }
}

impl TraceFile {
    #[verifier::type_invariant]
    spec fn well_formed(self) -> bool {
        &&& self.pos <= self.data@.len()
        &&& self.framer@.held is None
    }

    /// A reader at the start of `data`.
    pub fn new(data: Vec<u8>) -> (file: TraceFile)
        ensures
            file@ == Stream::start(data@),
    {
        TraceFile { data, pos: 0, framer: Framer::new() }
    }

    /// The next substantive record of the stream, an error, or `None` at the
    /// end.
    pub fn next(&mut self) -> (item: Option<Result<BlkIoTrace, Error>>)
        ensures
            item == old(self)@.next().item,
            final(self)@ == old(self)@.next().rest,
    {
        proof {
            use_type_invariant(&*self);
        }
        let ghost goal = self@.next();
        let mut framer = self.framer;
        let mut pos: usize = self.pos;
        let mut action = framer.resume();
        loop
            invariant
                pos <= self.data@.len(),
                self.pos <= self.data@.len(),
                *self == *old(self),
                goal == old(self)@.next(),
                !(action is Skip) ==> framer@.held is None,
                action is Read || action is Skip ==> !framer@.closed,
                action is End || action is Fail ==> framer@.closed,
                outstanding(
                    Stream {
                        data: self.data@,
                        pos: pos as nat,
                        endianness: framer@.endianness,
                        closed: framer@.closed,
                    },
                    framer@.held,
                    action,
                ) == goal,
            decreases self.data@.len() - pos, rank(action),
        {
            let ghost before = Stream {
                data: self.data@,
                pos: pos as nat,
                endianness: framer@.endianness,
                closed: framer@.closed,
            };
            match action {
                Action::Read => {
                    let len: usize = self.data.len();
                    let end: usize = if len - pos < TRACE_SIZE {
                        len
                    } else {
                        pos + TRACE_SIZE
                    };
                    let bytes = slice_subrange(self.data.as_slice(), pos, end);
                    assert(end == before.advanced(TRACE_SIZE as nat).pos);
                    assert(end - pos == TRACE_SIZE ==> bytes@ == before.frame());
                    action = framer.on_read(bytes);
                    pos = end;
                },
                Action::Skip(n) => {
                    let len: usize = self.data.len();
                    let end: usize = if len - pos < n as usize {
                        len
                    } else {
                        pos + n as usize
                    };
                    action = framer.on_skip();
                    pos = end;
                },
                Action::Yield(t) => {
                    self.framer = framer;
                    self.pos = pos;
                    return Some(Ok(t));
                },
                Action::End => {
                    self.framer = framer;
                    self.pos = pos;
                    return None;
                },
                Action::Fail(e) => {
                    self.framer = framer;
                    self.pos = pos;
                    return Some(Err(e));
                },
            }
        }
    }
}

/// Several streams and the merge of what has been pulled from them.
pub struct Merging {
    /// The streams, each with its cursor behind its pending record.
    pub streams: Seq<Stream>,
    /// The pending records.
    pub state: MergeState,
}

impl Merging {
    /// What each of the streams gives when it is asked for its first record.
    pub open spec fn first(data: Seq<Seq<u8>>) -> Seq<Item> {
        Seq::new(data.len(), |i: int| Stream::start(data[i]).next().item)
    }

    /// The streams behind their first items.
    pub open spec fn rest(data: Seq<Seq<u8>>) -> Seq<Stream> {
        Seq::new(data.len(), |i: int| Stream::start(data[i]).next().rest)
    }

    /// One step of the merge: the stream of the earliest pending record is
    /// pulled, and the merge advances with what it gave.
    pub open spec fn next(self) -> (Merging, Item) {
        match self.state.earliest() {
            Some(i) if i < self.streams.len() => {
                let pulled = self.streams[i].next();
                let (state, item) = self.state.advance(pulled.item);
                (Merging { streams: self.streams.update(i, pulled.rest), state }, item)
            },
            _ => (self, None),
        }
    }
}

/// Reads the streams of one device, held in memory, as one sequence in order
/// of time.
pub struct TraceReader {
    files: Vec<TraceFile>,
    merge: Reader,
}

impl View for TraceReader {
    type V = Merging;

    closed spec fn view(&self) -> Merging {
        Merging { streams: Seq::new(self.files@.len(), |i: int| self.files@[i]@), state: self.merge@ }
    }
}

impl TraceReader {
    /// Starts reading the given streams: the first substantive record of each
    /// is pulled, and the merge starts from these as `starts` says.
    pub fn new(streams: Vec<Vec<u8>>) -> (r: Result<TraceReader, Error>)
        ensures
            starts(
                Merging::first(streams.deep_view()),
                match r {
                    Ok(reader) => Ok(reader@.state),
                    Err(e) => Err(e),
                },
            ),
            r matches Ok(reader) ==> reader@.streams == Merging::rest(streams.deep_view()),
    {
        let ghost data = streams.deep_view();
        let mut files: Vec<TraceFile> = Vec::new();
        let mut first: Vec<Item> = Vec::new();
        for bytes in iter: streams
            invariant
                iter.seq().len() == data.len(),
                forall|j: int| 0 <= j < data.len() ==> (#[trigger] iter.seq()[j])@ == data[j],
                files@.len() == iter.index(),
                first@.len() == iter.index(),
                forall|j: int|
                    0 <= j < iter.index() ==> (#[trigger] files@[j])@ == Merging::rest(data)[j],
                forall|j: int|
                    0 <= j < iter.index() ==> #[trigger] first@[j] == Merging::first(data)[j],
        {
            let mut file = TraceFile::new(bytes);
            let item = file.next();
            files.push(file);
            first.push(item);
        }
        assert(first@ =~= Merging::first(data));
        match Reader::new(first) {
            Ok(merge) => {
                let reader = TraceReader { files, merge };
                assert(reader@.streams =~= Merging::rest(data));
                Ok(reader)
            },
            Err(e) => Err(e),
        }
    }

    /// The next record of the merged sequence, an error, or `None` at the end.
    ///
    /// The reader holds one pending record for each stream and nothing else
    /// of what it has read, however long the streams are.
    pub fn next(&mut self) -> (item: Item)
        ensures
            (final(self)@, item) == old(self)@.next(),
            final(self)@.streams.len() == old(self)@.streams.len(),
            final(self)@.state.slots.len() == old(self)@.state.slots.len(),
            final(self)@.state.genesis == old(self)@.state.genesis,
    {
        match self.merge.earliest() {
            Some(i) => {
                if i < self.files.len() {
                    let pulled = self.files[i].next();
                    let item = self.merge.advance(pulled);
                    assert(self@.streams =~= old(self)@.streams.update(
                        i as int,
                        old(self)@.streams[i as int].next().rest,
                    ));
                    item
                } else {
                    None
                }
            },
            None => None,
        }
    }
}

} // verus!
