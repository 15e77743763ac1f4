//! Merging the streams of one device into a single sequence ordered by time.
//!
//! `Reader` keeps one pending record per stream and hands out, at each step,
//! the earliest of them. It reads no stream itself: the caller pulls the next
//! record of the stream that `earliest` names and passes it to `advance`.

use crate::blk_io_trace::{group_record_fields, reduced, BlkIoTrace};
use crate::error::Error;
use vstd::prelude::*;

verus! {

broadcast use group_record_fields;

/// What a stream gave when it was asked for a record: a record, an error, or
/// `None` at its end.
pub type Item = Option<Result<BlkIoTrace, Error>>;

/// `t` with its time moved back by `genesis`.
pub open spec fn rebased(t: BlkIoTrace, genesis: u64) -> BlkIoTrace {
    BlkIoTrace::of(reduced(t@, genesis))
}

/// What a merge remembers: the pending record of each stream, its time
/// already counted from the genesis, and the genesis itself. A stream that
/// has ended has no pending record.
pub struct MergeState {
    /// One slot per stream, in the order in which the streams were given.
    pub slots: Seq<Option<BlkIoTrace>>,
    /// The earliest time among the first records of all streams.
    pub genesis: u64,
}

/// Whether the item is a record.
pub open spec fn is_record(item: Item) -> bool {
    item matches Some(Ok(_))
}

/// Whether the item is an error.
pub open spec fn is_error(item: Item) -> bool {
    item matches Some(Err(_))
}

/// The time of the record that the item is.
pub open spec fn time_of(item: Item) -> u64
    recommends
        is_record(item),
{
    item->0->Ok_0@.time
}

/// Whether `g` is the earliest time among the records in `first`.
pub open spec fn is_genesis(first: Seq<Item>, g: u64) -> bool {
    &&& exists|i: int| 0 <= i < first.len() && is_record(#[trigger] first[i]) && time_of(first[i]) == g
    &&& forall|i: int| 0 <= i < first.len() && is_record(#[trigger] first[i]) ==> g <= time_of(first[i])
}

/// Whether `e` is the error of the first stream in `first` that failed.
pub open spec fn is_first_error(first: Seq<Item>, e: Error) -> bool {
    exists|i: int|
        {
            &&& 0 <= i < first.len()
            &&& #[trigger] first[i] == Some(Err::<BlkIoTrace, Error>(e))
            &&& forall|j: int| 0 <= j < i ==> !is_error(#[trigger] first[j])
        }
}

/// Whether some stream in `first` failed.
pub open spec fn any_error(first: Seq<Item>) -> bool {
    exists|i: int| 0 <= i < first.len() && is_error(#[trigger] first[i])
}

/// Whether some stream in `first` gave a record.
pub open spec fn any_record(first: Seq<Item>) -> bool {
    exists|i: int| 0 <= i < first.len() && is_record(#[trigger] first[i])
}

/// How a merge starts from what each stream gave when it was asked for its
/// first record. Without streams there is nothing to read: `NotFound`. The
/// error of the first stream that failed is passed on. Streams without a
/// record take no part; if no stream has one: `NoData`. Otherwise the genesis
/// is the earliest of the first records, and each of them is pending with
/// its time counted from the genesis.
pub open spec fn starts(first: Seq<Item>, r: Result<MergeState, Error>) -> bool {
    if first.len() == 0 {
        r == Err::<MergeState, Error>(Error::NotFound)
    } else if any_error(first) {
        r is Err && is_first_error(first, r->Err_0)
    } else if !any_record(first) {
        r == Err::<MergeState, Error>(Error::NoData)
    } else {
        &&& r is Ok
        &&& is_genesis(first, r->Ok_0.genesis)
        &&& r->Ok_0.slots == first_slots(first, r->Ok_0.genesis)
    }
}

/// The slots that a merge starts with: the first record of each stream, its
/// time counted from `genesis`.
pub open spec fn first_slots(first: Seq<Item>, genesis: u64) -> Seq<Option<BlkIoTrace>> {
    Seq::new(
        first.len(),
        |i: int|
            match first[i] {
                Some(Ok(t)) => Some(rebased(t, genesis)),
                _ => None,
            },
    )
}

impl MergeState {
    /// The time of the pending record in slot `i`.
    pub open spec fn time(self, i: int) -> u64
        recommends
            0 <= i < self.slots.len(),
            self.slots[i] is Some,
    {
        self.slots[i]->0@.time
    }

    /// Whether slot `i` holds the record that leaves next: no pending record
    /// is earlier, and none that is as early lies in a lower slot.
    pub open spec fn is_earliest(self, i: int) -> bool {
        &&& 0 <= i < self.slots.len()
        &&& self.slots[i] is Some
        &&& forall|j: int|
            0 <= j < self.slots.len() && (#[trigger] self.slots[j]) is Some ==> {
                ||| self.time(i) < self.time(j)
                ||| self.time(i) == self.time(j) && i <= j
            }
    }

    /// The slot whose record leaves next; `None` when no record is pending.
    pub open spec fn earliest(self) -> Option<int> {
        if exists|i: int| self.is_earliest(i) {
            Some(choose|i: int| self.is_earliest(i))
        } else {
            None
        }
    }

    /// Whether no record is pending: the merge is over.
    pub open spec fn is_done(self) -> bool {
        forall|i: int| 0 <= i < self.slots.len() ==> (#[trigger] self.slots[i]) is None
    }

    /// The state after a failure: every slot is empty.
    pub open spec fn cleared(self) -> MergeState {
        MergeState { slots: Seq::new(self.slots.len(), |i: int| None), ..self }
    }

    /// One step of the merge, given what the stream of the earliest slot gave
    /// when it was pulled. The earliest record leaves and the pulled record,
    /// its time counted from the genesis, takes its slot; at the end of that
    /// stream the slot stays empty. An error of the stream ends the whole
    /// merge and is the result of the step. Where nothing is pending, the
    /// step gives `None` and changes nothing.
    pub open spec fn advance(self, pulled: Item) -> (MergeState, Item) {
        match self.earliest() {
            None => (self, None),
            Some(i) => match pulled {
                Some(Err(e)) => (self.cleared(), Some(Err(e))),
                Some(Ok(t)) => (
                    MergeState {
                        slots: self.slots.update(i, Some(rebased(t, self.genesis))),
                        ..self
                    },
                    Some(Ok(self.slots[i]->0)),
                ),
                None => (
                    MergeState { slots: self.slots.update(i, None), ..self },
                    Some(Ok(self.slots[i]->0)),
                ),
            },
        }
    }
}

/// Only one slot can hold the earliest record.
pub proof fn lemma_earliest_unique(m: MergeState, i: int)
    requires
        m.is_earliest(i),
    ensures
        m.earliest() == Some(i),
{
    let k = choose|k: int| m.is_earliest(k);
    assert(m.slots[i] is Some);
    assert(m.slots[k] is Some);
}

/// A merge without pending records has no earliest slot.
pub proof fn lemma_done_has_no_earliest(m: MergeState)
    requires
        m.is_done(),
    ensures
        m.earliest() is None,
{
    if exists|i: int| m.is_earliest(i) {
        let k = choose|k: int| m.is_earliest(k);
        assert(m.slots[k] is Some);
    }
}

/// What the names of the trace files of a device start with: the last part
/// of the device's path, then `.blktrace.`. What follows in a name, by custom
/// the number of a CPU, is not looked at.
pub open spec fn trace_prefix(basename: Seq<char>) -> Seq<char> {
    basename + ".blktrace."@
}

/// Whether a file of this name holds a trace of the device.
pub fn is_trace_file_name(name: &str, basename: &str) -> (matches: bool)
    ensures
        matches == trace_prefix(basename@).is_prefix_of(name@),
{
    let mut prefix = String::from_str(basename);
    prefix.append(".blktrace.");
    let prefix = prefix.as_str();
    let n: usize = prefix.unicode_len();
    if name.unicode_len() < n {
        return false;
    }
    let mut i: usize = 0;
    while i < n
        invariant
            i <= n,
            n == prefix@.len(),
            n <= name@.len(),
            prefix@ == trace_prefix(basename@),
            forall|j: int| 0 <= j < i ==> name@[j] == prefix@[j],
        decreases n - i,
    {
        if name.get_char(i) != prefix.get_char(i) {
            assert(name@.subrange(0, n as int)[i as int] != prefix@[i as int]);
            return false;
        }
        i += 1;
    }
    assert(name@.subrange(0, n as int) =~= prefix@);
    true
}

/// The merge of the streams of one device, without the streams themselves.
pub struct Reader {
    slots: Vec<Option<BlkIoTrace>>,
    genesis: u64,
}

impl View for Reader {
    type V = MergeState;

    closed spec fn view(&self) -> MergeState {
        MergeState { slots: self.slots@, genesis: self.genesis }
    }
}

impl Reader {
    /// Starts a merge from what each stream gave when it was asked for its
    /// first record.
    pub fn new(first: Vec<Item>) -> (r: Result<Reader, Error>)
        ensures
            starts(
                first@,
                match r {
                    Ok(reader) => Ok(reader@),
                    Err(e) => Err(e),
                },
            ),
    {
        let n: usize = first.len();
        if n == 0 {
            return Err(Error::NotFound);
        }
        let mut least: Option<u64> = None;
        let ghost mut witness: int = 0;
        let mut i: usize = 0;
        while i < n
            invariant
                i <= n,
                n == first@.len(),
                forall|j: int| 0 <= j < i ==> !is_error(#[trigger] first@[j]),
                least is None ==> forall|j: int| 0 <= j < i ==> !is_record(#[trigger] first@[j]),
                least is Some ==> {
                    &&& 0 <= witness < i
                    &&& is_record(first@[witness])
                    &&& time_of(first@[witness]) == least->0
                    &&& forall|j: int|
                        0 <= j < i && is_record(#[trigger] first@[j]) ==> least->0 <= time_of(
                            first@[j],
                        )
                },
            decreases n - i,
        {
            match first[i] {
                Some(Err(e)) => {
                    assert(is_first_error(first@, e)) by {
                        assert(first@[i as int] == Some(Err::<BlkIoTrace, Error>(e)));
                    }
                    return Err(e);
                },
                Some(Ok(t)) => {
                    let time: u64 = t.trace().time;
                    match least {
                        Some(g) => {
                            if time < g {
                                least = Some(time);
                                proof {
                                    witness = i as int;
                                }
                            }
                        },
                        None => {
                            least = Some(time);
                            proof {
                                witness = i as int;
                            }
                        },
                    }
                },
                None => {},
            }
            i += 1;
        }
        let genesis: u64 = match least {
            None => {
                return Err(Error::NoData);
            },
            Some(g) => g,
        };
        assert(any_record(first@) && is_genesis(first@, genesis)) by {
            assert(is_record(first@[witness]) && time_of(first@[witness]) == genesis);
        }
        let mut slots: Vec<Option<BlkIoTrace>> = Vec::new();
        let mut k: usize = 0;
        while k < n
            invariant
                k <= n,
                n == first@.len(),
                slots@.len() == k,
                forall|j: int| 0 <= j < k ==> slots@[j] == first_slots(first@, genesis)[j],
            decreases n - k,
        {
            match first[k] {
                Some(Ok(mut t)) => {
                    t.reduce_time(genesis);
                    slots.push(Some(t));
                },
                _ => {
                    slots.push(None);
                },
            }
            k += 1;
        }
        assert(slots@ =~= first_slots(first@, genesis));
        Ok(Reader { slots, genesis })
    }

    /// The time from which all times of the merge are counted.
    pub fn genesis(&self) -> (g: u64)
        ensures
            g == self@.genesis,
    {
        self.genesis
    }

    /// The number of streams that the merge was started with. It never
    /// changes, and the merge holds at most one record for each of them.
    pub fn streams(&self) -> (n: usize)
        ensures
            n == self@.slots.len(),
    {
        self.slots.len()
    }

    /// The stream to pull next: the one whose pending record is the earliest,
    /// the first of them where several are as early. `None` when no record is
    /// pending, which ends the merge.
    pub fn earliest(&self) -> (slot: Option<usize>)
        ensures
            slot matches Some(i) ==> self@.earliest() == Some(i as int),
            slot is None ==> self@.earliest() is None && self@.is_done(),
    {
        let n: usize = self.slots.len();
        let mut best: Option<usize> = None;
        let mut least: u64 = 0;
        let mut i: usize = 0;
        while i < n
            invariant
                i <= n,
                n == self.slots@.len(),
                best is None ==> forall|j: int| 0 <= j < i ==> (#[trigger] self.slots@[j]) is None,
                best is Some ==> {
                    &&& best->0 < i
                    &&& self.slots@[best->0 as int] is Some
                    &&& self@.time(best->0 as int) == least
                    &&& forall|j: int|
                        0 <= j < i && (#[trigger] self.slots@[j]) is Some ==> {
                            ||| least < self@.time(j)
                            ||| least == self@.time(j) && best->0 <= j
                        }
                },
            decreases n - i,
        {
            match self.slots[i] {
                Some(t) => {
                    let time: u64 = t.trace().time;
                    if best.is_none() || time < least {
                        best = Some(i);
                        least = time;
                    }
                },
                None => {},
            }
            i += 1;
        }
        match best {
            Some(b) => {
                proof {
                    assert(self@.is_earliest(b as int));
                    lemma_earliest_unique(self@, b as int);
                }
                Some(b)
            },
            None => {
                proof {
                    lemma_done_has_no_earliest(self@);
                }
                None
            },
        }
    }

    /// One step of the merge. `pulled` is what the stream named by `earliest`
    /// gave when it was asked for its next record.
    ///
    /// The merge keeps its one slot per stream and its genesis, however many
    /// records pass through it.
    pub fn advance(&mut self, pulled: Item) -> (item: Item)
        ensures
            (final(self)@, item) == old(self)@.advance(pulled),
            final(self)@.slots.len() == old(self)@.slots.len(),
            final(self)@.genesis == old(self)@.genesis,
    {
        let i: usize = match self.earliest() {
            None => {
                return None;
            },
            Some(i) => i,
        };
        let leaving: BlkIoTrace = match self.slots[i] {
            Some(t) => t,
            None => {
                proof {
                    assert(self@.is_earliest(i as int));
                }
                return None;
            },
        };
        match pulled {
            Some(Err(e)) => {
                let n: usize = self.slots.len();
                let mut k: usize = 0;
                while k < n
                    invariant
                        k <= n,
                        n == self.slots@.len(),
                        self.genesis == old(self).genesis,
                        forall|j: int| 0 <= j < k ==> (#[trigger] self.slots@[j]) is None,
                    decreases n - k,
                {
                    self.slots[k] = None;
                    k += 1;
                }
                assert(self.slots@ =~= old(self)@.cleared().slots);
                Some(Err(e))
            },
            Some(Ok(mut t)) => {
                t.reduce_time(self.genesis);
                self.slots[i] = Some(t);
                Some(Ok(leaving))
            },
            None => {
                self.slots[i] = None;
                Some(Ok(leaving))
            },
        }
    }
}

} // verus!
