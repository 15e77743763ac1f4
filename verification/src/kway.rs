//! What the merge of several streams is, and what holds of it.
//!
//! The streams are taken as sequences of records. `merged` draws, again and
//! again, the earliest first record of all streams, as `Reader` does. The
//! laws below say that nothing is lost, that the records of each stream keep
//! their order, that streams in order of time give an output in order of
//! time, and that the output starts at time 0.

use crate::blk_io_trace::{group_record_fields, BlkIoTrace};
use crate::error::Error;
use crate::trace::{
    first_slots, is_genesis, is_record, lemma_done_has_no_earliest, lemma_earliest_unique, rebased,
    time_of, Item, MergeState,
};
use vstd::prelude::*;

verus! {

broadcast use group_record_fields;

/// The records of each stream, in the order in which the stream gives them.
pub type Files = Seq<Seq<BlkIoTrace>>;

/// A record of the output, with the stream that it was drawn from.
pub struct Drawn {
    pub source: int,
    pub record: BlkIoTrace,
}

/// The number of records in all streams together.
pub open spec fn total(files: Files) -> nat
    decreases files.len(),
{
    if files.len() == 0 {
        0
    } else {
        total(files.drop_last()) + files.last().len()
    }
}

/// What each stream gives when it is asked for its first record.
pub open spec fn firsts(files: Files) -> Seq<Item> {
    Seq::new(
        files.len(),
        |i: int|
            if files[i].len() > 0 {
                Some(Ok(files[i][0]))
            } else {
                None
            },
    )
}

/// The first record of each stream that has one.
pub open spec fn heads(files: Files) -> Seq<Option<BlkIoTrace>> {
    Seq::new(
        files.len(),
        |i: int|
            if files[i].len() > 0 {
                Some(files[i][0])
            } else {
                None
            },
    )
}

/// The merge that has the first record of each stream pending.
pub open spec fn front(files: Files, genesis: u64) -> MergeState {
    MergeState { slots: heads(files), genesis }
}

/// The streams after the first record of stream `i` was drawn.
pub open spec fn popped(files: Files, i: int) -> Files
    recommends
        0 <= i < files.len(),
        files[i].len() > 0,
{
    files.update(i, files[i].drop_first())
}

/// The records with every time counted from `genesis`.
pub open spec fn rebased_all(records: Seq<BlkIoTrace>, genesis: u64) -> Seq<BlkIoTrace> {
    Seq::new(records.len(), |k: int| rebased(records[k], genesis))
}

/// The streams with every time counted from `genesis`.
pub open spec fn adjusted(files: Files, genesis: u64) -> Files {
    Seq::new(files.len(), |i: int| rebased_all(files[i], genesis))
}

/// The merge of the streams: at each step the earliest first record of all
/// streams is drawn, from the first such stream where several are as early.
pub open spec fn merged(files: Files) -> Seq<Drawn>
    decreases total(files),
    via merged_decreases
{
    match front(files, 0).earliest() {
        None => Seq::empty(),
        Some(i) => seq![Drawn { source: i, record: files[i][0] }] + merged(popped(files, i)),
    }
}

#[via_fn]
proof fn merged_decreases(files: Files) {
    match front(files, 0).earliest() {
        None => {},
        Some(i) => {
            lemma_earliest_is_head(files, 0, i);
            lemma_total_popped(files, i);
        },
    }
}

/// The records that `out` has drawn from stream `i`, in the order of `out`.
pub open spec fn taken(out: Seq<Drawn>, i: int) -> Seq<BlkIoTrace>
    decreases out.len(),
{
    if out.len() == 0 {
        Seq::empty()
    } else if out[0].source == i {
        seq![out[0].record] + taken(out.drop_first(), i)
    } else {
        taken(out.drop_first(), i)
    }
}

/// Whether the times in `s` never go back.
pub open spec fn non_decreasing(s: Seq<BlkIoTrace>) -> bool {
    forall|a: int, b: int| 0 <= a <= b < s.len() ==> s[a]@.time <= s[b]@.time
}

/// Whether the times of the records in `out` never go back.
pub open spec fn in_order(out: Seq<Drawn>) -> bool {
    forall|a: int, b: int| 0 <= a <= b < out.len() ==> out[a].record@.time <= out[b].record@.time
}

/// Whether every stream is in order of time.
pub open spec fn each_non_decreasing(files: Files) -> bool {
    forall|i: int| 0 <= i < files.len() ==> non_decreasing(#[trigger] files[i])
}

/// Whether no record of any stream is earlier than `t`.
pub open spec fn none_before(files: Files, t: u64) -> bool {
    forall|i: int, k: int|
        0 <= i < files.len() && 0 <= k < files[i].len() ==> t <= (#[trigger] files[i][k])@.time
}

/// The earliest among the first `n` slots, the first of them where several
/// are as early.
spec fn scan(m: MergeState, n: nat) -> Option<int>
    decreases n,
{
    if n == 0 {
        None
    } else {
        let before = scan(m, (n - 1) as nat);
        let j = n - 1;
        if m.slots[j] is None {
            before
        } else if before is None {
            Some(j)
        } else if m.time(j) < m.time(before->0) {
            Some(j)
        } else {
            before
        }
    }
}

proof fn lemma_scan(m: MergeState, n: nat)
    requires
        n <= m.slots.len(),
    ensures
        scan(m, n) is None ==> forall|j: int| 0 <= j < n ==> (#[trigger] m.slots[j]) is None,
        scan(m, n) is Some ==> {
            let b = scan(m, n)->0;
            &&& 0 <= b < n
            &&& m.slots[b] is Some
            &&& forall|j: int|
                0 <= j < n && (#[trigger] m.slots[j]) is Some ==> {
                    ||| m.time(b) < m.time(j)
                    ||| m.time(b) == m.time(j) && b <= j
                }
        },
    decreases n,
{
    if n > 0 {
        lemma_scan(m, (n - 1) as nat);
    }
}

/// A merge with a pending record has an earliest slot, and the earliest slot
/// is earliest indeed.
pub proof fn lemma_earliest(m: MergeState)
    ensures
        m.earliest() is None <==> m.is_done(),
        m.earliest() is Some ==> m.is_earliest(m.earliest()->0),
{
    lemma_scan(m, m.slots.len());
    if scan(m, m.slots.len()) is Some {
        let b = scan(m, m.slots.len())->0;
        assert(m.is_earliest(b));
        lemma_earliest_unique(m, b);
        assert(m.slots[b] is Some);
    } else {
        assert(m.is_done());
        lemma_done_has_no_earliest(m);
    }
}

/// The earliest slot of the front of some streams is a stream with a record.
pub proof fn lemma_earliest_is_head(files: Files, genesis: u64, i: int)
    requires
        front(files, genesis).earliest() == Some(i),
    ensures
        0 <= i < files.len(),
        files[i].len() > 0,
        forall|j: int|
            0 <= j < files.len() && (#[trigger] files[j]).len() > 0 ==> files[i][0]@.time
                <= files[j][0]@.time,
{
    let m = front(files, genesis);
    lemma_earliest(m);
    assert(m.is_earliest(i));
    assert forall|j: int| 0 <= j < files.len() && (#[trigger] files[j]).len() > 0 implies files[i][0]@.time
        <= files[j][0]@.time by {
        assert(m.slots[j] is Some);
    }
}

proof fn lemma_total_update(files: Files, i: int, s: Seq<BlkIoTrace>)
    requires
        0 <= i < files.len(),
    ensures
        total(files.update(i, s)) == total(files) - files[i].len() + s.len(),
    decreases files.len(),
{
    let after = files.update(i, s);
    if i == files.len() - 1 {
        assert(after.drop_last() =~= files.drop_last());
    } else {
        assert(after.drop_last() =~= files.drop_last().update(i, s));
        lemma_total_update(files.drop_last(), i, s);
    }
}

/// Drawing a record leaves one record fewer.
pub proof fn lemma_total_popped(files: Files, i: int)
    requires
        0 <= i < files.len(),
        files[i].len() > 0,
    ensures
        total(popped(files, i)) == total(files) - 1,
{
    lemma_total_update(files, i, files[i].drop_first());
}

proof fn lemma_taken_first(out: Seq<Drawn>, d: Drawn, i: int)
    ensures
        taken(seq![d] + out, i) == if d.source == i {
            seq![d.record] + taken(out, i)
        } else {
            taken(out, i)
        },
{
    assert((seq![d] + out).drop_first() =~= out);
}

/// The merge loses nothing and keeps the order within each stream: the
/// records that it draws from a stream are the records of that stream, in
/// their order, and it draws from no other place.
pub proof fn lemma_merge_keeps_each_stream(files: Files)
    ensures
        forall|i: int| 0 <= i < files.len() ==> taken(merged(files), i) == #[trigger] files[i],
        forall|k: int|
            0 <= k < merged(files).len() ==> 0 <= (#[trigger] merged(files)[k]).source
                < files.len(),
        merged(files).len() == total(files),
    decreases total(files),
{
    let m = front(files, 0);
    lemma_earliest(m);
    match m.earliest() {
        None => {
            assert forall|i: int| 0 <= i < files.len() implies taken(merged(files), i)
                == #[trigger] files[i] by {
                assert(m.slots[i] is None);
                assert(files[i] =~= Seq::empty());
            }
            lemma_total_empty(files);
        },
        Some(j) => {
            lemma_earliest_is_head(files, 0, j);
            lemma_total_popped(files, j);
            let rest = popped(files, j);
            let d = Drawn { source: j, record: files[j][0] };
            lemma_merge_keeps_each_stream(rest);
            assert forall|i: int| 0 <= i < files.len() implies taken(merged(files), i)
                == #[trigger] files[i] by {
                lemma_taken_first(merged(rest), d, i);
                assert(taken(merged(rest), i) == rest[i]);
                if i == j {
                    assert(seq![files[j][0]] + files[j].drop_first() =~= files[j]);
                }
            }
            assert forall|k: int| 0 <= k < merged(files).len() implies 0 <= (
            #[trigger] merged(files)[k]).source < files.len() by {
                if k > 0 {
                    assert(merged(files)[k] == merged(rest)[k - 1]);
                }
            }
        },
    }
}

proof fn lemma_total_empty(files: Files)
    requires
        forall|i: int| 0 <= i < files.len() ==> (#[trigger] files[i]).len() == 0,
    ensures
        total(files) == 0,
    decreases files.len(),
{
    if files.len() > 0 {
        lemma_total_empty(files.drop_last());
    }
}

/// Nothing in the merge is earlier than everything in the streams.
pub proof fn lemma_merge_none_before(files: Files, t: u64)
    requires
        none_before(files, t),
    ensures
        forall|k: int|
            0 <= k < merged(files).len() ==> t <= (#[trigger] merged(files)[k]).record@.time,
    decreases total(files),
{
    let m = front(files, 0);
    match m.earliest() {
        None => {},
        Some(j) => {
            lemma_earliest_is_head(files, 0, j);
            lemma_total_popped(files, j);
            let rest = popped(files, j);
            assert(none_before(rest, t)) by {
                assert forall|i: int, k: int|
                    0 <= i < rest.len() && 0 <= k < rest[i].len() implies t <= (
                #[trigger] rest[i][k])@.time by {
                    if i == j {
                        assert(rest[i][k] == files[i][k + 1]);
                    } else {
                        assert(rest[i][k] == files[i][k]);
                    }
                }
            }
            lemma_merge_none_before(rest, t);
            assert forall|k: int| 0 <= k < merged(files).len() implies t <= (
            #[trigger] merged(files)[k]).record@.time by {
                if k > 0 {
                    assert(merged(files)[k] == merged(rest)[k - 1]);
                } else {
                    assert(merged(files)[0].record == files[j][0]);
                }
            }
        },
    }
}

/// Streams that are each in order of time merge into an output in order of
/// time.
pub proof fn lemma_merge_in_order(files: Files)
    requires
        each_non_decreasing(files),
    ensures
        in_order(merged(files)),
    decreases total(files),
{
    let m = front(files, 0);
    match m.earliest() {
        None => {},
        Some(j) => {
            lemma_earliest_is_head(files, 0, j);
            lemma_total_popped(files, j);
            let rest = popped(files, j);
            let t = files[j][0]@.time;
            assert(each_non_decreasing(rest)) by {
                assert forall|i: int| 0 <= i < rest.len() implies non_decreasing(
                    #[trigger] rest[i],
                ) by {
                    assert(non_decreasing(files[i]));
                    if i == j {
                        assert forall|a: int, b: int| 0 <= a <= b < rest[i].len() implies rest[i][a]@.time
                            <= rest[i][b]@.time by {
                            assert(rest[i][a] == files[i][a + 1]);
                            assert(rest[i][b] == files[i][b + 1]);
                        }
                    }
                }
            }
            assert(none_before(rest, t)) by {
                assert forall|i: int, k: int|
                    0 <= i < rest.len() && 0 <= k < rest[i].len() implies t <= (
                #[trigger] rest[i][k])@.time by {
                    assert(non_decreasing(files[i]));
                    if i == j {
                        assert(rest[i][k] == files[i][k + 1]);
                    } else {
                        assert(rest[i][k] == files[i][k]);
                        assert(files[i].len() > 0);
                        assert(files[i][0]@.time <= files[i][k]@.time);
                    }
                }
            }
            lemma_merge_in_order(rest);
            lemma_merge_none_before(rest, t);
            let out = merged(files);
            assert forall|a: int, b: int| 0 <= a <= b < out.len() implies out[a].record@.time
                <= out[b].record@.time by {
                if a > 0 {
                    assert(out[a] == merged(rest)[a - 1]);
                    assert(out[b] == merged(rest)[b - 1]);
                } else if b > 0 {
                    assert(out[b] == merged(rest)[b - 1]);
                }
            }
        },
    }
}

/// Counting from a genesis keeps a stream in order of time in order.
pub proof fn lemma_adjusted_in_order(files: Files, genesis: u64)
    requires
        each_non_decreasing(files),
    ensures
        each_non_decreasing(adjusted(files, genesis)),
{
    let adj = adjusted(files, genesis);
    assert forall|i: int| 0 <= i < adj.len() implies non_decreasing(#[trigger] adj[i]) by {
        assert(non_decreasing(files[i]));
        assert forall|a: int, b: int| 0 <= a <= b < adj[i].len() implies adj[i][a]@.time
            <= adj[i][b]@.time by {
            assert(files[i][a]@.time <= files[i][b]@.time);
        }
    }
}

/// In streams that are in order of time no record is earlier than the
/// genesis: every adjusted time is the true distance from the genesis.
pub proof fn lemma_adjusted_is_exact(files: Files, genesis: u64)
    requires
        each_non_decreasing(files),
        is_genesis(firsts(files), genesis),
    ensures
        forall|i: int, k: int|
            0 <= i < files.len() && 0 <= k < files[i].len() ==> (#[trigger] adjusted(
                files,
                genesis,
            )[i][k])@.time == files[i][k]@.time - genesis,
{
    let adj = adjusted(files, genesis);
    let first = firsts(files);
    assert forall|i: int, k: int| 0 <= i < files.len() && 0 <= k < files[i].len() implies (
    #[trigger] adj[i][k])@.time == files[i][k]@.time - genesis by {
        assert(non_decreasing(files[i]));
        assert(is_record(first[i]) && time_of(first[i]) == files[i][0]@.time);
        assert(genesis <= files[i][0]@.time <= files[i][k]@.time);
    }
}

/// The merged output of streams in order of time, with times counted from
/// a genesis, is in order of time.
pub proof fn lemma_merge_of_ordered_streams(files: Files, genesis: u64)
    requires
        each_non_decreasing(files),
    ensures
        in_order(merged(adjusted(files, genesis))),
{
    lemma_adjusted_in_order(files, genesis);
    lemma_merge_in_order(adjusted(files, genesis));
}

/// With times counted from the genesis, the output is not empty and its
/// first record has time 0; no time is below that, so 0 is the least time of
/// the output.
pub proof fn lemma_merge_starts_at_zero(files: Files, genesis: u64)
    requires
        is_genesis(firsts(files), genesis),
    ensures
        merged(adjusted(files, genesis)).len() > 0,
        merged(adjusted(files, genesis))[0].record@.time == 0,
{
    let adj = adjusted(files, genesis);
    let first = firsts(files);
    let m = front(adj, 0);
    let w = choose|i: int| 0 <= i < first.len() && is_record(#[trigger] first[i]) && time_of(first[i]) == genesis;
    assert(is_record(first[w]) && time_of(first[w]) == genesis);
    assert(files[w].len() > 0);
    assert(adj[w].len() > 0);
    assert(adj[w][0]@.time == 0);
    assert(m.slots[w] is Some);
    lemma_earliest(m);
    let j = m.earliest()->0;
    lemma_earliest_is_head(adj, 0, j);
    assert(adj[j][0]@.time <= adj[w][0]@.time);
}

/// The slots that `Reader::new` starts with are the first records of the
/// streams, counted from the genesis.
pub proof fn lemma_first_slots(files: Files, genesis: u64)
    ensures
        first_slots(firsts(files), genesis) == heads(adjusted(files, genesis)),
{
    assert(first_slots(firsts(files), genesis) =~= heads(adjusted(files, genesis)));
}

/// What a stream has behind its first record, as an item.
pub open spec fn second(file: Seq<BlkIoTrace>) -> Item {
    if file.len() > 1 {
        Some(Ok(file[1]))
    } else {
        None
    }
}

/// One step of a `Reader` that is fed from `files` is one step of the merge:
/// it hands out the first record of the merged output and is then the
/// `Reader` of the streams that are left.
pub proof fn lemma_advance_follows_merge(files: Files, genesis: u64)
    requires
        total(files) > 0,
    ensures
        front(adjusted(files, genesis), genesis).earliest() is Some,
        ({
            let adj = adjusted(files, genesis);
            let m = front(adj, genesis);
            let i = m.earliest()->0;
            &&& 0 <= i < files.len() && files[i].len() > 0
            &&& merged(adj).len() > 0
            &&& merged(adj)[0] == Drawn { source: i, record: adj[i][0] }
            &&& merged(adj).drop_first() == merged(adjusted(popped(files, i), genesis))
            &&& m.advance(second(files[i])) == (
                front(adjusted(popped(files, i), genesis), genesis),
                Some(Ok::<BlkIoTrace, Error>(adj[i][0])),
            )
        }),
{
    let adj = adjusted(files, genesis);
    let m = front(adj, genesis);
    lemma_earliest(m);
    if m.is_done() {
        assert forall|i: int| 0 <= i < files.len() implies (#[trigger] files[i]).len() == 0 by {
            assert(m.slots[i] is None);
        }
        lemma_total_empty(files);
    }
    let i = m.earliest()->0;
    lemma_earliest_is_head(adj, genesis, i);
    lemma_same_earliest(heads(adj), genesis, 0);
    assert(front(adj, 0).earliest() == Some(i));
    assert(popped(adj, i) =~= adjusted(popped(files, i), genesis)) by {
        let a = popped(adj, i);
        let b = adjusted(popped(files, i), genesis);
        assert forall|j: int| 0 <= j < a.len() implies #[trigger] a[j] =~= b[j] by {}
    }
    assert(merged(adj).drop_first() =~= merged(popped(adj, i)));
    let after = m.advance(second(files[i])).0;
    let next = front(adjusted(popped(files, i), genesis), genesis);
    assert(after.slots =~= next.slots);
}

/// Which slot is the earliest does not depend on the genesis.
pub proof fn lemma_same_earliest(slots: Seq<Option<BlkIoTrace>>, g1: u64, g2: u64)
    ensures
        (MergeState { slots, genesis: g1 }).earliest() == (MergeState {
            slots,
            genesis: g2,
        }).earliest(),
{
    let a = MergeState { slots, genesis: g1 };
    let b = MergeState { slots, genesis: g2 };
    lemma_earliest(a);
    lemma_earliest(b);
    if a.earliest() is Some {
        let i = a.earliest()->0;
        assert(b.is_earliest(i)) by {
            assert forall|j: int| 0 <= j < b.slots.len() && (#[trigger] b.slots[j]) is Some implies {
                ||| b.time(i) < b.time(j)
                ||| b.time(i) == b.time(j) && i <= j
            } by {
                assert(a.slots[j] is Some);
            }
        }
        lemma_earliest_unique(b, i);
    } else {
        assert(b.is_done()) by {
            assert forall|i: int| 0 <= i < b.slots.len() implies (#[trigger] b.slots[i]) is None by {
                assert(a.slots[i] is None);
            }
        }
    }
}

} // verus!
