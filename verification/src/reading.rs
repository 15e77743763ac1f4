//! What a `TraceReader` gives, stated over the bytes of its streams: it
//! gives the merge of the records that the streams hold, their times counted
//! from the genesis.

use crate::blk_io_trace::{group_record_fields, BlkIoTrace};
use crate::error::Error;
use crate::kway::{
    adjusted, each_non_decreasing, firsts, heads, in_order, lemma_earliest,
    lemma_earliest_is_head, lemma_merge_keeps_each_stream, lemma_merge_of_ordered_streams,
    lemma_merge_starts_at_zero, lemma_same_earliest, merged, popped, rebased_all, taken, total,
    Files,
};
use crate::trace::{
    any_error, any_record, is_error, is_genesis, rebased, starts, Item, MergeState,
};
use crate::trace_file::{lemma_pull_moves_on, Merging, Stream};
use vstd::prelude::*;

verus! {

broadcast use group_record_fields;

/// All records that the stream gives from the cursor on, up to its end or
/// its first error.
pub open spec fn records(s: Stream) -> Seq<BlkIoTrace>
    decreases s.data.len() - s.pos,
    via records_decreases
{
    let pulled = s.next();
    match pulled.item {
        Some(Ok(t)) => seq![t] + records(pulled.rest),
        _ => Seq::empty(),
    }
}

/// Whether the stream reaches its end without an error.
pub open spec fn is_clean(s: Stream) -> bool
    decreases s.data.len() - s.pos,
    via is_clean_decreases
{
    let pulled = s.next();
    match pulled.item {
        Some(Ok(_)) => is_clean(pulled.rest),
        Some(Err(_)) => false,
        None => true,
    }
}

#[via_fn]
proof fn records_decreases(s: Stream) {
    lemma_pull_moves_on(s);
}

#[via_fn]
proof fn is_clean_decreases(s: Stream) {
    lemma_pull_moves_on(s);
}

/// The records of each of the streams, read from their starts.
pub open spec fn contents(data: Seq<Seq<u8>>) -> Files {
    Seq::new(data.len(), |i: int| records(Stream::start(data[i])))
}

/// Whether each of the streams reaches its end without an error.
pub open spec fn all_clean(data: Seq<Seq<u8>>) -> bool {
    forall|i: int| 0 <= i < data.len() ==> is_clean(Stream::start(#[trigger] data[i]))
}

/// What a merge still has to give from its stream `i`: the pending record,
/// and behind it the records that the stream still holds, counted from the
/// genesis. A stream without a pending record gives nothing more.
pub open spec fn outstanding(m: Merging, i: int) -> Seq<BlkIoTrace> {
    match m.state.slots[i] {
        Some(t) => seq![t] + rebased_all(records(m.streams[i]), m.state.genesis),
        None => Seq::empty(),
    }
}

/// What a merge still has to give, stream by stream.
pub open spec fn remaining(m: Merging) -> Files {
    Seq::new(m.streams.len(), |i: int| outstanding(m, i))
}

/// Whether the merge has one slot for each stream and every stream reaches
/// its end without an error.
pub open spec fn sound(m: Merging) -> bool {
    &&& m.streams.len() == m.state.slots.len()
    &&& forall|i: int| 0 <= i < m.streams.len() ==> is_clean(#[trigger] m.streams[i])
}

/// The merge after `k` pulls.
pub open spec fn after(m: Merging, k: nat) -> Merging
    decreases k,
{
    if k == 0 {
        m
    } else {
        after(m.next().0, (k - 1) as nat)
    }
}

/// One pull from a sound merge gives the first record of the merge of what
/// is outstanding, and leaves a sound merge of the rest.
pub proof fn lemma_pull_follows_merge(m: Merging)
    requires
        sound(m),
    ensures
        sound(m.next().0),
        merged(remaining(m)).len() == 0 ==> m.next().1 is None && m.next().0 == m,
        merged(remaining(m)).len() > 0 ==> {
            &&& m.next().1 == Some(Ok::<BlkIoTrace, Error>(merged(remaining(m))[0].record))
            &&& merged(remaining(m.next().0)) == merged(remaining(m)).drop_first()
        },
{
    let files = remaining(m);
    let g = m.state.genesis;
    assert(heads(files) =~= m.state.slots);
    lemma_same_earliest(m.state.slots, g, 0);
    lemma_earliest(m.state);
    match m.state.earliest() {
        None => {},
        Some(i) => {
            lemma_earliest_is_head(files, 0, i);
            let pulled = m.streams[i].next();
            lemma_pull_moves_on(m.streams[i]);
            assert(is_clean(m.streams[i]));
            let after = m.next().0;
            assert(after.streams[i] == pulled.rest);
            assert(remaining(after) =~= popped(files, i)) by {
                assert forall|j: int| 0 <= j < files.len() implies #[trigger] remaining(after)[j]
                    =~= popped(files, i)[j] by {
                    if j != i {
                        assert(after.streams[j] == m.streams[j]);
                    }
                }
            }
            assert(sound(after)) by {
                assert forall|j: int| 0 <= j < after.streams.len() implies is_clean(
                    #[trigger] after.streams[j],
                ) by {
                    assert(is_clean(m.streams[j]));
                }
            }
            assert(merged(files).drop_first() =~= merged(popped(files, i)));
        },
    }
}

/// A sound merge gives, pull by pull, the merge of what is outstanding, and
/// `None` from then on.
pub proof fn lemma_pulls_give_the_merge(m: Merging, k: nat)
    requires
        sound(m),
    ensures
        sound(after(m, k)),
        k < merged(remaining(m)).len() ==> after(m, k).next().1 == Some(
            Ok::<BlkIoTrace, Error>(merged(remaining(m))[k as int].record),
        ),
        k >= merged(remaining(m)).len() ==> after(m, k).next().1 is None,
    decreases k,
{
    lemma_pull_follows_merge(m);
    if k > 0 {
        lemma_pulls_give_the_merge(m.next().0, (k - 1) as nat);
    }
}

/// What is outstanding from a stream whose first pull gave `first` and left
/// `rest`.
spec fn pending_of(first: Item, rest: Stream, genesis: u64) -> Seq<BlkIoTrace> {
    match first {
        Some(Ok(t)) => seq![rebased(t, genesis)] + rebased_all(records(rest), genesis),
        _ => Seq::empty(),
    }
}

/// The first pull from a stream without errors gives no error and leaves a
/// stream without errors; the record that it gives, if any, is the first
/// record of the stream.
proof fn lemma_first_pull(s: Stream, genesis: u64)
    requires
        is_clean(s),
    ensures
        !(s.next().item matches Some(Err(_))),
        is_clean(s.next().rest),
        s.next().item matches Some(Ok(t)) ==> records(s).len() > 0 && records(s)[0] == t,
        s.next().item is None ==> records(s).len() == 0,
        pending_of(s.next().item, s.next().rest, genesis) == rebased_all(records(s), genesis),
{
    let pulled = s.next();
    match pulled.item {
        Some(Ok(t)) => {
            assert(records(s) == seq![t] + records(pulled.rest));
            assert(pending_of(pulled.item, pulled.rest, genesis) =~= rebased_all(
                records(s),
                genesis,
            ));
        },
        Some(Err(_)) => {},
        None => {
            assert(records(s) == Seq::<BlkIoTrace>::empty());
            assert(is_clean(pulled.rest)) by {
                lemma_pull_moves_on(s);
            }
            assert(pending_of(pulled.item, pulled.rest, genesis) =~= rebased_all(
                records(s),
                genesis,
            ));
        },
    }
}

/// A merge that has started over streams without errors is sound, and what
/// is outstanding in it are the records of the streams, counted from the
/// genesis, which is the earliest time among their first records.
pub proof fn lemma_start_is_sound(data: Seq<Seq<u8>>, state: MergeState)
    requires
        all_clean(data),
        starts(Merging::first(data), Ok(state)),
    ensures
        sound(Merging { streams: Merging::rest(data), state }),
        remaining(Merging { streams: Merging::rest(data), state }) == adjusted(
            contents(data),
            state.genesis,
        ),
        is_genesis(firsts(contents(data)), state.genesis),
{
    let m = Merging { streams: Merging::rest(data), state };
    let first = Merging::first(data);
    let files = contents(data);
    let g = state.genesis;
    assert forall|i: int| 0 <= i < data.len() implies !is_error(#[trigger] first[i]) by {
        lemma_first_pull(Stream::start(data[i]), g);
    }
    assert(first.len() > 0 && !any_error(first) && any_record(first));
    assert(m.streams.len() == m.state.slots.len());
    assert forall|i: int| 0 <= i < m.streams.len() implies is_clean(#[trigger] m.streams[i]) by {
        lemma_first_pull(Stream::start(data[i]), g);
    }
    assert forall|i: int| 0 <= i < data.len() implies #[trigger] firsts(files)[i] == first[i] by {
        lemma_first_pull(Stream::start(data[i]), g);
    }
    assert(firsts(files) =~= first);
    assert forall|i: int| 0 <= i < data.len() implies #[trigger] remaining(m)[i] == adjusted(
        files,
        g,
    )[i] by {
        lemma_first_pull(Stream::start(data[i]), g);
        assert(outstanding(m, i) == pending_of(first[i], m.streams[i], g));
    }
    assert(remaining(m) =~= adjusted(files, g));
}

/// The whole of it: over streams without errors, of which at least one
/// holds a record, the reader gives each record of each stream exactly once
/// and in the order of its stream; the first record that it gives has time
/// 0; and if every stream is in order of time, so is what the reader gives.
pub proof fn lemma_reader_merges_its_streams(data: Seq<Seq<u8>>, state: MergeState, k: nat)
    requires
        all_clean(data),
        starts(Merging::first(data), Ok(state)),
    ensures
        ({
            let m = Merging { streams: Merging::rest(data), state };
            let out = merged(adjusted(contents(data), state.genesis));
            &&& k < out.len() ==> after(m, k).next().1 == Some(
                Ok::<BlkIoTrace, Error>(out[k as int].record),
            )
            &&& k >= out.len() ==> after(m, k).next().1 is None
            &&& out.len() == total(contents(data)) > 0
            &&& out[0].record@.time == 0
            &&& forall|i: int|
                0 <= i < data.len() ==> taken(out, i) == #[trigger] adjusted(
                    contents(data),
                    state.genesis,
                )[i]
            &&& each_non_decreasing(contents(data)) ==> in_order(out)
        }),
{
    let m = Merging { streams: Merging::rest(data), state };
    let files = contents(data);
    let adj = adjusted(files, state.genesis);
    lemma_start_is_sound(data, state);
    lemma_pulls_give_the_merge(m, k);
    lemma_merge_keeps_each_stream(adj);
    lemma_merge_starts_at_zero(files, state.genesis);
    lemma_total_adjusted(files, state.genesis);
    if each_non_decreasing(files) {
        lemma_merge_of_ordered_streams(files, state.genesis);
    }
}

/// Counting from a genesis changes no number of records.
proof fn lemma_total_adjusted(files: Files, genesis: u64)
    ensures
        total(adjusted(files, genesis)) == total(files),
    decreases files.len(),
{
    if files.len() > 0 {
        assert(adjusted(files, genesis).drop_last() =~= adjusted(files.drop_last(), genesis));
        lemma_total_adjusted(files.drop_last(), genesis);
    }
}

} // verus!
