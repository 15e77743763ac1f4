//! What every statistic offers.

use crate::blk_io_trace::{BlkIoTrace, RawTrace};
use vstd::prelude::*;

verus! {

/// A statistic that is kept up to date record by record. It holds sums,
/// counts and extremes, never the records themselves.
pub trait Plugin: Sized {
    /// The heading under which the statistic reports.
    spec fn heading(&self) -> Seq<char>;

    /// The statistic after it has seen `record`.
    spec fn updated(&self, record: RawTrace) -> Self;

    /// What the statistic has to say so far, as one line.
    spec fn report(&self) -> Seq<char>;

    /// Name of the plugin.
    fn name(&self) -> (text: String)
        ensures
            text@ == self.heading(),
    ;

    /// Updates the plugin's aggregations with this trace.
    fn update(&mut self, trace: &BlkIoTrace)
        ensures
            *final(self) == old(self).updated(trace@),
    ;

    /// Returns a string with the accumulated statistics so far.
    fn result(&self) -> (text: String)
        ensures
            text@ == self.report(),
    ;
}

} // verus!
