//! How large the completed requests were.

use super::plugin::Plugin;
use crate::blk_io_trace::{action_of, category_of, BlkIoTrace, IoAction, IoCategory, RawTrace};
use crate::text::{decimal, push_decimal, push_ratio, ratio};
use vstd::prelude::*;

verus! {

/// Counts the completed requests of each category and keeps the smallest,
/// the largest and the summed size of the reads and writes among them, in
/// blocks. A request of no block is not counted at all. Counters and sum stop
/// at the largest value of their type.
#[derive(Clone, Copy, Debug, PartialEq, Eq)]
pub struct ReqSize {
    /// Size of the smallest read or write; `u32::MAX` before the first.
    pub min: u32,
    /// Size of the largest read or write.
    pub max: u32,
    /// Sizes of all reads and writes together.
    pub total_size_blks: u64,
    pub num_reads: u64,
    pub num_writes: u64,
    pub num_discards: u64,
}

impl Default for ReqSize {
    fn default() -> (stats: ReqSize)
        ensures
            stats == ReqSize::empty(),
    {
        ReqSize {
            min: u32::MAX,
            max: 0,
            total_size_blks: 0,
            num_reads: 0,
            num_writes: 0,
            num_discards: 0,
        }
    }
}

impl ReqSize {
    /// The statistic before any request.
    pub open spec fn empty() -> ReqSize {
        ReqSize {
            min: u32::MAX,
            max: 0,
            total_size_blks: 0,
            num_reads: 0,
            num_writes: 0,
            num_discards: 0,
        }
    }

    /// The sizes after a read or write of `blks` blocks.
    pub open spec fn sized(self, blks: u32) -> ReqSize {
        ReqSize {
            min: if blks < self.min {
                blks
            } else {
                self.min
            },
            max: if blks > self.max {
                blks
            } else {
                self.max
            },
            total_size_blks: self.total_size_blks.saturating_add(blks as u64),
            ..self
        }
    }

    /// Reads and writes together.
    pub open spec fn requests(self) -> nat {
        (self.num_reads + self.num_writes) as nat
    }

    fn add_size(&mut self, blks: u32)
        ensures
            *final(self) == old(self).sized(blks),
    {
        if blks < self.min {
            self.min = blks;
        }
        if blks > self.max {
            self.max = blks;
        }
        self.total_size_blks = self.total_size_blks.saturating_add(blks as u64);
    }
}

impl Plugin for ReqSize {
    open spec fn heading(&self) -> Seq<char> {
        "Request Size"@
    }

    open spec fn updated(&self, record: RawTrace) -> ReqSize {
        if action_of(record.action) != IoAction::Complete || record.block_count() == 0 {
            *self
        } else {
            match category_of(record.action) {
                IoCategory::Read => ReqSize {
                    num_reads: self.num_reads.saturating_add(1),
                    ..*self
                }.sized(record.block_count()),
                IoCategory::Write => ReqSize {
                    num_writes: self.num_writes.saturating_add(1),
                    ..*self
                }.sized(record.block_count()),
                IoCategory::Discard => ReqSize {
                    num_discards: self.num_discards.saturating_add(1),
                    ..*self
                },
                IoCategory::Unknown => *self,
            }
        }
    }

    /// The number of reads and writes, the share of each among them in
    /// percent, and the smallest, mean and largest size.
    open spec fn report(&self) -> Seq<char> {
        if self.requests() == 0 {
            "No updates"@
        } else {
            "Reqs. #: "@ + decimal(self.requests()) + " Reads: "@ + decimal(self.num_reads as nat)
                + " ("@ + ratio((100 * self.num_reads) as nat, self.requests()) + "%) Writes: "@ + decimal(
                self.num_writes as nat,
            ) + " ("@ + ratio((100 * self.num_writes) as nat, self.requests()) + "%) Size:(min: "@
                + decimal(self.min as nat) + " avg: "@ + ratio(
                self.total_size_blks as nat,
                self.requests(),
            ) + " max: "@ + decimal(self.max as nat) + " (blks))"@
        }
    }

    fn name(&self) -> (text: String) {
        String::from_str("Request Size")
    }

    fn update(&mut self, trace: &BlkIoTrace) {
        match trace.io_action() {
            IoAction::Complete => {},
            _ => {
                return ;
            },
        }
        let blks: u32 = trace.blks();
        if blks == 0 {
            return ;
        }
        match trace.io_category() {
            IoCategory::Read => {
                self.num_reads = self.num_reads.saturating_add(1);
                self.add_size(blks);
            },
            IoCategory::Write => {
                self.num_writes = self.num_writes.saturating_add(1);
                self.add_size(blks);
            },
            IoCategory::Discard => {
                self.num_discards = self.num_discards.saturating_add(1);
            },
            IoCategory::Unknown => {},
        }
    }

    fn result(&self) -> (text: String) {
        let total_reqs: u128 = self.num_reads as u128 + self.num_writes as u128;
        if total_reqs == 0 {
            return String::from_str("No updates");
        }
        let mut text = String::from_str("Reqs. #: ");
        push_decimal(&mut text, total_reqs);
        text.append(" Reads: ");
        push_decimal(&mut text, self.num_reads as u128);
        text.append(" (");
        push_ratio(&mut text, 100 * (self.num_reads as u128), total_reqs);
        text.append("%) Writes: ");
        push_decimal(&mut text, self.num_writes as u128);
        text.append(" (");
        push_ratio(&mut text, 100 * (self.num_writes as u128), total_reqs);
        text.append("%) Size:(min: ");
        push_decimal(&mut text, self.min as u128);
        text.append(" avg: ");
        push_ratio(&mut text, self.total_size_blks as u128, total_reqs);
        text.append(" max: ");
        push_decimal(&mut text, self.max as u128);
        text.append(" (blks))");
        assert(text@ =~= self.report());
        text
    }
}

} // verus!
