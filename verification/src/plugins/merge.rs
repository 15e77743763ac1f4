//! How many requests the queue folded into one.

use super::plugin::Plugin;
use crate::blk_io_trace::{action_of, BlkIoTrace, IoAction, RawTrace};
use crate::text::{decimal, push_decimal, push_ratio, ratio};
use vstd::prelude::*;

verus! {

/// Counts inserts and the merges that follow them. A merge that is seen
/// before any insert cannot belong to a queued request and is not counted.
/// The counters stop at the largest value of their type.
#[derive(Clone, Copy, Debug, PartialEq, Eq)]
pub struct Merge {
    /// Back merges after the first insert.
    pub ms: u64,
    /// Front merges after the first insert.
    pub fs: u64,
    /// Inserts.
    pub ins: u64,
}

impl Default for Merge {
    fn default() -> (merge: Merge)
        ensures
            merge == (Merge { ms: 0, fs: 0, ins: 0 }),
    {
        Merge { ms: 0, fs: 0, ins: 0 }
    }
}

impl Plugin for Merge {
    open spec fn heading(&self) -> Seq<char> {
        "Merge"@
    }

    open spec fn updated(&self, record: RawTrace) -> Merge {
        match action_of(record.action) {
            IoAction::BackMerge => if self.ins > 0 {
                Merge { ms: self.ms.saturating_add(1), ..*self }
            } else {
                *self
            },
            IoAction::FrontMerge => if self.ins > 0 {
                Merge { fs: self.fs.saturating_add(1), ..*self }
            } else {
                *self
            },
            IoAction::Insert => Merge { ins: self.ins.saturating_add(1), ..*self },
            _ => *self,
        }
    }

    /// Inserts, merges, and the mean number of requests that one queued
    /// request stands for: `(inserts + merges) / inserts`.
    open spec fn report(&self) -> Seq<char> {
        if self.ins > 0 {
            "#I: "@ + decimal(self.ins as nat) + " #F+#M: "@ + decimal((self.fs + self.ms) as nat)
                + " ratio: "@ + ratio((self.fs + self.ms + self.ins) as nat, self.ins as nat)
        } else {
            "#I: 0"@
        }
    }

    fn name(&self) -> (text: String) {
        String::from_str("Merge")
    }

    fn update(&mut self, trace: &BlkIoTrace) {
        match trace.io_action() {
            IoAction::BackMerge => {
                if self.ins > 0 {
                    self.ms = self.ms.saturating_add(1);
                }
            },
            IoAction::FrontMerge => {
                if self.ins > 0 {
                    self.fs = self.fs.saturating_add(1);
                }
            },
            IoAction::Insert => {
                self.ins = self.ins.saturating_add(1);
            },
            _ => {},
        }
    }

    fn result(&self) -> (text: String) {
        if self.ins > 0 {
            let merges: u128 = self.fs as u128 + self.ms as u128;
            let mut text = String::from_str("#I: ");
            push_decimal(&mut text, self.ins as u128);
            text.append(" #F+#M: ");
            push_decimal(&mut text, merges);
            text.append(" ratio: ");
            push_ratio(&mut text, merges + self.ins as u128, self.ins as u128);
            assert(text@ =~= self.report());
            text
        } else {
            String::from_str("#I: 0")
        }
    }
}

} // verus!
