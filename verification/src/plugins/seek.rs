//! How far the head had to travel between completed requests.

use super::plugin::Plugin;
use crate::blk_io_trace::{action_of, category_of, BlkIoTrace, IoAction, IoCategory, RawTrace};
use crate::text::{decimal, push_decimal, push_ratio, ratio};
use vstd::prelude::*;

verus! {

/// The numbers that `Seek` keeps. Counters, sum and positions stop at the
/// largest value of their type.
#[derive(Clone, Copy, Debug, PartialEq, Eq)]
pub struct SeekStats {
    /// The sector behind the last request; `None` before the first.
    pub last_pos: Option<u64>,
    /// The shortest seek; `u64::MAX` before the first.
    pub min: u64,
    /// The longest seek.
    pub max: u64,
    /// All seeks together, in sectors.
    pub total_distance: u64,
    /// Requests that did not start where the one before them ended.
    pub seeks: u64,
    /// All requests that were looked at.
    pub total_reqs: u64,
}

impl SeekStats {
    /// The numbers before any request.
    pub open spec fn empty() -> SeekStats {
        SeekStats {
            last_pos: None,
            min: u64::MAX,
            max: 0,
            total_distance: 0,
            seeks: 0,
            total_reqs: 0,
        }
    }

    /// Whether the record counts: a completed read or write of at least one
    /// block.
    pub open spec fn qualifies(record: RawTrace) -> bool {
        &&& action_of(record.action) == IoAction::Complete
        &&& (category_of(record.action) == IoCategory::Read || category_of(record.action)
            == IoCategory::Write)
        &&& record.block_count() > 0
    }

    /// The distance between two sectors.
    pub open spec fn distance(a: u64, b: u64) -> u64 {
        if a > b {
            (a - b) as u64
        } else {
            (b - a) as u64
        }
    }

    /// The numbers after a seek of `d` sectors.
    pub open spec fn moved(self, d: u64) -> SeekStats {
        SeekStats {
            total_distance: self.total_distance.saturating_add(d),
            max: if d > self.max {
                d
            } else {
                self.max
            },
            min: if d < self.min {
                d
            } else {
                self.min
            },
            seeks: self.seeks.saturating_add(1),
            ..self
        }
    }

    /// The numbers after `record`. A record that counts is one more request.
    /// It is a seek if it does not start at the sector behind the request
    /// before it; its distance from that sector is then added. The first
    /// request is no seek.
    pub open spec fn updated(self, record: RawTrace) -> SeekStats {
        if !SeekStats::qualifies(record) {
            self
        } else {
            let counted = SeekStats { total_reqs: self.total_reqs.saturating_add(1), ..self };
            let moved = match self.last_pos {
                Some(last) if last != record.sector => counted.moved(
                    SeekStats::distance(last, record.sector),
                ),
                _ => counted,
            };
            SeekStats {
                last_pos: Some(record.sector.saturating_add(record.block_count() as u64)),
                ..moved
            }
        }
    }

    /// The share of requests that were no seeks, in percent; the number of
    /// seeks; and the shortest, mean and longest seek.
    pub open spec fn report(self) -> Seq<char> {
        if self.seeks == 0 {
            "No updates"@
        } else {
            "Seq.: "@ + ratio((100 * (self.total_reqs - self.seeks)) as nat, self.total_reqs as nat)
                + "% Seeks #: "@ + decimal(self.seeks as nat) + " min: "@ + decimal(
                self.min as nat,
            ) + " avg: "@ + ratio(self.total_distance as nat, self.seeks as nat) + " max: "@
                + decimal(self.max as nat) + " (blks)"@
        }
    }
}

/// Measures seeks: among the completed reads and writes, how often and how
/// far a request starts away from the end of the one before it. There are
/// never more seeks than requests.
#[derive(Clone, Copy, Debug, PartialEq, Eq)]
pub struct Seek {
    stats: SeekStats,
}

impl View for Seek {
    type V = SeekStats;

    closed spec fn view(&self) -> SeekStats {
        self.stats
    }
}

impl Default for Seek {
    fn default() -> (seek: Seek)
        ensures
            seek@ == SeekStats::empty(),
    {
        Seek {
            stats: SeekStats {
                last_pos: None,
                min: u64::MAX,
                max: 0,
                total_distance: 0,
                seeks: 0,
                total_reqs: 0,
            },
        }
    }
}

impl Seek {
    #[verifier::type_invariant]
    spec fn well_formed(self) -> bool {
        self.stats.seeks <= self.stats.total_reqs
    }

    /// The statistic that keeps the numbers `stats`.
    pub closed spec fn of(stats: SeekStats) -> Seek {
        Seek { stats }
    }

    /// The numbers kept so far.
    pub fn stats(&self) -> (stats: &SeekStats)
        ensures
            *stats == self@,
            stats.seeks <= stats.total_reqs,
    {
        proof {
            use_type_invariant(self);
        }
        &self.stats
    }
}

/// A statistic is its numbers and nothing more.
pub broadcast proof fn lemma_seek_of_stats(stats: SeekStats)
    ensures
        (#[trigger] Seek::of(stats))@ == stats,
{
}

pub broadcast proof fn lemma_stats_of_seek(seek: Seek)
    ensures
        Seek::of(#[trigger] seek@) == seek,
{
}

pub broadcast group group_seek_stats {
    lemma_seek_of_stats,
    lemma_stats_of_seek,
}

impl Plugin for Seek {
    open spec fn heading(&self) -> Seq<char> {
        "Seek"@
    }

    open spec fn updated(&self, record: RawTrace) -> Seek {
        Seek::of(self@.updated(record))
    }

    open spec fn report(&self) -> Seq<char> {
        self@.report()
    }

    fn name(&self) -> (text: String) {
        String::from_str("Seek")
    }

    fn update(&mut self, trace: &BlkIoTrace) {
        proof {
            use_type_invariant(&*self);
        }
        match trace.io_action() {
            IoAction::Complete => {},
            _ => {
                return ;
            },
        }
        match trace.io_category() {
            IoCategory::Read => {},
            IoCategory::Write => {},
            _ => {
                return ;
            },
        }
        let blks: u64 = trace.blks() as u64;
        if blks == 0 {
            return ;
        }
        let sector: u64 = trace.trace().sector;
        let mut stats = self.stats;
        stats.total_reqs = stats.total_reqs.saturating_add(1);
        match stats.last_pos {
            Some(last_pos) => {
                if last_pos != sector {
                    let distance: u64 = if last_pos > sector {
                        last_pos - sector
                    } else {
                        sector - last_pos
                    };
                    stats.total_distance = stats.total_distance.saturating_add(distance);
                    if distance > stats.max {
                        stats.max = distance;
                    }
                    if distance < stats.min {
                        stats.min = distance;
                    }
                    stats.seeks = stats.seeks.saturating_add(1);
                }
            },
            None => {},
        }
        stats.last_pos = Some(sector.saturating_add(blks));
        self.stats = stats;
    }

    fn result(&self) -> (text: String) {
        proof {
            use_type_invariant(self);
        }
        let stats = self.stats;
        if stats.seeks == 0 {
            return String::from_str("No updates");
        }
        let sequential: u128 = (stats.total_reqs - stats.seeks) as u128;
        let mut text = String::from_str("Seq.: ");
        push_ratio(&mut text, 100 * sequential, stats.total_reqs as u128);
        text.append("% Seeks #: ");
        push_decimal(&mut text, stats.seeks as u128);
        text.append(" min: ");
        push_decimal(&mut text, stats.min as u128);
        text.append(" avg: ");
        push_ratio(&mut text, stats.total_distance as u128, stats.seeks as u128);
        text.append(" max: ");
        push_decimal(&mut text, stats.max as u128);
        text.append(" (blks)");
        assert(text@ =~= self.report());
        text
    }
}

} // verus!
