//! The statistics that are kept over one trace, and their joint report.

use super::merge::Merge;
use super::plugin::Plugin;
use super::reqsize::ReqSize;
use super::seek::{group_seek_stats, Seek, SeekStats};
use crate::blk_io_trace::{BlkIoTrace, RawTrace};
use vstd::prelude::*;

verus! {

broadcast use group_seek_stats;

/// One of the statistics that this library offers.
#[derive(Clone, Copy, Debug, PartialEq, Eq)]
pub enum AnyPlugin {
    ReqSize(ReqSize),
    Seek(Seek),
    Merge(Merge),
}

impl Plugin for AnyPlugin {
    open spec fn heading(&self) -> Seq<char> {
        match self {
            AnyPlugin::ReqSize(p) => p.heading(),
            AnyPlugin::Seek(p) => p.heading(),
            AnyPlugin::Merge(p) => p.heading(),
        }
    }

    open spec fn updated(&self, record: RawTrace) -> AnyPlugin {
        match self {
            AnyPlugin::ReqSize(p) => AnyPlugin::ReqSize(p.updated(record)),
            AnyPlugin::Seek(p) => AnyPlugin::Seek(p.updated(record)),
            AnyPlugin::Merge(p) => AnyPlugin::Merge(p.updated(record)),
        }
    }

    open spec fn report(&self) -> Seq<char> {
        match self {
            AnyPlugin::ReqSize(p) => p.report(),
            AnyPlugin::Seek(p) => p.report(),
            AnyPlugin::Merge(p) => p.report(),
        }
    }

    fn name(&self) -> (text: String) {
        match self {
            AnyPlugin::ReqSize(p) => p.name(),
            AnyPlugin::Seek(p) => p.name(),
            AnyPlugin::Merge(p) => p.name(),
        }
    }

    fn update(&mut self, trace: &BlkIoTrace) {
        match self {
            AnyPlugin::ReqSize(p) => {
                p.update(trace);
            },
            AnyPlugin::Seek(p) => {
                p.update(trace);
            },
            AnyPlugin::Merge(p) => {
                p.update(trace);
            },
        }
    }

    fn result(&self) -> (text: String) {
        match self {
            AnyPlugin::ReqSize(p) => p.result(),
            AnyPlugin::Seek(p) => p.result(),
            AnyPlugin::Merge(p) => p.result(),
        }
    }
}

/// The part of the joint report that belongs to one statistic: its heading,
/// marked with `## `, and its report, each on a line of its own.
pub open spec fn section(plugin: AnyPlugin) -> Seq<char> {
    "## "@ + plugin.heading() + "\n"@ + plugin.report() + "\n"@
}

/// The joint report: the sections of all statistics, in their order.
pub open spec fn sections(plugins: Seq<AnyPlugin>) -> Seq<char>
    decreases plugins.len(),
{
    if plugins.len() == 0 {
        Seq::empty()
    } else {
        sections(plugins.drop_last()) + section(plugins.last())
    }
}

/// Statistics in the order in which they were registered. Every one of them
/// sees every record, and they report in that order.
pub struct PluginSet {
    plugins: Vec<AnyPlugin>,
}

impl View for PluginSet {
    type V = Seq<AnyPlugin>;

    closed spec fn view(&self) -> Seq<AnyPlugin> {
        self.plugins@
    }
}

impl Default for PluginSet {
    /// The request sizes, then the seeks.
    fn default() -> (set: PluginSet)
        ensures
            set@.len() == 2,
            set@[0] == AnyPlugin::ReqSize(ReqSize::empty()),
            set@[1] == AnyPlugin::Seek(Seek::of(SeekStats::empty())),
    {
        let mut plugins: Vec<AnyPlugin> = Vec::new();
        plugins.push(AnyPlugin::ReqSize(ReqSize::default()));
        plugins.push(AnyPlugin::Seek(Seek::default()));
        PluginSet { plugins }
    }
}

impl PluginSet {
    /// A set without statistics.
    pub fn new() -> (set: PluginSet)
        ensures
            set@.len() == 0,
    {
        PluginSet { plugins: Vec::new() }
    }

    /// Adds a statistic behind those that are there.
    pub fn register(&mut self, plugin: AnyPlugin)
        ensures
            final(self)@ == old(self)@.push(plugin),
    {
        self.plugins.push(plugin);
    }

    /// Shows the record to every statistic.
    pub fn update(&mut self, trace: &BlkIoTrace)
        ensures
            final(self)@.len() == old(self)@.len(),
            forall|i: int|
                0 <= i < old(self)@.len() ==> #[trigger] final(self)@[i] == old(self)@[i].updated(
                    trace@,
                ),
    {
        let n: usize = self.plugins.len();
        let mut i: usize = 0;
        while i < n
            invariant
                i <= n,
                n == self.plugins@.len(),
                n == old(self).plugins@.len(),
                forall|j: int|
                    0 <= j < i ==> #[trigger] self.plugins@[j] == old(self).plugins@[j].updated(
                        trace@,
                    ),
                forall|j: int| i <= j < n ==> #[trigger] self.plugins@[j] == old(self).plugins@[j],
            decreases n - i,
        {
            let mut plugin = self.plugins[i];
            plugin.update(trace);
            self.plugins[i] = plugin;
            i += 1;
        }
    }

    /// The joint report of all statistics.
    pub fn result(&self) -> (text: String)
        ensures
            text@ == sections(self@),
    {
        let n: usize = self.plugins.len();
        let mut text = String::new();
        let mut i: usize = 0;
        while i < n
            invariant
                i <= n,
                n == self.plugins@.len(),
                text@ == sections(self.plugins@.take(i as int)),
            decreases n - i,
        {
            let plugin = self.plugins[i];
            let name = plugin.name();
            let report = plugin.result();
            let ghost before = text@;
            text.append("## ");
            text.append(name.as_str());
            text.append("\n");
            text.append(report.as_str());
            text.append("\n");
            proof {
                let upto = self.plugins@.take(i + 1);
                assert(upto.drop_last() =~= self.plugins@.take(i as int));
                assert(upto.last() == plugin);
                assert(text@ =~= before + section(plugin));
            }
            i += 1;
        }
        assert(self.plugins@.take(n as int) =~= self.plugins@);
        text
    }
}

} // verus!
