//! Streaming statistics over the records of a trace.

pub mod merge;
pub mod plugin;
pub mod plugin_set;
pub mod reqsize;
pub mod seek;

pub use merge::Merge;
pub use plugin::Plugin;
pub use plugin_set::{AnyPlugin, PluginSet};
pub use reqsize::ReqSize;
pub use seek::{Seek, SeekStats};
