//! Readers, writers, appenders and pagers, and the adapters that turn one
//! shape of them into another.

pub mod flat_pager;
pub mod hierarchy_pager;
pub mod into_reader;
pub mod into_streamable;
pub mod io;

pub use flat_pager::{to_flat_pager, PagerSource, ToFlatPager, ViaBlockingList, ViaList};
pub use hierarchy_pager::{to_hierarchy_pager, ToHierarchyPager};
pub use into_reader::{by_range, RangeReader};
pub use into_streamable::{into_streamable_reader, IntoStreamableReader};
pub use io::{Append, Page, Read, SeekFrom, Write};
