//! Named, independently scrollable output tabs: which tab a line of output
//! belongs to, unread counters, and the protocol for switching the tab the
//! screen shows.
pub mod tab;
pub mod tab_set;

pub use self::tab::{TabError, TabInfo, TabOpts, MAIN_TAB};
pub use self::tab_set::{RouteResult, TabSet};
