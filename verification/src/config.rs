//! Configuration constants.

use vstd::prelude::*;

verus! {

/// Maximum number of log entries kept in memory; older entries are discarded.
pub const MAX_LOG_BUFFER_SIZE: usize = 2000;

/// How many log lines can wait between a producer and the user interface.
pub const CHANNEL_BUFFER_SIZE: usize = 100;

/// Maximum retained length of a single log line, in bytes of UTF-8.
pub const MAX_LOG_LINE_SIZE: usize = 65536;

/// Maximum length of the search input, in characters.
pub const MAX_INPUT_BUFFER_SIZE: usize = 256;

/// Polling interval for file changes, in milliseconds.
pub const FILE_POLL_INTERVAL_MS: u64 = 500;

} // verus!
