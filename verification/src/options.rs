//! The settings that decide when the journal is compacted and flushed.

use vstd::prelude::*;

verus! {

/// The journal length, in bytes, above which a store compacts by default: 10 MiB.
pub const DEFAULT_MAX_JOURNAL_FILE_LENGTH: usize = 10_485_760;

/// The settings of a store.
#[derive(Clone, Copy, Debug, PartialEq, Eq, Structural)]
pub struct Options {
    /// The journal length above which the store compacts of its own accord.
    /// `None` switches that off; `Some(0)` compacts after every mutation.
    pub max_journal_file_length: Option<usize>,
    /// Whether journal writes may stay in a buffer. Without the buffer every
    /// record is flushed to the file before the mutation returns.
    pub use_journal_buffer: bool,
}

impl Default for Options {
    fn default() -> (options: Options)
        ensures
            options.max_journal_file_length == Some(DEFAULT_MAX_JOURNAL_FILE_LENGTH),
            options.use_journal_buffer,
    {
        Options {
            max_journal_file_length: Some(DEFAULT_MAX_JOURNAL_FILE_LENGTH),
            use_journal_buffer: true,
        }
    }
}

} // verus!
