//! Keeping the log file from growing without bound.

use vstd::prelude::*;

verus! {

/// The size above which the log file is cut, in bytes.
pub const LOG_MAX_BYTES: u64 = 5 * 1024 * 1024;

/// How many bytes are cut from the beginning of a log file that is too
/// large.
pub const LOG_TRIM_BYTES: usize = 1 * 1024 * 1024;

/// Where the part of the log file that is kept begins: a file of at most
/// `LOG_MAX_BYTES` is kept whole; of a larger one the first
/// `LOG_TRIM_BYTES` are cut, or all of it if it holds less.
pub fn trim_log_file(file_len: u64, data_len: usize) -> (keep_from: Option<usize>)
    ensures
        keep_from == if file_len <= LOG_MAX_BYTES {
            None
        } else if data_len < LOG_TRIM_BYTES {
            Some(data_len)
        } else {
            Some(LOG_TRIM_BYTES)
        },
{
    if file_len <= LOG_MAX_BYTES {
        return None;
    }
    if data_len < LOG_TRIM_BYTES {
        Some(data_len)
    } else {
        Some(LOG_TRIM_BYTES)
    }
}

} // verus!
