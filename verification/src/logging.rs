//! The log file's rotation rule: a file grown past 10 MiB is moved aside to
//! `{path}.1` before logging starts.
use vstd::prelude::*;
use vstd::string::StringExecFns;

verus! {

/// The size past which the log file is rotated: 10 MiB.
pub const MAX_LOG_SIZE: u64 = 10485760;

/// Whether a log file of `len` bytes is rotated.
pub fn should_rotate(len: u64) -> (r: bool)
    ensures
        r == (len > MAX_LOG_SIZE),
{
    len > MAX_LOG_SIZE
}

/// The name a rotated log file is moved to: `{path}.1`.
pub fn rotated_path(path: &str) -> (r: String)
    ensures
        r@ == path@ + ".1"@,
{
    let mut s = path.to_string();
    s.append(".1");
    s
}

} // verus!
