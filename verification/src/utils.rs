//! The shape of one line of the append-only operation log.

use vstd::prelude::*;
use vstd::string::StringExecFns;

verus! {

/// One log line: the timestamp in brackets, the message, one line break.
pub fn format_log_entry(timestamp: &str, message: &str) -> (r: String)
    ensures
        r@ == "["@ + timestamp@ + "] "@ + message@ + "\n"@,
{
    let mut s = String::from_str("[");
    s.append(timestamp);
    s.append("] ");
    s.append(message);
    s.append("\n");
    s
}

} // verus!
