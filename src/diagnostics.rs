//! The lines that the diagnostic sink appends to the log.

use vstd::prelude::*;
use vstd::string::*;

verus! {

/// A line of a process's output stream, prefixed with the stream's tag:
/// `[tag] line`.
pub fn tagged_line(tag: &str, line: &str) -> (r: String)
    ensures
        r@ == "["@ + tag@ + "] "@ + line@,
{
    let mut r = String::from_str("[");
    r.append(tag);
    r.append("] ");
    r.append(line);
    r
}

} // verus!
