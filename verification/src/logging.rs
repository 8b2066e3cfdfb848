//! The layout of a log line.

use vstd::prelude::*;

verus! {

/// The name a record is logged under where it names no module.
pub const UNNAMED: &'static str = "<unnamed>";

/// The module a record is logged under.
pub open spec fn module_of(origin: Option<&str>) -> Seq<char> {
    match origin {
        Some(path) => path@,
        None => UNNAMED@,
    }
}

/// A log line: the time, the level, the module in square brackets and the
/// message, with one space between them.
pub open spec fn line_of(
    time: Seq<char>,
    level: Seq<char>,
    module: Seq<char>,
    message: Seq<char>,
) -> Seq<char> {
    time + " "@ + level + " ["@ + module + "] "@ + message
}

/// Lays out one log line. The caller formats the time.
pub fn log_line(time: &str, level: &str, origin: Option<&str>, message: &str) -> (line: String)
    ensures
        line@ == line_of(time@, level@, module_of(origin), message@),
{
    let mut line = String::from_str(time);
    line.append(" ");
    line.append(level);
    line.append(" [");
    match origin {
        Some(path) => line.append(path),
        None => line.append(UNNAMED),
    }
    line.append("] ");
    line.append(message);
    line
}

} // verus!
