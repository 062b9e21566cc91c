use vstd::prelude::*;

use crate::text::{is_trim_of, lower_of, lowercase, same_text, trim_text};

verus! {

/// A line typed at the prompt.
#[derive(Debug, PartialEq, Eq)]
pub enum Command {
    Quit,
    PrintIndex,
    /// Search the index with the trimmed line.
    Search(String),
}

/// What a prompt line asks for: `quit` and `print index` in any case, once
/// trimmed; anything else is a query.
pub fn parse_command(line: &str) -> (r: Command)
    ensures
        exists|t: Seq<char>|
            #[trigger] is_trim_of(t, line@) && if lower_of(t) == "quit"@ {
                r == Command::Quit
            } else if lower_of(t) == "print index"@ {
                r == Command::PrintIndex
            } else {
                r matches Command::Search(q) && q@ == t
            },
{
    let t = trim_text(line);
    let lower = lowercase(t.as_str());
    if same_text(lower.as_str(), "quit") {
        Command::Quit
    } else if same_text(lower.as_str(), "print index") {
        Command::PrintIndex
    } else {
        Command::Search(t)
    }
}

} // verus!
