//! Where the records of an append come from, and where the records of a read
//! go: a file, or the standard streams of the process.

use vstd::prelude::*;
use vstd::string::StrSliceExecFns;
use vstd::string::StringExecFns;

verus! {

/// Source of the records to append.
#[derive(Debug, Clone, PartialEq, Eq)]
pub enum RecordsIn {
    /// The file at this path.
    File(String),
    /// The standard input.
    Stdin,
}

/// Sink for records in a read session.
#[derive(Debug, Clone, PartialEq, Eq)]
pub enum RecordsOut {
    /// The file at this path.
    File(String),
    /// The standard output.
    Stdout,
}

/// Whether the text names a standard stream: it is empty, or a single dash.
pub open spec fn names_standard_stream(s: Seq<char>) -> bool {
    s.len() == 0 || (s.len() == 1 && s[0] == '-')
}

fn is_standard_stream(s: &str) -> (yes: bool)
    ensures
        yes == names_standard_stream(s@),
{
    let n = s.unicode_len();
    n == 0 || (n == 1 && s.get_char(0) == '-')
}

/// The source that an argument names: the standard input for an empty
/// argument or a dash, else the file at the path that the argument spells.
pub fn parse_records_input_source(s: &str) -> (source: RecordsIn)
    ensures
        names_standard_stream(s@) ==> source is Stdin,
        !names_standard_stream(s@) ==> (source matches RecordsIn::File(path) && path@ == s@),
{
    if is_standard_stream(s) {
        RecordsIn::Stdin
    } else {
        RecordsIn::File(String::from_str(s))
    }
}

/// The sink that an argument names: the standard output for an empty
/// argument or a dash, else the file at the path that the argument spells.
pub fn parse_records_output_source(s: &str) -> (sink: RecordsOut)
    ensures
        names_standard_stream(s@) ==> sink is Stdout,
        !names_standard_stream(s@) ==> (sink matches RecordsOut::File(path) && path@ == s@),
{
    if is_standard_stream(s) {
        RecordsOut::Stdout
    } else {
        RecordsOut::File(String::from_str(s))
    }
}

} // verus!
