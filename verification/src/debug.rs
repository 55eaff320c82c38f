use vstd::prelude::*;

verus! {

/// The text of one highlighted debug line: `name` and the already formatted
/// value `input`, wrapped in the terminal codes for green and reset.
pub open spec fn highlighted_line(name: Seq<char>, input: Seq<char>) -> Seq<char> {
    "\x1b[32m "@ + name + ": "@ + input + "\x1b[0m"@
}

/// Builds the highlighted debug line for `name` and a formatted value.
pub fn llc(name: &str, input: &str) -> (line: String)
    ensures
        line@ == highlighted_line(name@, input@),
{
    let mut line = "\x1b[32m ".to_owned();
    line.append(name);
    line.append(": ");
    line.append(input);
    line.append("\x1b[0m");
    line
}

} // verus!
