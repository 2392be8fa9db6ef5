//! Reading the answer to a yes/no question.
use vstd::prelude::*;

use crate::text::{same_text, trim, trimmed};

verus! {

/// What a typed line answers, once white space around it is dropped: yes, no, or neither,
/// in which case the question is asked again.
pub open spec fn answer_of(line: Seq<char>) -> Option<bool> {
    let t = trimmed(line);
    if t == "y"@ || t == "Y"@ || t == "yes"@ || t == "Yes"@ {
        Some(true)
    } else if t == "n"@ || t == "N"@ || t == "no"@ || t == "No"@ {
        Some(false)
    } else {
        None
    }
}

/// Reads a typed line as an answer to a yes/no question.
pub fn parse_answer(line: &str) -> (r: Option<bool>)
    ensures
        r == answer_of(line@),
{
    let t = trim(line);
    if same_text(t, "y") || same_text(t, "Y") || same_text(t, "yes") || same_text(t, "Yes") {
        Some(true)
    } else if same_text(t, "n") || same_text(t, "N") || same_text(t, "no") || same_text(t, "No") {
        Some(false)
    } else {
        None
    }
}

} // verus!
