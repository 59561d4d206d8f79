//! What a line of input says: nothing at the end of input, else the line without the
//! whitespace around it.

use vstd::prelude::*;
use crate::whitespace::all_white_space;
use crate::whitespace::lemma_trim_all_white_space;
use crate::whitespace::lemma_trim_surrounded;
use crate::whitespace::trim;
use crate::whitespace::trim_str;
use crate::whitespace::white_space;

verus! {

/// The answer that `line` stands for. A reader hands over the empty line only at the end of
/// its input, and then there is no answer. Any other line is an answer, be it an empty one.
pub open spec fn answer_of(line: Seq<char>) -> Option<Seq<char>> {
    if line.len() == 0 {
        None
    } else {
        Some(trim(line))
    }
}

/// A line of text wrapped in whitespace answers with the text: where `lead` and `trail` are
/// whitespace throughout, `core` neither begins nor ends with whitespace, and the three
/// together are not empty, the answer is `core`.
pub proof fn lemma_answer_is_stripped(lead: Seq<char>, core: Seq<char>, trail: Seq<char>)
    requires
        all_white_space(lead),
        all_white_space(trail),
        core.len() > 0 ==> !white_space(core.first()) && !white_space(core.last()),
        lead.len() + core.len() + trail.len() > 0,
    ensures
        answer_of(lead + core + trail) == Some(core),
{
    lemma_trim_surrounded(lead, core, trail);
}

/// A line that holds whitespace and nothing else is an answer, the empty one, and so differs
/// from the end of input.
pub proof fn lemma_blank_line_is_empty_answer(line: Seq<char>)
    requires
        line.len() > 0,
        all_white_space(line),
    ensures
        answer_of(line) == Some(Seq::<char>::empty()),
{
    lemma_trim_all_white_space(line);
}

/// The answer in `line`, which a read of `read` bytes has filled: none where nothing was
/// read, else the line without the whitespace around it.
pub fn answer_from_line(read: usize, line: &str) -> (answer: Option<String>)
    ensures
        answer.deep_view() == (if read == 0 {
            None
        } else {
            Some(trim(line@))
        }),
{
    if read == 0 {
        None
    } else {
        Some(trim_str(line).to_owned())
    }
}

} // verus!
