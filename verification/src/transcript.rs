//! The record of what a writer and a reader have done, step by step.

use vstd::prelude::*;
use vstd::utf8::encode_utf8;
use crate::prompt::lemma_shown_ends_with_space;
use crate::prompt::with_trailing_space;

verus! {

/// A step that the writer or the reader has completed.
pub ghost enum Event {
    /// The writer took these bytes, all of them.
    Wrote(Seq<u8>),
    /// The writer was flushed.
    Flushed,
    /// The reader handed over this line, with its newline where it had one. The empty line
    /// marks the end of the input.
    Read(Seq<char>),
}

/// The step that shows `question`: its text is written, closed by a space.
pub open spec fn shown(question: Seq<char>) -> Event {
    Event::Wrote(encode_utf8(with_trailing_space(question)))
}

/// The steps of one whole exchange: the question is shown, the writer is flushed, and
/// `line` is read.
pub open spec fn exchange(question: Seq<char>, line: Seq<char>) -> Seq<Event> {
    seq![shown(question), Event::Flushed, Event::Read(line)]
}

/// The first `done` steps of an exchange, for one that a failure cut short. No line is read
/// in fewer than three steps, so none is named here.
pub open spec fn begun(question: Seq<char>, done: int) -> Seq<Event> {
    exchange(question, Seq::empty()).take(done)
}

/// The line of the last step of `history`, where that step is a read.
pub open spec fn last_line(history: Seq<Event>) -> Seq<char> {
    if history.len() > 0 {
        match history.last() {
            Event::Read(line) => line,
            _ => Seq::empty(),
        }
    } else {
        Seq::empty()
    }
}

/// All the bytes that the writer took, in the order in which it took them.
pub open spec fn written(history: Seq<Event>) -> Seq<u8>
    decreases history.len(),
{
    if history.len() == 0 {
        Seq::empty()
    } else {
        match history.last() {
            Event::Wrote(bytes) => written(history.drop_last()) + bytes,
            _ => written(history.drop_last()),
        }
    }
}

/// The lines that the reader handed over, in the order in which it did.
pub open spec fn lines(history: Seq<Event>) -> Seq<Seq<char>>
    decreases history.len(),
{
    if history.len() == 0 {
        Seq::empty()
    } else {
        match history.last() {
            Event::Read(line) => lines(history.drop_last()).push(line),
            _ => lines(history.drop_last()),
        }
    }
}

/// Whether each line in `history` was read with a prompt before the user's eyes: the step
/// before the read is a flush, and the one before that wrote a text that ends with a space.
pub open spec fn prompted(history: Seq<Event>) -> bool {
    forall|i: int|
        0 <= i < history.len() && #[trigger] history[i] is Read ==> {
            &&& i >= 2
            &&& history[i - 1] is Flushed
            &&& history[i - 2] matches Event::Wrote(bytes) && bytes.len() > 0 && bytes.last()
                == 0x20
        }
}

/// What one more step adds to the bytes written and to the lines read.
proof fn lemma_step(history: Seq<Event>, event: Event)
    ensures
        written(history.push(event)) == match event {
            Event::Wrote(bytes) => written(history) + bytes,
            _ => written(history),
        },
        lines(history.push(event)) == match event {
            Event::Read(line) => lines(history).push(line),
            _ => lines(history),
        },
{
    assert(history.push(event).drop_last() =~= history);
}

/// An exchange taken one step at a time: what `history` has become after each step.
pub(crate) proof fn lemma_steps(history: Seq<Event>, question: Seq<char>, line: Seq<char>)
    ensures
        history + begun(question, 0) == history,
        history + begun(question, 1) == history.push(shown(question)),
        history + begun(question, 2) == history.push(shown(question)).push(Event::Flushed),
        history + exchange(question, line) == history.push(shown(question)).push(
            Event::Flushed,
        ).push(Event::Read(line)),
        forall|done: int|
            0 <= done < 3 ==> #[trigger] exchange(question, line).take(done) == begun(
                question,
                done,
            ),
        exchange(question, line).take(3) == exchange(question, line),
{
    let steps = exchange(question, line);
    assert forall|done: int| 0 <= done < 3 implies #[trigger] steps.take(done) == begun(
        question,
        done,
    ) by {
        assert(steps.take(done) =~= begun(question, done));
    }
}

/// One exchange writes the question with its closing space, and nothing else, and reads
/// one line.
pub proof fn lemma_exchange(history: Seq<Event>, question: Seq<char>, line: Seq<char>)
    ensures
        written(history + exchange(question, line)) == written(history) + encode_utf8(
            with_trailing_space(question),
        ),
        lines(history + exchange(question, line)) == lines(history).push(line),
        last_line(history + exchange(question, line)) == line,
{
    let one = history.push(shown(question));
    lemma_steps(history, question, line);
    lemma_step(history, shown(question));
    lemma_step(one, Event::Flushed);
    lemma_step(one.push(Event::Flushed), Event::Read(line));
}

/// Two exchanges in a row read two lines, the first one first: no line is read twice, and
/// none is passed over. What they write is the first question, then the second.
pub proof fn lemma_two_exchanges(
    history: Seq<Event>,
    first: Seq<char>,
    first_line: Seq<char>,
    second: Seq<char>,
    second_line: Seq<char>,
)
    ensures
        lines(history + exchange(first, first_line) + exchange(second, second_line)) == lines(
            history,
        ).push(first_line).push(second_line),
        written(history + exchange(first, first_line) + exchange(second, second_line))
            == written(history) + encode_utf8(with_trailing_space(first)) + encode_utf8(
            with_trailing_space(second),
        ),
{
    lemma_exchange(history, first, first_line);
    lemma_exchange(history + exchange(first, first_line), second, second_line);
}

/// An exchange that a failure cut short has read no line, and has written the question or
/// nothing.
pub proof fn lemma_begun(history: Seq<Event>, question: Seq<char>, done: int)
    requires
        0 <= done < 3,
    ensures
        lines(history + begun(question, done)) == lines(history),
        written(history + begun(question, done)) == if done == 0 {
            written(history)
        } else {
            written(history) + encode_utf8(with_trailing_space(question))
        },
{
    lemma_steps(history, question, Seq::empty());
    lemma_step(history, shown(question));
    lemma_step(history.push(shown(question)), Event::Flushed);
}

/// No exchange, whole or cut short, reads a line before its prompt was written and flushed:
/// a history in which every line was prompted for stays such a history.
pub proof fn lemma_exchange_is_prompted(
    history: Seq<Event>,
    question: Seq<char>,
    line: Seq<char>,
    done: int,
)
    requires
        prompted(history),
        0 <= done <= 3,
    ensures
        prompted(history + exchange(question, line).take(done)),
{
    let after = history + exchange(question, line).take(done);
    lemma_shown_ends_with_space(question);
    assert forall|i: int| 0 <= i < after.len() && #[trigger] after[i] is Read implies {
        &&& i >= 2
        &&& after[i - 1] is Flushed
        &&& after[i - 2] matches Event::Wrote(bytes) && bytes.len() > 0 && bytes.last() == 0x20
    } by {
        if i >= history.len() {
            assert(i == history.len() + 2);
        }
    }
}

} // verus!
