//! A question put to a reader through a writer.

use vstd::prelude::*;
use vstd::utf8::encode_utf8;
use crate::answer::answer_from_line;
use crate::answer::answer_of;
use crate::prompt::ensure_ends_with_whitespace;
use crate::prompt::lemma_encoding_last_byte;
use crate::transcript::begun;
use crate::transcript::exchange;
use crate::transcript::last_line;
use crate::transcript::lemma_exchange;
use crate::transcript::lemma_exchange_is_prompted;
use crate::transcript::lemma_steps;
use crate::transcript::prompted;
use crate::transcript::Event;

verus! {

/// `std::io::Error`, the error of every reader and writer. Nothing is known of its inside.
#[verifier::external_type_specification]
#[verifier::external_body]
pub struct ExIoError(std::io::Error);

/// A reader to take answers from and a writer to show questions on.
///
/// No question and no answer is kept. `history` is a record for proofs alone: each step goes
/// into it once the call that takes the step has returned `Ok`, so it says what the reader
/// and the writer have reported, not what became of the bytes behind them.
pub struct Question<R, W> {
    reader: R,
    writer: W,
    history: Ghost<Seq<Event>>,
}

/// Calls `std::io::Write::write_all` on `writer`, with `bytes`. Nothing is claimed of the
/// result: `Ok` is the writer's own word that it took every byte.
#[verifier::external_body]
fn write_all<W: std::io::Write>(writer: &mut W, bytes: &[u8]) -> (r: Result<(), std::io::Error>) {
    writer.write_all(bytes)
}

/// Calls `std::io::Write::flush` on `writer`. Nothing is claimed of the result.
#[verifier::external_body]
fn flush<W: std::io::Write>(writer: &mut W) -> (r: Result<(), std::io::Error>) {
    writer.flush()
}

/// Calls `std::io::BufRead::read_line` on `reader`, which reads up to a newline or to the
/// end of the input and adds what it read to `buffer`. The claim is on `Ok(n)`: the buffer
/// holds what it held before and, after that, the text that was read, and the encoding of
/// that text in UTF-8 has `n` bytes. Nothing is claimed of the buffer after an error.
#[verifier::external_body]
fn read_line<R: std::io::BufRead>(reader: &mut R, buffer: &mut String) -> (r: Result<
    usize,
    std::io::Error,
>)
    ensures
        r matches Ok(n) ==> {
            &&& old(buffer)@.is_prefix_of(final(buffer)@)
            &&& n == encode_utf8(final(buffer)@.skip(old(buffer)@.len() as int)).len()
        },
{
    reader.read_line(buffer)
}

impl<R, W> Question<R, W> {
    /// The reader that answers are taken from.
    pub closed spec fn reader(&self) -> R {
        self.reader
    }

    /// The writer that questions are shown on.
    pub closed spec fn writer(&self) -> W {
        self.writer
    }

    /// The steps that the writer and the reader have completed since `new`, oldest first.
    pub closed spec fn history(&self) -> Seq<Event> {
        self.history@
    }

    /// A `Question` that owns `reader` and `writer`, and has done nothing with them yet.
    pub fn new(reader: R, writer: W) -> (q: Self)
        ensures
            q.reader() == reader,
            q.writer() == writer,
            q.history() == Seq::<Event>::empty(),
    {
        Question { reader, writer, history: Ghost(Seq::empty()) }
    }
}

impl<R: std::io::BufRead, W: std::io::Write> Question<R, W> {
    /// Shows `question`, closed by a space, and takes one line from the reader as the answer.
    ///
    /// The steps are taken in this order: the text is written, the writer is flushed, the
    /// line is read. `Ok` comes back when all three were done, and the history has grown by
    /// just these. The answer is `None` where the reader was at its end, else the line
    /// without the whitespace around it, which may leave the empty text.
    ///
    /// The first step that fails ends the call with its error: the steps before it are in
    /// the history, and none after it was tried.
    ///
    /// Either way, no line is ever read but after a flushed prompt that ends with a space.
    pub fn ask(&mut self, question: &str) -> (r: Result<Option<String>, std::io::Error>)
        ensures
            match r {
                Ok(answer) => {
                    let line = last_line(final(self).history());
                    &&& final(self).history() == old(self).history() + exchange(question@, line)
                    &&& answer.deep_view() == answer_of(line)
                },
                Err(_) => exists|done: int|
                    0 <= done < 3 && final(self).history() == old(self).history() + begun(
                        question@,
                        done,
                    ),
            },
            prompted(old(self).history()) ==> prompted(final(self).history()),
    {
        let prompt = ensure_ends_with_whitespace(question);
        let ghost before = self.history();
        proof {
            lemma_steps(before, question@, Seq::empty());
        }

        write_all(&mut self.writer, prompt.as_str().as_bytes())?;
        self.history = Ghost(before + begun(question@, 1));

        flush(&mut self.writer)?;
        self.history = Ghost(before + begun(question@, 2));

        let mut buffer = String::new();
        let n = read_line(&mut self.reader, &mut buffer)?;
        self.history = Ghost(before + exchange(question@, buffer@));
        proof {
            lemma_steps(before, question@, buffer@);
            if prompted(before) {
                lemma_exchange_is_prompted(before, question@, buffer@, 3);
            }
        }
        Ok(answer_from_line(n, buffer.as_str()))
    }
}

} // verus!
