//! Ask a question through a writer and take the answer from a reader, one line for each
//! question.

pub mod answer;
pub mod prompt;
pub mod question;
pub mod transcript;
pub mod whitespace;

pub use question::Question;
