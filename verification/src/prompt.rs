//! The text of a question as it is shown: the question, closed by a space.

use vstd::prelude::*;
use vstd::utf8::*;

verus! {

/// Whether `s` ends with one space, and no more than one.
pub open spec fn ends_with_one_space(s: Seq<char>) -> bool {
    &&& s.len() > 0
    &&& s.last() == ' '
    &&& s.len() > 1 ==> s[s.len() - 2] != ' '
}

/// `s` itself where it ends with one space, else `s` with a space added.
pub open spec fn with_trailing_space(s: Seq<char>) -> Seq<char> {
    if ends_with_one_space(s) {
        s
    } else {
        s.push(' ')
    }
}

/// The encoding of a scalar is not empty, and ends with the byte `0x20` for the space and
/// for no other scalar.
proof fn lemma_scalar_last_byte(scalar: u32)
    requires
        is_scalar(scalar),
    ensures
        encode_scalar(scalar).len() > 0,
        encode_scalar(scalar).last() == 0x20 <==> scalar == 0x20,
{
    assert(has_width_1_encoding(scalar) ==> (leading_byte_width_1(scalar) == 0x20 <==> scalar
        == 0x20)) by (bit_vector);
    assert(last_continuation_byte(scalar) != 0x20) by (bit_vector);
}

/// A text is encoded character by character: the encoding of `s` with `c` added is the
/// encoding of `s`, then that of `c`.
pub proof fn lemma_encoding_of_push(s: Seq<char>, c: char)
    ensures
        encode_utf8(s.push(c)) == encode_utf8(s) + encode_scalar(c as u32),
    decreases s.len(),
{
    if s.len() == 0 {
        assert(s.push(c).drop_first() =~= s);
    } else {
        assert(s.push(c).drop_first() =~= s.drop_first().push(c));
        lemma_encoding_of_push(s.drop_first(), c);
    }
}

/// The encoding of a text is empty for the empty text alone, and ends with the byte `0x20`
/// exactly where the text ends with a space.
pub proof fn lemma_encoding_last_byte(s: Seq<char>)
    ensures
        encode_utf8(s).len() == 0 <==> s.len() == 0,
        s.len() > 0 ==> (encode_utf8(s).last() == 0x20 <==> s.last() == ' '),
{
    if s.len() > 0 {
        let c = s.last();
        assert(s =~= s.drop_last().push(c));
        lemma_encoding_of_push(s.drop_last(), c);
        char_is_scalar(c);
        lemma_scalar_last_byte(c as u32);
        assert(c == ' ' <==> c as u32 == 0x20) by {
            char_u32_cast(c, c as u32);
        }
    }
}

/// Adding a space to a text adds the byte `0x20` to its encoding.
pub proof fn lemma_encoding_of_added_space(s: Seq<char>)
    ensures
        encode_utf8(s.push(' ')) == encode_utf8(s).push(0x20),
{
    lemma_encoding_of_push(s, ' ');
    assert(encode_scalar(' ' as u32) =~= seq![0x20u8]) by {
        assert(leading_byte_width_1(0x20) == 0x20) by (bit_vector);
    }
}

/// Whether `text` ends with one space, and no more than one.
pub fn ends_with_single_space(text: &str) -> (b: bool)
    ensures
        b == ends_with_one_space(text@),
{
    let bytes = text.as_bytes();
    let n: usize = bytes.len();
    proof {
        lemma_encoding_last_byte(text@);
        if text@.len() > 0 && text@.last() == ' ' {
            let before = text@.drop_last();
            assert(text@ =~= before.push(' '));
            lemma_encoding_of_added_space(before);
            lemma_encoding_last_byte(before);
        }
    }
    n > 0 && bytes[n - 1] == 0x20 && (n == 1 || bytes[n - 2] != 0x20)
}

/// The question as it is shown. A text that ends with one space stays as it is; any other
/// gets a space added: the empty text, a text that ends with a tab or a newline, and one that
/// ends with two spaces or more.
pub fn ensure_ends_with_whitespace(source: &str) -> (text: String)
    ensures
        text@ == with_trailing_space(source@),
{
    let text = source.to_owned();
    if ends_with_single_space(source) {
        text
    } else {
        proof {
            reveal_strlit(" ");
        }
        text.concat(" ")
    }
}

/// A question that does not end with a space is shown with one space after it.
pub proof fn lemma_space_is_added(question: Seq<char>)
    requires
        question.len() > 0 ==> question.last() != ' ',
    ensures
        with_trailing_space(question) == question + seq![' '],
        encode_utf8(with_trailing_space(question)) == encode_utf8(question) + seq![0x20u8],
{
    lemma_encoding_of_added_space(question);
}

/// A question that ends with one space is shown as it is.
pub proof fn lemma_one_space_is_kept(question: Seq<char>)
    requires
        ends_with_one_space(question),
    ensures
        with_trailing_space(question) == question,
{
}

/// Whatever the question, what is shown ends with a space, and its encoding with the byte
/// `0x20`.
pub proof fn lemma_shown_ends_with_space(question: Seq<char>)
    ensures
        with_trailing_space(question).len() > 0,
        with_trailing_space(question).last() == ' ',
        encode_utf8(with_trailing_space(question)).len() > 0,
        encode_utf8(with_trailing_space(question)).last() == 0x20,
{
    lemma_encoding_last_byte(with_trailing_space(question));
}

} // verus!
