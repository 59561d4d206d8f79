//! Whitespace, and what is left of a text once the whitespace at its two ends is gone.

use vstd::prelude::*;
use vstd::std_specs::iter::IteratorSpec;

verus! {

/// Whether `c` has the Unicode property `White_Space`.
pub open spec fn white_space(c: char) -> bool {
    let u = c as u32;
    ||| 0x09 <= u <= 0x0D
    ||| u == 0x20
    ||| u == 0x85
    ||| u == 0xA0
    ||| u == 0x1680
    ||| 0x2000 <= u <= 0x200A
    ||| u == 0x2028
    ||| u == 0x2029
    ||| u == 0x202F
    ||| u == 0x205F
    ||| u == 0x3000
}

/// Whether every character of `s` is whitespace.
pub open spec fn all_white_space(s: Seq<char>) -> bool {
    forall|i: int| 0 <= i < s.len() ==> white_space(#[trigger] s[i])
}

/// `s` without the whitespace it begins with.
pub open spec fn trim_start(s: Seq<char>) -> Seq<char>
    decreases s.len(),
{
    if s.len() > 0 && white_space(s.first()) {
        trim_start(s.drop_first())
    } else {
        s
    }
}

/// `s` without the whitespace it ends with.
pub open spec fn trim_end(s: Seq<char>) -> Seq<char>
    decreases s.len(),
{
    if s.len() > 0 && white_space(s.last()) {
        trim_end(s.drop_last())
    } else {
        s
    }
}

/// `s` without the whitespace at either end.
pub open spec fn trim(s: Seq<char>) -> Seq<char> {
    trim_end(trim_start(s))
}

/// Whether `c` is whitespace.
pub fn is_whitespace(c: char) -> (b: bool)
    ensures
        b == white_space(c),
{
    let u: u32 = c as u32;
    (0x09 <= u && u <= 0x0D) || u == 0x20 || u == 0x85 || u == 0xA0 || u == 0x1680 || (0x2000 <= u
        && u <= 0x200A) || u == 0x2028 || u == 0x2029 || u == 0x202F || u == 0x205F || u == 0x3000
}

/// Leading whitespace goes, and nothing else: a text that opens with `lead`, all of it
/// whitespace, and goes on with `rest`, which does not begin with whitespace, is cut down
/// to `rest`.
pub proof fn lemma_trim_start(lead: Seq<char>, rest: Seq<char>)
    requires
        all_white_space(lead),
        rest.len() > 0 ==> !white_space(rest.first()),
    ensures
        trim_start(lead + rest) == rest,
    decreases lead.len(),
{
    if lead.len() > 0 {
        assert((lead + rest).drop_first() =~= lead.drop_first() + rest);
        lemma_trim_start(lead.drop_first(), rest);
    }
}

/// Trailing whitespace goes, and nothing else: a text that begins with `rest`, which does
/// not end with whitespace, and closes with `trail`, all of it whitespace, is cut down to
/// `rest`.
pub proof fn lemma_trim_end(rest: Seq<char>, trail: Seq<char>)
    requires
        all_white_space(trail),
        rest.len() > 0 ==> !white_space(rest.last()),
    ensures
        trim_end(rest + trail) == rest,
    decreases trail.len(),
{
    if trail.len() > 0 {
        assert((rest + trail).drop_last() =~= rest + trail.drop_last());
        lemma_trim_end(rest, trail.drop_last());
    }
}

/// A text wrapped in whitespace trims to what is wrapped: where `lead` and `trail` are
/// whitespace throughout and `core` neither begins nor ends with whitespace, trimming
/// `lead + core + trail` gives `core`.
pub proof fn lemma_trim_surrounded(lead: Seq<char>, core: Seq<char>, trail: Seq<char>)
    requires
        all_white_space(lead),
        all_white_space(trail),
        core.len() > 0 ==> !white_space(core.first()) && !white_space(core.last()),
    ensures
        trim(lead + core + trail) == core,
{
    if core.len() == 0 {
        lemma_trim_start(lead + trail, Seq::empty());
    } else {
        assert(lead + core + trail =~= lead + (core + trail));
        lemma_trim_start(lead, core + trail);
        lemma_trim_end(core, trail);
    }
}

/// A text of whitespace alone trims to the empty text.
pub proof fn lemma_trim_all_white_space(s: Seq<char>)
    requires
        all_white_space(s),
    ensures
        trim(s) == Seq::<char>::empty(),
{
    lemma_trim_surrounded(s, Seq::empty(), Seq::empty());
}

/// The part of `text` between its leading and its trailing whitespace.
pub fn trim_str(text: &str) -> (trimmed: &str)
    ensures
        trimmed@ == trim(text@),
{
    let n: usize = text.unicode_len();
    let mut chars = text.chars();
    let mut i: usize = 0;
    // Of the first `i` characters, those before `from` and those from `to` on are
    // whitespace, and what lies between the two neither begins nor ends with whitespace.
    let mut from: usize = 0;
    let mut to: usize = 0;
    loop
        invariant
            n == text@.len(),
            chars.remaining() == text@.skip(i as int),
            from <= to <= i <= n,
            from == to ==> to == i,
            from < to ==> !white_space(text@[from as int]) && !white_space(text@[to - 1]),
            all_white_space(text@.take(from as int)),
            all_white_space(text@.subrange(to as int, i as int)),
        ensures
            i == n,
        decreases n - i,
    {
        match chars.next() {
            Some(c) => {
                if !is_whitespace(c) {
                    to = i + 1;
                } else if from == to {
                    from = i + 1;
                    to = i + 1;
                }
                i += 1;
            },
            None => {
                break ;
            },
        }
    }
    proof {
        let lead = text@.take(from as int);
        let core = text@.subrange(from as int, to as int);
        let trail = text@.subrange(to as int, n as int);
        assert(text@ =~= lead + core + trail);
        lemma_trim_surrounded(lead, core, trail);
    }
    text.substring_char(from, to)
}

} // verus!
