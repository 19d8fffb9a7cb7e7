//! Character-level text predicates shared by the engine and the message rules.

use vstd::prelude::*;
use vstd::std_specs::iter::IteratorSpec;

verus! {

/// Whether a character is white space: the characters of the Unicode
/// `White_Space` property.
pub open spec fn is_space(c: char) -> bool {
    let u = c as u32;
    ||| 0x09 <= u <= 0x0D
    ||| u == 0x20
    ||| u == 0x85
    ||| u == 0xA0
    ||| u == 0x1680
    ||| 0x2000 <= u <= 0x200A
    ||| u == 0x2028
    ||| u == 0x2029
    ||| u == 0x202F
    ||| u == 0x205F
    ||| u == 0x3000
}

/// Computes `is_space`.
pub fn char_is_space(c: char) -> (r: bool)
    ensures
        r == is_space(c),
{
    let u: u32 = c as u32;
    (0x09 <= u && u <= 0x0D) || u == 0x20 || u == 0x85 || u == 0xA0 || u == 0x1680 || (0x2000 <= u
        && u <= 0x200A) || u == 0x2028 || u == 0x2029 || u == 0x202F || u == 0x205F || u == 0x3000
}

/// Whether a text holds nothing but white space (the empty text is blank).
pub open spec fn blank(s: Seq<char>) -> bool {
    forall|i: int| 0 <= i < s.len() ==> is_space(#[trigger] s[i])
}

/// How many line feeds a text holds.
pub open spec fn newline_count(s: Seq<char>) -> nat
    decreases s.len(),
{
    if s.len() == 0 {
        0
    } else {
        newline_count(s.drop_last()) + if s.last() == '\n' {
            1nat
        } else {
            0nat
        }
    }
}

/// Whether a text ends in a line feed.
pub open spec fn ends_in_newline(s: Seq<char>) -> bool {
    s.len() > 0 && s.last() == '\n'
}

/// How many lines a text has: each line feed closes a line, and text after
/// the last line feed is one more line.
pub open spec fn line_count(s: Seq<char>) -> nat {
    newline_count(s) + if s.len() > 0 && s.last() != '\n' {
        1nat
    } else {
        0nat
    }
}

/// A count that stops at two.
pub open spec fn up_to_two(n: nat) -> nat {
    if n < 2 {
        n
    } else {
        2
    }
}

/// Whether a text holds the NUL character.
pub open spec fn has_nul(s: Seq<char>) -> bool {
    exists|i: int| 0 <= i < s.len() && #[trigger] s[i] == '\0'
}

/// What a scan of a text finds out about it.
pub struct TextShape {
    /// `blank` of the text.
    pub blank: bool,
    /// `newline_count` of the text, counted no further than two.
    pub newlines: usize,
    /// `ends_in_newline` of the text.
    pub ends_in_newline: bool,
    /// `has_nul` of the text.
    pub has_nul: bool,
}

/// Scans a text once and reports its shape.
pub fn shape_of(text: &str) -> (shape: TextShape)
    ensures
        shape.blank == blank(text@),
        shape.newlines == up_to_two(newline_count(text@)),
        shape.ends_in_newline == ends_in_newline(text@),
        shape.has_nul == has_nul(text@),
{
    let mut is_blank = true;
    let mut newlines: usize = 0;
    let mut last_is_newline = false;
    let mut nul = false;
    for c in it: text.chars()
        invariant
            it.seq() == text@,
            is_blank == blank(text@.take(it.index() as int)),
            newlines == up_to_two(newline_count(text@.take(it.index() as int))),
            last_is_newline == ends_in_newline(text@.take(it.index() as int)),
            nul == has_nul(text@.take(it.index() as int)),
    {
        proof {
            let k = it.index() as int;
            let before = text@.take(k);
            let after = text@.take(k + 1);
            assert(after.drop_last() == before);
            assert(after.last() == c);
            assert(forall|i: int| 0 <= i < k ==> before[i] == after[i]);
            if has_nul(before) {
                let w = choose|i: int| 0 <= i < before.len() && #[trigger] before[i] == '\0';
                assert(after[w] == '\0');
            }
            if has_nul(after) && c != '\0' {
                let w = choose|i: int| 0 <= i < after.len() && #[trigger] after[i] == '\0';
                assert(before[w] == '\0');
            }
            if c == '\0' {
                assert(after[k] == '\0');
            }
            if !blank(before) {
                let w = choose|i: int| 0 <= i < before.len() && !is_space(#[trigger] before[i]);
                assert(!is_space(after[w]));
            }
            if !is_space(c) {
                assert(!is_space(after[k]));
            }
        }
        if !char_is_space(c) {
            is_blank = false;
        }
        if c == '\n' && newlines < 2 {
            newlines = newlines + 1;
        }
        last_is_newline = c == '\n';
        if c == '\0' {
            nul = true;
        }
    }
    assert(text@.take(text@.len() as int) == text@);
    TextShape { blank: is_blank, newlines, ends_in_newline: last_is_newline, has_nul: nul }
}

} // verus!
