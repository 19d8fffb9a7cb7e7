//! What the user types at a prompt, read as a choice.

use crate::chars::{chars_of, lowered, same_text, slice_of, string_of, to_lower, trim, trimmed};
use crate::language::Language;
use vstd::prelude::*;

verus! {

/// Whether a character is an ASCII digit.
pub open spec fn is_digit(c: char) -> bool {
    '0' <= c <= '9'
}

/// Whether a text is made of ASCII digits alone, and of one at least.
pub open spec fn is_digits(s: Seq<char>) -> bool {
    s.len() > 0 && forall|i: int| 0 <= i < s.len() ==> is_digit(#[trigger] s[i])
}

/// The number that the decimal digits of a text stand for.
pub open spec fn digits_value(s: Seq<char>) -> nat
    decreases s.len(),
{
    if s.len() == 0 {
        0
    } else {
        digits_value(s.drop_last()) * 10 + ((s.last() as u8) - ('0' as u8)) as nat
    }
}

/// A text without the plus sign that it begins with, if it does.
pub open spec fn unsigned_part(s: Seq<char>) -> Seq<char> {
    if s.len() > 0 && s[0] == '+' {
        s.skip(1)
    } else {
        s
    }
}

/// The number that a text stands for: decimal digits, a plus sign before
/// them if any, and a value that the machine's size type holds; else none.
pub open spec fn number_of(s: Seq<char>) -> Option<usize> {
    if is_digits(unsigned_part(s)) && digits_value(unsigned_part(s)) <= usize::MAX {
        Some(digits_value(unsigned_part(s)) as usize)
    } else {
        None
    }
}

/// More digits never make a smaller number.
pub proof fn lemma_digits_value_grows(s: Seq<char>, n: int)
    requires
        0 <= n <= s.len(),
    ensures
        digits_value(s.take(n)) <= digits_value(s),
    decreases s.len() - n,
{
    if n < s.len() {
        assert(s.take(n + 1).drop_last() == s.take(n));
        lemma_digits_value_grows(s, n + 1);
    } else {
        assert(s.take(n) == s);
    }
}

/// Reads the number that a text stands for.
pub fn parse_index(s: &Vec<char>) -> (r: Option<usize>)
    ensures
        r == number_of(s@),
{
    let from: usize = if s.len() > 0 && s[0] == '+' {
        1
    } else {
        0
    };
    let body = slice_of(s, from, s.len());
    proof {
        if from == 1 {
            assert(s@.skip(1) == s@.subrange(1, s@.len() as int));
        } else {
            assert(s@.subrange(0, s@.len() as int) == s@);
        }
        assert(body@ == unsigned_part(s@));
    }
    if body.len() == 0 {
        return None;
    }
    let mut value: usize = 0;
    let mut i: usize = 0;
    while i < body.len()
        invariant
            i <= body.len(),
            body@ == unsigned_part(s@),
            value == digits_value(body@.take(i as int)),
            forall|j: int| 0 <= j < i ==> is_digit(#[trigger] body@[j]),
        decreases body.len() - i,
    {
        proof {
            assert(body@.take(i + 1).drop_last() == body@.take(i as int));
            lemma_digits_value_grows(body@, i + 1);
        }
        let c = body[i];
        if !('0' <= c && c <= '9') {
            proof {
                assert(!is_digit(body@[i as int]));
            }
            return None;
        }
        let digit: usize = ((c as u8) - ('0' as u8)) as usize;
        proof {
            assert(body@.take(i + 1).last() == c);
            assert(digits_value(body@.take(i + 1)) == value * 10 + digit);
        }
        if value > (usize::MAX - digit) / 10 {
            proof {
                assert(value * 10 + digit > usize::MAX);
            }
            return None;
        }
        value = value * 10 + digit;
        i += 1;
    }
    proof {
        assert(body@.take(body@.len() as int) == body@);
    }
    Some(value)
}

/// Which model the user means.
#[derive(Debug)]
pub enum ModelChoice {
    /// Nothing that can be used: nothing typed, or a number that is not on
    /// the list.
    Invalid,
    /// The model on the list at this index, counted from 0.
    Listed(usize),
    /// The model at this path.
    Path(String),
}

/// The mathematical content of a `ModelChoice`.
pub enum ModelChoiceView {
    /// Nothing that can be used.
    Invalid,
    /// The model on the list at this index, counted from 0.
    Listed(usize),
    /// The model at this path.
    Path(Seq<char>),
}

impl View for ModelChoice {
    type V = ModelChoiceView;

    open spec fn view(&self) -> ModelChoiceView {
        match self {
            ModelChoice::Invalid => ModelChoiceView::Invalid,
            ModelChoice::Listed(index) => ModelChoiceView::Listed(*index),
            ModelChoice::Path(path) => ModelChoiceView::Path(path@),
        }
    }
}

/// Which model an input means when `count` models are listed: a number
/// from 1 to `count` means the model listed under it; any other number and
/// a blank input mean nothing; anything else is a path.
pub open spec fn model_choice(input: Seq<char>, count: usize) -> ModelChoiceView {
    if trim(input).len() == 0 {
        ModelChoiceView::Invalid
    } else {
        match number_of(trim(input)) {
            Some(number) => if 1 <= number <= count {
                ModelChoiceView::Listed((number - 1) as usize)
            } else {
                ModelChoiceView::Invalid
            },
            None => ModelChoiceView::Path(trim(input)),
        }
    }
}

/// Reads which model the user means.
pub fn read_model_choice(input: &str, count: usize) -> (r: ModelChoice)
    ensures
        r@ == model_choice(input@, count),
{
    let text = trimmed(&chars_of(input));
    if text.len() == 0 {
        return ModelChoice::Invalid;
    }
    match parse_index(&text) {
        Some(number) => if 1 <= number && number <= count {
            ModelChoice::Listed(number - 1)
        } else {
            ModelChoice::Invalid
        },
        None => ModelChoice::Path(string_of(&text)),
    }
}

/// The language that an input chooses from the list: the first is English,
/// the second Chinese.
pub open spec fn language_choice(input: Seq<char>) -> Option<Language> {
    match number_of(input) {
        Some(number) => if number == 1 {
            Some(Language::English)
        } else if number == 2 {
            Some(Language::Chinese)
        } else {
            None
        },
        None => None,
    }
}

/// Reads the language that the user chooses from the list.
pub fn read_language_choice(input: &str) -> (r: Option<Language>)
    ensures
        r == language_choice(input@),
{
    match parse_index(&chars_of(input)) {
        Some(number) => if number == 1 {
            Some(Language::English)
        } else if number == 2 {
            Some(Language::Chinese)
        } else {
            None
        },
        None => None,
    }
}

/// What the user wants done with the message shown.
#[derive(PartialEq, Eq, Structural, Clone, Copy, Debug)]
pub enum Decision {
    /// Commit with the message.
    Use,
    /// Type another message.
    Edit,
    /// Do not commit.
    Cancel,
}

/// What an input decides, read without regard to ASCII case: `u`, `e` or
/// `c`.
pub open spec fn decision_of(input: Seq<char>) -> Option<Decision> {
    if lowered(input) == "u"@ {
        Some(Decision::Use)
    } else if lowered(input) == "e"@ {
        Some(Decision::Edit)
    } else if lowered(input) == "c"@ {
        Some(Decision::Cancel)
    } else {
        None
    }
}

/// Reads what the user wants done with the message shown.
pub fn read_decision(input: &str) -> (r: Option<Decision>)
    ensures
        r == decision_of(input@),
{
    let low = to_lower(&chars_of(input));
    if same_text(&low, "u") {
        Some(Decision::Use)
    } else if same_text(&low, "e") {
        Some(Decision::Edit)
    } else if same_text(&low, "c") {
        Some(Decision::Cancel)
    } else {
        None
    }
}

} // verus!
