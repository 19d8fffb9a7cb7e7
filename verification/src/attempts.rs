//! The attempts to get a commit message from the model: which form of the
//! diff each attempt uses, and which response counts.

use crate::commit::{
    extracted_message, is_valid_commit_message, process_model_response, valid_message,
};
use crate::language::Language;
use vstd::prelude::*;

verus! {

/// How often the model is asked for a message.
pub const MAX_ATTEMPTS: usize = 2;

/// The form of the diff that an attempt uses, by its index among `count`
/// forms: the attempt's own, or the last where there are fewer; none where
/// there is no form.
pub open spec fn variant_index(count: nat, attempt: nat) -> Option<nat> {
    if count == 0 {
        None
    } else if attempt < count {
        Some(attempt)
    } else {
        Some((count - 1) as nat)
    }
}

/// The message that a response gives: the message it holds, if that is
/// valid in the language.
pub open spec fn accepted_message(response: Seq<char>, language: Language) -> Option<Seq<char>> {
    match extracted_message(response) {
        Some(message) => if valid_message(message, language) {
            Some(message)
        } else {
            None
        },
        None => None,
    }
}

/// Whether another attempt follows attempt `attempt`.
pub open spec fn has_next_attempt(attempt: nat) -> bool {
    attempt + 1 < MAX_ATTEMPTS
}

/// Finds the form of the diff that an attempt uses.
pub fn variant_for(count: usize, attempt: usize) -> (r: Option<usize>)
    ensures
        match r {
            Some(i) => variant_index(count as nat, attempt as nat) == Some(i as nat) && i < count,
            None => variant_index(count as nat, attempt as nat).is_none(),
        },
{
    if count == 0 {
        None
    } else if attempt < count {
        Some(attempt)
    } else {
        Some(count - 1)
    }
}

/// Tells whether another attempt follows.
pub fn retries_after(attempt: usize) -> (r: bool)
    ensures
        r == has_next_attempt(attempt as nat),
{
    attempt < MAX_ATTEMPTS - 1
}

/// Takes the message out of a response, if the response holds a valid one.
pub fn accept_response(response: &str, language: &Language) -> (r: Option<String>)
    ensures
        match r {
            Some(message) => accepted_message(response@, *language) == Some(message@),
            None => accepted_message(response@, *language).is_none(),
        },
{
    match process_model_response(response) {
        Some(message) => if is_valid_commit_message(message.as_str(), language) {
            Some(message)
        } else {
            None
        },
        None => None,
    }
}

} // verus!
