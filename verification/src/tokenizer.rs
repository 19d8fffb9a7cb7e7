//! Buffer sizing for the native text-to-token and token-to-text calls.
//!
//! Both calls fill a buffer whose needed size is not known beforehand. The
//! functions here decide the size of each attempt from the report of the
//! attempt before.

use vstd::prelude::*;
use vstd::utf8::{
    decode_utf8, decode_utf8_encode_utf8, encode_utf8, encode_utf8_valid_utf8, valid_utf8,
};

verus! {

/// Room added to the text length for the first encoding attempt.
pub const ENCODE_SLACK: usize = 8;

/// The largest token buffer the native tokenizer can be handed.
pub const TOKEN_LIMIT: usize = 0x7fff_ffff;

/// Size in bytes of the first buffer for a token's text.
pub const PIECE_INITIAL: usize = 64;

/// The largest buffer tried for a token's text.
pub const PIECE_MAX: usize = 8192;

/// What to do next while encoding a text.
#[derive(PartialEq, Eq, Structural, Clone, Copy, Debug)]
pub enum EncodeStep {
    /// Call the tokenizer with a buffer of this many tokens.
    Attempt(usize),
    /// The tokenizer succeeded: keep this many tokens of the buffer.
    Done(usize),
    /// The buffer would pass the signed 32-bit range.
    Overflow,
}

/// What to do next while turning a token into text.
#[derive(PartialEq, Eq, Structural, Clone, Copy, Debug)]
pub enum PieceStep {
    /// Call the native layer with a buffer of this many bytes.
    Attempt(usize),
    /// The call succeeded: the text is this many bytes of the buffer.
    Done(usize),
    /// No buffer up to the ceiling sufficed: the token's text is dropped.
    Dropped,
}

/// The capacity of the first encoding attempt for a text of `text_len` bytes.
pub open spec fn initial_capacity(text_len: nat) -> nat {
    (if text_len < 1 {
        1nat
    } else {
        text_len
    }) + ENCODE_SLACK as nat
}

/// An attempt with `capacity` tokens, unless that passes the token limit.
pub open spec fn attempt_within_limit(capacity: nat) -> EncodeStep {
    if capacity > TOKEN_LIMIT {
        EncodeStep::Overflow
    } else {
        EncodeStep::Attempt(capacity as usize)
    }
}

/// The first step of encoding a text of `text_len` bytes.
pub open spec fn encode_first(text_len: nat) -> EncodeStep {
    attempt_within_limit(initial_capacity(text_len))
}

/// The step after an attempt with `capacity` tokens to which the tokenizer
/// reported `reported`: a count that is not negative is success, a negative
/// one asks for a buffer twice as large.
pub open spec fn encode_next(capacity: nat, reported: int) -> EncodeStep {
    if reported >= 0 {
        EncodeStep::Done(reported as usize)
    } else {
        attempt_within_limit(2 * capacity)
    }
}

/// The first step of turning a token into text.
pub open spec fn piece_first() -> PieceStep {
    PieceStep::Attempt(PIECE_INITIAL)
}

/// The step after an attempt with `size` bytes to which the native layer
/// reported `written`: a count from 0 to below `size` is success, anything
/// else asks for a buffer twice as large, up to the ceiling.
pub open spec fn piece_next(size: nat, written: int) -> PieceStep {
    if 0 <= written < size {
        PieceStep::Done(written as usize)
    } else if 2 * size > PIECE_MAX {
        PieceStep::Dropped
    } else {
        PieceStep::Attempt((2 * size) as usize)
    }
}

/// The text of a token whose bytes the native layer returned: the decoded
/// text if the bytes are valid UTF-8, else the empty text.
pub open spec fn fragment_text(bytes: Seq<u8>) -> Seq<char> {
    if valid_utf8(bytes) {
        decode_utf8(bytes)
    } else {
        Seq::empty()
    }
}

/// Starts encoding a text of `text_len` bytes.
pub fn begin_encode(text_len: usize) -> (step: EncodeStep)
    ensures
        step == encode_first(text_len as nat),
{
    let floor: usize = if text_len < 1 {
        1
    } else {
        text_len
    };
    if floor > TOKEN_LIMIT - ENCODE_SLACK {
        EncodeStep::Overflow
    } else {
        EncodeStep::Attempt(floor + ENCODE_SLACK)
    }
}

/// Decides the step after an encoding attempt.
pub fn continue_encode(capacity: usize, reported: i32) -> (step: EncodeStep)
    ensures
        step == encode_next(capacity as nat, reported as int),
{
    if reported >= 0 {
        EncodeStep::Done(reported as usize)
    } else if capacity > TOKEN_LIMIT / 2 {
        EncodeStep::Overflow
    } else {
        EncodeStep::Attempt(capacity * 2)
    }
}

/// Cuts a token buffer down to the count the tokenizer reported.
pub fn keep_reported(buffer: Vec<i32>, count: usize) -> (tokens: Vec<i32>)
    ensures
        count <= buffer@.len() ==> tokens@ == buffer@.take(count as int),
        count > buffer@.len() ==> tokens@ == buffer@,
{
    let mut tokens = buffer;
    tokens.truncate(count);
    tokens
}

/// Starts turning a token into text.
pub fn begin_piece() -> (step: PieceStep)
    ensures
        step == piece_first(),
{
    PieceStep::Attempt(PIECE_INITIAL)
}

/// Decides the step after an attempt to turn a token into text.
pub fn continue_piece(size: usize, written: i32) -> (step: PieceStep)
    ensures
        step == piece_next(size as nat, written as int),
{
    if written >= 0 && (written as usize) < size {
        PieceStep::Done(written as usize)
    } else if size > PIECE_MAX / 2 {
        PieceStep::Dropped
    } else {
        PieceStep::Attempt(size * 2)
    }
}

/// `FromUtf8Error` of std, the error of `String::from_utf8`: nothing is
/// said of what it holds.
#[verifier::external_type_specification]
#[verifier::external_body]
pub struct ExFromUtf8Error(std::string::FromUtf8Error);

/// `String::from_utf8` of std: it succeeds exactly on valid UTF-8, and the
/// string it then returns holds the characters that the bytes encode.
pub assume_specification[ String::from_utf8 ](bytes: Vec<u8>) -> (result: Result<
    String,
    std::string::FromUtf8Error,
>)
    ensures
        result is Ok <==> valid_utf8(bytes@),
        result matches Ok(text) ==> text@ == decode_utf8(bytes@),
;

/// The text of a token from the first `written` bytes of the buffer that the
/// native layer filled; bytes that are not valid UTF-8 give the empty text.
pub fn fragment_from(buffer: Vec<u8>, written: usize) -> (fragment: String)
    ensures
        written <= buffer@.len() ==> fragment@ == fragment_text(buffer@.take(written as int)),
        written > buffer@.len() ==> fragment@ == fragment_text(buffer@),
{
    let mut bytes = buffer;
    bytes.truncate(written);
    match String::from_utf8(bytes) {
        Ok(text) => text,
        Err(_) => String::new(),
    }
}

/// What a tokenizer that needs `required` tokens reports to an attempt with
/// `capacity` tokens: the count if it fits, else the count negated.
pub open spec fn report_of(capacity: nat, required: nat) -> int {
    if required <= capacity {
        required as int
    } else {
        -(required as int)
    }
}

/// Where encoding ends when it goes on from `step` against a tokenizer that
/// needs `required` tokens.
pub open spec fn encode_run(step: EncodeStep, required: nat) -> EncodeStep
    decreases
        (match step {
            EncodeStep::Attempt(capacity) => TOKEN_LIMIT + 1 - capacity,
            _ => 0,
        }),
{
    match step {
        EncodeStep::Attempt(capacity) => if 1 <= capacity <= TOKEN_LIMIT {
            encode_run(encode_next(capacity as nat, report_of(capacity as nat, required)), required)
        } else {
            step
        },
        _ => step,
    }
}

/// A capacity doubled `times` times.
pub open spec fn doubled(capacity: nat, times: nat) -> nat
    decreases times,
{
    if times == 0 {
        capacity
    } else {
        doubled(2 * capacity, (times - 1) as nat)
    }
}

/// Doubling never shrinks a capacity.
pub proof fn lemma_doubled_grows(capacity: nat, times: nat)
    ensures
        capacity <= doubled(capacity, times),
    decreases times,
{
    if times > 0 {
        lemma_doubled_grows(2 * capacity, (times - 1) as nat);
    }
}

/// Doubling converges: if some number of doublings of the capacity reaches
/// the needed token count without passing the token limit, encoding ends in
/// success with exactly that count, however far off the first capacity was.
pub proof fn lemma_encode_converges(capacity: nat, required: nat, times: nat)
    requires
        1 <= capacity,
        required <= doubled(capacity, times) <= TOKEN_LIMIT,
    ensures
        encode_run(EncodeStep::Attempt(capacity as usize), required) == EncodeStep::Done(
            required as usize,
        ),
    decreases times,
{
    lemma_doubled_grows(capacity, times);
    if required <= capacity {
        assert(encode_next(capacity, report_of(capacity, required)) == EncodeStep::Done(
            required as usize,
        ));
        assert(encode_run(EncodeStep::Done(required as usize), required) == EncodeStep::Done(
            required as usize,
        ));
    } else {
        lemma_doubled_grows(2 * capacity, (times - 1) as nat);
        lemma_encode_converges(2 * capacity, required, (times - 1) as nat);
        assert(encode_next(capacity, report_of(capacity, required)) == EncodeStep::Attempt(
            (2 * capacity) as usize,
        ));
    }
}

/// Encoding fails only on overflow: from any attempt it ends in success or
/// in `Overflow`, and in success only with the needed count.
pub proof fn lemma_encode_ends(capacity: nat, required: nat)
    requires
        1 <= capacity <= TOKEN_LIMIT,
    ensures
        encode_run(EncodeStep::Attempt(capacity as usize), required) == EncodeStep::Done(
            required as usize,
        ) || encode_run(EncodeStep::Attempt(capacity as usize), required) == EncodeStep::Overflow,
    decreases TOKEN_LIMIT - capacity,
{
    if required <= capacity {
        assert(encode_run(EncodeStep::Done(required as usize), required) == EncodeStep::Done(
            required as usize,
        ));
    } else if 2 * capacity > TOKEN_LIMIT {
        assert(encode_run(EncodeStep::Overflow, required) == EncodeStep::Overflow);
    } else {
        lemma_encode_ends(2 * capacity, required);
    }
}

/// A buffer for a token's text is never larger than the ceiling, and the
/// sizes tried grow strictly, so the attempts end.
pub proof fn lemma_piece_attempts_bounded(size: nat, written: int)
    requires
        1 <= size <= PIECE_MAX,
    ensures
        piece_next(size, written) matches PieceStep::Attempt(next) ==> size < next <= PIECE_MAX,
        piece_next(size, written) matches PieceStep::Done(len) ==> len < size,
{
}

/// The text of a token says what its bytes say, or nothing: valid bytes
/// come back when the text is encoded, and bytes that are not valid give
/// the empty text.
pub proof fn lemma_fragment_is_faithful(bytes: Seq<u8>)
    ensures
        valid_utf8(bytes) ==> encode_utf8(fragment_text(bytes)) == bytes,
        !valid_utf8(bytes) ==> fragment_text(bytes) == Seq::<char>::empty(),
{
    if valid_utf8(bytes) {
        decode_utf8_encode_utf8(bytes);
    }
}

/// Output to which the text of a token is appended encodes to valid UTF-8,
/// whatever bytes the native layer returned for the token.
pub proof fn lemma_output_stays_valid(output: Seq<char>, bytes: Seq<u8>)
    ensures
        valid_utf8(encode_utf8(output + fragment_text(bytes))),
{
    encode_utf8_valid_utf8(output + fragment_text(bytes));
}

/// For a prompt that needs no more than half the token limit, encoding
/// succeeds from any first capacity within the limit.
pub proof fn lemma_encode_converges_below_half(capacity: nat, required: nat)
    requires
        1 <= capacity <= TOKEN_LIMIT,
        2 * required <= TOKEN_LIMIT + 1,
    ensures
        encode_run(EncodeStep::Attempt(capacity as usize), required) == EncodeStep::Done(
            required as usize,
        ),
    decreases TOKEN_LIMIT - capacity,
{
    if required <= capacity {
        assert(encode_run(EncodeStep::Done(required as usize), required) == EncodeStep::Done(
            required as usize,
        ));
    } else {
        lemma_encode_converges_below_half(2 * capacity, required);
    }
}

} // verus!
