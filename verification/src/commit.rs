//! The grammar of commit messages: what counts as a subject line, what as
//! an instruction echoed by the model, and how a message is taken out of a
//! model's response.

use crate::chars::{
    all_ascii, chars_of, contains, extend_chars, find, first_index, has_infix, has_prefix,
    is_all_ascii, join, joined, lines, lowered, matches_at, occurs_at, slice_of, split_lines,
    starts_with, string_of, texts, to_lower, trim, trim_start, trimmed, trimmed_start,
};
use crate::language::Language;
use vstd::prelude::*;

verus! {

/// Whether a text in lower case opens with a commit type that an opening
/// bracket or a colon follows.
pub open spec fn opens_with_type(low: Seq<char>, kind: Seq<char>) -> bool {
    has_prefix(low, kind) && low.len() > kind.len() && (low[kind.len() as int] == '('
        || low[kind.len() as int] == ':')
}

/// Whether a line opens like a commit subject: read without regard to ASCII
/// case, it begins with one of the commit types, and an opening bracket or a
/// colon follows the type.
pub open spec fn is_subject(line: Seq<char>) -> bool {
    let low = lowered(line);
    ||| opens_with_type(low, "feat"@)
    ||| opens_with_type(low, "fix"@)
    ||| opens_with_type(low, "docs"@)
    ||| opens_with_type(low, "style"@)
    ||| opens_with_type(low, "refactor"@)
    ||| opens_with_type(low, "test"@)
    ||| opens_with_type(low, "chore"@)
}

/// Whether a line reads like an instruction to the model: read without
/// regard to ASCII case, it holds one of the phrases by which prompts
/// instruct.
pub open spec fn is_instruction(line: Seq<char>) -> bool {
    let low = lowered(line);
    ||| has_infix(low, "your task:"@)
    ||| has_infix(low, "your task is"@)
    ||| has_infix(low, "your response"@)
    ||| has_infix(low, "respond with"@)
    ||| has_infix(low, "return only"@)
    ||| has_infix(low, "remember:"@)
    ||| has_infix(low, "guidelines:"@)
    ||| has_infix(low, "rules:"@)
    ||| has_infix(low, "important:"@)
    ||| has_infix(low, "ensure your response"@)
    ||| has_infix(low, "ensure that your response"@)
    ||| has_infix(low, "make sure your response"@)
    ||| has_infix(low, "do not include any"@)
    ||| has_infix(low, "do not add any"@)
    ||| has_infix(low, "commit message content must"@)
    ||| has_infix(low, "the commit message must"@)
    ||| has_infix(low, "请仅返回"@)
    ||| has_infix(low, "请只返回"@)
    ||| has_infix(low, "记住："@)
    ||| has_infix(low, "请勿包含"@)
    ||| has_infix(low, "回复中只能"@)
    ||| has_infix(low, "请只提供"@)
}

/// Tests `opens_with_type`.
fn opens_with(low: &Vec<char>, kind: &str) -> (r: bool)
    ensures
        r == opens_with_type(low@, kind@),
{
    let k = chars_of(kind);
    let r = matches_at(low, 0, &k);
    proof {
        if k.len() <= low.len() {
            assert(low@.take(k@.len() as int) == low@.subrange(0, 0 + k@.len() as int));
        }
    }
    r && low.len() > k.len() && (low[k.len()] == '(' || low[k.len()] == ':')
}

/// Tests `is_subject` on the characters of a line.
pub fn subject_shaped(line: &Vec<char>) -> (r: bool)
    ensures
        r == is_subject(line@),
{
    let low = to_lower(line);
    opens_with(&low, "feat") || opens_with(&low, "fix") || opens_with(&low, "docs") || opens_with(
        &low,
        "style",
    ) || opens_with(&low, "refactor") || opens_with(&low, "test") || opens_with(&low, "chore")
}

/// Tests `is_instruction` on the characters of a line.
pub fn instruction_shaped(line: &Vec<char>) -> (r: bool)
    ensures
        r == is_instruction(line@),
{
    let low = to_lower(line);
    contains(&low, "your task:")
        || contains(&low, "your task is")
        || contains(&low, "your response")
        || contains(&low, "respond with")
        || contains(&low, "return only")
        || contains(&low, "remember:")
        || contains(&low, "guidelines:")
        || contains(&low, "rules:")
        || contains(&low, "important:")
        || contains(&low, "ensure your response")
        || contains(&low, "ensure that your response")
        || contains(&low, "make sure your response")
        || contains(&low, "do not include any")
        || contains(&low, "do not add any")
        || contains(&low, "commit message content must")
        || contains(&low, "the commit message must")
        || contains(&low, "请仅返回")
        || contains(&low, "请只返回")
        || contains(&low, "记住：")
        || contains(&low, "请勿包含")
        || contains(&low, "回复中只能")
        || contains(&low, "请只提供")
}

/// Whether a line opens like a commit subject.
pub fn is_commit_subject(line: &str) -> (r: bool)
    ensures
        r == is_subject(line@),
{
    subject_shaped(&chars_of(line))
}

/// Whether a line reads like an instruction to the model.
pub fn looks_like_instruction(line: &str) -> (r: bool)
    ensures
        r == is_instruction(line@),
{
    instruction_shaped(&chars_of(line))
}

/// A commit subject taken apart.
#[derive(Debug)]
pub struct CommitSubject {
    /// The commit type.
    pub kind: String,
    /// The scope, where the subject names one.
    pub scope: Option<String>,
    /// The subject proper.
    pub subject: String,
}

/// The mathematical content of a `CommitSubject`.
pub struct SubjectView {
    pub kind: Seq<char>,
    pub scope: Option<Seq<char>>,
    pub subject: Seq<char>,
}

impl View for CommitSubject {
    type V = SubjectView;

    open spec fn view(&self) -> SubjectView {
        SubjectView {
            kind: self.kind@,
            scope: match self.scope {
                Some(scope) => Some(scope@),
                None => None,
            },
            subject: self.subject@,
        }
    }
}

/// What reading a line as a subject of one commit type gives.
///
/// `None`: the line is no subject of this type: it does not begin with the
/// type, or neither an opening bracket nor a colon follows. `Some(None)`: it
/// is, but malformed: the bracket is not closed by `):`, or the scope or the
/// subject is blank. `Some(Some(..))`: the parts, each trimmed.
pub open spec fn read_as(line: Seq<char>, kind: Seq<char>) -> Option<Option<SubjectView>> {
    let rest = line.skip(kind.len() as int);
    if !has_prefix(line, kind) || rest.len() == 0 {
        None
    } else if rest[0] == '(' {
        Some(
            match first_index(rest, "):"@) {
                None => None,
                Some(end) => {
                    let scope = trim(rest.subrange(1, end));
                    let subject = trim(rest.skip(end + 2));
                    if scope.len() == 0 || subject.len() == 0 {
                        None
                    } else {
                        Some(SubjectView { kind, scope: Some(scope), subject })
                    }
                },
            },
        )
    } else if rest[0] == ':' {
        let subject = trim(rest.skip(1));
        Some(
            if subject.len() == 0 {
                None
            } else {
                Some(SubjectView { kind, scope: None, subject })
            },
        )
    } else {
        None
    }
}

/// The first of two readings that applies.
pub open spec fn or_else(first: Option<Option<SubjectView>>, second: Option<SubjectView>)
    -> Option<SubjectView> {
    match first {
        Some(reading) => reading,
        None => second,
    }
}

/// A line taken apart as a commit subject: the reading under the first
/// commit type that applies, in the order feat, fix, docs, style, refactor,
/// test, chore.
pub open spec fn parsed_subject(line: Seq<char>) -> Option<SubjectView> {
    or_else(
        read_as(line, "feat"@),
        or_else(
            read_as(line, "fix"@),
            or_else(
                read_as(line, "docs"@),
                or_else(
                    read_as(line, "style"@),
                    or_else(
                        read_as(line, "refactor"@),
                        or_else(read_as(line, "test"@), or_else(read_as(line, "chore"@), None)),
                    ),
                ),
            ),
        ),
    )
}

/// The first line from index `k` on that is not blank, trimmed.
pub open spec fn first_filled(ls: Seq<Seq<char>>, k: int) -> Option<Seq<char>>
    decreases ls.len() - k,
{
    if k >= ls.len() || k < 0 {
        None
    } else if trim(ls[k]).len() > 0 {
        Some(trim(ls[k]))
    } else {
        first_filled(ls, k + 1)
    }
}

/// Whether a text is a valid commit message in a language: its first line
/// that is not blank parses as a commit subject and, in English, is ASCII.
pub open spec fn valid_message(message: Seq<char>, language: Language) -> bool {
    match first_filled(lines(message), 0) {
        None => false,
        Some(line) => parsed_subject(line).is_some() && (language == Language::English
            ==> all_ascii(line)),
    }
}

/// Reads a line as a subject of one commit type.
fn read_kind(line: &Vec<char>, kind: &str) -> (r: Option<Option<CommitSubject>>)
    ensures
        match r {
            None => read_as(line@, kind@).is_none(),
            Some(None) => read_as(line@, kind@) == Some(None::<SubjectView>),
            Some(Some(parsed)) => read_as(line@, kind@) == Some(Some(parsed@)),
        },
{
    let k = chars_of(kind);
    let prefixed = matches_at(line, 0, &k);
    proof {
        if k.len() <= line.len() {
            assert(line@.take(k@.len() as int) == line@.subrange(0, 0 + k@.len() as int));
        }
    }
    if !prefixed || line.len() == k.len() {
        return None;
    }
    let rest = slice_of(line, k.len(), line.len());
    assert(rest@ == line@.skip(k@.len() as int));
    if rest[0] == '(' {
        match find(&rest, "):") {
            None => Some(None),
            Some(end) => {
                proof {
                    reveal_strlit("):");
                    if end == 0 {
                        assert(rest@.subrange(0, 2)[0] == rest@[0]);
                    }
                    assert(rest@.skip(end + 2) == rest@.subrange(end + 2, rest@.len() as int));
                }
                let scope = trimmed(&slice_of(&rest, 1, end));
                let subject = trimmed(&slice_of(&rest, end + 2, rest.len()));
                if scope.len() == 0 || subject.len() == 0 {
                    Some(None)
                } else {
                    Some(
                        Some(
                            CommitSubject {
                                kind: string_of(&k),
                                scope: Some(string_of(&scope)),
                                subject: string_of(&subject),
                            },
                        ),
                    )
                }
            },
        }
    } else if rest[0] == ':' {
        proof {
            assert(rest@.skip(1) == rest@.subrange(1, rest@.len() as int));
        }
        let subject = trimmed(&slice_of(&rest, 1, rest.len()));
        if subject.len() == 0 {
            Some(None)
        } else {
            Some(Some(CommitSubject { kind: string_of(&k), scope: None, subject: string_of(&subject) }))
        }
    } else {
        None
    }
}

/// Takes the characters of a line apart as a commit subject.
pub fn parse_subject_chars(line: &Vec<char>) -> (r: Option<CommitSubject>)
    ensures
        match r {
            None => parsed_subject(line@).is_none(),
            Some(parsed) => parsed_subject(line@) == Some(parsed@),
        },
{
    match read_kind(line, "feat") {
        Some(reading) => {
            return reading;
        },
        None => {},
    }
    match read_kind(line, "fix") {
        Some(reading) => {
            return reading;
        },
        None => {},
    }
    match read_kind(line, "docs") {
        Some(reading) => {
            return reading;
        },
        None => {},
    }
    match read_kind(line, "style") {
        Some(reading) => {
            return reading;
        },
        None => {},
    }
    match read_kind(line, "refactor") {
        Some(reading) => {
            return reading;
        },
        None => {},
    }
    match read_kind(line, "test") {
        Some(reading) => {
            return reading;
        },
        None => {},
    }
    match read_kind(line, "chore") {
        Some(reading) => {
            return reading;
        },
        None => {},
    }
    None
}

/// Takes a line apart as a commit subject: its type, its scope if it names
/// one, and the subject proper.
pub fn parse_commit_subject(line: &str) -> (r: Option<CommitSubject>)
    ensures
        match r {
            None => parsed_subject(line@).is_none(),
            Some(parsed) => parsed_subject(line@) == Some(parsed@),
        },
{
    parse_subject_chars(&chars_of(line))
}

/// Whether a text is a valid commit message in a language.
pub fn is_valid_commit_message(message: &str, language: &Language) -> (r: bool)
    ensures
        r == valid_message(message@, *language),
{
    let ls = split_lines(&chars_of(message));
    let mut k: usize = 0;
    while k < ls.len()
        invariant
            k <= ls.len(),
            texts(ls@) == lines(message@),
            first_filled(lines(message@), 0) == first_filled(lines(message@), k as int),
        decreases ls.len() - k,
    {
        let line = trimmed(&ls[k]);
        assert(texts(ls@)[k as int] == ls@[k as int]@);
        if line.len() > 0 {
            if parse_subject_chars(&line).is_none() {
                return false;
            }
            return match language {
                Language::English => is_all_ascii(&line),
                Language::Chinese => true,
            };
        }
        k += 1;
    }
    false
}

/// A response without the model's thinking: where the response, leading
/// white space aside, opens with `<think>` and holds `</think>`, what
/// follows the first `</think>`, without leading white space.
pub open spec fn without_thinking(response: Seq<char>) -> Seq<char> {
    if has_prefix(trim_start(response), "<think>"@) {
        match first_index(response, "</think>"@) {
            Some(end) => trim_start(response.skip(end + "</think>"@.len())),
            None => response,
        }
    } else {
        response
    }
}

/// Whether a line is an issue trailer.
pub open spec fn is_trailer(line: Seq<char>) -> bool {
    has_prefix(line, "Fixes #"@) || has_prefix(line, "Closes #"@)
}

/// The lines that are no issue trailers, each trimmed.
pub open spec fn kept_lines(ls: Seq<Seq<char>>) -> Seq<Seq<char>>
    decreases ls.len(),
{
    if ls.len() == 0 {
        Seq::empty()
    } else if is_trailer(ls.last()) {
        kept_lines(ls.drop_last())
    } else {
        kept_lines(ls.drop_last()).push(trim(ls.last()))
    }
}

/// The index of the first line from `k` on that opens like a commit
/// subject, or the number of lines.
pub open spec fn first_subject(ls: Seq<Seq<char>>, k: int) -> int
    decreases ls.len() - k,
{
    if k >= ls.len() || k < 0 {
        ls.len() as int
    } else if is_subject(ls[k]) {
        k
    } else {
        first_subject(ls, k + 1)
    }
}

/// The index of the first line from `k` on that is not empty, or the number
/// of lines.
pub open spec fn next_filled(ls: Seq<Seq<char>>, k: int) -> int
    decreases ls.len() - k,
{
    if k >= ls.len() || k < 0 {
        ls.len() as int
    } else if ls[k].len() > 0 {
        k
    } else {
        next_filled(ls, k + 1)
    }
}

/// Whether a line ends the message: it opens like another commit subject,
/// or reads like an instruction.
pub open spec fn ends_message(line: Seq<char>) -> bool {
    is_subject(line) || is_instruction(line)
}

/// The lines of the message, given those collected before line `j`: lines
/// are taken up to the first that ends the message; a run of empty lines
/// counts as one empty line, and is dropped where no line of the message
/// follows it.
pub open spec fn body_from(ls: Seq<Seq<char>>, j: int, acc: Seq<Seq<char>>) -> Seq<Seq<char>>
    decreases ls.len() - j,
{
    if j >= ls.len() || j < 0 {
        acc
    } else if ls[j].len() == 0 {
        let k = next_filled(ls, j + 1);
        if k >= ls.len() || ends_message(ls[k]) {
            acc
        } else if acc.len() > 0 && acc.last().len() == 0 {
            body_from(ls, j + 1, acc)
        } else {
            body_from(ls, j + 1, acc.push(Seq::empty()))
        }
    } else if ends_message(ls[j]) {
        acc
    } else {
        body_from(ls, j + 1, acc.push(ls[j]))
    }
}

/// The commit message in a model's response, if it holds one: the first
/// line that opens like a commit subject and the lines of the message that
/// follow it, joined by line feeds and trimmed.
pub open spec fn extracted_message(response: Seq<char>) -> Option<Seq<char>> {
    let ls = kept_lines(lines(without_thinking(response)));
    let at = first_subject(ls, 0);
    if at >= ls.len() {
        None
    } else {
        let message = trim(joined(body_from(ls, at + 1, seq![ls[at]]), "\n"@));
        if message.len() == 0 {
            None
        } else {
            Some(message)
        }
    }
}

/// Computes `without_thinking`.
fn strip_thinking(response: Vec<char>) -> (r: Vec<char>)
    ensures
        r@ == without_thinking(response@),
{
    if !starts_with(&trimmed_start(&response), "<think>") {
        return response;
    }
    match find(&response, "</think>") {
        None => response,
        Some(end) => {
            let tag = chars_of("</think>");
            proof {
                assert(occurs_at(response@, "</think>"@, end as int));
                assert(response@.skip(end + tag@.len()) == response@.subrange(
                    end + tag@.len(),
                    response@.len() as int,
                ));
            }
            trimmed_start(&slice_of(&response, end + tag.len(), response.len()))
        },
    }
}

/// Computes `kept_lines`.
fn keep_lines(ls: &Vec<Vec<char>>) -> (r: Vec<Vec<char>>)
    ensures
        texts(r@) == kept_lines(texts(ls@)),
{
    let mut r: Vec<Vec<char>> = Vec::new();
    let mut i: usize = 0;
    proof {
        assert(texts(r@) =~= kept_lines(texts(ls@).take(0)));
    }
    while i < ls.len()
        invariant
            i <= ls.len(),
            texts(r@) == kept_lines(texts(ls@).take(i as int)),
        decreases ls.len() - i,
    {
        proof {
            assert(texts(ls@).take(i + 1).drop_last() == texts(ls@).take(i as int));
            assert(texts(ls@).take(i + 1).last() == ls@[i as int]@);
        }
        if !(starts_with(&ls[i], "Fixes #") || starts_with(&ls[i], "Closes #")) {
            let ghost before = texts(r@);
            let line = trimmed(&ls[i]);
            let ghost text = line@;
            r.push(line);
            proof {
                assert(texts(r@) =~= before.push(text));
            }
        }
        i += 1;
    }
    proof {
        assert(texts(ls@).take(ls@.len() as int) == texts(ls@));
    }
    r
}

/// Takes the commit message out of a model's response, if it holds one.
pub fn process_model_response(response: &str) -> (r: Option<String>)
    ensures
        match r {
            None => extracted_message(response@).is_none(),
            Some(message) => extracted_message(response@) == Some(message@),
        },
{
    let body = strip_thinking(chars_of(response));
    let ls = keep_lines(&split_lines(&body));
    let ghost all = texts(ls@);
    let mut at: usize = 0;
    while at < ls.len() && !subject_shaped(&ls[at])
        invariant
            at <= ls.len(),
            all == texts(ls@),
            first_subject(all, 0) == first_subject(all, at as int),
        decreases ls.len() - at,
    {
        assert(all[at as int] == ls@[at as int]@);
        at += 1;
    }
    if at >= ls.len() {
        return None;
    }
    assert(all[at as int] == ls@[at as int]@);
    let mut message_lines: Vec<Vec<char>> = Vec::new();
    let mut first: Vec<char> = Vec::new();
    extend_chars(&mut first, &ls[at]);
    message_lines.push(first);
    assert(texts(message_lines@) =~= seq![all[at as int]]);
    let mut j: usize = at + 1;
    while j < ls.len()
        invariant_except_break
            at < j <= ls.len(),
            body_from(all, at + 1, seq![all[at as int]]) == body_from(
                all,
                j as int,
                texts(message_lines@),
            ),
        invariant
            all == texts(ls@),
            message_lines@.len() > 0,
        ensures
            body_from(all, at + 1, seq![all[at as int]]) == texts(message_lines@),
        decreases ls.len() - j,
    {
        assert(all[j as int] == ls@[j as int]@);
        let ghost before = texts(message_lines@);
        if ls[j].len() == 0 {
            let mut k: usize = j + 1;
            while k < ls.len() && ls[k].len() == 0
                invariant
                    j < k <= ls.len(),
                    all == texts(ls@),
                    next_filled(all, j + 1) == next_filled(all, k as int),
                decreases ls.len() - k,
            {
                assert(all[k as int] == ls@[k as int]@);
                k += 1;
            }
            if k >= ls.len() {
                break ;
            }
            assert(all[k as int] == ls@[k as int]@);
            if subject_shaped(&ls[k]) || instruction_shaped(&ls[k]) {
                break ;
            }
            let n = message_lines.len();
            assert(before[n - 1] == message_lines@[n - 1]@);
            if message_lines[n - 1].len() != 0 {
                message_lines.push(Vec::new());
                proof {
                    assert(texts(message_lines@) =~= before.push(Seq::empty()));
                }
            }
        } else if subject_shaped(&ls[j]) || instruction_shaped(&ls[j]) {
            break ;
        } else {
            let mut line: Vec<char> = Vec::new();
            extend_chars(&mut line, &ls[j]);
            message_lines.push(line);
            proof {
                assert(texts(message_lines@) =~= before.push(all[j as int]));
            }
        }
        j += 1;
    }
    let message = trimmed(&join(&message_lines, "\n"));
    if message.len() == 0 {
        None
    } else {
        Some(string_of(&message))
    }
}

} // verus!
