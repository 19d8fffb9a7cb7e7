//! Texts as sequences of characters: conversion, case, trimming, searching
//! and lines.

use crate::text::is_space;
use vstd::prelude::*;
use vstd::std_specs::iter::IteratorSpec;

verus! {

/// `String::push` of std: the character is appended.
pub assume_specification[ String::push ](s: &mut String, ch: char)
    ensures
        final(s)@ == old(s)@.push(ch),
;

/// The characters of a text.
pub fn chars_of(s: &str) -> (v: Vec<char>)
    ensures
        v@ == s@,
{
    let mut v: Vec<char> = Vec::new();
    for c in it: s.chars()
        invariant
            v@ == it.seq().take(it.index() as int),
            it.seq() == s@,
    {
        v.push(c);
    }
    v
}

/// The text made of the characters.
pub fn string_of(v: &Vec<char>) -> (s: String)
    ensures
        s@ == v@,
{
    let mut s = String::new();
    let mut i: usize = 0;
    while i < v.len()
        invariant
            i <= v.len(),
            s@ == v@.take(i as int),
        decreases v.len() - i,
    {
        s.push(v[i]);
        i += 1;
    }
    s
}

/// Appends the characters of `more` to `v`.
pub fn extend_chars(v: &mut Vec<char>, more: &Vec<char>)
    ensures
        final(v)@ == old(v)@ + more@,
{
    let mut i: usize = 0;
    while i < more.len()
        invariant
            i <= more.len(),
            v@ == old(v)@ + more@.take(i as int),
        decreases more.len() - i,
    {
        v.push(more[i]);
        i += 1;
    }
    assert(more@.take(more@.len() as int) == more@);
}

/// Appends the characters of the text `more` to `v`.
pub fn extend_str(v: &mut Vec<char>, more: &str)
    ensures
        final(v)@ == old(v)@ + more@,
{
    for c in it: more.chars()
        invariant
            v@ == old(v)@ + it.seq().take(it.index() as int),
            it.seq() == more@,
    {
        v.push(c);
    }
}

/// The lower-case form of an ASCII capital letter, and any other character
/// as it is.
pub open spec fn lower(c: char) -> char {
    if 'A' <= c <= 'Z' {
        ((c as u8) + 32) as char
    } else {
        c
    }
}

/// A text with its ASCII capital letters in lower case.
pub open spec fn lowered(s: Seq<char>) -> Seq<char> {
    Seq::new(s.len(), |i: int| lower(s[i]))
}

/// Whether every character of a text is ASCII.
pub open spec fn all_ascii(s: Seq<char>) -> bool {
    forall|i: int| 0 <= i < s.len() ==> (#[trigger] s[i]) as u32 <= 0x7f
}

/// Whether a character is an ASCII letter or digit.
pub open spec fn is_alphanumeric(c: char) -> bool {
    ('a' <= c <= 'z') || ('A' <= c <= 'Z') || ('0' <= c <= '9')
}

/// Computes `lower`.
pub fn lower_char(c: char) -> (r: char)
    ensures
        r == lower(c),
{
    if 'A' <= c && c <= 'Z' {
        ((c as u8) + 32) as char
    } else {
        c
    }
}

/// Computes `is_alphanumeric`.
pub fn char_is_alphanumeric(c: char) -> (r: bool)
    ensures
        r == is_alphanumeric(c),
{
    ('a' <= c && c <= 'z') || ('A' <= c && c <= 'Z') || ('0' <= c && c <= '9')
}

/// Computes `lowered`.
pub fn to_lower(s: &Vec<char>) -> (r: Vec<char>)
    ensures
        r@ == lowered(s@),
{
    let mut r: Vec<char> = Vec::with_capacity(s.len());
    let mut i: usize = 0;
    while i < s.len()
        invariant
            i <= s.len(),
            r@ == lowered(s@.take(i as int)),
        decreases s.len() - i,
    {
        r.push(lower_char(s[i]));
        i += 1;
        assert(r@ == lowered(s@.take(i as int)));
    }
    assert(s@.take(s@.len() as int) == s@);
    r
}

/// Computes `all_ascii`.
pub fn is_all_ascii(s: &Vec<char>) -> (r: bool)
    ensures
        r == all_ascii(s@),
{
    let mut i: usize = 0;
    while i < s.len()
        invariant
            i <= s.len(),
            forall|j: int| 0 <= j < i ==> (#[trigger] s@[j]) as u32 <= 0x7f,
        decreases s.len() - i,
    {
        if s[i] as u32 > 0x7f {
            return false;
        }
        i += 1;
    }
    true
}

/// How many characters of white space a text begins with.
pub open spec fn leading_spaces(s: Seq<char>) -> nat
    decreases s.len(),
{
    if s.len() == 0 || !is_space(s[0]) {
        0
    } else {
        1 + leading_spaces(s.drop_first())
    }
}

/// How many characters of white space a text ends with.
pub open spec fn trailing_spaces(s: Seq<char>) -> nat
    decreases s.len(),
{
    if s.len() == 0 || !is_space(s.last()) {
        0
    } else {
        1 + trailing_spaces(s.drop_last())
    }
}

/// A text without the white space it begins with.
pub open spec fn trim_start(s: Seq<char>) -> Seq<char> {
    s.skip(leading_spaces(s) as int)
}

/// A text without the white space it ends with.
pub open spec fn trim_end(s: Seq<char>) -> Seq<char> {
    s.take(s.len() - trailing_spaces(s))
}

/// A text without the white space at either end.
pub open spec fn trim(s: Seq<char>) -> Seq<char> {
    trim_end(trim_start(s))
}

/// The leading white space ends where the first other character stands.
pub proof fn lemma_leading_spaces_is(s: Seq<char>, n: int)
    requires
        0 <= n <= s.len(),
        forall|i: int| 0 <= i < n ==> is_space(#[trigger] s[i]),
        n < s.len() ==> !is_space(s[n]),
    ensures
        leading_spaces(s) == n,
    decreases s.len(),
{
    if n > 0 {
        let rest = s.drop_first();
        assert forall|i: int| 0 <= i < n - 1 implies is_space(#[trigger] rest[i]) by {
            assert(rest[i] == s[i + 1]);
        }
        assert(is_space(s[0]));
        lemma_leading_spaces_is(rest, n - 1);
    }
}

/// The trailing white space begins behind the last other character.
pub proof fn lemma_trailing_spaces_is(s: Seq<char>, n: int)
    requires
        0 <= n <= s.len(),
        forall|i: int| s.len() - n <= i < s.len() ==> is_space(#[trigger] s[i]),
        n < s.len() ==> !is_space(s[s.len() - n - 1]),
    ensures
        trailing_spaces(s) == n,
    decreases s.len(),
{
    if n > 0 {
        let rest = s.drop_last();
        assert forall|i: int| rest.len() - (n - 1) <= i < rest.len() implies is_space(
            #[trigger] rest[i],
        ) by {
            assert(rest[i] == s[i]);
        }
        assert(is_space(s.last()));
        lemma_trailing_spaces_is(rest, n - 1);
    }
}

/// The counts of leading and trailing white space lie within the text, and
/// a trimmed text neither begins nor ends with white space.
pub proof fn lemma_trim_bounds(s: Seq<char>)
    ensures
        leading_spaces(s) <= s.len(),
        trailing_spaces(s) <= s.len(),
        forall|i: int| 0 <= i < leading_spaces(s) ==> is_space(#[trigger] s[i]),
        leading_spaces(s) < s.len() ==> !is_space(s[leading_spaces(s) as int]),
        forall|i: int| s.len() - trailing_spaces(s) <= i < s.len() ==> is_space(#[trigger] s[i]),
        trailing_spaces(s) < s.len() ==> !is_space(s[s.len() - trailing_spaces(s) - 1]),
    decreases s.len(),
{
    if s.len() > 0 {
        if is_space(s[0]) {
            let rest = s.drop_first();
            lemma_trim_bounds(rest);
            assert forall|i: int| 0 <= i < leading_spaces(s) implies is_space(#[trigger] s[i]) by {
                if i > 0 {
                    assert(rest[i - 1] == s[i]);
                }
            }
            if leading_spaces(s) < s.len() {
                assert(rest[leading_spaces(rest) as int] == s[leading_spaces(s) as int]);
            }
        }
        if is_space(s.last()) {
            let rest = s.drop_last();
            lemma_trim_bounds(rest);
            assert forall|i: int| s.len() - trailing_spaces(s) <= i < s.len() implies is_space(
                #[trigger] s[i],
            ) by {
                if i < s.len() - 1 {
                    assert(rest[i] == s[i]);
                }
            }
            if trailing_spaces(s) < s.len() {
                assert(rest[rest.len() - trailing_spaces(rest) - 1] == s[s.len() - trailing_spaces(
                    s,
                ) - 1]);
            }
        }
    }
}

/// The part of a text from `from` up to `to`.
pub fn slice_of(s: &Vec<char>, from: usize, to: usize) -> (r: Vec<char>)
    requires
        from <= to <= s.len(),
    ensures
        r@ == s@.subrange(from as int, to as int),
{
    let mut r: Vec<char> = Vec::with_capacity(to - from);
    let mut i: usize = from;
    while i < to
        invariant
            from <= i <= to <= s.len(),
            r@ == s@.subrange(from as int, i as int),
        decreases to - i,
    {
        r.push(s[i]);
        i += 1;
    }
    r
}

/// Counts the white space a text begins with.
pub fn count_leading_spaces(s: &Vec<char>) -> (n: usize)
    ensures
        n == leading_spaces(s@),
        n <= s.len(),
{
    let mut n: usize = 0;
    while n < s.len() && crate::text::char_is_space(s[n])
        invariant
            n <= s.len(),
            forall|i: int| 0 <= i < n ==> is_space(#[trigger] s@[i]),
        decreases s.len() - n,
    {
        n += 1;
    }
    proof {
        lemma_leading_spaces_is(s@, n as int);
    }
    n
}

/// Computes `trim_start`.
pub fn trimmed_start(s: &Vec<char>) -> (r: Vec<char>)
    ensures
        r@ == trim_start(s@),
{
    let from = count_leading_spaces(s);
    slice_of(s, from, s.len())
}

/// Computes `trim`.
pub fn trimmed(s: &Vec<char>) -> (r: Vec<char>)
    ensures
        r@ == trim(s@),
{
    let from = count_leading_spaces(s);
    let mut to: usize = s.len();
    while to > from && crate::text::char_is_space(s[to - 1])
        invariant
            from <= to <= s.len(),
            forall|i: int| to <= i < s.len() ==> is_space(#[trigger] s@[i]),
        decreases to,
    {
        to -= 1;
    }
    proof {
        let rest = s@.skip(from as int);
        lemma_trim_bounds(s@);
        assert forall|i: int| rest.len() - (s.len() - to) <= i < rest.len() implies is_space(
            #[trigger] rest[i],
        ) by {
            assert(rest[i] == s@[i + from]);
        }
        if s.len() - to < rest.len() {
            assert(rest[rest.len() - (s.len() - to) - 1] == s@[to - 1]);
        }
        lemma_trailing_spaces_is(rest, s.len() - to);
        assert(rest.take(rest.len() - (s.len() - to)) == s@.subrange(from as int, to as int));
    }
    slice_of(s, from, to)
}

/// Whether a text begins with a pattern.
pub open spec fn has_prefix(s: Seq<char>, p: Seq<char>) -> bool {
    p.len() <= s.len() && s.take(p.len() as int) == p
}

/// Whether a text ends with a pattern.
pub open spec fn has_suffix(s: Seq<char>, p: Seq<char>) -> bool {
    p.len() <= s.len() && s.skip(s.len() - p.len()) == p
}

/// Whether a pattern stands in a text at index `i`.
pub open spec fn occurs_at(s: Seq<char>, p: Seq<char>, i: int) -> bool {
    0 <= i && i + p.len() <= s.len() && s.subrange(i, i + p.len()) == p
}

/// Whether a pattern stands anywhere in a text.
pub open spec fn has_infix(s: Seq<char>, p: Seq<char>) -> bool {
    exists|i: int| occurs_at(s, p, i)
}

/// Whether `i` is the first index at which a pattern stands in a text.
pub open spec fn first_at(s: Seq<char>, p: Seq<char>, i: int) -> bool {
    occurs_at(s, p, i) && forall|j: int| 0 <= j < i ==> !occurs_at(s, p, j)
}

/// The first index at which a pattern stands in a text, if it stands in it.
pub open spec fn first_index(s: Seq<char>, p: Seq<char>) -> Option<int> {
    if has_infix(s, p) {
        Some(choose|i: int| first_at(s, p, i))
    } else {
        None
    }
}

/// There is one first index at most.
pub proof fn lemma_first_index_is(s: Seq<char>, p: Seq<char>, i: int)
    requires
        first_at(s, p, i),
    ensures
        first_index(s, p) == Some(i),
{
    assert(has_infix(s, p));
    let j = choose|j: int| first_at(s, p, j);
    if j < i {
        assert(occurs_at(s, p, j));
    }
    if i < j {
        assert(occurs_at(s, p, i));
    }
}

/// Tests whether a pattern stands in a text at index `at`.
pub fn matches_at(s: &Vec<char>, at: usize, p: &Vec<char>) -> (r: bool)
    ensures
        r == occurs_at(s@, p@, at as int),
{
    if at > s.len() || p.len() > s.len() - at {
        return false;
    }
    let mut k: usize = 0;
    while k < p.len()
        invariant
            k <= p.len(),
            at + p.len() <= s.len(),
            forall|j: int| 0 <= j < k ==> s@[at + j] == p@[j],
        decreases p.len() - k,
    {
        if s[at + k] != p[k] {
            proof {
                assert(s@.subrange(at as int, at + p.len())[k as int] == s@[at + k]);
            }
            return false;
        }
        k += 1;
    }
    assert(s@.subrange(at as int, at + p.len()) =~= p@);
    true
}

/// Tests whether a text begins with a pattern.
pub fn starts_with(s: &Vec<char>, p: &str) -> (r: bool)
    ensures
        r == has_prefix(s@, p@),
{
    let pattern = chars_of(p);
    let r = matches_at(s, 0, &pattern);
    proof {
        if pattern.len() <= s.len() {
            assert(s@.take(pattern@.len() as int) == s@.subrange(0, 0 + pattern@.len() as int));
        }
    }
    r
}

/// Tests whether a text ends with a pattern.
pub fn ends_with(s: &Vec<char>, p: &str) -> (r: bool)
    ensures
        r == has_suffix(s@, p@),
{
    let pattern = chars_of(p);
    if pattern.len() > s.len() {
        return false;
    }
    let at: usize = s.len() - pattern.len();
    let r = matches_at(s, at, &pattern);
    proof {
        assert(s@.skip(s@.len() - pattern@.len()) == s@.subrange(at as int, at + pattern@.len()));
    }
    r
}

/// Finds the first index at which a pattern stands in a text.
pub fn find(s: &Vec<char>, p: &str) -> (r: Option<usize>)
    ensures
        match r {
            Some(i) => first_at(s@, p@, i as int) && first_index(s@, p@) == Some(i as int),
            None => !has_infix(s@, p@) && first_index(s@, p@).is_none(),
        },
{
    let pattern = chars_of(p);
    if pattern.len() > s.len() {
        return None;
    }
    let last: usize = s.len() - pattern.len();
    let mut i: usize = 0;
    loop
        invariant
            i <= last,
            last == s.len() - pattern.len(),
            pattern@ == p@,
            forall|j: int| 0 <= j < i ==> !occurs_at(s@, p@, j),
        decreases last - i,
    {
        if matches_at(s, i, &pattern) {
            proof {
                lemma_first_index_is(s@, p@, i as int);
            }
            return Some(i);
        }
        if i == last {
            return None;
        }
        i += 1;
    }
}

/// Tests whether a pattern stands anywhere in a text.
pub fn contains(s: &Vec<char>, p: &str) -> (r: bool)
    ensures
        r == has_infix(s@, p@),
{
    find(s, p).is_some()
}

/// Tests whether two texts are the same.
pub fn same_text(a: &Vec<char>, b: &str) -> (r: bool)
    ensures
        r == (a@ == b@),
{
    let pattern = chars_of(b);
    if pattern.len() != a.len() {
        return false;
    }
    let r = matches_at(a, 0, &pattern);
    proof {
        assert(a@.subrange(0, 0 + pattern@.len() as int) == a@);
    }
    r
}

/// The texts that a list of character vectors holds.
pub open spec fn texts(v: Seq<Vec<char>>) -> Seq<Seq<char>> {
    Seq::new(v.len(), |i: int| v[i]@)
}

/// The pieces into which a separator cuts a text: what stands before the
/// first separator, between two separators, and behind the last; a piece
/// may be empty.
pub open spec fn split_on(s: Seq<char>, sep: char) -> Seq<Seq<char>>
    decreases s.len(),
{
    if s.len() == 0 {
        seq![Seq::empty()]
    } else if s.last() == sep {
        split_on(s.drop_last(), sep).push(Seq::empty())
    } else {
        split_on(s.drop_last(), sep).update(
            split_on(s.drop_last(), sep).len() - 1,
            split_on(s.drop_last(), sep).last().push(s.last()),
        )
    }
}

/// The pieces into which line feeds cut a text.
pub open spec fn pieces(s: Seq<char>) -> Seq<Seq<char>> {
    split_on(s, '\n')
}

/// A line without the carriage return that it ends with, if it does.
pub open spec fn without_cr(line: Seq<char>) -> Seq<char> {
    if line.len() > 0 && line.last() == '\r' {
        line.drop_last()
    } else {
        line
    }
}

/// The lines of a text that a line feed ends, each without that line feed
/// and without a carriage return before it.
pub open spec fn closed_lines(s: Seq<char>) -> Seq<Seq<char>> {
    Seq::new((pieces(s).len() - 1) as nat, |i: int| without_cr(pieces(s)[i]))
}

/// What stands behind the last line feed of a text.
pub open spec fn open_line(s: Seq<char>) -> Seq<char> {
    pieces(s).last()
}

/// The lines of a text: those that a line feed ends, and what stands behind
/// the last line feed unless that is empty.
pub open spec fn lines(s: Seq<char>) -> Seq<Seq<char>> {
    if open_line(s).len() > 0 {
        closed_lines(s).push(open_line(s))
    } else {
        closed_lines(s)
    }
}

/// The parts of a list put together with a separator between each two.
pub open spec fn joined(parts: Seq<Seq<char>>, sep: Seq<char>) -> Seq<char>
    decreases parts.len(),
{
    if parts.len() == 0 {
        Seq::empty()
    } else if parts.len() == 1 {
        parts[0]
    } else {
        joined(parts.drop_last(), sep) + sep + parts.last()
    }
}

/// A text is cut into at least one piece.
pub proof fn lemma_split_nonempty(s: Seq<char>, sep: char)
    ensures
        split_on(s, sep).len() >= 1,
    decreases s.len(),
{
    if s.len() > 0 {
        lemma_split_nonempty(s.drop_last(), sep);
    }
}

/// One more character either opens a new piece or lengthens the last.
pub proof fn lemma_split_step(s: Seq<char>, sep: char, c: char)
    ensures
        split_on(s, sep).len() >= 1,
        c == sep ==> split_on(s.push(c), sep) == split_on(s, sep).push(Seq::empty()),
        c != sep ==> split_on(s.push(c), sep) == split_on(s, sep).drop_last().push(
            split_on(s, sep).last().push(c),
        ),
{
    lemma_split_nonempty(s, sep);
    assert(s.push(c).drop_last() == s);
    if c != sep {
        assert(split_on(s.push(c), sep) =~= split_on(s, sep).drop_last().push(
            split_on(s, sep).last().push(c),
        ));
    }
}

/// One more character either ends the open line or lengthens it.
pub proof fn lemma_lines_step(s: Seq<char>, c: char)
    ensures
        c == '\n' ==> closed_lines(s.push(c)) == closed_lines(s).push(without_cr(open_line(s)))
            && open_line(s.push(c)) == Seq::<char>::empty(),
        c != '\n' ==> closed_lines(s.push(c)) == closed_lines(s) && open_line(s.push(c))
            == open_line(s).push(c),
{
    lemma_split_nonempty(s, '\n');
    assert(s.push(c).drop_last() == s);
    if c == '\n' {
        assert(closed_lines(s.push(c)) =~= closed_lines(s).push(without_cr(open_line(s))));
    } else {
        assert(closed_lines(s.push(c)) =~= closed_lines(s));
    }
}

/// Cuts a text into its lines.
pub fn split_lines(s: &Vec<char>) -> (r: Vec<Vec<char>>)
    ensures
        texts(r@) == lines(s@),
{
    let mut done: Vec<Vec<char>> = Vec::new();
    let mut current: Vec<char> = Vec::new();
    let mut i: usize = 0;
    proof {
        assert(texts(done@) =~= closed_lines(s@.take(0)));
    }
    while i < s.len()
        invariant
            i <= s.len(),
            texts(done@) == closed_lines(s@.take(i as int)),
            current@ == open_line(s@.take(i as int)),
        decreases s.len() - i,
    {
        proof {
            lemma_lines_step(s@.take(i as int), s@[i as int]);
            assert(s@.take(i + 1) == s@.take(i as int).push(s@[i as int]));
        }
        let c = s[i];
        if c == '\n' {
            let n = current.len();
            if n > 0 && current[n - 1] == '\r' {
                current.truncate(n - 1);
            }
            let ghost before = texts(done@);
            let ghost line = current@;
            done.push(current);
            current = Vec::new();
            proof {
                assert(texts(done@) =~= before.push(line));
            }
        } else {
            current.push(c);
        }
        i += 1;
    }
    proof {
        assert(s@.take(s@.len() as int) == s@);
    }
    if current.len() > 0 {
        let ghost before = texts(done@);
        let ghost line = current@;
        done.push(current);
        proof {
            assert(texts(done@) =~= before.push(line));
        }
    }
    done
}

/// Puts the parts of a list together with a separator between each two.
pub fn join(parts: &Vec<Vec<char>>, sep: &str) -> (r: Vec<char>)
    ensures
        r@ == joined(texts(parts@), sep@),
{
    let mut r: Vec<char> = Vec::new();
    let mut i: usize = 0;
    while i < parts.len()
        invariant
            i <= parts.len(),
            r@ == joined(texts(parts@).take(i as int), sep@),
        decreases parts.len() - i,
    {
        proof {
            assert(texts(parts@).take(i + 1).drop_last() == texts(parts@).take(i as int));
            assert(texts(parts@).take(i + 1).last() == parts@[i as int]@);
            if i == 0 {
                assert(texts(parts@).take(1)[0] == parts@[0]@);
            }
        }
        if i > 0 {
            extend_str(&mut r, sep);
        }
        extend_chars(&mut r, &parts[i]);
        i += 1;
    }
    proof {
        assert(texts(parts@).take(parts@.len() as int) == texts(parts@));
    }
    r
}

/// Cuts a text into the pieces between separators.
pub fn split_chars(s: &Vec<char>, sep: char) -> (r: Vec<Vec<char>>)
    ensures
        texts(r@) == split_on(s@, sep),
        r@.len() >= 1,
{
    let mut done: Vec<Vec<char>> = Vec::new();
    let mut current: Vec<char> = Vec::new();
    let mut i: usize = 0;
    proof {
        assert(texts(done@).push(current@) =~= split_on(s@.take(0), sep));
    }
    while i < s.len()
        invariant
            i <= s.len(),
            texts(done@).push(current@) == split_on(s@.take(i as int), sep),
        decreases s.len() - i,
    {
        proof {
            lemma_split_step(s@.take(i as int), sep, s@[i as int]);
            assert(s@.take(i + 1) == s@.take(i as int).push(s@[i as int]));
            assert(texts(done@).push(current@).drop_last() == texts(done@));
        }
        let c = s[i];
        if c == sep {
            let ghost before = texts(done@);
            let ghost line = current@;
            done.push(current);
            current = Vec::new();
            proof {
                assert(texts(done@) =~= before.push(line));
            }
        } else {
            current.push(c);
        }
        i += 1;
    }
    proof {
        assert(s@.take(s@.len() as int) == s@);
    }
    let ghost before = texts(done@);
    let ghost line = current@;
    done.push(current);
    proof {
        assert(texts(done@) =~= before.push(line));
    }
    done
}

/// The index of the first occurrence of a character in a text, or the
/// length of the text where it does not occur.
pub open spec fn index_of(s: Seq<char>, c: char) -> int
    decreases s.len(),
{
    if s.len() == 0 || s[0] == c {
        0
    } else {
        1 + index_of(s.drop_first(), c)
    }
}

/// The first occurrence is where no earlier character is the one sought.
pub proof fn lemma_index_of_is(s: Seq<char>, c: char, n: int)
    requires
        0 <= n <= s.len(),
        forall|i: int| 0 <= i < n ==> #[trigger] s[i] != c,
        n < s.len() ==> s[n] == c,
    ensures
        index_of(s, c) == n,
    decreases s.len(),
{
    if n > 0 {
        let rest = s.drop_first();
        assert forall|i: int| 0 <= i < n - 1 implies #[trigger] rest[i] != c by {
            assert(rest[i] == s[i + 1]);
        }
        assert(s[0] != c);
        lemma_index_of_is(rest, c, n - 1);
    }
}

/// Finds the first occurrence of a character in a text.
pub fn position_of(s: &Vec<char>, c: char) -> (n: usize)
    ensures
        n == index_of(s@, c),
        n <= s.len(),
        n < s.len() ==> s@[n as int] == c,
{
    let mut n: usize = 0;
    while n < s.len() && s[n] != c
        invariant
            n <= s.len(),
            forall|i: int| 0 <= i < n ==> #[trigger] s@[i] != c,
        decreases s.len() - n,
    {
        n += 1;
    }
    proof {
        lemma_index_of_is(s@, c, n as int);
    }
    n
}

/// How many characters other than white space a text begins with.
pub open spec fn word_len(s: Seq<char>) -> nat
    decreases s.len(),
{
    if s.len() == 0 || is_space(s[0]) {
        0
    } else {
        1 + word_len(s.drop_first())
    }
}

/// The first word ends where the first white space stands.
pub proof fn lemma_word_len_is(s: Seq<char>, n: int)
    requires
        0 <= n <= s.len(),
        forall|i: int| 0 <= i < n ==> !is_space(#[trigger] s[i]),
        n < s.len() ==> is_space(s[n]),
    ensures
        word_len(s) == n,
    decreases s.len(),
{
    if n > 0 {
        let rest = s.drop_first();
        assert forall|i: int| 0 <= i < n - 1 implies !is_space(#[trigger] rest[i]) by {
            assert(rest[i] == s[i + 1]);
        }
        assert(!is_space(s[0]));
        lemma_word_len_is(rest, n - 1);
    }
}

/// The first word of a text: what stands between its leading white space
/// and the next white space. It is empty where the text is blank.
pub open spec fn first_word(s: Seq<char>) -> Seq<char> {
    trim_start(s).take(word_len(trim_start(s)) as int)
}

/// What follows the first word of a text.
pub open spec fn after_first_word(s: Seq<char>) -> Seq<char> {
    trim_start(s).skip(word_len(trim_start(s)) as int)
}

/// The second word of a text; empty where the text has fewer than two.
pub open spec fn second_word(s: Seq<char>) -> Seq<char> {
    first_word(after_first_word(s))
}

/// Splits a text into its first word and what follows it.
pub fn take_word(s: &Vec<char>) -> (r: (Vec<char>, Vec<char>))
    ensures
        r.0@ == first_word(s@),
        r.1@ == after_first_word(s@),
{
    let from = count_leading_spaces(s);
    let mut to: usize = from;
    while to < s.len() && !crate::text::char_is_space(s[to])
        invariant
            from <= to <= s.len(),
            forall|i: int| from <= i < to ==> !is_space(#[trigger] s@[i]),
        decreases s.len() - to,
    {
        to += 1;
    }
    proof {
        let rest = s@.skip(from as int);
        assert forall|i: int| 0 <= i < to - from implies !is_space(#[trigger] rest[i]) by {
            assert(rest[i] == s@[i + from]);
        }
        if to - from < rest.len() {
            assert(rest[to - from] == s@[to as int]);
        }
        lemma_word_len_is(rest, to - from);
        assert(rest.take(to - from) == s@.subrange(from as int, to as int));
        assert(rest.skip(to - from) == s@.subrange(to as int, s@.len() as int));
    }
    (slice_of(s, from, to), slice_of(s, to, s.len()))
}

/// Tests whether two texts hold the same characters.
pub fn same_chars(a: &Vec<char>, b: &Vec<char>) -> (r: bool)
    ensures
        r == (a@ == b@),
{
    if a.len() != b.len() {
        return false;
    }
    let r = matches_at(a, 0, b);
    proof {
        assert(a@.subrange(0, 0 + b@.len() as int) == a@);
    }
    r
}

/// Tests whether a list of texts holds a text.
pub fn holds(list: &Vec<Vec<char>>, text: &Vec<char>) -> (r: bool)
    ensures
        r == texts(list@).contains(text@),
{
    let mut i: usize = 0;
    while i < list.len()
        invariant
            i <= list.len(),
            forall|j: int| 0 <= j < i ==> #[trigger] texts(list@)[j] != text@,
        decreases list.len() - i,
    {
        if same_chars(&list[i], text) {
            assert(texts(list@)[i as int] == text@);
            return true;
        }
        i += 1;
    }
    false
}

/// A copy of a text.
pub fn copy_chars(s: &Vec<char>) -> (r: Vec<char>)
    ensures
        r@ == s@,
{
    let r = slice_of(s, 0, s.len());
    assert(s@.subrange(0, s@.len() as int) == s@);
    r
}

/// Splitting loses nothing: the pieces of a text, put together again with
/// the separator between them, are the text; and no piece holds the
/// separator.
pub proof fn lemma_split_then_join(s: Seq<char>, sep: char)
    ensures
        joined(split_on(s, sep), seq![sep]) == s,
        forall|i: int, j: int|
            0 <= i < split_on(s, sep).len() && 0 <= j < split_on(s, sep)[i].len()
                ==> #[trigger] split_on(s, sep)[i][j] != sep,
    decreases s.len(),
{
    if s.len() == 0 {
        assert(joined(split_on(s, sep), seq![sep]) =~= s);
    } else {
        let rest = s.drop_last();
        let before = split_on(rest, sep);
        let now = split_on(s, sep);
        lemma_split_then_join(rest, sep);
        lemma_split_nonempty(rest, sep);
        if s.last() == sep {
            assert(now.drop_last() == before);
            assert(joined(now, seq![sep]) =~= joined(before, seq![sep]) + seq![sep]);
            assert(rest + seq![sep] =~= s);
            assert forall|i: int, j: int| 0 <= i < now.len() && 0 <= j < now[i].len()
                implies #[trigger] now[i][j] != sep by {
                if i < before.len() {
                    assert(now[i] == before[i]);
                    assert(before[i][j] != sep);
                }
            }
        } else {
            let grown = before.last().push(s.last());
            if before.len() == 1 {
                assert(now =~= seq![grown]);
                assert(joined(before, seq![sep]) == before[0]);
                assert(joined(now, seq![sep]) == grown);
                assert(grown =~= rest.push(s.last()));
            } else {
                assert(now.drop_last() =~= before.drop_last());
                assert(now.last() == grown);
                assert(joined(now, seq![sep]) =~= joined(before, seq![sep]).push(s.last()));
            }
            assert(rest.push(s.last()) =~= s);
            assert forall|i: int, j: int| 0 <= i < now.len() && 0 <= j < now[i].len()
                implies #[trigger] now[i][j] != sep by {
                if i < now.len() - 1 {
                    assert(now[i] == before[i]);
                    assert(before[i][j] != sep);
                } else if j < before.last().len() {
                    assert(now[i][j] == before[i][j]);
                    assert(before[i][j] != sep);
                }
            }
        }
    }
}

/// A list with a text added unless it holds it.
pub open spec fn with_text(list: Seq<Seq<char>>, text: Seq<char>) -> Seq<Seq<char>> {
    if list.contains(text) {
        list
    } else {
        list.push(text)
    }
}

/// Adds a text to a list unless the list holds it.
pub fn push_unique(list: &mut Vec<Vec<char>>, text: Vec<char>)
    ensures
        texts(final(list)@) == with_text(texts(old(list)@), text@),
{
    if !holds(list, &text) {
        let ghost before = texts(list@);
        let ghost t = text@;
        list.push(text);
        proof {
            assert(texts(list@) =~= before.push(t));
        }
    }
}

} // verus!
