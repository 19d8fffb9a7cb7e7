//! Scopes of a change: the slug that a path gives, and how a slug reads to
//! a person.

use crate::chars::{
    chars_of, extend_chars, index_of, is_alphanumeric, char_is_alphanumeric, join,
    joined, lower, lower_char, lowered, position_of, same_text, slice_of, split_chars, split_on,
    string_of, texts, to_lower,
};
use vstd::prelude::*;

verus! {

/// A text with every letter or digit in lower case and every run of other
/// characters as one dash.
pub open spec fn slug_raw(s: Seq<char>) -> Seq<char>
    decreases s.len(),
{
    if s.len() == 0 {
        Seq::empty()
    } else if is_alphanumeric(s.last()) {
        slug_raw(s.drop_last()).push(lower(s.last()))
    } else if slug_raw(s.drop_last()).len() > 0 && slug_raw(s.drop_last()).last() == '-' {
        slug_raw(s.drop_last())
    } else {
        slug_raw(s.drop_last()).push('-')
    }
}

/// A text without a dash at its beginning and without one at its end.
pub open spec fn without_edge_dashes(s: Seq<char>) -> Seq<char> {
    let a = if s.len() > 0 && s[0] == '-' {
        s.drop_first()
    } else {
        s
    };
    if a.len() > 0 && a.last() == '-' {
        a.drop_last()
    } else {
        a
    }
}

/// The slug of a text: its letters and digits in lower case, each run of
/// other characters between them as one dash.
pub open spec fn slugified(s: Seq<char>) -> Seq<char> {
    without_edge_dashes(slug_raw(s))
}

/// Whether a character can stand in a slug.
pub open spec fn is_slug_char(c: char) -> bool {
    ('a' <= c <= 'z') || ('0' <= c <= '9') || c == '-'
}

/// Before its edges are cut, a slug holds slug characters only and no two
/// dashes in a row.
pub proof fn lemma_slug_raw_shape(s: Seq<char>)
    ensures
        forall|i: int| 0 <= i < slug_raw(s).len() ==> is_slug_char(#[trigger] slug_raw(s)[i]),
        forall|i: int|
            0 <= i < slug_raw(s).len() - 1 ==> !(#[trigger] slug_raw(s)[i] == '-' && slug_raw(s)[i
                + 1] == '-'),
    decreases s.len(),
{
    if s.len() > 0 {
        lemma_slug_raw_shape(s.drop_last());
        let before = slug_raw(s.drop_last());
        let now = slug_raw(s);
        assert forall|i: int| 0 <= i < now.len() implies is_slug_char(#[trigger] now[i]) by {
            if i < before.len() {
                assert(now[i] == before[i]);
            }
        }
        assert forall|i: int| 0 <= i < now.len() - 1 implies !(#[trigger] now[i] == '-' && now[i
            + 1] == '-') by {
            assert(now[i] == before[i]);
            if i + 1 < before.len() {
                assert(now[i + 1] == before[i + 1]);
            }
        }
    }
}

/// A slug holds slug characters only, and neither begins nor ends with a
/// dash.
pub proof fn lemma_slug_shape(s: Seq<char>)
    ensures
        forall|i: int| 0 <= i < slugified(s).len() ==> is_slug_char(#[trigger] slugified(s)[i]),
        slugified(s).len() > 0 ==> slugified(s)[0] != '-' && slugified(s).last() != '-',
{
    lemma_slug_raw_shape(s);
    let raw = slug_raw(s);
    let a = if raw.len() > 0 && raw[0] == '-' {
        raw.drop_first()
    } else {
        raw
    };
    let r = slugified(s);
    assert forall|i: int| 0 <= i < r.len() implies is_slug_char(#[trigger] r[i]) by {
        if raw.len() > 0 && raw[0] == '-' {
            assert(r[i] == raw[i + 1]);
        } else {
            assert(r[i] == raw[i]);
        }
    }
    if r.len() > 0 {
        if raw.len() > 0 && raw[0] == '-' {
            assert(r[0] == raw[1]);
            assert(!(raw[0] == '-' && raw[1] == '-'));
            assert(a.len() >= 1);
            if a.last() == '-' {
                assert(r.last() == raw[raw.len() - 2]);
                assert(!(raw[raw.len() - 2] == '-' && raw[raw.len() - 2 + 1] == '-'));
            } else {
                assert(r.last() == raw[raw.len() - 1]);
            }
        } else {
            assert(r[0] == raw[0]);
            if a.last() == '-' {
                assert(r.last() == raw[raw.len() - 2]);
                assert(!(raw[raw.len() - 2] == '-' && raw[raw.len() - 2 + 1] == '-'));
            } else {
                assert(r.last() == raw[raw.len() - 1]);
            }
        }
    }
}

/// Computes `slugified` on characters.
pub fn slug_chars(s: &Vec<char>) -> (r: Vec<char>)
    ensures
        r@ == slugified(s@),
{
    let mut raw: Vec<char> = Vec::new();
    let mut i: usize = 0;
    while i < s.len()
        invariant
            i <= s.len(),
            raw@ == slug_raw(s@.take(i as int)),
        decreases s.len() - i,
    {
        proof {
            assert(s@.take(i + 1).drop_last() == s@.take(i as int));
        }
        let c = s[i];
        if char_is_alphanumeric(c) {
            raw.push(lower_char(c));
        } else if !(raw.len() > 0 && raw[raw.len() - 1] == '-') {
            raw.push('-');
        }
        i += 1;
    }
    proof {
        assert(s@.take(s@.len() as int) == s@);
    }
    let from: usize = if raw.len() > 0 && raw[0] == '-' {
        1
    } else {
        0
    };
    let to: usize = if raw.len() > from && raw[raw.len() - 1] == '-' {
        raw.len() - 1
    } else {
        raw.len()
    };
    proof {
        let a = if raw@.len() > 0 && raw@[0] == '-' {
            raw@.drop_first()
        } else {
            raw@
        };
        assert(a == raw@.subrange(from as int, raw@.len() as int));
        if a.len() > 0 {
            assert(a.last() == raw@[raw@.len() - 1]);
            assert(a.drop_last() == raw@.subrange(from as int, raw@.len() - 1));
        }
    }
    slice_of(&raw, from, to)
}

/// The slug of a text.
pub fn slugify(input: &str) -> (slug: String)
    ensures
        slug@ == slugified(input@),
{
    string_of(&slug_chars(&chars_of(input)))
}

/// A path without the `./` it begins with, however often.
pub open spec fn without_dot_slashes(s: Seq<char>) -> Seq<char>
    decreases s.len(),
{
    if s.len() >= 2 && s[0] == '.' && s[1] == '/' {
        without_dot_slashes(s.skip(2))
    } else {
        s
    }
}

/// A path without the `a/` or `b/` by which a diff marks its sides.
pub open spec fn without_side(s: Seq<char>) -> Seq<char> {
    if s.len() >= 2 && (s[0] == 'a' || s[0] == 'b') && s[1] == '/' {
        s.skip(2)
    } else {
        s
    }
}

/// The part of a path that names its scope: its first component, or the
/// second where the first is `src` and a second follows.
pub open spec fn scope_part(s: Seq<char>) -> Seq<char> {
    let first = s.take(index_of(s, '/'));
    if first == "src"@ && index_of(s, '/') < s.len() {
        let rest = s.skip(index_of(s, '/') + 1);
        rest.take(index_of(rest, '/'))
    } else {
        first
    }
}

/// The scope that a path gives: the slug of its scope part up to the first
/// dot; empty for an empty path.
pub open spec fn scope_of_path(path: Seq<char>) -> Seq<char> {
    let s = without_side(without_dot_slashes(path));
    if s.len() == 0 {
        Seq::empty()
    } else {
        slugified(scope_part(s).take(index_of(scope_part(s), '.')))
    }
}

/// Computes `scope_of_path` on characters.
pub fn scope_chars(path: &Vec<char>) -> (r: Vec<char>)
    ensures
        r@ == scope_of_path(path@),
{
    let mut from: usize = 0;
    proof {
        assert(path@.skip(0) == path@);
    }
    while path.len() - from >= 2 && path[from] == '.' && path[from + 1] == '/'
        invariant
            from <= path.len(),
            without_dot_slashes(path@) == without_dot_slashes(path@.skip(from as int)),
        decreases path.len() - from,
    {
        proof {
            assert(path@.skip(from as int).skip(2) == path@.skip(from + 2));
        }
        from += 2;
    }
    let ghost stripped = path@.skip(from as int);
    assert(without_dot_slashes(path@) == stripped);
    if path.len() - from >= 2 && (path[from] == 'a' || path[from] == 'b') && path[from + 1]
        == '/' {
        proof {
            assert(stripped.skip(2) == path@.skip(from + 2));
        }
        from += 2;
    }
    let s = slice_of(path, from, path.len());
    assert(s@ == without_side(without_dot_slashes(path@)));
    if s.len() == 0 {
        return Vec::new();
    }
    let cut = position_of(&s, '/');
    let first = slice_of(&s, 0, cut);
    let part = if same_text(&first, "src") && cut < s.len() {
        let rest = slice_of(&s, cut + 1, s.len());
        let cut2 = position_of(&rest, '/');
        slice_of(&rest, 0, cut2)
    } else {
        first
    };
    assert(part@ == scope_part(s@));
    let dot = position_of(&part, '.');
    slug_chars(&slice_of(&part, 0, dot))
}

/// The scope that a path gives.
pub fn path_to_scope(path: &str) -> (scope: String)
    ensures
        scope@ == scope_of_path(path@),
{
    string_of(&scope_chars(&chars_of(path)))
}

/// The capital form of an ASCII small letter, and any other character as it
/// is.
pub open spec fn upper(c: char) -> char {
    if 'a' <= c <= 'z' {
        ((c as u8) - 32) as char
    } else {
        c
    }
}

/// A word with its first letter as a capital and its other letters small.
pub open spec fn capitalized(part: Seq<char>) -> Seq<char> {
    if part.len() == 0 {
        Seq::empty()
    } else {
        seq![upper(part[0])] + lowered(part.skip(1))
    }
}

/// The parts that are not empty, each capitalized.
pub open spec fn capitalized_parts(parts: Seq<Seq<char>>) -> Seq<Seq<char>>
    decreases parts.len(),
{
    if parts.len() == 0 {
        Seq::empty()
    } else if parts.last().len() == 0 {
        capitalized_parts(parts.drop_last())
    } else {
        capitalized_parts(parts.drop_last()).push(capitalized(parts.last()))
    }
}

/// How a slug reads to a person: `CLI`, `KV` and `Dependencies` for the
/// slugs `cli`, `kv` and `deps`, whatever their case; else the words between
/// its dashes, capitalized and set apart by spaces; `Project` where it has
/// no word.
pub open spec fn humanized(slug: Seq<char>) -> Seq<char> {
    if lowered(slug) == "cli"@ {
        "CLI"@
    } else if lowered(slug) == "kv"@ {
        "KV"@
    } else if lowered(slug) == "deps"@ {
        "Dependencies"@
    } else if capitalized_parts(split_on(slug, '-')).len() == 0 {
        "Project"@
    } else {
        joined(capitalized_parts(split_on(slug, '-')), " "@)
    }
}

/// Computes `upper`.
pub fn upper_char(c: char) -> (r: char)
    ensures
        r == upper(c),
{
    if 'a' <= c && c <= 'z' {
        ((c as u8) - 32) as char
    } else {
        c
    }
}

/// Computes `humanized` on characters.
pub fn humanize_chars(slug: &Vec<char>) -> (r: Vec<char>)
    ensures
        r@ == humanized(slug@),
{
    let low = to_lower(slug);
    if same_text(&low, "cli") {
        return chars_of("CLI");
    }
    if same_text(&low, "kv") {
        return chars_of("KV");
    }
    if same_text(&low, "deps") {
        return chars_of("Dependencies");
    }
    let parts = split_chars(slug, '-');
    let mut words: Vec<Vec<char>> = Vec::new();
    let mut i: usize = 0;
    proof {
        assert(texts(words@) =~= capitalized_parts(texts(parts@).take(0)));
    }
    while i < parts.len()
        invariant
            i <= parts.len(),
            texts(words@) == capitalized_parts(texts(parts@).take(i as int)),
        decreases parts.len() - i,
    {
        proof {
            assert(texts(parts@).take(i + 1).drop_last() == texts(parts@).take(i as int));
            assert(texts(parts@).take(i + 1).last() == parts@[i as int]@);
        }
        let part = &parts[i];
        if part.len() > 0 {
            let mut word: Vec<char> = Vec::new();
            word.push(upper_char(part[0]));
            let tail = to_lower(&slice_of(part, 1, part.len()));
            extend_chars(&mut word, &tail);
            proof {
                assert(part@.skip(1) == part@.subrange(1, part@.len() as int));
                assert(word@ =~= capitalized(part@));
            }
            let ghost before = texts(words@);
            let ghost text = word@;
            words.push(word);
            proof {
                assert(texts(words@) =~= before.push(text));
            }
        }
        i += 1;
    }
    proof {
        assert(texts(parts@).take(parts@.len() as int) == texts(parts@));
    }
    if words.len() == 0 {
        chars_of("Project")
    } else {
        join(&words, " ")
    }
}

/// How a slug reads to a person.
pub fn humanize_slug(slug: &str) -> (text: String)
    ensures
        text@ == humanized(slug@),
{
    string_of(&humanize_chars(&chars_of(slug)))
}

} // verus!
