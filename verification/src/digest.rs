//! The digest of a diff that goes into the prompt: a list of the files
//! changed and, as far as the budget allows, the beginning of each file's
//! changes.

use crate::chars::{
    chars_of, contains, copy_chars, ends_with, extend_chars, extend_str, find, first_index,
    has_infix, has_prefix, has_suffix, lines, lowered, same_chars, slice_of, split_lines,
    starts_with, string_of, texts, to_lower, trim, trimmed,
};
use crate::language::Language;
use crate::summary::{header_path, names_path, read_header_path};
use vstd::prelude::*;

verus! {

/// The most lines kept of one file's changes.
pub const SNIPPET_LINE_LIMIT: usize = 120;

/// The number of bytes from which on a file's changes are left out.
pub const PER_FILE_SNIPPET_LIMIT: u128 = 1200;

/// The number of bytes a character takes in UTF-8.
pub open spec fn char_width(c: char) -> nat {
    if (c as u32) < 0x80 {
        1
    } else if (c as u32) < 0x800 {
        2
    } else if (c as u32) < 0x10000 {
        3
    } else {
        4
    }
}

/// The number of bytes a text takes in UTF-8.
pub open spec fn byte_len(s: Seq<char>) -> nat
    decreases s.len(),
{
    if s.len() == 0 {
        0
    } else {
        byte_len(s.drop_last()) + char_width(s.last())
    }
}

/// The bytes of all the texts of a list together.
pub open spec fn total_bytes(list: Seq<Seq<char>>) -> nat
    decreases list.len(),
{
    if list.len() == 0 {
        0
    } else {
        total_bytes(list.drop_last()) + byte_len(list.last())
    }
}

/// A text takes at most four bytes for each character.
pub proof fn lemma_byte_len_bound(s: Seq<char>)
    ensures
        byte_len(s) <= 4 * s.len(),
    decreases s.len(),
{
    if s.len() > 0 {
        lemma_byte_len_bound(s.drop_last());
    }
}

/// Counts the bytes a text takes in UTF-8.
pub fn byte_length(s: &Vec<char>) -> (n: u128)
    ensures
        n == byte_len(s@),
        n <= 4 * s@.len(),
        n <= 0x4_0000_0000_0000_0000,
{
    let mut n: u128 = 0;
    let mut i: usize = 0;
    while i < s.len()
        invariant
            i <= s.len(),
            n == byte_len(s@.take(i as int)),
            n <= 4 * i,
        decreases s.len() - i,
    {
        proof {
            assert(s@.take(i + 1).drop_last() == s@.take(i as int));
        }
        let u: u32 = s[i] as u32;
        let width: u128 = if u < 0x80 {
            1
        } else if u < 0x800 {
            2
        } else if u < 0x10000 {
            3
        } else {
            4
        };
        n = n + width;
        i += 1;
    }
    proof {
        assert(s@.take(s@.len() as int) == s@);
        assert(i <= usize::MAX);
    }
    n
}

/// The number of bytes of diff that a context of `context_size` tokens has
/// room for: three for each token less 512, and 2048 at least. The product
/// stops at the largest size there is, and a negative context size counts
/// as that largest size.
pub open spec fn char_budget(context_size: i32) -> nat {
    let tripled: int = if context_size < 0 || 3 * context_size > usize::MAX {
        usize::MAX as int
    } else {
        3 * context_size
    };
    if tripled - 512 > 2048 {
        (tripled - 512) as nat
    } else {
        2048
    }
}

/// Computes `char_budget`.
pub fn budget_of(context_size: i32) -> (budget: usize)
    ensures
        budget == char_budget(context_size),
{
    let tripled: usize = if context_size < 0 {
        usize::MAX
    } else if context_size as usize > usize::MAX / 3 {
        usize::MAX
    } else {
        context_size as usize * 3
    };
    if tripled > 2048 + 512 {
        tripled - 512
    } else {
        2048
    }
}

/// The decimal digits of a number.
pub open spec fn decimal(n: nat) -> Seq<char>
    decreases n,
{
    if n < 10 {
        seq![(('0' as u8) + n as u8) as char]
    } else {
        decimal(n / 10).push((('0' as u8) + (n % 10) as u8) as char)
    }
}

/// Writes the decimal digits of a number.
pub fn decimal_of(n: usize) -> (r: Vec<char>)
    ensures
        r@ == decimal(n as nat),
    decreases n,
{
    if n < 10 {
        let mut r: Vec<char> = Vec::new();
        r.push((('0' as u8) + n as u8) as char);
        assert(r@ =~= decimal(n as nat));
        r
    } else {
        let mut r = decimal_of(n / 10);
        r.push((('0' as u8) + (n % 10) as u8) as char);
        r
    }
}

/// What is kept of the changes to one file.
#[derive(Debug)]
pub struct FileSection {
    /// The path of the file.
    pub path: Vec<char>,
    /// How many lines the change adds.
    pub additions: usize,
    /// How many lines the change takes away.
    pub deletions: usize,
    /// The first lines of the change; empty where they are left out.
    pub snippet: Vec<Vec<char>>,
    /// Whether the lines of the change are left out.
    pub omitted: bool,
}

/// The mathematical content of a `FileSection`.
pub struct SectionView {
    pub path: Seq<char>,
    pub additions: nat,
    pub deletions: nat,
    pub snippet: Seq<Seq<char>>,
    pub omitted: bool,
}

impl View for FileSection {
    type V = SectionView;

    open spec fn view(&self) -> SectionView {
        SectionView {
            path: self.path@,
            additions: self.additions as nat,
            deletions: self.deletions as nat,
            snippet: texts(self.snippet@),
            omitted: self.omitted,
        }
    }
}

/// The contents of a list of sections.
pub open spec fn views(v: Seq<FileSection>) -> Seq<SectionView> {
    Seq::new(v.len(), |i: int| v[i]@)
}

/// Whether a path is that of a file whose changes are never shown: a lock
/// file or minified code.
pub open spec fn is_generated(path: Seq<char>) -> bool {
    let low = lowered(path);
    ||| has_infix(low, "pnpm-lock"@)
    ||| has_infix(low, "package-lock"@)
    ||| has_infix(low, "yarn.lock"@)
    ||| has_infix(low, "cargo.lock"@)
    ||| has_suffix(low, ".min.js"@)
    ||| has_suffix(low, ".min.css"@)
}

/// Tests `is_generated` on the characters of a path.
pub fn generated_path(path: &Vec<char>) -> (r: bool)
    ensures
        r == is_generated(path@),
{
    let low = to_lower(path);
    contains(&low, "pnpm-lock") || contains(&low, "package-lock") || contains(&low, "yarn.lock")
        || contains(&low, "cargo.lock") || ends_with(&low, ".min.js") || ends_with(
        &low,
        ".min.css",
    )
}

/// Whether a path is that of a file whose changes are never shown.
pub fn is_generated_or_large_file(path: &str) -> (r: bool)
    ensures
        r == is_generated(path@),
{
    generated_path(&chars_of(path))
}

/// The section that the header of a file opens.
pub open spec fn opened_section(path: Seq<char>) -> SectionView {
    SectionView {
        path,
        additions: 0,
        deletions: 0,
        snippet: Seq::empty(),
        omitted: is_generated(path),
    }
}

/// A section with its counts after one more line.
pub open spec fn counted(sec: SectionView, line: Seq<char>) -> SectionView {
    if has_prefix(line, "+"@) {
        SectionView { additions: sec.additions + 1, ..sec }
    } else if has_prefix(line, "-"@) {
        SectionView { deletions: sec.deletions + 1, ..sec }
    } else {
        sec
    }
}

/// A section after one more line of its file's changes.
///
/// The lines that name the two sides are passed over. A hunk header is kept
/// while the section is shown and has room. Any other line is counted if it
/// adds or takes away, and is kept, unless the section is left out or has
/// reached its limit of lines or bytes; reaching the limit leaves the
/// section out.
pub open spec fn section_line(sec: SectionView, line: Seq<char>) -> SectionView {
    if has_prefix(line, "+++"@) || has_prefix(line, "---"@) {
        sec
    } else if has_prefix(line, "@@"@) {
        if !sec.omitted && sec.snippet.len() < SNIPPET_LINE_LIMIT {
            SectionView { snippet: sec.snippet.push(line), ..sec }
        } else {
            sec
        }
    } else if counted(sec, line).omitted {
        counted(sec, line)
    } else if sec.snippet.len() >= SNIPPET_LINE_LIMIT || total_bytes(sec.snippet)
        >= PER_FILE_SNIPPET_LIMIT {
        SectionView { omitted: true, snippet: Seq::empty(), ..counted(sec, line) }
    } else {
        SectionView { snippet: sec.snippet.push(line), ..counted(sec, line) }
    }
}

/// The sections read so far, and the one being read.
pub struct Sections {
    pub done: Seq<SectionView>,
    pub current: Option<SectionView>,
}

/// The sections after one more line of the diff.
pub open spec fn sections_line(st: Sections, line: Seq<char>) -> Sections {
    if names_path(line) {
        Sections {
            done: match st.current {
                Some(sec) => st.done.push(sec),
                None => st.done,
            },
            current: Some(opened_section(header_path(line))),
        }
    } else {
        match st.current {
            Some(sec) => Sections { current: Some(section_line(sec, line)), ..st },
            None => st,
        }
    }
}

/// The sections of a list of lines.
pub open spec fn sectioned(ls: Seq<Seq<char>>) -> Sections
    decreases ls.len(),
{
    if ls.len() == 0 {
        Sections { done: Seq::empty(), current: None }
    } else {
        sections_line(sectioned(ls.drop_last()), ls.last())
    }
}

/// All the sections of a reading, the one being read last.
pub open spec fn all_sections(st: Sections) -> Seq<SectionView> {
    match st.current {
        Some(sec) => st.done.push(sec),
        None => st.done,
    }
}

/// The heading of the list of files.
pub open spec fn heading_text(language: Language) -> Seq<char> {
    match language {
        Language::English => "Changed files:"@,
        Language::Chinese => "变更文件："@,
    }
}

/// The note behind a file whose changes are left out.
pub open spec fn omitted_text(language: Language) -> Seq<char> {
    match language {
        Language::English => "(content omitted)"@,
        Language::Chinese => "（内容已省略）"@,
    }
}

/// The heading of a file's changes.
pub open spec fn snippet_heading_text(language: Language) -> Seq<char> {
    match language {
        Language::English => "File:"@,
        Language::Chinese => "文件："@,
    }
}

/// The notice that a file's changes are cut short.
pub open spec fn truncated_body_text(language: Language) -> Seq<char> {
    match language {
        Language::English => "[Additional hunks truncated]"@,
        Language::Chinese => "[更多变更已截断]"@,
    }
}

/// The notice that the diff is cut short.
pub open spec fn truncated_diff_text(language: Language) -> Seq<char> {
    match language {
        Language::English => "[Diff truncated to reduce context size.]"@,
        Language::Chinese => "[为控制上下文长度，diff 已被截断。]"@,
    }
}

/// The line that lists one file.
pub open spec fn listing_line(sec: SectionView, language: Language) -> Seq<char> {
    "- "@ + sec.path + " (+"@ + decimal(sec.additions) + " / -"@ + decimal(sec.deletions) + ")"@
        + (if sec.omitted {
        " "@ + omitted_text(language)
    } else {
        Seq::empty()
    }) + "\n"@
}

/// The lines that list the files.
pub open spec fn listing(secs: Seq<SectionView>, language: Language) -> Seq<char>
    decreases secs.len(),
{
    if secs.len() == 0 {
        Seq::empty()
    } else {
        listing(secs.drop_last(), language) + listing_line(secs.last(), language)
    }
}

/// The digest down to the list of files.
pub open spec fn digest_head(secs: Seq<SectionView>, language: Language) -> Seq<char> {
    heading_text(language) + "\n"@ + listing(secs, language) + "\n"@
}

/// The digest and the budget after the lines of a snippet from index `k` on
/// were written: each line with a line feed while the budget has room for
/// it; the notice of a cut, and no budget left, where it has not.
pub open spec fn with_lines(
    snippet: Seq<Seq<char>>,
    k: int,
    out: Seq<char>,
    remaining: nat,
    language: Language,
) -> (Seq<char>, nat)
    decreases snippet.len() - k,
{
    if k < 0 || k >= snippet.len() {
        (out, remaining)
    } else if byte_len(snippet[k]) + 1 > remaining {
        (out + truncated_body_text(language) + "\n"@, 0)
    } else {
        with_lines(
            snippet,
            k + 1,
            out + snippet[k] + "\n"@,
            (remaining - (byte_len(snippet[k]) + 1)) as nat,
            language,
        )
    }
}

/// The digest after the sections from index `k` on were written: each
/// section that is shown with its heading, its lines and an empty line,
/// until the budget is used up, which the notice of a cut diff marks.
pub open spec fn with_sections(
    secs: Seq<SectionView>,
    k: int,
    out: Seq<char>,
    remaining: nat,
    language: Language,
) -> Seq<char>
    decreases secs.len() - k,
{
    if k < 0 || k >= secs.len() {
        out
    } else if secs[k].omitted {
        with_sections(secs, k + 1, out, remaining, language)
    } else if remaining == 0 {
        out + truncated_diff_text(language) + "\n"@
    } else {
        let written = with_lines(
            secs[k].snippet,
            0,
            out + snippet_heading_text(language) + " "@ + secs[k].path + "\n"@,
            remaining,
            language,
        );
        with_sections(secs, k + 1, written.0 + "\n"@, written.1, language)
    }
}

/// What is left of a budget after some bytes were written.
pub open spec fn budget_left(budget: nat, written: nat) -> nat {
    if written >= budget {
        0
    } else {
        (budget - written) as nat
    }
}

/// The digest of a diff for a context of `context_size` tokens.
///
/// A diff without a section is its own digest, as far as the budget goes,
/// counted in characters.
/// Else the digest lists the files and then shows their changes within the
/// budget that the list leaves; where the diff is larger than the budget,
/// the digest says so, at its end unless it did before.
pub open spec fn digest_of(diff: Seq<char>, language: Language, context_size: i32) -> Seq<char> {
    let secs = all_sections(sectioned(lines(diff)));
    let budget = char_budget(context_size);
    if secs.len() == 0 {
        if budget < diff.len() {
            diff.take(budget as int)
        } else {
            diff
        }
    } else {
        let head = digest_head(secs, language);
        let body = with_sections(secs, 0, head, budget_left(budget, byte_len(head)), language);
        if byte_len(diff) > budget && !has_infix(body, truncated_diff_text(language)) {
            body + truncated_diff_text(language) + "\n"@
        } else {
            body
        }
    }
}

/// Counts the bytes of the lines kept of a file.
fn total_byte_length(list: &Vec<Vec<char>>) -> (n: u128)
    requires
        list@.len() <= SNIPPET_LINE_LIMIT,
    ensures
        n == total_bytes(texts(list@)),
{
    let mut n: u128 = 0;
    let mut i: usize = 0;
    while i < list.len()
        invariant
            i <= list.len(),
            list@.len() <= SNIPPET_LINE_LIMIT,
            n == total_bytes(texts(list@).take(i as int)),
            n <= i * 0x4_0000_0000_0000_0000,
        decreases list.len() - i,
    {
        proof {
            assert(texts(list@).take(i + 1).drop_last() == texts(list@).take(i as int));
            assert(texts(list@).take(i + 1).last() == list@[i as int]@);
        }
        let more = byte_length(&list[i]);
        n = n + more;
        i += 1;
    }
    proof {
        assert(texts(list@).take(list@.len() as int) == texts(list@));
    }
    n
}

/// Takes one more line of a file's changes into its section.
fn take_line(sec: FileSection, line: &Vec<char>) -> (next: FileSection)
    requires
        sec.additions < usize::MAX,
        sec.deletions < usize::MAX,
        sec@.snippet.len() <= SNIPPET_LINE_LIMIT,
    ensures
        next@ == section_line(sec@, line@),
        next.additions <= sec.additions + 1,
        next.deletions <= sec.deletions + 1,
        next@.snippet.len() <= SNIPPET_LINE_LIMIT,
{
    if starts_with(line, "+++") || starts_with(line, "---") {
        return sec;
    }
    let FileSection { path, additions, deletions, snippet, omitted } = sec;
    let mut snippet = snippet;
    let ghost before = texts(snippet@);
    if starts_with(line, "@@") {
        if !omitted && snippet.len() < SNIPPET_LINE_LIMIT {
            snippet.push(copy_chars(line));
            proof {
                assert(texts(snippet@) =~= before.push(line@));
            }
        }
        return FileSection { path, additions, deletions, snippet, omitted };
    }
    let plus = starts_with(line, "+");
    let minus = starts_with(line, "-");
    let additions: usize = if plus {
        additions + 1
    } else {
        additions
    };
    let deletions: usize = if !plus && minus {
        deletions + 1
    } else {
        deletions
    };
    if omitted {
        return FileSection { path, additions, deletions, snippet, omitted };
    }
    if snippet.len() >= SNIPPET_LINE_LIMIT || total_byte_length(&snippet)
        >= PER_FILE_SNIPPET_LIMIT {
        let cleared: Vec<Vec<char>> = Vec::new();
        proof {
            assert(texts(cleared@) =~= Seq::empty());
        }
        return FileSection { path, additions, deletions, snippet: cleared, omitted: true };
    }
    snippet.push(copy_chars(line));
    proof {
        assert(texts(snippet@) =~= before.push(line@));
    }
    FileSection { path, additions, deletions, snippet, omitted }
}

/// Reads the sections of the lines of a diff.
pub fn read_sections(ls: &Vec<Vec<char>>) -> (sections: Vec<FileSection>)
    ensures
        views(sections@) == all_sections(sectioned(texts(ls@))),
{
    let mut done: Vec<FileSection> = Vec::new();
    let mut current: Option<FileSection> = None;
    let mut i: usize = 0;
    proof {
        assert(views(done@) =~= Seq::empty());
    }
    while i < ls.len()
        invariant
            i <= ls.len(),
            views(done@) == sectioned(texts(ls@).take(i as int)).done,
            match current {
                Some(sec) => sectioned(texts(ls@).take(i as int)).current == Some(sec@)
                    && sec.additions <= i && sec.deletions <= i && sec@.snippet.len()
                    <= SNIPPET_LINE_LIMIT,
                None => sectioned(texts(ls@).take(i as int)).current.is_none(),
            },
        decreases ls.len() - i,
    {
        proof {
            assert(texts(ls@).take(i + 1).drop_last() == texts(ls@).take(i as int));
            assert(texts(ls@).take(i + 1).last() == ls@[i as int]@);
        }
        let line = &ls[i];
        match read_header_path(line) {
            Some(path) => {
                match current {
                    Some(sec) => {
                        let ghost before = views(done@);
                        let ghost v = sec@;
                        done.push(sec);
                        proof {
                            assert(views(done@) =~= before.push(v));
                        }
                    },
                    None => {},
                }
                let omitted = generated_path(&path);
                let opened = FileSection {
                    path,
                    additions: 0,
                    deletions: 0,
                    snippet: Vec::new(),
                    omitted,
                };
                proof {
                    assert(opened@.snippet =~= Seq::empty());
                }
                current = Some(opened);
            },
            None => {
                current = match current {
                    Some(sec) => Some(take_line(sec, line)),
                    None => None,
                };
            },
        }
        i += 1;
    }
    proof {
        assert(texts(ls@).take(ls@.len() as int) == texts(ls@));
    }
    match current {
        Some(sec) => {
            let ghost before = views(done@);
            let ghost v = sec@;
            done.push(sec);
            proof {
                assert(views(done@) =~= before.push(v));
            }
        },
        None => {},
    }
    done
}

/// Writes the line that lists one file.
fn write_listing_line(out: &mut Vec<char>, sec: &FileSection, language: &Language)
    ensures
        final(out)@ == old(out)@ + listing_line(sec@, *language),
{
    let mut line = chars_of("- ");
    extend_chars(&mut line, &sec.path);
    extend_str(&mut line, " (+");
    extend_chars(&mut line, &decimal_of(sec.additions));
    extend_str(&mut line, " / -");
    extend_chars(&mut line, &decimal_of(sec.deletions));
    extend_str(&mut line, ")");
    if sec.omitted {
        let mut note = chars_of(" ");
        extend_str(&mut note, language.file_omitted_notice());
        extend_chars(&mut line, &note);
    } else {
        proof {
            assert(line@ + Seq::<char>::empty() == line@);
        }
    }
    extend_str(&mut line, "\n");
    extend_chars(out, &line);
}

/// Writes the lines of a snippet within a budget.
fn write_lines(out: &mut Vec<char>, snippet: &Vec<Vec<char>>, remaining: u128, language: &Language) -> (left:
    u128)
    ensures
        (final(out)@, left as nat) == with_lines(
            texts(snippet@),
            0,
            old(out)@,
            remaining as nat,
            *language,
        ),
{
    let mut left = remaining;
    let mut k: usize = 0;
    while k < snippet.len()
        invariant_except_break
            k <= snippet.len(),
            with_lines(texts(snippet@), 0, old(out)@, remaining as nat, *language) == with_lines(
                texts(snippet@),
                k as int,
                out@,
                left as nat,
                *language,
            ),
        ensures
            (out@, left as nat) == with_lines(
                texts(snippet@),
                0,
                old(out)@,
                remaining as nat,
                *language,
            ),
        decreases snippet.len() - k,
    {
        assert(texts(snippet@)[k as int] == snippet@[k as int]@);
        let bytes = byte_length(&snippet[k]);
        let need = bytes + 1;
        if need > left {
            extend_str(out, language.truncated_body_notice());
            extend_str(out, "\n");
            left = 0;
            break ;
        }
        extend_chars(out, &snippet[k]);
        extend_str(out, "\n");
        left = left - need;
        k += 1;
    }
    left
}

/// Writes the sections that are shown within a budget.
fn write_sections(out: &mut Vec<char>, sections: &Vec<FileSection>, remaining: u128, language: &Language)
    ensures
        final(out)@ == with_sections(
            views(sections@),
            0,
            old(out)@,
            remaining as nat,
            *language,
        ),
{
    let mut left = remaining;
    let mut k: usize = 0;
    while k < sections.len()
        invariant_except_break
            k <= sections.len(),
            with_sections(views(sections@), 0, old(out)@, remaining as nat, *language)
                == with_sections(views(sections@), k as int, out@, left as nat, *language),
        ensures
            out@ == with_sections(views(sections@), 0, old(out)@, remaining as nat, *language),
        decreases sections.len() - k,
    {
        assert(views(sections@)[k as int] == sections@[k as int]@);
        let sec = &sections[k];
        if !sec.omitted {
            if left == 0 {
                extend_str(out, language.truncated_diff_notice());
                extend_str(out, "\n");
                break ;
            }
            extend_str(out, language.file_snippet_heading());
            extend_str(out, " ");
            extend_chars(out, &sec.path);
            extend_str(out, "\n");
            left = write_lines(out, &sec.snippet, left, language);
            extend_str(out, "\n");
        }
        k += 1;
    }
}

/// Writes the digest of a diff, on characters.
pub fn digest_chars(diff: &Vec<char>, language: &Language, context_size: i32) -> (r: Vec<char>)
    ensures
        r@ == digest_of(diff@, *language, context_size),
{
    let budget = budget_of(context_size);
    let diff_bytes = byte_length(diff);
    let sections = read_sections(&split_lines(diff));
    if sections.len() == 0 {
        let keep: usize = if budget < diff.len() {
            budget
        } else {
            diff.len()
        };
        let r = slice_of(diff, 0, keep);
        assert(diff@.take(diff@.len() as int) == diff@);
        return r;
    }
    let mut out = chars_of(language.changed_files_heading());
    extend_str(&mut out, "\n");
    let ghost start = out@;
    let mut i: usize = 0;
    while i < sections.len()
        invariant
            i <= sections.len(),
            out@ == start + listing(views(sections@).take(i as int), *language),
        decreases sections.len() - i,
    {
        proof {
            assert(views(sections@).take(i + 1).drop_last() == views(sections@).take(i as int));
            assert(views(sections@).take(i + 1).last() == sections@[i as int]@);
        }
        write_listing_line(&mut out, &sections[i], language);
        i += 1;
    }
    proof {
        assert(views(sections@).take(sections@.len() as int) == views(sections@));
    }
    extend_str(&mut out, "\n");
    assert(out@ == digest_head(views(sections@), *language));
    let written = byte_length(&out);
    let remaining: u128 = if written >= budget as u128 {
        0
    } else {
        budget as u128 - written
    };
    write_sections(&mut out, &sections, remaining, language);
    if diff_bytes > budget as u128 && !contains(&out, language.truncated_diff_notice()) {
        extend_str(&mut out, language.truncated_diff_notice());
        extend_str(&mut out, "\n");
    }
    out
}

/// Writes the digest of a diff for a context of `context_size` tokens.
pub fn build_diff_summary(diff: &str, language: &Language, context_size: i32) -> (digest: String)
    ensures
        digest@ == digest_of(diff@, *language, context_size),
{
    string_of(&digest_chars(&chars_of(diff), language, context_size))
}

/// The end of a diff that is too large for the budget: its last characters,
/// as many as the budget counts, from the first file header among them on,
/// under the notice that the diff is cut. A diff within the budget is left
/// as it is.
pub open spec fn raw_tail_of(diff: Seq<char>, language: Language, context_size: i32) -> Seq<
    char,
> {
    let budget = char_budget(context_size);
    if byte_len(diff) <= budget {
        diff
    } else {
        let tail = if diff.len() > budget {
            diff.skip(diff.len() - budget)
        } else {
            diff
        };
        let cut = match first_index(tail, "diff --git "@) {
            Some(at) => tail.skip(at),
            None => tail,
        };
        truncated_diff_text(language) + "\n\n"@ + cut
    }
}

/// Writes the end of a diff, on characters.
pub fn raw_tail_chars(diff: &Vec<char>, language: &Language, context_size: i32) -> (r: Vec<char>)
    ensures
        r@ == raw_tail_of(diff@, *language, context_size),
{
    let budget = budget_of(context_size);
    if byte_length(diff) <= budget as u128 {
        return copy_chars(diff);
    }
    let from: usize = if diff.len() > budget {
        diff.len() - budget
    } else {
        0
    };
    let tail = slice_of(diff, from, diff.len());
    proof {
        assert(diff@.skip(from as int) == diff@.subrange(from as int, diff@.len() as int));
        assert(diff@.skip(0) == diff@);
    }
    let cut = match find(&tail, "diff --git ") {
        Some(at) => {
            proof {
                assert(tail@.skip(at as int) == tail@.subrange(at as int, tail@.len() as int));
            }
            slice_of(&tail, at, tail.len())
        },
        None => tail,
    };
    let mut r = chars_of(language.truncated_diff_notice());
    extend_str(&mut r, "\n\n");
    extend_chars(&mut r, &cut);
    r
}

/// Writes the end of a diff for a context of `context_size` tokens.
pub fn build_diff_raw_tail(diff: &str, language: &Language, context_size: i32) -> (tail: String)
    ensures
        tail@ == raw_tail_of(diff@, *language, context_size),
{
    string_of(&raw_tail_chars(&chars_of(diff), language, context_size))
}

/// The forms of a diff to try in turn: its digest, and its end unless that
/// says the same, white space at the ends aside.
pub open spec fn variants_of(diff: Seq<char>, language: Language, context_size: i32) -> Seq<
    Seq<char>,
> {
    let digest = digest_of(diff, language, context_size);
    let tail = raw_tail_of(diff, language, context_size);
    if trim(digest) == trim(tail) {
        seq![digest]
    } else {
        seq![digest, tail]
    }
}

/// The view of each string of a list.
pub open spec fn string_views(v: Seq<String>) -> Seq<Seq<char>> {
    Seq::new(v.len(), |i: int| v[i]@)
}

/// Writes the forms of a diff to try in turn.
pub fn build_diff_variants(diff: &str, language: &Language, context_size: i32) -> (variants: Vec<
    String,
>)
    ensures
        string_views(variants@) == variants_of(diff@, *language, context_size),
{
    let chars = chars_of(diff);
    let digest = digest_chars(&chars, language, context_size);
    let tail = raw_tail_chars(&chars, language, context_size);
    let mut variants: Vec<String> = Vec::new();
    let same = same_chars(&trimmed(&digest), &trimmed(&tail));
    variants.push(string_of(&digest));
    if !same {
        variants.push(string_of(&tail));
        proof {
            assert(string_views(variants@) =~= seq![digest@, tail@]);
        }
    } else {
        proof {
            assert(string_views(variants@) =~= seq![digest@]);
        }
    }
    variants
}

} // verus!
