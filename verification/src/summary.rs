//! What a diff changes, as far as a commit message needs to know: which
//! files, of which kinds, and a few marks of what was added.

use crate::chars::{
    chars_of, contains, copy_chars, ends_with, has_infix, has_prefix, has_suffix, holds, lines,
    lowered, push_unique, same_text, second_word, slice_of, split_chars, split_lines,
    split_on, starts_with, take_word, texts, to_lower, with_text,
};
use crate::scope::{scope_chars, scope_of_path};
use vstd::prelude::*;

verus! {

/// What a diff changes.
#[derive(Debug)]
pub struct DiffSummary {
    /// The paths of the files changed, each once, in the order of the diff.
    pub files: Vec<Vec<char>>,
    /// The scopes that the paths give, each once, in the order of the diff.
    pub scope_candidates: Vec<Vec<char>>,
    /// Whether a documentation file is changed.
    pub has_docs: bool,
    /// Whether a Rust source file is changed.
    pub has_code: bool,
    /// Whether nothing but documentation is changed.
    pub docs_only: bool,
    /// Whether `src/main.rs` is changed.
    pub has_main: bool,
    /// Whether `src/llama.rs` is changed.
    pub has_llama: bool,
    /// Whether an added line speaks of retrying.
    pub has_retry: bool,
    /// Whether an added line speaks of clearing the model's memory.
    pub has_kv_reset: bool,
    /// The paths of the files that are new, each once.
    pub new_files: Vec<Vec<char>>,
    /// Whether `Cargo.toml` is changed.
    pub has_cargo_toml: bool,
    /// Whether `Cargo.lock` is changed.
    pub has_cargo_lock: bool,
    /// Whether a `package.json` is changed.
    pub has_node_manifest: bool,
    /// Whether a lock file of a Node package manager is changed.
    pub has_node_lock: bool,
}

/// The mathematical content of a `DiffSummary`.
pub struct SummaryView {
    pub files: Seq<Seq<char>>,
    pub scope_candidates: Seq<Seq<char>>,
    pub has_docs: bool,
    pub has_code: bool,
    pub docs_only: bool,
    pub has_main: bool,
    pub has_llama: bool,
    pub has_retry: bool,
    pub has_kv_reset: bool,
    pub new_files: Seq<Seq<char>>,
    pub has_cargo_toml: bool,
    pub has_cargo_lock: bool,
    pub has_node_manifest: bool,
    pub has_node_lock: bool,
}

impl View for DiffSummary {
    type V = SummaryView;

    open spec fn view(&self) -> SummaryView {
        SummaryView {
            files: texts(self.files@),
            scope_candidates: texts(self.scope_candidates@),
            has_docs: self.has_docs,
            has_code: self.has_code,
            docs_only: self.docs_only,
            has_main: self.has_main,
            has_llama: self.has_llama,
            has_retry: self.has_retry,
            has_kv_reset: self.has_kv_reset,
            new_files: texts(self.new_files@),
            has_cargo_toml: self.has_cargo_toml,
            has_cargo_lock: self.has_cargo_lock,
            has_node_manifest: self.has_node_manifest,
            has_node_lock: self.has_node_lock,
        }
    }
}

/// Whether the summary is of a change to documentation alone.
pub open spec fn docs_alone(s: SummaryView) -> bool {
    s.has_docs && !s.has_code && s.docs_only
}

impl DiffSummary {
    /// Whether the change is to documentation alone.
    pub fn has_docs_only(&self) -> (r: bool)
        ensures
            r == docs_alone(self@),
    {
        self.has_docs && !self.has_code && self.docs_only
    }
}

/// A scan of a diff in progress: the summary so far, and the file whose
/// section is being read.
pub struct Scan {
    pub summary: SummaryView,
    pub current: Option<Seq<char>>,
}

/// The summary of no change at all.
pub open spec fn empty_summary() -> SummaryView {
    SummaryView {
        files: Seq::empty(),
        scope_candidates: Seq::empty(),
        has_docs: false,
        has_code: false,
        docs_only: true,
        has_main: false,
        has_llama: false,
        has_retry: false,
        has_kv_reset: false,
        new_files: Seq::empty(),
        has_cargo_toml: false,
        has_cargo_lock: false,
        has_node_manifest: false,
        has_node_lock: false,
    }
}

/// What stands behind the last dot of a path: the whole path where it has
/// no dot.
pub open spec fn extension(path: Seq<char>) -> Seq<char> {
    split_on(path, '.').last()
}

/// Whether an extension is one of documentation.
pub open spec fn is_doc_extension(ext: Seq<char>) -> bool {
    ext == "md"@ || ext == "rst"@ || ext == "adoc"@ || ext == "txt"@
}

/// Whether a path is that of a lock file of a Node package manager.
pub open spec fn is_node_lock(path: Seq<char>) -> bool {
    has_infix(path, "pnpm-lock"@) || has_infix(path, "package-lock"@) || has_infix(
        path,
        "yarn.lock"@,
    )
}

/// Whether a path rules out that documentation alone is changed: it is a
/// package manifest or a lock file.
pub open spec fn is_packaging(path: Seq<char>) -> bool {
    path == "Cargo.toml"@ || path == "Cargo.lock"@ || has_suffix(path, "package.json"@)
        || is_node_lock(path)
}

/// A summary with one more file, not seen before.
pub open spec fn with_file(s: SummaryView, path: Seq<char>) -> SummaryView {
    let scope = scope_of_path(path);
    let ext = extension(path);
    SummaryView {
        files: s.files.push(path),
        scope_candidates: if scope.len() > 0 {
            with_text(s.scope_candidates, scope)
        } else {
            s.scope_candidates
        },
        has_docs: s.has_docs || is_doc_extension(ext),
        has_code: s.has_code || ext == "rs"@,
        docs_only: s.docs_only && is_doc_extension(ext) && !is_packaging(path),
        has_main: s.has_main || path == "src/main.rs"@,
        has_llama: s.has_llama || path == "src/llama.rs"@,
        has_cargo_toml: s.has_cargo_toml || path == "Cargo.toml"@,
        has_cargo_lock: s.has_cargo_lock || path == "Cargo.lock"@,
        has_node_manifest: s.has_node_manifest || has_suffix(path, "package.json"@),
        has_node_lock: s.has_node_lock || is_node_lock(path),
        ..s
    }
}

/// The path that the header line of a file's section names: the second
/// word behind `diff --git `, without the `b/` that marks the new side.
/// Empty where the line has no second word.
pub open spec fn header_path(line: Seq<char>) -> Seq<char> {
    let b = second_word(line.skip("diff --git "@.len() as int));
    if has_prefix(b, "b/"@) {
        b.skip("b/"@.len() as int)
    } else {
        b
    }
}

/// Whether a header line names a path.
pub open spec fn names_path(line: Seq<char>) -> bool {
    has_prefix(line, "diff --git "@) && second_word(line.skip("diff --git "@.len() as int)).len()
        > 0
}

/// A scan after one more line of the diff.
pub open spec fn scan_line(scan: Scan, line: Seq<char>) -> Scan {
    if has_prefix(line, "diff --git "@) {
        if !names_path(line) {
            scan
        } else if scan.summary.files.contains(header_path(line)) {
            Scan { current: Some(header_path(line)), ..scan }
        } else {
            Scan {
                summary: with_file(scan.summary, header_path(line)),
                current: Some(header_path(line)),
            }
        }
    } else if has_prefix(line, "new file mode"@) {
        match scan.current {
            Some(file) => Scan {
                summary: SummaryView {
                    new_files: with_text(scan.summary.new_files, file),
                    ..scan.summary
                },
                ..scan
            },
            None => scan,
        }
    } else if has_prefix(line, "+"@) {
        Scan {
            summary: SummaryView {
                has_retry: scan.summary.has_retry || has_infix(lowered(line), "retry"@)
                    || has_infix(lowered(line), "stricter instructions"@),
                has_kv_reset: scan.summary.has_kv_reset || has_infix(
                    lowered(line),
                    "kv_self_clear"@,
                ) || has_infix(lowered(line), "kv cache"@),
                ..scan.summary
            },
            ..scan
        }
    } else {
        scan
    }
}

/// The scan of a list of lines.
pub open spec fn scanned(ls: Seq<Seq<char>>) -> Scan
    decreases ls.len(),
{
    if ls.len() == 0 {
        Scan { summary: empty_summary(), current: None }
    } else {
        scan_line(scanned(ls.drop_last()), ls.last())
    }
}

/// The summary of a diff.
pub open spec fn summary_of(diff: Seq<char>) -> SummaryView {
    scanned(lines(diff)).summary
}

/// In a summary no file is listed twice.
pub proof fn lemma_scanned_files_distinct(ls: Seq<Seq<char>>)
    ensures
        forall|i: int, j: int|
            0 <= i < j < scanned(ls).summary.files.len() ==> scanned(ls).summary.files[i]
                != scanned(ls).summary.files[j],
    decreases ls.len(),
{
    if ls.len() > 0 {
        lemma_scanned_files_distinct(ls.drop_last());
        let before = scanned(ls.drop_last());
        let line = ls.last();
        if names_path(line) && !before.summary.files.contains(header_path(line)) {
            let files = before.summary.files.push(header_path(line));
            assert(scanned(ls).summary.files == files);
            assert forall|i: int, j: int| 0 <= i < j < files.len() implies files[i] != files[j] by {
                if j == files.len() - 1 {
                    assert(before.summary.files[i] == files[i]);
                }
            }
        }
    }
}

/// Reads the path that the header line of a file's section names, if the
/// line is such a header.
pub fn read_header_path(line: &Vec<char>) -> (r: Option<Vec<char>>)
    ensures
        match r {
            None => !names_path(line@),
            Some(path) => names_path(line@) && path@ == header_path(line@),
        },
{
    if !starts_with(line, "diff --git ") {
        return None;
    }
    let marker = chars_of("diff --git ");
    let rest = slice_of(line, marker.len(), line.len());
    assert(rest@ == line@.skip("diff --git "@.len() as int));
    let (_, behind) = take_word(&rest);
    let (b, _) = take_word(&behind);
    if b.len() == 0 {
        return None;
    }
    if starts_with(&b, "b/") {
        let side = chars_of("b/");
        let path = slice_of(&b, side.len(), b.len());
        assert(path@ == b@.skip("b/"@.len() as int));
        Some(path)
    } else {
        Some(b)
    }
}

/// What a path tells of the file it names.
struct PathMarks {
    is_doc: bool,
    is_code: bool,
    is_main: bool,
    is_llama: bool,
    is_cargo_toml: bool,
    is_cargo_lock: bool,
    is_manifest: bool,
    is_lock: bool,
}

/// Reads what a path tells of the file it names.
fn marks_of(path: &Vec<char>) -> (marks: PathMarks)
    ensures
        marks.is_doc == is_doc_extension(extension(path@)),
        marks.is_code == (extension(path@) == "rs"@),
        marks.is_main == (path@ == "src/main.rs"@),
        marks.is_llama == (path@ == "src/llama.rs"@),
        marks.is_cargo_toml == (path@ == "Cargo.toml"@),
        marks.is_cargo_lock == (path@ == "Cargo.lock"@),
        marks.is_manifest == has_suffix(path@, "package.json"@),
        marks.is_lock == is_node_lock(path@),
{
    let parts = split_chars(path, '.');
    let ext = &parts[parts.len() - 1];
    assert(ext@ == extension(path@)) by {
        assert(texts(parts@)[parts@.len() - 1] == parts@[parts@.len() - 1]@);
    }
    PathMarks {
        is_doc: same_text(ext, "md") || same_text(ext, "rst") || same_text(ext, "adoc")
            || same_text(ext, "txt"),
        is_code: same_text(ext, "rs"),
        is_main: same_text(path, "src/main.rs"),
        is_llama: same_text(path, "src/llama.rs"),
        is_cargo_toml: same_text(path, "Cargo.toml"),
        is_cargo_lock: same_text(path, "Cargo.lock"),
        is_manifest: ends_with(path, "package.json"),
        is_lock: contains(path, "pnpm-lock") || contains(path, "package-lock") || contains(
            path,
            "yarn.lock",
        ),
    }
}

/// Lists a file and its scope.
fn list_file(files: &mut Vec<Vec<char>>, scope_candidates: &mut Vec<Vec<char>>, path: &Vec<char>)
    ensures
        texts(final(files)@) == texts(old(files)@).push(path@),
        texts(final(scope_candidates)@) == (if scope_of_path(path@).len() > 0 {
            with_text(texts(old(scope_candidates)@), scope_of_path(path@))
        } else {
            texts(old(scope_candidates)@)
        }),
{
    let ghost before = texts(files@);
    files.push(copy_chars(path));
    proof {
        assert(texts(files@) =~= before.push(path@));
    }
    let scope = scope_chars(path);
    if scope.len() > 0 {
        push_unique(scope_candidates, scope);
    }
}

/// Takes a file that was not seen before into a summary.
fn take_file(summary: DiffSummary, path: &Vec<char>) -> (next: DiffSummary)
    ensures
        next@ == with_file(summary@, path@),
{
    let marks = marks_of(path);
    let mut files = summary.files;
    let mut scope_candidates = summary.scope_candidates;
    list_file(&mut files, &mut scope_candidates, path);
    DiffSummary {
        files,
        scope_candidates,
        has_docs: summary.has_docs || marks.is_doc,
        has_code: summary.has_code || marks.is_code,
        docs_only: summary.docs_only && marks.is_doc && !(marks.is_cargo_toml
            || marks.is_cargo_lock || marks.is_manifest || marks.is_lock),
        has_main: summary.has_main || marks.is_main,
        has_llama: summary.has_llama || marks.is_llama,
        has_retry: summary.has_retry,
        has_kv_reset: summary.has_kv_reset,
        new_files: summary.new_files,
        has_cargo_toml: summary.has_cargo_toml || marks.is_cargo_toml,
        has_cargo_lock: summary.has_cargo_lock || marks.is_cargo_lock,
        has_node_manifest: summary.has_node_manifest || marks.is_manifest,
        has_node_lock: summary.has_node_lock || marks.is_lock,
    }
}

/// Summarizes the lines of a diff.
pub fn summarize_lines(ls: &Vec<Vec<char>>) -> (summary: DiffSummary)
    ensures
        summary@ == scanned(texts(ls@)).summary,
{
    let mut summary = DiffSummary {
        files: Vec::new(),
        scope_candidates: Vec::new(),
        has_docs: false,
        has_code: false,
        docs_only: true,
        has_main: false,
        has_llama: false,
        has_retry: false,
        has_kv_reset: false,
        new_files: Vec::new(),
        has_cargo_toml: false,
        has_cargo_lock: false,
        has_node_manifest: false,
        has_node_lock: false,
    };
    let mut current: Option<Vec<char>> = None;
    let mut i: usize = 0;
    proof {
        assert(summary@.files =~= Seq::empty());
        assert(summary@.scope_candidates =~= Seq::empty());
        assert(summary@.new_files =~= Seq::empty());
    }
    while i < ls.len()
        invariant
            i <= ls.len(),
            summary@ == scanned(texts(ls@).take(i as int)).summary,
            match current {
                Some(file) => scanned(texts(ls@).take(i as int)).current == Some(file@),
                None => scanned(texts(ls@).take(i as int)).current.is_none(),
            },
        decreases ls.len() - i,
    {
        proof {
            assert(texts(ls@).take(i + 1).drop_last() == texts(ls@).take(i as int));
            assert(texts(ls@).take(i + 1).last() == ls@[i as int]@);
        }
        let line = &ls[i];
        if starts_with(line, "diff --git ") {
            match read_header_path(line) {
                None => {},
                Some(path) => {
                    if !holds(&summary.files, &path) {
                        summary = take_file(summary, &path);
                    }
                    current = Some(path);
                },
            }
        } else if starts_with(line, "new file mode") {
            match &current {
                Some(file) => {
                    push_unique(&mut summary.new_files, copy_chars(file));
                },
                None => {},
            }
        } else if starts_with(line, "+") {
            let low = to_lower(line);
            if contains(&low, "retry") || contains(&low, "stricter instructions") {
                summary.has_retry = true;
            }
            if contains(&low, "kv_self_clear") || contains(&low, "kv cache") {
                summary.has_kv_reset = true;
            }
        }
        i += 1;
    }
    proof {
        assert(texts(ls@).take(ls@.len() as int) == texts(ls@));
    }
    summary
}

/// Summarizes a diff.
pub fn analyze_diff_summary(diff: &str) -> (summary: DiffSummary)
    ensures
        summary@ == summary_of(diff@),
{
    summarize_lines(&split_lines(&chars_of(diff)))
}

} // verus!
