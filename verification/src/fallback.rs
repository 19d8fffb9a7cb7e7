//! The commit message written from the summary of a diff, for when the
//! model gives none.

use crate::chars::{
    chars_of, copy_chars, extend_chars, extend_str, holds, join, joined, push_unique, string_of,
    texts, with_text,
};
use crate::language::Language;
use crate::scope::{humanize_chars, humanized};
use crate::summary::{analyze_diff_summary, docs_alone, summary_of, DiffSummary, SummaryView};
use vstd::prelude::*;

verus! {

/// The sentence that a subject is made from.
#[derive(PartialEq, Eq, Structural, Clone, Copy, Debug)]
pub enum SubjectTemplate {
    /// The generation of commit messages was made more robust.
    StabilizeCommitGeneration,
    /// Documentation and code were brought in line.
    SyncDocsAndCode,
    /// The documentation of the scope was updated.
    UpdateDocs,
    /// The scope is new.
    IntroduceScope,
    /// The scope was refined.
    RefineScope,
    /// The scope was updated.
    UpdateScope,
    /// Dependencies were updated.
    UpdateDeps,
}

/// The commit type of a message written from a summary.
#[derive(PartialEq, Eq, Structural, Clone, Copy, Debug)]
pub enum CommitKind {
    /// Something new.
    Feat,
    /// A correction.
    Fix,
    /// Documentation alone.
    Docs,
    /// A change of form, not of behaviour.
    Refactor,
    /// Upkeep.
    Chore,
}

/// The word of a commit type.
pub open spec fn kind_text(kind: CommitKind) -> Seq<char> {
    match kind {
        CommitKind::Feat => "feat"@,
        CommitKind::Fix => "fix"@,
        CommitKind::Docs => "docs"@,
        CommitKind::Refactor => "refactor"@,
        CommitKind::Chore => "chore"@,
    }
}

/// The subject that a template gives for a scope, in a language.
pub open spec fn subject_text(language: Language, template: SubjectTemplate, scope: Seq<char>)
    -> Seq<char> {
    match (language, template) {
        (Language::English, SubjectTemplate::StabilizeCommitGeneration) =>
            "stabilize commit message generation"@,
        (Language::Chinese, SubjectTemplate::StabilizeCommitGeneration) => "稳定提交信息生成流程"@,
        (Language::English, SubjectTemplate::UpdateDeps) => "update dependencies"@,
        (Language::Chinese, SubjectTemplate::UpdateDeps) => "更新依赖"@,
        (Language::English, SubjectTemplate::SyncDocsAndCode) => "align docs and code changes"@,
        (Language::Chinese, SubjectTemplate::SyncDocsAndCode) => "同步文档与代码更新"@,
        (Language::English, SubjectTemplate::UpdateDocs) => "update "@ + scope
            + " documentation"@,
        (Language::Chinese, SubjectTemplate::UpdateDocs) => "更新"@ + scope + "文档"@,
        (Language::English, SubjectTemplate::IntroduceScope) => "add "@ + scope,
        (Language::Chinese, SubjectTemplate::IntroduceScope) => "新增"@ + scope,
        (Language::English, SubjectTemplate::RefineScope) => "refine "@ + scope,
        (Language::Chinese, SubjectTemplate::RefineScope) => "优化"@ + scope,
        (Language::English, SubjectTemplate::UpdateScope) => "update "@ + scope,
        (Language::Chinese, SubjectTemplate::UpdateScope) => "更新"@ + scope,
    }
}

/// How a list of scopes reads to a person, in a language: the first scope,
/// with the second where there are two, and a hint at more where there are
/// more; a word for the whole project where there is none.
pub open spec fn readable_scopes(scopes: Seq<Seq<char>>, language: Language) -> Seq<char> {
    if scopes.len() == 0 {
        match language {
            Language::English => "project"@,
            Language::Chinese => "项目"@,
        }
    } else if scopes.len() == 1 {
        humanized(scopes[0])
    } else if scopes.len() == 2 {
        match language {
            Language::English => humanized(scopes[0]) + " and "@ + humanized(scopes[1]),
            Language::Chinese => humanized(scopes[0]) + "和"@ + humanized(scopes[1]),
        }
    } else {
        match language {
            Language::English => humanized(scopes[0]) + " and more"@,
            Language::Chinese => humanized(scopes[0]) + "等"@,
        }
    }
}

/// The scope written into the message: `deps` where the scopes hold it,
/// `docs` where it is the only scope, else the first two scopes with a dash
/// between them; empty where there is no scope.
pub open spec fn scope_slug(scopes: Seq<Seq<char>>) -> Seq<char> {
    if scopes.len() == 0 {
        Seq::empty()
    } else if scopes.contains("deps"@) {
        "deps"@
    } else if scopes.contains("docs"@) && scopes.len() == 1 {
        "docs"@
    } else if scopes.len() >= 2 {
        joined(scopes.take(2), "-"@)
    } else {
        joined(scopes, "-"@)
    }
}

/// The scopes with the candidates from index `k` on added, each unless it
/// is held already, until there are three.
pub open spec fn with_candidates(scopes: Seq<Seq<char>>, candidates: Seq<Seq<char>>, k: int)
    -> Seq<Seq<char>>
    decreases candidates.len() - k,
{
    if k < 0 || k >= candidates.len() || scopes.len() >= 3 {
        scopes
    } else {
        with_candidates(with_text(scopes, candidates[k]), candidates, k + 1)
    }
}

/// The scopes that a summary's marks give.
pub open spec fn marked_scopes(s: SummaryView) -> Seq<Seq<char>> {
    let a = if s.has_main {
        with_text(Seq::empty(), "cli"@)
    } else {
        Seq::empty()
    };
    let b = if s.has_llama {
        with_text(a, "llama"@)
    } else {
        a
    };
    let c = if docs_alone(s) {
        with_text(b, "docs"@)
    } else {
        b
    };
    if s.has_cargo_toml || s.has_cargo_lock || s.has_node_manifest || s.has_node_lock {
        with_text(c, "deps"@)
    } else {
        c
    }
}

/// The scopes of a change: those that the summary's marks give, filled up
/// from the scopes of its paths; `project` where there is none.
pub open spec fn scopes_of(s: SummaryView) -> Seq<Seq<char>> {
    let found = with_candidates(marked_scopes(s), s.scope_candidates, 0);
    if found.len() == 0 {
        seq!["project"@]
    } else {
        found
    }
}

/// Whether a summary shows a change of dependencies.
pub open spec fn changes_deps(s: SummaryView) -> bool {
    s.has_cargo_lock || s.has_cargo_toml || s.has_node_lock || s.has_node_manifest
}

/// The commit type and the sentence for a summary.
pub open spec fn classified(s: SummaryView) -> (CommitKind, SubjectTemplate) {
    if s.has_retry || s.has_kv_reset {
        (CommitKind::Fix, SubjectTemplate::StabilizeCommitGeneration)
    } else if s.has_main || s.has_llama {
        (CommitKind::Fix, SubjectTemplate::RefineScope)
    } else if s.has_docs && s.has_code {
        (CommitKind::Fix, SubjectTemplate::SyncDocsAndCode)
    } else if docs_alone(s) {
        (CommitKind::Docs, SubjectTemplate::UpdateDocs)
    } else if changes_deps(s) && !s.has_code {
        (CommitKind::Chore, SubjectTemplate::UpdateDeps)
    } else if s.has_code {
        if s.new_files.len() > 0 {
            (CommitKind::Feat, SubjectTemplate::IntroduceScope)
        } else {
            (CommitKind::Refactor, SubjectTemplate::RefineScope)
        }
    } else {
        (CommitKind::Chore, SubjectTemplate::UpdateScope)
    }
}

/// The scopes that the message of a summary speaks of: `deps` alone for an
/// update of dependencies, else the scopes of the change.
pub open spec fn message_scopes(s: SummaryView) -> Seq<Seq<char>> {
    if classified(s).1 == SubjectTemplate::UpdateDeps {
        seq!["deps"@]
    } else {
        scopes_of(s)
    }
}

/// The message written from a summary, in a language.
pub open spec fn message_of(s: SummaryView, language: Language) -> Seq<char> {
    let scopes = message_scopes(s);
    let subject = subject_text(language, classified(s).1, readable_scopes(scopes, language));
    if scope_slug(scopes).len() == 0 {
        kind_text(classified(s).0) + ": "@ + subject
    } else {
        kind_text(classified(s).0) + "("@ + scope_slug(scopes) + "): "@ + subject
    }
}

/// The message written for a diff: none where the diff names no file.
pub open spec fn fallback_message(diff: Seq<char>, language: Language) -> Option<Seq<char>> {
    if summary_of(diff).files.len() == 0 {
        None
    } else {
        Some(message_of(summary_of(diff), language))
    }
}

/// Puts a text between two others.
fn wrap(before: &str, text: &Vec<char>, after: &str) -> (r: Vec<char>)
    ensures
        r@ == before@ + text@ + after@,
{
    let mut r = chars_of(before);
    extend_chars(&mut r, text);
    extend_str(&mut r, after);
    r
}

/// Puts a text behind another.
fn lead(before: &str, text: &Vec<char>) -> (r: Vec<char>)
    ensures
        r@ == before@ + text@,
{
    let mut r = chars_of(before);
    extend_chars(&mut r, text);
    r
}

/// Puts a text before another.
fn trail(text: Vec<char>, after: &str) -> (r: Vec<char>)
    ensures
        r@ == text@ + after@,
{
    let mut r = text;
    extend_str(&mut r, after);
    r
}

/// Writes the subject that a template gives for a scope.
pub fn subject_chars(language: &Language, template: SubjectTemplate, scope: &Vec<char>) -> (r: Vec<
    char,
>)
    ensures
        r@ == subject_text(*language, template, scope@),
{
    match (language, template) {
        (Language::English, SubjectTemplate::StabilizeCommitGeneration) => chars_of(
            "stabilize commit message generation",
        ),
        (Language::Chinese, SubjectTemplate::StabilizeCommitGeneration) => chars_of(
            "稳定提交信息生成流程",
        ),
        (Language::English, SubjectTemplate::UpdateDeps) => chars_of("update dependencies"),
        (Language::Chinese, SubjectTemplate::UpdateDeps) => chars_of("更新依赖"),
        (Language::English, SubjectTemplate::SyncDocsAndCode) => chars_of(
            "align docs and code changes",
        ),
        (Language::Chinese, SubjectTemplate::SyncDocsAndCode) => chars_of("同步文档与代码更新"),
        (Language::English, SubjectTemplate::UpdateDocs) => wrap(
            "update ",
            scope,
            " documentation",
        ),
        (Language::Chinese, SubjectTemplate::UpdateDocs) => wrap("更新", scope, "文档"),
        (Language::English, SubjectTemplate::IntroduceScope) => lead("add ", scope),
        (Language::Chinese, SubjectTemplate::IntroduceScope) => lead("新增", scope),
        (Language::English, SubjectTemplate::RefineScope) => lead("refine ", scope),
        (Language::Chinese, SubjectTemplate::RefineScope) => lead("优化", scope),
        (Language::English, SubjectTemplate::UpdateScope) => lead("update ", scope),
        (Language::Chinese, SubjectTemplate::UpdateScope) => lead("更新", scope),
    }
}

/// Writes the subject that a template gives for a scope.
pub fn build_subject(language: &Language, template: SubjectTemplate, scope: &str) -> (subject:
    String)
    ensures
        subject@ == subject_text(*language, template, scope@),
{
    string_of(&subject_chars(language, template, &chars_of(scope)))
}

/// Writes how a list of scopes reads to a person.
pub fn build_scope_readable(scopes: &Vec<Vec<char>>, language: &Language) -> (r: Vec<char>)
    ensures
        r@ == readable_scopes(texts(scopes@), *language),
{
    if scopes.len() == 0 {
        return match language {
            Language::English => chars_of("project"),
            Language::Chinese => chars_of("项目"),
        };
    }
    assert(texts(scopes@)[0] == scopes@[0]@);
    let first = humanize_chars(&scopes[0]);
    if scopes.len() == 1 {
        first
    } else if scopes.len() == 2 {
        assert(texts(scopes@)[1] == scopes@[1]@);
        let second = humanize_chars(&scopes[1]);
        let mut r = match language {
            Language::English => trail(first, " and "),
            Language::Chinese => trail(first, "和"),
        };
        extend_chars(&mut r, &second);
        r
    } else {
        match language {
            Language::English => trail(first, " and more"),
            Language::Chinese => trail(first, "等"),
        }
    }
}

/// Tests whether a list of texts holds a given text.
fn holds_text(list: &Vec<Vec<char>>, text: &str) -> (r: bool)
    ensures
        r == texts(list@).contains(text@),
{
    holds(list, &chars_of(text))
}

/// Writes the scope of the message.
pub fn build_scope_slug(scopes: &Vec<Vec<char>>) -> (r: Vec<char>)
    ensures
        r@ == scope_slug(texts(scopes@)),
{
    if scopes.len() == 0 {
        return Vec::new();
    }
    if holds_text(scopes, "deps") {
        return chars_of("deps");
    }
    if holds_text(scopes, "docs") && scopes.len() == 1 {
        return chars_of("docs");
    }
    if scopes.len() >= 2 {
        let mut two: Vec<Vec<char>> = Vec::new();
        two.push(copy_chars(&scopes[0]));
        two.push(copy_chars(&scopes[1]));
        proof {
            assert(texts(two@) =~= texts(scopes@).take(2));
        }
        join(&two, "-")
    } else {
        join(scopes, "-")
    }
}

/// Finds the scopes of a change.
pub fn compute_scopes(summary: &DiffSummary) -> (scopes: Vec<Vec<char>>)
    ensures
        texts(scopes@) == scopes_of(summary@),
{
    let mut scopes: Vec<Vec<char>> = Vec::new();
    proof {
        assert(texts(scopes@) =~= Seq::empty());
    }
    if summary.has_main {
        push_unique(&mut scopes, chars_of("cli"));
    }
    if summary.has_llama {
        push_unique(&mut scopes, chars_of("llama"));
    }
    if summary.has_docs_only() {
        push_unique(&mut scopes, chars_of("docs"));
    }
    if summary.has_cargo_toml || summary.has_cargo_lock || summary.has_node_manifest
        || summary.has_node_lock {
        push_unique(&mut scopes, chars_of("deps"));
    }
    assert(texts(scopes@) == marked_scopes(summary@));
    let ghost candidates = texts(summary.scope_candidates@);
    let mut k: usize = 0;
    while k < summary.scope_candidates.len() && scopes.len() < 3
        invariant
            k <= summary.scope_candidates.len(),
            candidates == texts(summary.scope_candidates@),
            with_candidates(marked_scopes(summary@), candidates, 0) == with_candidates(
                texts(scopes@),
                candidates,
                k as int,
            ),
        decreases summary.scope_candidates.len() - k,
    {
        assert(candidates[k as int] == summary.scope_candidates@[k as int]@);
        push_unique(&mut scopes, copy_chars(&summary.scope_candidates[k]));
        k += 1;
    }
    if scopes.len() == 0 {
        scopes.push(chars_of("project"));
        proof {
            assert(texts(scopes@) =~= seq!["project"@]);
        }
    }
    scopes
}

/// Finds the commit type and the sentence for a summary.
pub fn classify(summary: &DiffSummary) -> (r: (CommitKind, SubjectTemplate))
    ensures
        r == classified(summary@),
{
    let has_deps_change = summary.has_cargo_lock || summary.has_cargo_toml
        || summary.has_node_lock || summary.has_node_manifest;
    if summary.has_retry || summary.has_kv_reset {
        (CommitKind::Fix, SubjectTemplate::StabilizeCommitGeneration)
    } else if summary.has_main || summary.has_llama {
        (CommitKind::Fix, SubjectTemplate::RefineScope)
    } else if summary.has_docs && summary.has_code {
        (CommitKind::Fix, SubjectTemplate::SyncDocsAndCode)
    } else if summary.has_docs_only() {
        (CommitKind::Docs, SubjectTemplate::UpdateDocs)
    } else if has_deps_change && !summary.has_code {
        (CommitKind::Chore, SubjectTemplate::UpdateDeps)
    } else if summary.has_code {
        if summary.new_files.len() > 0 {
            (CommitKind::Feat, SubjectTemplate::IntroduceScope)
        } else {
            (CommitKind::Refactor, SubjectTemplate::RefineScope)
        }
    } else {
        (CommitKind::Chore, SubjectTemplate::UpdateScope)
    }
}

/// The word of a commit type.
pub fn kind_word(kind: CommitKind) -> (word: &'static str)
    ensures
        word@ == kind_text(kind),
{
    match kind {
        CommitKind::Feat => "feat",
        CommitKind::Fix => "fix",
        CommitKind::Docs => "docs",
        CommitKind::Refactor => "refactor",
        CommitKind::Chore => "chore",
    }
}

/// Writes the message for a summary.
pub fn message_for(summary: &DiffSummary, language: &Language) -> (message: Vec<char>)
    ensures
        message@ == message_of(summary@, *language),
{
    let (kind, template) = classify(summary);
    let scopes = match template {
        SubjectTemplate::UpdateDeps => {
            let mut only: Vec<Vec<char>> = Vec::new();
            only.push(chars_of("deps"));
            proof {
                assert(texts(only@) =~= seq!["deps"@]);
            }
            only
        },
        _ => compute_scopes(summary),
    };
    assert(texts(scopes@) == message_scopes(summary@));
    let slug = build_scope_slug(&scopes);
    let readable = build_scope_readable(&scopes, language);
    let subject = subject_chars(language, template, &readable);
    let mut message = chars_of(kind_word(kind));
    if slug.len() == 0 {
        extend_str(&mut message, ": ");
    } else {
        extend_str(&mut message, "(");
        extend_chars(&mut message, &slug);
        extend_str(&mut message, "): ");
    }
    extend_chars(&mut message, &subject);
    message
}

/// Writes a commit message from a diff alone; none where the diff names no
/// file.
pub fn generate_fallback_commit_message(diff: &str, language: &Language) -> (r: Option<String>)
    ensures
        match r {
            None => fallback_message(diff@, *language).is_none(),
            Some(message) => fallback_message(diff@, *language) == Some(message@),
        },
{
    let summary = analyze_diff_summary(diff);
    if summary.files.len() == 0 {
        return None;
    }
    Some(string_of(&message_for(&summary, language)))
}

} // verus!
