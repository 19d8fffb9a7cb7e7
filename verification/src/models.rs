//! Rules for model files: which file is a model, which file of a repository
//! to fetch, under which name to keep it, and what a path typed by the user
//! means.

use crate::chars::{
    chars_of, contains, ends_with, extend_str, has_infix, has_prefix, has_suffix, lowered,
    same_text, slice_of, starts_with, string_of, to_lower, trim, trimmed,
};
use vstd::prelude::*;

verus! {

/// Whether a file with this extension is a model file: the extension is
/// `gguf`, in whatever case. A file without extension is none.
pub open spec fn names_model(extension: Option<Seq<char>>) -> bool {
    match extension {
        Some(ext) => lowered(ext) == "gguf"@,
        None => false,
    }
}

/// Whether a file with this extension is a model file.
pub fn is_gguf(extension: Option<&str>) -> (r: bool)
    ensures
        r == names_model(
            match extension {
                Some(ext) => Some(ext@),
                None => None,
            },
        ),
{
    match extension {
        Some(ext) => same_text(&to_lower(&chars_of(ext)), "gguf"),
        None => false,
    }
}

/// What a path typed by the user means.
#[derive(Debug)]
pub enum ModelPath {
    /// The user's home directory.
    Home,
    /// A path below the user's home directory.
    UnderHome(String),
    /// The path as typed, trimmed.
    Literal(String),
}

/// The mathematical content of a `ModelPath`.
pub enum ModelPathView {
    /// The user's home directory.
    Home,
    /// A path below the user's home directory.
    UnderHome(Seq<char>),
    /// The path as typed, trimmed.
    Literal(Seq<char>),
}

impl View for ModelPath {
    type V = ModelPathView;

    open spec fn view(&self) -> ModelPathView {
        match self {
            ModelPath::Home => ModelPathView::Home,
            ModelPath::UnderHome(rest) => ModelPathView::UnderHome(rest@),
            ModelPath::Literal(path) => ModelPathView::Literal(path@),
        }
    }
}

/// What a typed path means where the home directory is known or not: `~` is
/// the home directory, and what follows `~/` or `~\` lies below it; without
/// a known home directory, and in every other case, the path is taken as
/// typed. White space around the path does not count.
pub open spec fn expanded(input: Seq<char>, has_home: bool) -> ModelPathView {
    let path = trim(input);
    if has_home && path == "~"@ {
        ModelPathView::Home
    } else if has_home && has_prefix(path, "~/"@) {
        ModelPathView::UnderHome(path.skip("~/"@.len() as int))
    } else if has_home && has_prefix(path, "~\\"@) {
        ModelPathView::UnderHome(path.skip("~\\"@.len() as int))
    } else {
        ModelPathView::Literal(path)
    }
}

/// Reads what a path typed by the user means.
pub fn expand_model_path(input: &str, has_home: bool) -> (r: ModelPath)
    ensures
        r@ == expanded(input@, has_home),
{
    let path = trimmed(&chars_of(input));
    if has_home && same_text(&path, "~") {
        return ModelPath::Home;
    }
    if has_home && starts_with(&path, "~/") {
        let mark = chars_of("~/");
        let rest = slice_of(&path, mark.len(), path.len());
        assert(rest@ == path@.skip("~/"@.len() as int));
        return ModelPath::UnderHome(string_of(&rest));
    }
    if has_home && starts_with(&path, "~\\") {
        let mark = chars_of("~\\");
        let rest = slice_of(&path, mark.len(), path.len());
        assert(rest@ == path@.skip("~\\"@.len() as int));
        return ModelPath::UnderHome(string_of(&rest));
    }
    ModelPath::Literal(string_of(&path))
}

/// Whether a file name is that of a model file, in whatever case.
pub open spec fn is_model_name(name: Seq<char>) -> bool {
    has_suffix(lowered(name), ".gguf"@)
}

/// Whether a file name is that of a model file with four-bit weights.
pub open spec fn is_preferred_name(name: Seq<char>) -> bool {
    is_model_name(name) && has_infix(lowered(name), "q4"@)
}

/// The index from `k` on of the first name for which `preferred` tells
/// whether it must be a preferred one, or the number of names.
pub open spec fn first_model(names: Seq<Seq<char>>, k: int, preferred: bool) -> int
    decreases names.len() - k,
{
    if k < 0 || k >= names.len() {
        names.len() as int
    } else if is_model_name(names[k]) && (!preferred || is_preferred_name(names[k])) {
        k
    } else {
        first_model(names, k + 1, preferred)
    }
}

/// The file of a repository to fetch: the first model file with four-bit
/// weights, else the first model file; none where the repository has no
/// model file.
pub open spec fn chosen_file(names: Seq<Seq<char>>) -> Option<int> {
    if first_model(names, 0, true) < names.len() {
        Some(first_model(names, 0, true))
    } else if first_model(names, 0, false) < names.len() {
        Some(first_model(names, 0, false))
    } else {
        None
    }
}

/// The view of each string of a list.
pub open spec fn name_views(v: Seq<String>) -> Seq<Seq<char>> {
    Seq::new(v.len(), |i: int| v[i]@)
}

/// Chooses the file of a repository to fetch, by its index among the names.
pub fn choose_model_file(names: &Vec<String>) -> (r: Option<usize>)
    ensures
        match r {
            Some(i) => chosen_file(name_views(names@)) == Some(i as int) && i < names@.len(),
            None => chosen_file(name_views(names@)).is_none(),
        },
{
    let ghost all = name_views(names@);
    let mut fallback: Option<usize> = None;
    let mut k: usize = 0;
    while k < names.len()
        invariant
            k <= names.len(),
            all == name_views(names@),
            first_model(all, 0, true) == first_model(all, k as int, true),
            match fallback {
                Some(i) => first_model(all, 0, false) == i && i < k,
                None => first_model(all, 0, false) == first_model(all, k as int, false),
            },
        decreases names.len() - k,
    {
        assert(all[k as int] == names@[k as int]@);
        let low = to_lower(&chars_of(names[k].as_str()));
        if ends_with(&low, ".gguf") {
            if fallback.is_none() {
                fallback = Some(k);
            }
            if contains(&low, "q4") {
                return Some(k);
            }
        }
        k += 1;
    }
    fallback
}

/// A repository name with each slash and backslash as two underscores.
pub open spec fn sanitized(repo: Seq<char>) -> Seq<char>
    decreases repo.len(),
{
    if repo.len() == 0 {
        Seq::empty()
    } else if repo.last() == '/' || repo.last() == '\\' {
        sanitized(repo.drop_last()) + "__"@
    } else {
        sanitized(repo.drop_last()).push(repo.last())
    }
}

/// The name under which a file fetched from a repository is kept.
pub open spec fn cached_name(repo: Seq<char>, base_name: Seq<char>) -> Seq<char> {
    sanitized(repo) + "__"@ + base_name
}

/// Writes the name under which a file fetched from a repository is kept.
pub fn cached_model_name(repo: &str, base_name: &str) -> (name: String)
    ensures
        name@ == cached_name(repo@, base_name@),
{
    let id = chars_of(repo);
    let mut name: Vec<char> = Vec::new();
    let mut i: usize = 0;
    while i < id.len()
        invariant
            i <= id.len(),
            name@ == sanitized(id@.take(i as int)),
        decreases id.len() - i,
    {
        proof {
            assert(id@.take(i + 1).drop_last() == id@.take(i as int));
        }
        if id[i] == '/' || id[i] == '\\' {
            extend_str(&mut name, "__");
        } else {
            name.push(id[i]);
        }
        i += 1;
    }
    proof {
        assert(id@.take(id@.len() as int) == id@);
    }
    extend_str(&mut name, "__");
    extend_str(&mut name, base_name);
    string_of(&name)
}

} // verus!
