use git_ca::digest::{
    build_diff_raw_tail, build_diff_summary, build_diff_variants, is_generated_or_large_file,
};
use git_ca::fallback::{
    build_scope_readable, build_scope_slug, build_subject, compute_scopes,
    generate_fallback_commit_message, SubjectTemplate,
};
use git_ca::commit::is_valid_commit_message;
use git_ca::language::Language;
use git_ca::scope::{humanize_slug, path_to_scope, slugify};
use git_ca::summary::analyze_diff_summary;

fn chars(s: &str) -> Vec<char> {
    s.chars().collect()
}

fn text(v: &Vec<char>) -> String {
    v.iter().collect()
}

#[test]
fn fallback_generates_for_retry_flow() {
    let diff = "\
diff --git a/src/main.rs b/src/main.rs
index 1111111..2222222 100644
--- a/src/main.rs
+++ b/src/main.rs
@@
+ println!(\"Model response was invalid. Retrying with stricter instructions...\");
";
    let message = generate_fallback_commit_message(diff, &Language::English).expect("fallback");
    assert!(message.starts_with("fix("));
    assert!(message.contains("stabilize commit message generation"));
}

#[test]
fn fallback_generates_for_docs_only() {
    let diff = "\
diff --git a/AGENTS.md b/AGENTS.md
new file mode 100644
index 0000000..3333333
--- /dev/null
+++ b/AGENTS.md
@@
+# Repository Guidelines
";
    let message =
        generate_fallback_commit_message(diff, &Language::English).expect("fallback docs");
    assert!(message.starts_with("docs("));
    assert!(message.contains("documentation"));
}

#[test]
fn fallback_prefers_runtime_scope() {
    let diff = "\
diff --git a/src/main.rs b/src/main.rs
index 1111111..2222222 100644
--- a/src/main.rs
+++ b/src/main.rs
@@
+ println!(\"Processing response...\");
diff --git a/src/llama.rs b/src/llama.rs
new file mode 100644
index 0000000..3333333
--- /dev/null
+++ b/src/llama.rs
@@
+ llama_kv_self_clear(ctx);
";
    let message =
        generate_fallback_commit_message(diff, &Language::English).expect("fallback runtime");
    assert!(message.starts_with("fix("));
    assert!(
        message.contains("stabilize commit message generation") || message.contains("refine")
    );
}

#[test]
fn fallback_handles_dependency_updates() {
    let diff = format!(
        "{}{}{}{}{}{}{}{}{}{}{}{}",
        "diff --git a/package.json b/package.json\n",
        "index 1111111..2222222 100644\n",
        "--- a/package.json\n",
        "+++ b/package.json\n",
        "@@\n",
        "+  \"llama-kit\": \"^2.0.0\"\n",
        "diff --git a/pnpm-lock.yaml b/pnpm-lock.yaml\n",
        "index 1111111..3333333 100644\n",
        "--- a/pnpm-lock.yaml\n",
        "+++ b/pnpm-lock.yaml\n",
        "@@\n",
        "+packages:\n",
    );
    let message =
        generate_fallback_commit_message(&diff, &Language::English).expect("fallback deps");
    assert_eq!(message, "chore(deps): update dependencies");
}

#[test]
fn truncates_diff_for_prompt() {
    let language = Language::English;
    let long_diff = format!("diff --git a/file b/file\n{}", "a".repeat(5000));
    let prepared = build_diff_summary(&long_diff, &language, 512);
    assert!(prepared.contains(language.truncated_diff_notice()));
    assert!(prepared.len() < long_diff.len());
}

#[test]
fn fallback_exact_messages() {
    let retry = "diff --git a/src/main.rs b/src/main.rs\n+ retry\n";
    assert_eq!(
        generate_fallback_commit_message(retry, &Language::English),
        Some("fix(cli-main): stabilize commit message generation".to_string())
    );
    assert_eq!(
        generate_fallback_commit_message(retry, &Language::Chinese),
        Some("fix(cli-main): 稳定提交信息生成流程".to_string())
    );
    let docs = "diff --git a/AGENTS.md b/AGENTS.md\n+# Guide\n";
    assert_eq!(
        generate_fallback_commit_message(docs, &Language::English),
        Some("docs(docs-agents): update Docs and Agents documentation".to_string())
    );
    let code_new = "diff --git a/src/window.rs b/src/window.rs\nnew file mode 100644\n+x\n";
    assert_eq!(
        generate_fallback_commit_message(code_new, &Language::English),
        Some("feat(window): add Window".to_string())
    );
    let code_old = "diff --git a/src/window.rs b/src/window.rs\n+x\n";
    assert_eq!(
        generate_fallback_commit_message(code_old, &Language::Chinese),
        Some("refactor(window): 优化Window".to_string())
    );
    let both = "diff --git a/README.md b/README.md\n+x\ndiff --git a/lib/a.rs b/lib/a.rs\n+y\n";
    assert_eq!(
        generate_fallback_commit_message(both, &Language::English),
        Some("fix(readme-lib): align docs and code changes".to_string())
    );
    let other = "diff --git a/assets/logo.png b/assets/logo.png\n";
    assert_eq!(
        generate_fallback_commit_message(other, &Language::English),
        Some("chore(assets): update Assets".to_string())
    );
    let runtime = "diff --git a/src/llama.rs b/src/llama.rs\n+x\n";
    assert_eq!(
        generate_fallback_commit_message(runtime, &Language::English),
        Some("fix(llama): refine Llama".to_string())
    );
}

#[test]
fn fallback_is_none_without_files() {
    assert_eq!(generate_fallback_commit_message("", &Language::English), None);
    assert_eq!(
        generate_fallback_commit_message("+ retry\nnew file mode 100644\n", &Language::English),
        None
    );
    assert_eq!(
        generate_fallback_commit_message("diff --git onlyone\n", &Language::English),
        None
    );
}

#[test]
fn summary_marks_files_once() {
    let diff = "diff --git a/src/main.rs b/src/main.rs\nnew file mode 100644\n+ KV Cache\ndiff --git a/src/main.rs b/src/main.rs\ndiff --git a/Cargo.lock b/Cargo.lock\ndiff --git a/web/package.json b/web/package.json\ndiff --git a/yarn.lock b/yarn.lock\ndiff --git a/docs/a.txt b/docs/a.txt\n";
    let s = analyze_diff_summary(diff);
    let files: Vec<String> = s.files.iter().map(text).collect();
    assert_eq!(files, vec!["src/main.rs", "Cargo.lock", "web/package.json", "yarn.lock", "docs/a.txt"]);
    let scopes: Vec<String> = s.scope_candidates.iter().map(text).collect();
    assert_eq!(scopes, vec!["main", "cargo", "web", "yarn", "docs"]);
    assert!(s.has_main && s.has_code && s.has_docs && !s.docs_only && !s.has_llama);
    assert!(s.has_kv_reset && !s.has_retry);
    assert!(s.has_cargo_lock && !s.has_cargo_toml && s.has_node_manifest && s.has_node_lock);
    assert_eq!(s.new_files.len(), 1);
    assert!(!s.has_docs_only());
}

#[test]
fn summary_of_docs_alone() {
    let s = analyze_diff_summary("diff --git a/a.md b/a.md\ndiff --git a/b.rst b/b.rst\n");
    assert!(s.has_docs_only());
    let scopes: Vec<String> = compute_scopes(&s).iter().map(text).collect();
    assert_eq!(scopes, vec!["docs", "a", "b"]);
}

#[test]
fn scopes_fill_up_to_three() {
    let s = analyze_diff_summary(
        "diff --git a/x/1 b/x/1\ndiff --git a/y/1 b/y/1\ndiff --git a/z/1 b/z/1\ndiff --git a/w/1 b/w/1\n",
    );
    let scopes: Vec<String> = compute_scopes(&s).iter().map(text).collect();
    assert_eq!(scopes, vec!["x", "y", "z"]);
    let none = analyze_diff_summary("diff --git a/... b/...\n");
    let scopes: Vec<String> = compute_scopes(&none).iter().map(text).collect();
    assert_eq!(scopes, vec!["project"]);
}

#[test]
fn slugs() {
    assert_eq!(slugify("Hello, World!"), "hello-world");
    assert_eq!(slugify("--a__b--"), "a-b");
    assert_eq!(slugify(""), "");
    assert_eq!(slugify("!!!"), "");
    assert_eq!(slugify("ÄbC9"), "bc9");
}

#[test]
fn path_scopes() {
    assert_eq!(path_to_scope("src/llama.rs"), "llama");
    assert_eq!(path_to_scope("././b/src/My Mod/x.rs"), "my-mod");
    assert_eq!(path_to_scope("a/README.md"), "readme");
    assert_eq!(path_to_scope("src"), "src");
    assert_eq!(path_to_scope("src/"), "");
    assert_eq!(path_to_scope(""), "");
    assert_eq!(path_to_scope("./"), "");
    assert_eq!(path_to_scope(".github/workflows/ci.yml"), "");
}

#[test]
fn humanized_slugs() {
    assert_eq!(humanize_slug("CLI"), "CLI");
    assert_eq!(humanize_slug("kv"), "KV");
    assert_eq!(humanize_slug("Deps"), "Dependencies");
    assert_eq!(humanize_slug("my--cool-MOD"), "My Cool Mod");
    assert_eq!(humanize_slug(""), "Project");
    assert_eq!(humanize_slug("---"), "Project");
}

#[test]
fn scope_slug_and_readable() {
    let none: Vec<Vec<char>> = vec![];
    assert_eq!(text(&build_scope_slug(&none)), "");
    assert_eq!(text(&build_scope_slug(&vec![chars("a"), chars("deps")])), "deps");
    assert_eq!(text(&build_scope_slug(&vec![chars("docs")])), "docs");
    assert_eq!(text(&build_scope_slug(&vec![chars("docs"), chars("b")])), "docs-b");
    assert_eq!(text(&build_scope_slug(&vec![chars("a"), chars("b"), chars("c")])), "a-b");
    assert_eq!(text(&build_scope_slug(&vec![chars("a")])), "a");
    assert_eq!(text(&build_scope_readable(&none, &Language::English)), "project");
    assert_eq!(text(&build_scope_readable(&none, &Language::Chinese)), "项目");
    assert_eq!(text(&build_scope_readable(&vec![chars("cli")], &Language::English)), "CLI");
    assert_eq!(
        text(&build_scope_readable(&vec![chars("cli"), chars("llama")], &Language::English)),
        "CLI and Llama"
    );
    assert_eq!(
        text(&build_scope_readable(&vec![chars("cli"), chars("llama")], &Language::Chinese)),
        "CLI和Llama"
    );
    assert_eq!(
        text(&build_scope_readable(
            &vec![chars("cli"), chars("llama"), chars("x")],
            &Language::English
        )),
        "CLI and more"
    );
    assert_eq!(
        text(&build_scope_readable(
            &vec![chars("cli"), chars("llama"), chars("x")],
            &Language::Chinese
        )),
        "CLI等"
    );
}

#[test]
fn subjects_from_templates() {
    let en = Language::English;
    let zh = Language::Chinese;
    assert_eq!(build_subject(&en, SubjectTemplate::UpdateDocs, "CLI"), "update CLI documentation");
    assert_eq!(build_subject(&zh, SubjectTemplate::UpdateDocs, "CLI"), "更新CLI文档");
    assert_eq!(build_subject(&en, SubjectTemplate::IntroduceScope, "X"), "add X");
    assert_eq!(build_subject(&zh, SubjectTemplate::IntroduceScope, "X"), "新增X");
    assert_eq!(build_subject(&en, SubjectTemplate::RefineScope, "X"), "refine X");
    assert_eq!(build_subject(&en, SubjectTemplate::UpdateScope, "X"), "update X");
    assert_eq!(build_subject(&zh, SubjectTemplate::UpdateScope, "X"), "更新X");
    assert_eq!(build_subject(&en, SubjectTemplate::UpdateDeps, "X"), "update dependencies");
    assert_eq!(build_subject(&zh, SubjectTemplate::UpdateDeps, "X"), "更新依赖");
    assert_eq!(
        build_subject(&en, SubjectTemplate::SyncDocsAndCode, "X"),
        "align docs and code changes"
    );
}

#[test]
fn digest_lists_files_and_shows_changes() {
    let diff = "diff --git a/src/a.rs b/src/a.rs\nindex 1..2\n--- a/src/a.rs\n+++ b/src/a.rs\n@@ -1 +1 @@\n-old\n+new\n context\ndiff --git a/Cargo.lock b/Cargo.lock\n+lots\n+of\n-lines\n";
    let digest = build_diff_summary(diff, &Language::English, 1024);
    assert_eq!(
        digest,
        "Changed files:\n- src/a.rs (+1 / -1)\n- Cargo.lock (+2 / -1) (content omitted)\n\nFile: src/a.rs\nindex 1..2\n@@ -1 +1 @@\n-old\n+new\n context\n\n"
    );
    let digest = build_diff_summary(diff, &Language::Chinese, 1024);
    assert_eq!(
        digest,
        "变更文件：\n- src/a.rs (+1 / -1)\n- Cargo.lock (+2 / -1) （内容已省略）\n\n文件： src/a.rs\nindex 1..2\n@@ -1 +1 @@\n-old\n+new\n context\n\n"
    );
}

#[test]
fn digest_of_text_without_sections_is_its_beginning() {
    assert_eq!(build_diff_summary("just text\nno headers", &Language::English, 10), "just text\nno headers");
    let long = "x".repeat(3000);
    assert_eq!(build_diff_summary(&long, &Language::English, 10).len(), 2048);
    assert_eq!(build_diff_summary(&long, &Language::English, 1024).len(), 2560);
}

#[test]
fn digest_leaves_out_long_sections() {
    let mut diff = String::from("diff --git a/big.txt b/big.txt\n");
    for i in 0..200 {
        diff.push_str(&format!("+line number {}\n", i));
    }
    let digest = build_diff_summary(&diff, &Language::English, 4096);
    assert!(digest.starts_with("Changed files:\n- big.txt (+200 / -0) (content omitted)\n\n"));
    assert!(!digest.contains("File:"));
}

#[test]
fn digest_cuts_sections_at_budget() {
    let mut diff = String::new();
    for f in 0..4 {
        diff.push_str(&format!("diff --git a/f{}.txt b/f{}.txt\n", f, f));
        for i in 0..20 {
            diff.push_str(&format!("+{:0>48}\n", i));
        }
    }
    let digest = build_diff_summary(&diff, &Language::English, 10);
    assert!(digest.contains("[Additional hunks truncated]\n"));
    assert!(digest.ends_with("[Diff truncated to reduce context size.]\n"));
    assert_eq!(digest.matches("[Diff truncated to reduce context size.]").count(), 1);
}

#[test]
fn generated_files() {
    assert!(is_generated_or_large_file("web/PNPM-lock.yaml"));
    assert!(is_generated_or_large_file("Cargo.lock"));
    assert!(is_generated_or_large_file("dist/app.min.js"));
    assert!(is_generated_or_large_file("dist/app.MIN.CSS"));
    assert!(!is_generated_or_large_file("src/main.rs"));
    assert!(!is_generated_or_large_file("app.min.json"));
}

#[test]
fn raw_tail_keeps_end_from_header() {
    let small = "diff --git a/a b/a\n+x\n";
    assert_eq!(build_diff_raw_tail(small, &Language::English, 1024), small);
    let big = format!("{}diff --git a/z b/z\n{}", "y".repeat(4000), "+z\n".repeat(10));
    let tail = build_diff_raw_tail(&big, &Language::English, 10);
    assert_eq!(
        tail,
        format!(
            "[Diff truncated to reduce context size.]\n\ndiff --git a/z b/z\n{}",
            "+z\n".repeat(10)
        )
    );
    let plain = "q".repeat(3000);
    let tail = build_diff_raw_tail(&plain, &Language::Chinese, 10);
    assert_eq!(tail, format!("[为控制上下文长度，diff 已被截断。]\n\n{}", "q".repeat(2048)));
}

#[test]
fn variants_are_one_or_two() {
    let text_only = "no sections here";
    assert_eq!(
        build_diff_variants(text_only, &Language::English, 1024),
        vec![text_only.to_string()]
    );
    let diff = "diff --git a/a.rs b/a.rs\n+x\n";
    let variants = build_diff_variants(diff, &Language::English, 1024);
    assert_eq!(variants.len(), 2);
    assert_eq!(variants[0], "Changed files:\n- a.rs (+1 / -0)\n\nFile: a.rs\n+x\n\n");
    assert_eq!(variants[1], diff);
}

#[test]
fn fallback_messages_are_one_valid_line() {
    let diffs = [
        "diff --git a/src/main.rs b/src/main.rs\n+ retry\n",
        "diff --git a/src/llama.rs b/src/llama.rs\n+x\n",
        "diff --git a/AGENTS.md b/AGENTS.md\n+# Guide\n",
        "diff --git a/README.md b/README.md\n+x\ndiff --git a/lib/a.rs b/lib/a.rs\n+y\n",
        "diff --git a/src/window.rs b/src/window.rs\nnew file mode 100644\n+x\n",
        "diff --git a/src/window.rs b/src/window.rs\n+x\n",
        "diff --git a/assets/logo.png b/assets/logo.png\n",
        "diff --git a/Cargo.toml b/Cargo.toml\n+dep\n",
        "diff --git a/web/package.json b/web/package.json\ndiff --git a/yarn.lock b/yarn.lock\n",
        "diff --git a/... b/...\n",
        "diff --git a/My\u{a0}Dir/x b/My\u{a0}Dir/x\n",
        "diff --git a/x/1 b/x/1\ndiff --git a/y/1 b/y/1\ndiff --git a/z/1 b/z/1\n",
    ];
    for diff in diffs {
        for language in [Language::English, Language::Chinese] {
            let message = generate_fallback_commit_message(diff, &language).expect("message");
            assert!(is_valid_commit_message(&message, &language), "{:?}", message);
            assert_eq!(message.lines().count(), 1, "{:?}", message);
            assert_eq!(message.trim(), message);
        }
    }
}
