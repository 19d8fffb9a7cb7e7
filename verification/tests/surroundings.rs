use git_ca::chars::{chars_of, contains, find, join, split_chars, split_lines, string_of, trimmed};
use git_ca::attempts::{accept_response, retries_after, variant_for, MAX_ATTEMPTS};
use git_ca::choices::{
    parse_index, read_decision, read_language_choice, read_model_choice, Decision, ModelChoice,
};
use git_ca::language::Language;
use git_ca::mlx::{generate, initialize, MlxError};
use git_ca::models::{
    cached_model_name, choose_model_file, expand_model_path, is_gguf, ModelPath,
};
use git_ca::prompt::build_commit_prompt;

fn chars(s: &str) -> Vec<char> {
    s.chars().collect()
}

fn texts(v: &Vec<Vec<char>>) -> Vec<String> {
    v.iter().map(|l| l.iter().collect()).collect()
}

#[test]
fn lines_follow_std() {
    for text in [
        "",
        "\n",
        "a",
        "a\n",
        "a\nb",
        "a\r\nb\r\n",
        "a\r",
        "\r\n\r\n",
        "a\n\nb\n\n",
        "x\r\r\ny",
        "更\n新",
    ] {
        let want: Vec<String> = text.lines().map(|l| l.to_string()).collect();
        assert_eq!(texts(&split_lines(&chars(text))), want, "{:?}", text);
    }
}

#[test]
fn splitting_follows_std() {
    for text in ["", "-", "a-b", "-a--b-", "abc"] {
        let want: Vec<String> = text.split('-').map(|l| l.to_string()).collect();
        assert_eq!(texts(&split_chars(&chars(text), '-')), want, "{:?}", text);
    }
}

#[test]
fn trimming_follows_std() {
    for text in ["", "  ", " a ", "\u{3000}a b\t\n", "a", "\u{85}x\u{a0}"] {
        let got: String = trimmed(&chars(text)).iter().collect();
        assert_eq!(got, text.trim(), "{:?}", text);
    }
}

#[test]
fn searching_follows_std() {
    let hay = chars("abcabcabd");
    assert_eq!(find(&hay, "abd"), Some(6));
    assert_eq!(find(&hay, "abc"), Some(0));
    assert_eq!(find(&hay, ""), Some(0));
    assert_eq!(find(&hay, "x"), None);
    assert_eq!(find(&chars(""), ""), Some(0));
    assert_eq!(find(&chars("ab"), "abc"), None);
    assert!(contains(&hay, "cab"));
    assert!(!contains(&hay, "cba"));
}

#[test]
fn conversions_round_trip() {
    let text = "héllo 更新\n";
    assert_eq!(string_of(&chars_of(text)), text);
    assert_eq!(chars_of(text), chars(text));
    let joined: String = join(&vec![chars("a"), chars(""), chars("b")], ", ").iter().collect();
    assert_eq!(joined, "a, , b");
    assert_eq!(join(&vec![], ", "), Vec::<char>::new());
}

#[test]
fn languages_by_name() {
    assert_eq!(Language::from_str("en"), Some(Language::English));
    assert_eq!(Language::from_str("English"), Some(Language::English));
    assert_eq!(Language::from_str("ZH"), Some(Language::Chinese));
    assert_eq!(Language::from_str("chinese"), Some(Language::Chinese));
    assert_eq!(Language::from_str("中文"), Some(Language::Chinese));
    assert_eq!(Language::from_str("fr"), None);
    assert_eq!(Language::from_str(""), None);
    assert_eq!(Language::English.to_string(), "en");
    assert_eq!(Language::Chinese.to_string(), "zh");
    assert_eq!(Language::English.display_name(), "English");
    assert_eq!(Language::Chinese.display_name(), "简体中文");
}

#[test]
fn language_messages() {
    let en = Language::English;
    let zh = Language::Chinese;
    assert_eq!(en.generating_commit_message(), "Generating commit message...");
    assert_eq!(zh.generating_commit_message(), "正在生成提交信息...");
    assert_eq!(en.commit_message_generated(), "\n\nCommit message generated.");
    assert_eq!(en.language_set_to(), "Language set to: {}");
    assert_eq!(zh.language_set_to(), "语言已设置为：{}");
    assert_eq!(
        en.use_edit_cancel_prompt(),
        "\nDo you want to (u)se this message, (e)dit it, or (c)ancel? [u/e/c]: "
    );
    assert_eq!(en.truncated_diff_notice(), "[Diff truncated to reduce context size.]");
    assert_eq!(zh.truncated_diff_notice(), "[为控制上下文长度，diff 已被截断。]");
    assert_eq!(en.changed_files_heading(), "Changed files:");
    assert_eq!(en.file_omitted_notice(), "(content omitted)");
    assert_eq!(en.file_snippet_heading(), "File:");
    assert_eq!(en.truncated_body_notice(), "[Additional hunks truncated]");
    assert_eq!(en.model_pull_usage(), "Usage: git ca model pull <repo>");
    assert_eq!(zh.not_in_git_repository(), "不在 git 仓库中");
    assert_eq!(en.not_in_git_repository(), "Not in a git repository");
    assert_eq!(en.no_changes_staged(), "No changes staged for commit.");
}

#[test]
fn mlx_is_unavailable() {
    let want = "The crate was built without the `mlx` feature. Rebuild with `--features mlx` to enable native MLX support.";
    assert_eq!(initialize("model").unwrap_err().message(), want);
    assert_eq!(generate("diff").unwrap_err().to_string(), want);
    assert_eq!(MlxError::new("boom").message(), "boom");
    assert_eq!(MlxError::new("boom").clone().to_string(), "boom");
}

#[test]
fn model_files_by_extension() {
    assert!(is_gguf(Some("gguf")));
    assert!(is_gguf(Some("GGUF")));
    assert!(is_gguf(Some("GgUf")));
    assert!(!is_gguf(Some("bin")));
    assert!(!is_gguf(Some("gguf2")));
    assert!(!is_gguf(Some("")));
    assert!(!is_gguf(None));
}

#[test]
fn typed_paths() {
    assert!(matches!(expand_model_path(" ~ ", true), ModelPath::Home));
    assert!(matches!(expand_model_path("~", false), ModelPath::Literal(p) if p == "~"));
    assert!(matches!(expand_model_path("~/m/a.gguf", true), ModelPath::UnderHome(p) if p == "m/a.gguf"));
    assert!(matches!(expand_model_path("~\\m\\a.gguf", true), ModelPath::UnderHome(p) if p == "m\\a.gguf"));
    assert!(matches!(expand_model_path("~/m", false), ModelPath::Literal(p) if p == "~/m"));
    assert!(matches!(expand_model_path("  /opt/m.gguf\n", true), ModelPath::Literal(p) if p == "/opt/m.gguf"));
    assert!(matches!(expand_model_path("~user/m", true), ModelPath::Literal(p) if p == "~user/m"));
}

#[test]
fn repository_files() {
    let names = |v: &[&str]| v.iter().map(|s| s.to_string()).collect::<Vec<String>>();
    assert_eq!(choose_model_file(&names(&["README.md", "m-f16.gguf", "m-Q4_K.GGUF", "m-q4_0.gguf"])), Some(2));
    assert_eq!(choose_model_file(&names(&["README.md", "m-f16.gguf", "m-q8.gguf"])), Some(1));
    assert_eq!(choose_model_file(&names(&["q4.txt", "README.md"])), None);
    assert_eq!(choose_model_file(&names(&[])), None);
    assert_eq!(cached_model_name("unsloth/gemma-3", "m.gguf"), "unsloth__gemma-3__m.gguf");
    assert_eq!(cached_model_name("a\\b/c", "x"), "a__b__c__x");
}

#[test]
fn prompts() {
    let first = build_commit_prompt("DIFF", &Language::English, 0);
    assert!(first.starts_with("SYSTEM: You are a commit message generator."));
    assert!(first.contains("\nHERE IS THE DIFF:\nDIFF\n\nYOUR OUTPUT (commit message only):"));
    assert!(first.ends_with("YOUR OUTPUT (commit message only):"));
    let second = build_commit_prompt("DIFF", &Language::English, 1);
    assert!(second.starts_with(&first));
    assert!(second.ends_with("NO other text, explanations, or formatting."));
    let zh = build_commit_prompt("DIFF", &Language::Chinese, 0);
    assert!(zh.starts_with("系统：你是一个提交信息生成器。"));
    assert!(zh.contains("以下是需要分析的 diff：\n\nDIFF\n\n你的输出（仅提交信息）："));
    let zh2 = build_commit_prompt("DIFF", &Language::Chinese, 3);
    assert!(zh2.ends_with("不要其他文字、解释或格式。"));
    assert_eq!(zh2.len() - zh.len(), "\n\n重要：上次输出无效。必须仅输出以 '<类型>(<范围>): <主题>' 开头的提交信息，不要其他文字、解释或格式。".len());
}

#[test]
fn numbers_follow_std() {
    for text in [
        "", "0", "7", "007", "+5", "+", "-1", "1 ", " 1", "12a", "+-3", "++3", "１２",
        "18446744073709551615", "18446744073709551616", "99999999999999999999999", "4294967296",
        "+0018446744073709551615",
    ] {
        assert_eq!(parse_index(&chars(text)), text.parse::<usize>().ok(), "{:?}", text);
    }
}

#[test]
fn model_choices() {
    assert!(matches!(read_model_choice("", 3), ModelChoice::Invalid));
    assert!(matches!(read_model_choice("  \n", 3), ModelChoice::Invalid));
    assert!(matches!(read_model_choice(" 1 ", 3), ModelChoice::Listed(0)));
    assert!(matches!(read_model_choice("3", 3), ModelChoice::Listed(2)));
    assert!(matches!(read_model_choice("4", 3), ModelChoice::Invalid));
    assert!(matches!(read_model_choice("0", 3), ModelChoice::Invalid));
    assert!(matches!(read_model_choice("1", 0), ModelChoice::Invalid));
    assert!(matches!(read_model_choice(" ~/m.gguf ", 3), ModelChoice::Path(p) if p == "~/m.gguf"));
    assert!(matches!(read_model_choice("-1", 3), ModelChoice::Path(p) if p == "-1"));
    assert!(matches!(
        read_model_choice("99999999999999999999999", 3),
        ModelChoice::Path(p) if p == "99999999999999999999999"
    ));
}

#[test]
fn language_choices_and_decisions() {
    assert_eq!(read_language_choice("1"), Some(Language::English));
    assert_eq!(read_language_choice("+2"), Some(Language::Chinese));
    assert_eq!(read_language_choice("3"), None);
    assert_eq!(read_language_choice("en"), None);
    assert_eq!(read_language_choice(""), None);
    assert_eq!(read_decision("u"), Some(Decision::Use));
    assert_eq!(read_decision("E"), Some(Decision::Edit));
    assert_eq!(read_decision("c"), Some(Decision::Cancel));
    assert_eq!(read_decision("use"), None);
    assert_eq!(read_decision(""), None);
}

#[test]
fn attempts_and_responses() {
    assert_eq!(MAX_ATTEMPTS, 2);
    assert_eq!(variant_for(2, 0), Some(0));
    assert_eq!(variant_for(2, 1), Some(1));
    assert_eq!(variant_for(1, 1), Some(0));
    assert_eq!(variant_for(1, 7), Some(0));
    assert_eq!(variant_for(0, 0), None);
    assert!(retries_after(0));
    assert!(!retries_after(1));
    assert!(!retries_after(usize::MAX));
    assert_eq!(
        accept_response("Sure!\nfeat(cli): add flag\n", &Language::English),
        Some("feat(cli): add flag".to_string())
    );
    assert_eq!(accept_response("feat(cli) add flag\n", &Language::English), None);
    assert_eq!(accept_response("feat: 添加\n", &Language::English), None);
    assert_eq!(accept_response("feat: 添加\n", &Language::Chinese), Some("feat: 添加".to_string()));
    assert_eq!(accept_response("FEAT: shout\n", &Language::English), None);
    assert_eq!(accept_response("nothing here", &Language::English), None);
}
