use git_ca::commit::{
    is_commit_subject, is_valid_commit_message, looks_like_instruction, parse_commit_subject,
    process_model_response,
};
use git_ca::language::Language;

#[test]
fn handles_extracts_subject_line() {
    let response = "Processing response...\nThe commit message content must be written in English.\n\nfeat(cli): improve diff summary\n";
    assert_eq!(
        process_model_response(response),
        Some("feat(cli): improve diff summary".to_string())
    );
}

#[test]
fn handles_includes_body_until_instruction() {
    let response = "feat(cli): improve diff summary\n\nAdd staged file summary for clarity.\nGuidelines: avoid printing instructions.\n";
    assert_eq!(
        process_model_response(response),
        Some(
            "feat(cli): improve diff summary\n\nAdd staged file summary for clarity."
                .to_string()
        )
    );
}

#[test]
fn handles_instruction_only_fallback() {
    let response = "The commit message content must be written in English.";
    assert_eq!(process_model_response(response), None);
}

#[test]
fn validates_git_flow_subject() {
    assert!(is_valid_commit_message(
        "feat(cli): improve prompts",
        &Language::English
    ));
    assert!(is_valid_commit_message(
        "docs: 更新贡献指南",
        &Language::Chinese
    ));
}

#[test]
fn rejects_invalid_commit_messages() {
    assert!(!is_valid_commit_message(
        "Implement new feature",
        &Language::English
    ));
    assert!(!is_valid_commit_message(
        "feat(): missing subject",
        &Language::English
    ));
    assert!(!is_valid_commit_message(
        "feat(cli) missing colon",
        &Language::English
    ));
}

#[test]
fn response_without_thinking_block() {
    let response = "  <think>feat: not this one\nstill thinking</think>\n\n  fix(llama): clear cache\n";
    assert_eq!(
        process_model_response(response),
        Some("fix(llama): clear cache".to_string())
    );
}

#[test]
fn response_with_unclosed_thinking_is_read_whole() {
    let response = "<think>\nfeat: add thing\n";
    assert_eq!(process_model_response(response), Some("feat: add thing".to_string()));
}

#[test]
fn response_drops_issue_trailers_and_collapses_blank_lines() {
    let response = "feat: add thing\n\n\n\nBody line one.\nFixes #12\n   \nBody line two.\n\n\n";
    assert_eq!(
        process_model_response(response),
        Some("feat: add thing\n\nBody line one.\n\nBody line two.".to_string())
    );
}

#[test]
fn response_stops_at_second_subject() {
    let response = "feat: first\nbody\nfix: second\nmore";
    assert_eq!(process_model_response(response), Some("feat: first\nbody".to_string()));
}

#[test]
fn response_stops_before_blank_run_followed_by_instruction() {
    let response = "feat: first\n\n\nRemember: be brief\n";
    assert_eq!(process_model_response(response), Some("feat: first".to_string()));
}

#[test]
fn response_handles_crlf_lines() {
    let response = "feat: first\r\nbody\r\n";
    assert_eq!(process_model_response(response), Some("feat: first\nbody".to_string()));
}

#[test]
fn subject_detection_ignores_ascii_case() {
    assert!(is_commit_subject("FEAT(cli): x"));
    assert!(is_commit_subject("Fix: y"));
    assert!(is_commit_subject("chore:"));
    assert!(!is_commit_subject("feat"));
    assert!(!is_commit_subject("feature: x"));
    assert!(!is_commit_subject(""));
    assert!(!is_commit_subject("fix x"));
}

#[test]
fn instruction_detection() {
    assert!(looks_like_instruction("IMPORTANT: do this"));
    assert!(looks_like_instruction("please Return Only the message"));
    assert!(looks_like_instruction("请只返回提交信息"));
    assert!(!looks_like_instruction("Add staged file summary for clarity."));
    assert!(!looks_like_instruction(""));
}

#[test]
fn parses_subject_with_scope() {
    let parsed = parse_commit_subject("feat( cli ):  improve prompts ").expect("parses");
    assert_eq!(parsed.kind, "feat");
    assert_eq!(parsed.scope, Some("cli".to_string()));
    assert_eq!(parsed.subject, "improve prompts");
}

#[test]
fn parses_subject_without_scope() {
    let parsed = parse_commit_subject("refactor: simplify").expect("parses");
    assert_eq!(parsed.kind, "refactor");
    assert_eq!(parsed.scope, None);
    assert_eq!(parsed.subject, "simplify");
}

#[test]
fn parse_is_case_sensitive_and_strict() {
    assert!(parse_commit_subject("Feat: x").is_none());
    assert!(parse_commit_subject("feat(cli: x").is_none());
    assert!(parse_commit_subject("feat(cli):   ").is_none());
    assert!(parse_commit_subject("feat:").is_none());
    assert!(parse_commit_subject("feat x").is_none());
    assert!(parse_commit_subject("tests: x").is_none());
}

#[test]
fn english_messages_must_be_ascii() {
    assert!(!is_valid_commit_message("docs: 更新贡献指南", &Language::English));
    assert!(is_valid_commit_message("\n\n  docs: update guide\nbody", &Language::English));
    assert!(!is_valid_commit_message("", &Language::Chinese));
    assert!(!is_valid_commit_message("   \n \n", &Language::Chinese));
}
