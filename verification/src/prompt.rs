//! The prompt that asks the model for a commit message.

use crate::chars::{chars_of, extend_str, string_of};
use crate::language::Language;
use vstd::prelude::*;

verus! {

/// What the prompt says before the diff.
pub open spec fn prompt_head(language: Language) -> Seq<char> {
    match language {
        Language::English => "SYSTEM: You are a commit message generator. You must output ONLY a commit message, nothing else.\n\nTASK: Analyze the git diff below and produce exactly ONE commit message in Git Flow format.\n\nFORMAT: <type>(<scope>): <subject>\n\nEXAMPLES:\n- feat(api): add user authentication endpoint\n- fix(cli): resolve model loading timeout\n- docs: update installation instructions\n- refactor(llama): simplify token sampling logic\n- chore(deps): update dependencies\n- test: add unit tests for diff parsing\n\nRULES:\n1. <type> MUST be one of: feat, fix, docs, style, refactor, test, chore\n2. <scope> is optional, use kebab-case when needed (e.g., cli, api, docs)\n3. <subject> is imperative, concise (<= 72 chars)\n4. NO explanations, NO markdown fences, NO extra text\n5. Output ONLY the commit message, nothing else\n\nHERE IS THE DIFF:\n"@,
        Language::Chinese => "系统：你是一个提交信息生成器。必须只输出提交信息，不输出其他内容。\n\n任务：分析下面的 git diff，生成一个符合 Git Flow 格式的提交信息。\n\n格式：<类型>(<范围>): <主题>\n\n示例：\n- feat(api): 添加用户认证接口\n- fix(cli): 解决模型加载超时问题\n- docs: 更新安装说明\n- refactor(llama): 简化令牌采样逻辑\n- chore(deps): 更新依赖包\n- test: 添加 diff 解析单元测试\n\n规则：\n1. <类型> 必须是：feat、fix、docs、style、refactor、test、chore 之一\n2. <范围> 可选，使用 kebab-case（如 cli、api、docs）\n3. <主题> 使用祈使语气，简练（≤72 字符）\n4. 不输出解释、不使用 markdown、不添加额外文字\n5. 只输出提交信息本身，无其他内容\n\n以下是需要分析的 diff：\n\n"@,
    }
}

/// What the prompt says after the diff.
pub open spec fn prompt_tail(language: Language) -> Seq<char> {
    match language {
        Language::English => "\n\nYOUR OUTPUT (commit message only):"@,
        Language::Chinese => "\n\n你的输出（仅提交信息）："@,
    }
}

/// What the prompt adds when an earlier attempt gave no valid message.
pub open spec fn prompt_reminder(language: Language) -> Seq<char> {
    match language {
        Language::English => "\n\nCRITICAL: Previous output was invalid. You MUST output ONLY a commit message starting with '<type>(<scope>): <subject>'. NO other text, explanations, or formatting."@,
        Language::Chinese => "\n\n重要：上次输出无效。必须仅输出以 '<类型>(<范围>): <主题>' 开头的提交信息，不要其他文字、解释或格式。"@,
    }
}

/// The prompt for a diff: the instructions around the diff, with the
/// reminder behind them from the second attempt on.
pub open spec fn prompt_text(diff: Seq<char>, language: Language, attempt: nat) -> Seq<char> {
    if attempt > 0 {
        prompt_head(language) + diff + prompt_tail(language) + prompt_reminder(language)
    } else {
        prompt_head(language) + diff + prompt_tail(language)
    }
}

/// Writes the prompt for a diff.
pub fn build_commit_prompt(diff: &str, language: &Language, attempt: usize) -> (prompt: String)
    ensures
        prompt@ == prompt_text(diff@, *language, attempt as nat),
{
    let mut prompt = match language {
        Language::English => chars_of("SYSTEM: You are a commit message generator. You must output ONLY a commit message, nothing else.\n\nTASK: Analyze the git diff below and produce exactly ONE commit message in Git Flow format.\n\nFORMAT: <type>(<scope>): <subject>\n\nEXAMPLES:\n- feat(api): add user authentication endpoint\n- fix(cli): resolve model loading timeout\n- docs: update installation instructions\n- refactor(llama): simplify token sampling logic\n- chore(deps): update dependencies\n- test: add unit tests for diff parsing\n\nRULES:\n1. <type> MUST be one of: feat, fix, docs, style, refactor, test, chore\n2. <scope> is optional, use kebab-case when needed (e.g., cli, api, docs)\n3. <subject> is imperative, concise (<= 72 chars)\n4. NO explanations, NO markdown fences, NO extra text\n5. Output ONLY the commit message, nothing else\n\nHERE IS THE DIFF:\n"),
        Language::Chinese => chars_of("系统：你是一个提交信息生成器。必须只输出提交信息，不输出其他内容。\n\n任务：分析下面的 git diff，生成一个符合 Git Flow 格式的提交信息。\n\n格式：<类型>(<范围>): <主题>\n\n示例：\n- feat(api): 添加用户认证接口\n- fix(cli): 解决模型加载超时问题\n- docs: 更新安装说明\n- refactor(llama): 简化令牌采样逻辑\n- chore(deps): 更新依赖包\n- test: 添加 diff 解析单元测试\n\n规则：\n1. <类型> 必须是：feat、fix、docs、style、refactor、test、chore 之一\n2. <范围> 可选，使用 kebab-case（如 cli、api、docs）\n3. <主题> 使用祈使语气，简练（≤72 字符）\n4. 不输出解释、不使用 markdown、不添加额外文字\n5. 只输出提交信息本身，无其他内容\n\n以下是需要分析的 diff：\n\n"),
    };
    extend_str(&mut prompt, diff);
    match language {
        Language::English => {
            extend_str(&mut prompt, "\n\nYOUR OUTPUT (commit message only):");
        },
        Language::Chinese => {
            extend_str(&mut prompt, "\n\n你的输出（仅提交信息）：");
        },
    }
    if attempt > 0 {
        match language {
            Language::English => {
                extend_str(&mut prompt, "\n\nCRITICAL: Previous output was invalid. You MUST output ONLY a commit message starting with '<type>(<scope>): <subject>'. NO other text, explanations, or formatting.");
            },
            Language::Chinese => {
                extend_str(&mut prompt, "\n\n重要：上次输出无效。必须仅输出以 '<类型>(<范围>): <主题>' 开头的提交信息，不要其他文字、解释或格式。");
            },
        }
    }
    string_of(&prompt)
}

} // verus!
