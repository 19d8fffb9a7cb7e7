//! The languages of the user interface and their messages.

use crate::chars::{chars_of, lowered, same_text, to_lower};
use vstd::prelude::*;

verus! {

/// A language of the user interface.
#[derive(PartialEq, Eq, Structural, Clone, Copy, Debug)]
pub enum Language {
    /// English.
    English,
    /// Simplified Chinese.
    Chinese,
}

/// The language that a name or code stands for, read without regard to
/// ASCII case.
pub open spec fn language_named(name: Seq<char>) -> Option<Language> {
    let low = lowered(name);
    if low == "en"@ || low == "english"@ {
        Some(Language::English)
    } else if low == "zh"@ || low == "chinese"@ || low == "中文"@ {
        Some(Language::Chinese)
    } else {
        None
    }
}

impl Language {
    /// Finds the language that a name or code stands for.
    pub fn from_str(s: &str) -> (language: Option<Self>)
        ensures
            language == language_named(s@),
    {
        let low = to_lower(&chars_of(s));
        if same_text(&low, "en") || same_text(&low, "english") {
            Some(Language::English)
        } else if same_text(&low, "zh") || same_text(&low, "chinese") || same_text(
            &low,
            "中文",
        ) {
            Some(Language::Chinese)
        } else {
            None
        }
    }

    /// The code under which the language is stored.
    pub fn to_string(&self) -> (text: &'static str)
        ensures
            text@ == (match self {
                Language::English => "en"@,
                Language::Chinese => "zh"@,
            }),
    {
        match self {
            Language::English => "en",
            Language::Chinese => "zh",
        }
    }

    /// The name of the language in the language itself.
    pub fn display_name(&self) -> (text: &'static str)
        ensures
            text@ == (match self {
                Language::English => "English"@,
                Language::Chinese => "简体中文"@,
            }),
    {
        match self {
            Language::English => "English",
            Language::Chinese => "简体中文",
        }
    }

    /// The message "generating commit message".
    pub fn generating_commit_message(&self) -> (text: &'static str)
        ensures
            text@ == (match self {
                Language::English => "Generating commit message..."@,
                Language::Chinese => "正在生成提交信息..."@,
            }),
    {
        match self {
            Language::English => "Generating commit message...",
            Language::Chinese => "正在生成提交信息...",
        }
    }

    /// The message "this may take moment".
    pub fn this_may_take_moment(&self) -> (text: &'static str)
        ensures
            text@ == (match self {
                Language::English => "This may take a moment depending on your model and system..."@,
                Language::Chinese => "这可能需要一些时间，取决于您的模型和系统配置..."@,
            }),
    {
        match self {
            Language::English => "This may take a moment depending on your model and system...",
            Language::Chinese => "这可能需要一些时间，取决于您的模型和系统配置...",
        }
    }

    /// The message "processing response".
    pub fn processing_response(&self) -> (text: &'static str)
        ensures
            text@ == (match self {
                Language::English => "Processing response..."@,
                Language::Chinese => "正在处理响应..."@,
            }),
    {
        match self {
            Language::English => "Processing response...",
            Language::Chinese => "正在处理响应...",
        }
    }

    /// The message "commit message generated".
    pub fn commit_message_generated(&self) -> (text: &'static str)
        ensures
            text@ == (match self {
                Language::English => "\n\nCommit message generated."@,
                Language::Chinese => "\n\n提交信息已生成。"@,
            }),
    {
        match self {
            Language::English => "\n\nCommit message generated.",
            Language::Chinese => "\n\n提交信息已生成。",
        }
    }

    /// The message "available languages".
    pub fn available_languages(&self) -> (text: &'static str)
        ensures
            text@ == (match self {
                Language::English => "Available languages:"@,
                Language::Chinese => "可选语言："@,
            }),
    {
        match self {
            Language::English => "Available languages:",
            Language::Chinese => "可选语言：",
        }
    }

    /// The message "select language prompt".
    pub fn select_language_prompt(&self) -> (text: &'static str)
        ensures
            text@ == (match self {
                Language::English => "\nSelect a language by number: "@,
                Language::Chinese => "\n请输入语言编号："@,
            }),
    {
        match self {
            Language::English => "\nSelect a language by number: ",
            Language::Chinese => "\n请输入语言编号：",
        }
    }

    /// The message "invalid selection".
    pub fn invalid_selection(&self) -> (text: &'static str)
        ensures
            text@ == (match self {
                Language::English => "Invalid selection. Please try again."@,
                Language::Chinese => "无效选择，请重试。"@,
            }),
    {
        match self {
            Language::English => "Invalid selection. Please try again.",
            Language::Chinese => "无效选择，请重试。",
        }
    }

    /// The message "language set to".
    pub fn language_set_to(&self) -> (text: &'static str)
        ensures
            text@ == (match self {
                Language::English => "Language set to: {}"@,
                Language::Chinese => "语言已设置为：{}"@,
            }),
    {
        match self {
            Language::English => "Language set to: {}",
            Language::Chinese => "语言已设置为：{}",
        }
    }

    /// The message "fetching models".
    pub fn fetching_models(&self) -> (text: &'static str)
        ensures
            text@ == (match self {
                Language::English => "Searching for local GGUF models..."@,
                Language::Chinese => "正在搜索本地 GGUF 模型..."@,
            }),
    {
        match self {
            Language::English => "Searching for local GGUF models...",
            Language::Chinese => "正在搜索本地 GGUF 模型...",
        }
    }

    /// The message "available models".
    pub fn available_models(&self) -> (text: &'static str)
        ensures
            text@ == (match self {
                Language::English => "\nDetected GGUF models:"@,
                Language::Chinese => "\n检测到的 GGUF 模型："@,
            }),
    {
        match self {
            Language::English => "\nDetected GGUF models:",
            Language::Chinese => "\n检测到的 GGUF 模型：",
        }
    }

    /// The message "select model prompt".
    pub fn select_model_prompt(&self) -> (text: &'static str)
        ensures
            text@ == (match self {
                Language::English => "\nEnter a model number or provide a full GGUF path: "@,
                Language::Chinese => "\n输入模型编号或直接提供 GGUF 文件路径："@,
            }),
    {
        match self {
            Language::English => "\nEnter a model number or provide a full GGUF path: ",
            Language::Chinese => "\n输入模型编号或直接提供 GGUF 文件路径：",
        }
    }

    /// The message "model set as default".
    pub fn model_set_as_default(&self) -> (text: &'static str)
        ensures
            text@ == (match self {
                Language::English => "Model path ready: {}"@,
                Language::Chinese => "模型路径已就绪：{}"@,
            }),
    {
        match self {
            Language::English => "Model path ready: {}",
            Language::Chinese => "模型路径已就绪：{}",
        }
    }

    /// The message "no default model".
    pub fn no_default_model(&self) -> (text: &'static str)
        ensures
            text@ == (match self {
                Language::English => "No model path available. Please select a GGUF file."@,
                Language::Chinese => "当前没有可用的模型路径，请选择一个 GGUF 文件。"@,
            }),
    {
        match self {
            Language::English => "No model path available. Please select a GGUF file.",
            Language::Chinese => "当前没有可用的模型路径，请选择一个 GGUF 文件。",
        }
    }

    /// The message "no changes staged".
    pub fn no_changes_staged(&self) -> (text: &'static str)
        ensures
            text@ == (match self {
                Language::English => "No changes staged for commit."@,
                Language::Chinese => "没有暂存的更改可提交。"@,
            }),
    {
        match self {
            Language::English => "No changes staged for commit.",
            Language::Chinese => "没有暂存的更改可提交。",
        }
    }

    /// The message "use edit cancel prompt".
    pub fn use_edit_cancel_prompt(&self) -> (text: &'static str)
        ensures
            text@ == (match self {
                Language::English => "\nDo you want to (u)se this message, (e)dit it, or (c)ancel? [u/e/c]: "@,
                Language::Chinese => "\n您想要 (u) 使用此信息，(e) 编辑它，还是 (c) 取消？[u/e/c]："@,
            }),
    {
        match self {
            Language::English => "\nDo you want to (u)se this message, (e)dit it, or (c)ancel? [u/e/c]: ",
            Language::Chinese => "\n您想要 (u) 使用此信息，(e) 编辑它，还是 (c) 取消？[u/e/c]：",
        }
    }

    /// The message "enter commit message".
    pub fn enter_commit_message(&self) -> (text: &'static str)
        ensures
            text@ == (match self {
                Language::English => "Enter your commit message (use multiple lines if needed, end with an empty line):\n"@,
                Language::Chinese => "请输入您的提交信息（如需要可使用多行，以空行结束）：\n"@,
            }),
    {
        match self {
            Language::English => "Enter your commit message (use multiple lines if needed, end with an empty line):\n",
            Language::Chinese => "请输入您的提交信息（如需要可使用多行，以空行结束）：\n",
        }
    }

    /// The message "commit cancelled".
    pub fn commit_cancelled(&self) -> (text: &'static str)
        ensures
            text@ == (match self {
                Language::English => "Commit cancelled."@,
                Language::Chinese => "提交已取消。"@,
            }),
    {
        match self {
            Language::English => "Commit cancelled.",
            Language::Chinese => "提交已取消。",
        }
    }

    /// The message "invalid choice".
    pub fn invalid_choice(&self) -> (text: &'static str)
        ensures
            text@ == (match self {
                Language::English => "Invalid choice. Please try again."@,
                Language::Chinese => "无效选择，请重试。"@,
            }),
    {
        match self {
            Language::English => "Invalid choice. Please try again.",
            Language::Chinese => "无效选择，请重试。",
        }
    }

    /// The message "enter name prompt".
    pub fn enter_name_prompt(&self) -> (text: &'static str)
        ensures
            text@ == (match self {
                Language::English => "Enter your name: "@,
                Language::Chinese => "请输入您的姓名："@,
            }),
    {
        match self {
            Language::English => "Enter your name: ",
            Language::Chinese => "请输入您的姓名：",
        }
    }

    /// The message "enter email prompt".
    pub fn enter_email_prompt(&self) -> (text: &'static str)
        ensures
            text@ == (match self {
                Language::English => "Enter your email: "@,
                Language::Chinese => "请输入您的邮箱："@,
            }),
    {
        match self {
            Language::English => "Enter your email: ",
            Language::Chinese => "请输入您的邮箱：",
        }
    }

    /// The message "changes committed".
    pub fn changes_committed(&self) -> (text: &'static str)
        ensures
            text@ == (match self {
                Language::English => "\nChanges committed successfully."@,
                Language::Chinese => "\n更改已成功提交。"@,
            }),
    {
        match self {
            Language::English => "\nChanges committed successfully.",
            Language::Chinese => "\n更改已成功提交。",
        }
    }

    /// The message "commit message label".
    pub fn commit_message_label(&self) -> (text: &'static str)
        ensures
            text@ == (match self {
                Language::English => "Commit message:\n{}"@,
                Language::Chinese => "提交信息：\n{}"@,
            }),
    {
        match self {
            Language::English => "Commit message:\n{}",
            Language::Chinese => "提交信息：\n{}",
        }
    }

    /// The message "model retrying invalid output".
    pub fn model_retrying_invalid_output(&self) -> (text: &'static str)
        ensures
            text@ == (match self {
                Language::English => "Model response was invalid. Retrying with stricter instructions..."@,
                Language::Chinese => "模型输出无效，正在使用更严格的提示重试..."@,
            }),
    {
        match self {
            Language::English => "Model response was invalid. Retrying with stricter instructions...",
            Language::Chinese => "模型输出无效，正在使用更严格的提示重试...",
        }
    }

    /// The message "model failed generate".
    pub fn model_failed_generate(&self) -> (text: &'static str)
        ensures
            text@ == (match self {
                Language::English => "Model could not produce a valid commit message. Please enter one manually."@,
                Language::Chinese => "模型未能生成有效的提交信息，请手动输入。"@,
            }),
    {
        match self {
            Language::English => "Model could not produce a valid commit message. Please enter one manually.",
            Language::Chinese => "模型未能生成有效的提交信息，请手动输入。",
        }
    }

    /// The message "fallback commit generated".
    pub fn fallback_commit_generated(&self) -> (text: &'static str)
        ensures
            text@ == (match self {
                Language::English => "\n\nGenerated a fallback commit message."@,
                Language::Chinese => "\n\n已生成备用提交信息。"@,
            }),
    {
        match self {
            Language::English => "\n\nGenerated a fallback commit message.",
            Language::Chinese => "\n\n已生成备用提交信息。",
        }
    }

    /// The message "truncated diff notice".
    pub fn truncated_diff_notice(&self) -> (text: &'static str)
        ensures
            text@ == (match self {
                Language::English => "[Diff truncated to reduce context size.]"@,
                Language::Chinese => "[为控制上下文长度，diff 已被截断。]"@,
            }),
    {
        match self {
            Language::English => "[Diff truncated to reduce context size.]",
            Language::Chinese => "[为控制上下文长度，diff 已被截断。]",
        }
    }

    /// The message "changed files heading".
    pub fn changed_files_heading(&self) -> (text: &'static str)
        ensures
            text@ == (match self {
                Language::English => "Changed files:"@,
                Language::Chinese => "变更文件："@,
            }),
    {
        match self {
            Language::English => "Changed files:",
            Language::Chinese => "变更文件：",
        }
    }

    /// The message "file omitted notice".
    pub fn file_omitted_notice(&self) -> (text: &'static str)
        ensures
            text@ == (match self {
                Language::English => "(content omitted)"@,
                Language::Chinese => "（内容已省略）"@,
            }),
    {
        match self {
            Language::English => "(content omitted)",
            Language::Chinese => "（内容已省略）",
        }
    }

    /// The message "file snippet heading".
    pub fn file_snippet_heading(&self) -> (text: &'static str)
        ensures
            text@ == (match self {
                Language::English => "File:"@,
                Language::Chinese => "文件："@,
            }),
    {
        match self {
            Language::English => "File:",
            Language::Chinese => "文件：",
        }
    }

    /// The message "truncated body notice".
    pub fn truncated_body_notice(&self) -> (text: &'static str)
        ensures
            text@ == (match self {
                Language::English => "[Additional hunks truncated]"@,
                Language::Chinese => "[更多变更已截断]"@,
            }),
    {
        match self {
            Language::English => "[Additional hunks truncated]",
            Language::Chinese => "[更多变更已截断]",
        }
    }

    /// The message "no models found".
    pub fn no_models_found(&self) -> (text: &'static str)
        ensures
            text@ == (match self {
                Language::English => "No GGUF models found in default locations. Download a model first or provide its path manually."@,
                Language::Chinese => "在默认位置未找到 GGUF 模型。请先下载模型或手动提供其路径。"@,
            }),
    {
        match self {
            Language::English => "No GGUF models found in default locations. Download a model first or provide its path manually.",
            Language::Chinese => "在默认位置未找到 GGUF 模型。请先下载模型或手动提供其路径。",
        }
    }

    /// The message "enter model path hint".
    pub fn enter_model_path_hint(&self) -> (text: &'static str)
        ensures
            text@ == (match self {
                Language::English => "Hint: place models under ./models or ~/Library/Application Support/git-ca/models (macOS) or ~/.cache/git-ca/models."@,
                Language::Chinese => "提示：可将模型放在 ./models、~/Library/Application Support/git-ca/models（macOS）或 ~/.cache/git-ca/models 等目录。"@,
            }),
    {
        match self {
            Language::English => "Hint: place models under ./models or ~/Library/Application Support/git-ca/models (macOS) or ~/.cache/git-ca/models.",
            Language::Chinese => "提示：可将模型放在 ./models、~/Library/Application Support/git-ca/models（macOS）或 ~/.cache/git-ca/models 等目录。",
        }
    }

    /// The message "model file missing".
    pub fn model_file_missing(&self) -> (text: &'static str)
        ensures
            text@ == (match self {
                Language::English => "Model file missing: {}"@,
                Language::Chinese => "模型文件缺失：{}"@,
            }),
    {
        match self {
            Language::English => "Model file missing: {}",
            Language::Chinese => "模型文件缺失：{}",
        }
    }

    /// The message "model extension warning".
    pub fn model_extension_warning(&self) -> (text: &'static str)
        ensures
            text@ == (match self {
                Language::English => "The file must have a .gguf extension."@,
                Language::Chinese => "文件必须为 .gguf 扩展名。"@,
            }),
    {
        match self {
            Language::English => "The file must have a .gguf extension.",
            Language::Chinese => "文件必须为 .gguf 扩展名。",
        }
    }

    /// The message "download model prompt".
    pub fn download_model_prompt(&self) -> (text: &'static str)
        ensures
            text@ == (match self {
                Language::English => "Download a GGUF model (for example from https://huggingface.co/collections/ggml-org/gguf) and retry."@,
                Language::Chinese => "请先下载 GGUF 模型（例如来自 https://huggingface.co/collections/ggml-org/gguf），然后重试。"@,
            }),
    {
        match self {
            Language::English => "Download a GGUF model (for example from https://huggingface.co/collections/ggml-org/gguf) and retry.",
            Language::Chinese => "请先下载 GGUF 模型（例如来自 https://huggingface.co/collections/ggml-org/gguf），然后重试。",
        }
    }

    /// The message "downloading model".
    pub fn downloading_model(&self) -> (text: &'static str)
        ensures
            text@ == (match self {
                Language::English => "Downloading model '{}' from Hugging Face..."@,
                Language::Chinese => "正在从 Hugging Face 下载模型'{}'..."@,
            }),
    {
        match self {
            Language::English => "Downloading model '{}' from Hugging Face...",
            Language::Chinese => "正在从 Hugging Face 下载模型'{}'...",
        }
    }

    /// The message "download completed".
    pub fn download_completed(&self) -> (text: &'static str)
        ensures
            text@ == (match self {
                Language::English => "Model downloaded to: {}"@,
                Language::Chinese => "模型已下载至：{}"@,
            }),
    {
        match self {
            Language::English => "Model downloaded to: {}",
            Language::Chinese => "模型已下载至：{}",
        }
    }

    /// The message "auto downloading default".
    pub fn auto_downloading_default(&self) -> (text: &'static str)
        ensures
            text@ == (match self {
                Language::English => "No local models found. Downloading default model '{}'..."@,
                Language::Chinese => "未找到本地模型，正在下载默认模型'{}'..."@,
            }),
    {
        match self {
            Language::English => "No local models found. Downloading default model '{}'...",
            Language::Chinese => "未找到本地模型，正在下载默认模型'{}'...",
        }
    }

    /// The message "model pull hint".
    pub fn model_pull_hint(&self) -> (text: &'static str)
        ensures
            text@ == (match self {
                Language::English => "Tip: run 'git ca model pull <repo>' to download from Hugging Face."@,
                Language::Chinese => "提示：运行 'git ca model pull <仓库>' 可从 Hugging Face 下载模型。"@,
            }),
    {
        match self {
            Language::English => "Tip: run 'git ca model pull <repo>' to download from Hugging Face.",
            Language::Chinese => "提示：运行 'git ca model pull <仓库>' 可从 Hugging Face 下载模型。",
        }
    }

    /// The message "model pull usage".
    pub fn model_pull_usage(&self) -> (text: &'static str)
        ensures
            text@ == (match self {
                Language::English => "Usage: git ca model pull <repo>"@,
                Language::Chinese => "用法：git ca model pull <仓库>"@,
            }),
    {
        match self {
            Language::English => "Usage: git ca model pull <repo>",
            Language::Chinese => "用法：git ca model pull <仓库>",
        }
    }

    /// The message "not in git repository".
    pub fn not_in_git_repository(&self) -> (text: &'static str)
        ensures
            text@ == (match self {
                Language::English => "Not in a git repository"@,
                Language::Chinese => "不在 git 仓库中"@,
            }),
    {
        match self {
            Language::English => "Not in a git repository",
            Language::Chinese => "不在 git 仓库中",
        }
    }
}

} // verus!
