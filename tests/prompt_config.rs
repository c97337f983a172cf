use whisp::config::{
    required_llm_key, ApiKeys, AppPromptRule, BillingSettings, Config, ConfigManager,
    ContextConfig, LlmModel, RecordingMode,
};
use whisp::context::{build_context_info, format_context_block, resolve_instruction, ContextRule, ContextInfo as CapturedContext, CODE_STYLE_INSTRUCTION};
use whisp::error::AppError;
use whisp::pipeline::{language_param, llm_provider_from_model};
use whisp::post_processor::{build_prompt, ContextInfo, DEFAULT_PROMPT_TEMPLATE};
use whisp::sound::TINK_PATH;
use whisp::text::{contains, replace, trim};

#[test]
fn prompt_includes_input() {
    let prompt = build_prompt("テストです", "ja", None, &[], None);
    assert!(prompt.contains("入力: テストです"));
}

#[test]
fn app_prompt_replaces_placeholders() {
    let prompt = build_prompt(
        "こんにちは",
        "en",
        Some("Slack"),
        &[AppPromptRule {
            app_name: "Slack".to_string(),
            template: "出力は{言語}。入力={STT結果}".to_string(),
        }],
        None,
    );
    assert!(prompt.contains("出力は英語。入力=こんにちは"));
}

#[test]
fn app_prompt_appends_input_when_missing() {
    let prompt = build_prompt(
        "テスト",
        "ja",
        Some("Slack"),
        &[AppPromptRule {
            app_name: "Slack".to_string(),
            template: "指示だけ".to_string(),
        }],
        None,
    );
    assert!(prompt.contains("指示だけ"));
    assert!(prompt.contains("入力: テスト"));
}

#[test]
fn prompt_appends_context_block() {
    let context = ContextInfo {
        accessibility_text: Some("選択された単語".to_string()),
        vision_summary: Some("エディタでGoファイル編集中".to_string()),
        vision_terms: vec!["func main".to_string(), "http.Server".to_string()],
    };
    let prompt = build_prompt("テスト", "ja", None, &[], Some(&context));
    assert!(prompt.contains("画面コンテキスト"));
    assert!(prompt.contains("選択テキスト: 選択された単語"));
    assert!(prompt.contains("画面の要約: エディタでGoファイル編集中"));
    assert!(prompt.contains("専門用語候補: func main, http.Server"));
}

#[test]
fn default_prompt_exact_text() {
    let prompt = build_prompt("abc", "auto", Some("  "), &[], None);
    assert_eq!(prompt, DEFAULT_PROMPT_TEMPLATE.replace("{STT結果}", "abc"));
}

#[test]
fn context_block_exact_and_empty_context() {
    let context = ContextInfo {
        accessibility_text: Some("  sel  ".to_string()),
        vision_summary: Some("   ".to_string()),
        vision_terms: vec![],
    };
    assert!(!context.is_empty());
    let prompt = build_prompt("x", "ja", Some("App"), &[AppPromptRule {
        app_name: " App ".to_string(),
        template: " T={STT結果} {言語} ".to_string(),
    }], Some(&context));
    assert_eq!(prompt, "T=x 日本語\n\n画面コンテキスト:\n- 選択テキスト: sel\n");
    let empty = ContextInfo { accessibility_text: None, vision_summary: Some(" ".to_string()), vision_terms: vec![] };
    assert!(empty.is_empty());
    assert_eq!(build_prompt("x", "zz", Some("App"), &[AppPromptRule {
        app_name: "App".to_string(),
        template: "{言語}".to_string(),
    }], Some(&empty)), "自動判定（日本語/英語）\n\n入力: x");
}

#[test]
fn blank_rule_template_falls_back_to_default() {
    let rules = [AppPromptRule { app_name: "Slack".to_string(), template: "  ".to_string() }];
    let prompt = build_prompt("y", "ja", Some("Slack"), &rules, None);
    assert_eq!(prompt, DEFAULT_PROMPT_TEMPLATE.replace("{STT結果}", "y"));
}

#[test]
fn tink_path_is_system_sound() {
    assert_eq!(TINK_PATH, "/System/Library/Sounds/Tink.aiff");
}

#[test]
fn model_names_and_audio_mode() {
    assert_eq!(LlmModel::Gemini25FlashLite.as_str(), "gemini-2.5-flash-lite");
    assert_eq!(LlmModel::Gemini25FlashLiteAudio.as_str(), "gemini-2.5-flash-lite");
    assert_eq!(LlmModel::Gpt4oMini.as_str(), "gpt-4o-mini");
    assert_eq!(LlmModel::Gpt5Nano.as_str(), "gpt-5-nano");
    assert!(LlmModel::Gemini25FlashLiteAudio.uses_direct_audio());
    assert!(!LlmModel::Gemini25FlashLite.uses_direct_audio());
}

fn config_with(model: LlmModel, gemini: &str, openai: &str) -> Config {
    let mut c = Config::default_config();
    c.llm_model = model;
    c.api_keys = ApiKeys { deepgram: String::new(), gemini: gemini.to_string(), openai: openai.to_string() };
    c
}

#[test]
fn llm_key_by_provider() {
    assert_eq!(required_llm_key(&config_with(LlmModel::Gemini25FlashLite, "g", "o")).ok(), Some("g"));
    assert_eq!(required_llm_key(&config_with(LlmModel::Gpt5Nano, "g", "o")).ok(), Some("o"));
    match required_llm_key(&config_with(LlmModel::Gemini25FlashLiteAudio, " ", "o")) {
        Err(AppError::MissingApiKey(n)) => assert_eq!(n, "gemini"),
        _ => panic!("expected a missing key"),
    }
    match required_llm_key(&config_with(LlmModel::Gpt4oMini, "g", "")) {
        Err(AppError::MissingApiKey(n)) => assert_eq!(n, "openai"),
        _ => panic!("expected a missing key"),
    }
}

#[test]
fn default_config_values() {
    let c = Config::default_config();
    assert_eq!(c.shortcut, "Cmd+J");
    assert_eq!(c.input_language, "ja");
    assert_eq!(c.recording_mode, RecordingMode::Toggle);
    assert_eq!(c.llm_model, LlmModel::Gemini25FlashLite);
    assert_eq!(c.context, ContextConfig { accessibility_enabled: true, vision_enabled: true });
    assert_eq!(c.billing, BillingSettings { deepgram_enabled: false, deepgram_project_id: String::new() });
    assert!(c.known_apps.is_empty());
}

#[test]
fn load_or_create_uses_defaults_on_failure() {
    let m = ConfigManager::with_path(std::path::PathBuf::from("/tmp/none/config.toml"));
    assert_eq!(m.path(), &std::path::PathBuf::from("/tmp/none/config.toml"));
    let (c, save) = m.load_or_create(Err(AppError::Io("missing".to_string())));
    assert!(save);
    assert_eq!(c, Config::default_config());
    let mut custom = Config::default_config();
    custom.shortcut = "Option+Space".to_string();
    let (c, save) = m.load_or_create(Ok(custom.clone()));
    assert!(!save);
    assert_eq!(c, custom);
}

#[test]
fn language_params() {
    assert_eq!(language_param("ja").as_deref(), Some("ja"));
    assert_eq!(language_param("en").as_deref(), Some("en"));
    assert_eq!(language_param("auto"), None);
    assert_eq!(language_param("fr"), None);
}

#[test]
fn providers_from_model_names() {
    assert_eq!(llm_provider_from_model("gemini-2.5-flash-lite"), "gemini");
    assert_eq!(llm_provider_from_model("gpt-4o-mini"), "openai");
}

#[test]
fn text_helpers() {
    assert_eq!(trim("\u{3000} a b \n"), "a b");
    assert_eq!(trim(" \t "), "");
    assert_eq!(replace("aXbXX", "X", "yz"), "ayzbyzyz");
    assert_eq!(replace("aaa", "aa", "b"), "ba");
    assert!(contains("hello", "ll"));
    assert!(contains("hello", ""));
    assert!(!contains("hello", "lo!"));
}

#[test]
fn instructions_for_applications() {
    let rules = [
        ContextRule { app_name: " slack ".to_string(), instruction: " casual ".to_string() },
        ContextRule { app_name: "mail".to_string(), instruction: "  ".to_string() },
    ];
    assert_eq!(resolve_instruction(Some("SLACK Desktop"), &rules).as_deref(), Some("casual"));
    assert_eq!(resolve_instruction(Some("VSCODE"), &rules).as_deref(), Some(CODE_STYLE_INSTRUCTION));
    assert_eq!(resolve_instruction(Some("Mail"), &rules), None);
    assert_eq!(resolve_instruction(Some("   "), &rules), None);
    assert_eq!(resolve_instruction(None, &rules), None);
    let info = build_context_info(&rules, Some("Cursor".to_string()), Some("sel".to_string()));
    assert_eq!(info.instruction.as_deref(), Some(CODE_STYLE_INSTRUCTION));
    assert_eq!(info.selected_text.as_deref(), Some("sel"));
}

#[test]
fn context_block_formatting() {
    let info = CapturedContext {
        app_name: None,
        selected_text: Some(" text ".to_string()),
        instruction: Some("do it".to_string()),
    };
    assert_eq!(format_context_block(&info).as_deref(), Some("選択テキスト:\ntext\n追加指示: do it"));
    let only = CapturedContext { app_name: None, selected_text: None, instruction: Some(" x ".to_string()) };
    assert_eq!(format_context_block(&only).as_deref(), Some("追加指示: x"));
    let none = CapturedContext { app_name: None, selected_text: Some("  ".to_string()), instruction: None };
    assert_eq!(format_context_block(&none), None);
}

#[test]
fn known_apps_recorded_once_trimmed() {
    let mut apps = vec!["Slack".to_string()];
    assert!(!whisp::config::record_known_app(&mut apps, "  Slack "));
    assert!(!whisp::config::record_known_app(&mut apps, "   "));
    assert!(whisp::config::record_known_app(&mut apps, " Xcode\n"));
    assert_eq!(apps, vec!["Slack".to_string(), "Xcode".to_string()]);
}
