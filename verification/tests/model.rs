use image_auditor::config::{load_llm_config, provider_for_name, LlmConfig, LlmEnv, LlmProvider};
use image_auditor::llm::{
    create_llm_client, parse_suggestion_with_patch, sanitize_patch_block, ChatReply,
};

fn char_vec(s: &str) -> Vec<char> {
    s.chars().collect()
}

fn text(v: Vec<char>) -> String {
    v.into_iter().collect()
}

#[test]
fn parses_patch_block() {
    let raw = "Fix below.\n---PATCH---\nfile: a.html\nBEFORE:\n<img src=\"a\">\n---END_BEFORE---\nAFTER:\n<img src=\"a\" loading=\"lazy\">\n---END_AFTER---\n---END_PATCH---\nbye";
    let s = parse_suggestion_with_patch(raw);
    assert_eq!(s.text, raw);
    let p = s.patch.expect("patch");
    assert_eq!(p.before, "<img src=\"a\">");
    assert_eq!(p.after, "<img src=\"a\" loading=\"lazy\">");
}

#[test]
fn patch_needs_both_sections_and_end_marker() {
    let no_after = "---PATCH---\nBEFORE:\nx\n---END_BEFORE---\n---END_PATCH---";
    assert!(parse_suggestion_with_patch(no_after).patch.is_none());
    let no_end = "---PATCH---\nBEFORE:\nx\n---END_BEFORE---\nAFTER:\ny\n---END_AFTER---\n";
    assert!(parse_suggestion_with_patch(no_end).patch.is_none());
    let empty_after = "---PATCH---\nBEFORE:\nx\n---END_BEFORE---\nAFTER:\n\n\n---END_AFTER---\n---END_PATCH---";
    assert!(parse_suggestion_with_patch(empty_after).patch.is_none());
    assert!(parse_suggestion_with_patch("NO_PATCH").patch.is_none());
}

#[test]
fn sanitize_strips_fences_and_line_numbers() {
    let raw = "\n```html\n   5: <img\n>>>  6: src=\"a\">\n  7: kept\n```\n";
    assert_eq!(text(sanitize_patch_block(&char_vec(raw))), "<img\nsrc=\"a\">\n  7: kept");
    assert_eq!(text(sanitize_patch_block(&char_vec("```\nx```"))), "x");
    assert_eq!(text(sanitize_patch_block(&char_vec("a   12:b"))), "a   12:b");
    assert_eq!(text(sanitize_patch_block(&char_vec("   12:b"))), "b");
    assert_eq!(text(sanitize_patch_block(&char_vec("   \u{663}: b"))), "b");
}

#[test]
fn fenced_sections_in_answer() {
    let raw = "---PATCH---\nBEFORE:\n```html\n   3: <img>\n```\n---END_BEFORE---\nAFTER:\n```html\n   3: <img alt=\"\">\n```\n---END_AFTER---\n---END_PATCH---";
    let p = parse_suggestion_with_patch(raw).patch.unwrap();
    assert_eq!(p.before, "<img>");
    assert_eq!(p.after, "<img alt=\"\">");
}

fn env() -> LlmEnv {
    LlmEnv {
        active_provider: None,
        openai_api_key: None,
        openai_base_url: None,
        openai_model: None,
        anthropic_api_key: None,
        anthropic_base_url: None,
        anthropic_model: None,
        ollama_base_url: None,
        ollama_model: None,
    }
}

#[test]
fn config_from_environment() {
    assert!(matches!(load_llm_config(&env()), Ok(None)));
    let mut e = env();
    e.active_provider = Some("  ".to_string());
    assert!(matches!(load_llm_config(&e), Ok(None)));
    e.active_provider = Some("OpenAI".to_string());
    e.openai_api_key = Some("k".to_string());
    let c = load_llm_config(&e).unwrap().unwrap();
    assert_eq!(c.provider, LlmProvider::OpenAi);
    assert_eq!(c.model, "gpt-4.1-mini");
    assert_eq!(c.api_key.as_deref(), Some("k"));
    e.active_provider = Some("anthropic".to_string());
    e.anthropic_model = Some("m".to_string());
    let c = load_llm_config(&e).unwrap().unwrap();
    assert_eq!((c.provider, c.model.as_str(), c.api_key.is_none()), (LlmProvider::Anthropic, "m", true));
    e.anthropic_model = None;
    assert_eq!(load_llm_config(&e).unwrap().unwrap().model, "");
    e.active_provider = Some("ollama".to_string());
    let c = load_llm_config(&e).unwrap().unwrap();
    assert_eq!(c.model, "llama3.2");
    e.active_provider = Some("Gemini".to_string());
    assert_eq!(load_llm_config(&e).unwrap_err(), "Unsupported ACTIVE_LLM_PROVIDER: gemini");
    e.active_provider = Some(" openai".to_string());
    assert_eq!(load_llm_config(&e).unwrap_err(), "Unsupported ACTIVE_LLM_PROVIDER:  openai");
}

fn cfg(provider: LlmProvider, key: Option<&str>, endpoint: Option<&str>) -> LlmConfig {
    LlmConfig {
        provider,
        api_key: key.map(|k| k.to_string()),
        endpoint: endpoint.map(|e| e.to_string()),
        model: "m1".to_string(),
    }
}

#[test]
fn requests_per_provider() {
    let c = create_llm_client(&cfg(LlmProvider::OpenAi, Some("sk"), None)).unwrap();
    let r = c.request("fix it").unwrap();
    assert_eq!(r.url, "https://api.openai.com/v1/chat/completions");
    assert_eq!(r.headers, vec![("Authorization".to_string(), "Bearer sk".to_string())]);
    assert_eq!(r.messages.len(), 2);
    assert_eq!(r.messages[0].0, "system");
    assert_eq!(r.messages[1], ("user".to_string(), "fix it".to_string()));
    assert_eq!(r.model, "m1");

    let c = create_llm_client(&cfg(LlmProvider::Anthropic, Some("ak"), Some("http://h"))).unwrap();
    let r = c.request("p").unwrap();
    assert_eq!(r.url, "http://h/v1/messages");
    assert_eq!(r.headers[0], ("x-api-key".to_string(), "ak".to_string()));
    assert_eq!(r.headers[1], ("anthropic-version".to_string(), "2023-06-01".to_string()));
    assert_eq!(r.max_tokens, Some(512));

    let c = create_llm_client(&cfg(LlmProvider::Ollama, None, None)).unwrap();
    let r = c.request("p").unwrap();
    assert_eq!(r.url, "http://localhost:11434/api/chat");
    assert!(r.headers.is_empty());
    assert_eq!(r.stream, Some(false));
}

#[test]
fn missing_keys_are_errors() {
    let c = create_llm_client(&cfg(LlmProvider::OpenAi, None, None)).unwrap();
    assert_eq!(c.request("p").unwrap_err(), "OPENAI_API_KEY is required for OpenAI provider");
    let c = create_llm_client(&cfg(LlmProvider::Anthropic, None, None)).unwrap();
    assert_eq!(c.request("p").unwrap_err(), "ANTHROPIC_API_KEY is required for Anthropic provider");
}

#[test]
fn replies_to_suggestions() {
    let c = create_llm_client(&cfg(LlmProvider::OpenAi, Some("k"), None)).unwrap();
    let none = ChatReply::OpenAi { contents: vec![] };
    assert_eq!(c.suggestion(&none).unwrap_err(), "OpenAI returned no choices");
    let two = ChatReply::OpenAi { contents: vec!["first".to_string(), "second".to_string()] };
    assert_eq!(c.suggestion(&two).unwrap().text, "first");
    let blocks = ChatReply::Anthropic {
        texts: vec![Some("a".to_string()), None, Some("b".to_string())],
    };
    assert_eq!(c.suggestion(&blocks).unwrap().text, "a\nb");
    let ol = ChatReply::Ollama { content: "x".to_string() };
    let s = c.suggestion(&ol).unwrap();
    assert_eq!(s.text, "x");
    assert!(s.patch.is_none());
}

#[test]
fn provider_names() {
    assert_eq!(provider_for_name(&char_vec("ollama")), Some(LlmProvider::Ollama));
    assert_eq!(provider_for_name(&char_vec("Ollama")), None);
    assert_eq!(provider_for_name(&char_vec("")), None);
}

#[test]
fn sanitize_strips_context_format_numbers() {
    assert_eq!(text(sanitize_patch_block(&char_vec("  12: <img>"))), "<img>");
    assert_eq!(text(sanitize_patch_block(&char_vec(" 123: a\n1234: b\n12345:c"))), "a\nb\nc");
    assert_eq!(text(sanitize_patch_block(&char_vec(" 12: kept"))), " 12: kept");
    assert_eq!(text(sanitize_patch_block(&char_vec("x  12: kept"))), "x  12: kept");
    let context = image_auditor::prompt::read_file_context(
        Some(&(1..=14).map(|i| format!("line{}", i)).collect::<Vec<_>>().join("\n")),
        10,
        2,
    );
    let shown: String = context.lines().skip(1).collect::<Vec<_>>().join("\n");
    assert_eq!(
        text(sanitize_patch_block(&char_vec(&shown))),
        "line8\nline9\nline10\nline11\nline12"
    );
}
