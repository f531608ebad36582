use tdg_rust::error::TdgError;
use tdg_rust::llm::{
    api_error, endpoint_url, lift_system_messages, require_api_key, AnthropicConfig, AnthropicReply,
    FallbackRun, FallbackStep, LlmCompletionRequest, LlmConfig, LlmEnv, LlmMessage, OllamaConfig,
    OllamaReply, OpenAiConfig, OpenAiReply, OpenAiUsageCounts,
};

fn msg(role: &str, content: &str) -> LlmMessage {
    LlmMessage { role: role.to_string(), content: content.to_string() }
}

fn request(messages: Vec<LlmMessage>) -> LlmCompletionRequest<f32> {
    LlmCompletionRequest { messages, model: None, temperature: None, max_tokens: None }
}

fn openai_config() -> OpenAiConfig<f32> {
    OpenAiConfig {
        api_key: Some("sk-test-key".to_string()),
        base_url: "https://api.openai.com/v1".to_string(),
        model: "gpt-4o".to_string(),
        max_tokens: 4096,
        temperature: 0.7,
    }
}

fn anthropic_config() -> AnthropicConfig<f32> {
    AnthropicConfig {
        api_key: Some("sk-ant-test-key".to_string()),
        base_url: "https://api.anthropic.com/v1".to_string(),
        model: "anthropic-sonnet-4-20250514".to_string(),
        max_tokens: 4096,
        temperature: 0.7,
    }
}

fn ollama_config() -> OllamaConfig<f32> {
    OllamaConfig {
        base_url: "http://localhost:11434".to_string(),
        model: "llama3".to_string(),
        max_tokens: 4096,
        temperature: 0.7,
    }
}

fn custom_message(e: TdgError) -> String {
    match e {
        TdgError::Custom(m) => m,
        other => panic!("unexpected error {:?}", other),
    }
}

// ─── Request bodies ─────────────────────────────────────────────────────────

#[test]
fn openai_test_build_request_body_defaults() {
    let body = openai_config().request_body(&request(vec![msg("user", "Hello")]));
    assert_eq!(body.model, "gpt-4o");
    assert!((body.temperature as f64 - 0.7).abs() < 1e-6);
    assert_eq!(body.max_tokens, 4096);
    assert_eq!(body.messages[0].role, "user");
    assert_eq!(body.messages[0].content, "Hello");
    assert!(body.system.is_none());
}

#[test]
fn openai_test_build_request_body_overrides() {
    let req = LlmCompletionRequest {
        messages: vec![msg("system", "You are helpful.")],
        model: Some("gpt-4-turbo".to_string()),
        temperature: Some(0.3),
        max_tokens: Some(1024),
    };
    let body = openai_config().request_body(&req);
    assert_eq!(body.model, "gpt-4-turbo");
    assert!((body.temperature as f64 - 0.3).abs() < 1e-6);
    assert_eq!(body.max_tokens, 1024);
    assert_eq!(body.messages[0].role, "system");
    assert_eq!(body.messages[0].content, "You are helpful.");
}

#[test]
fn test_build_request_body_multiple_messages() {
    let body = openai_config()
        .request_body(&request(vec![msg("system", "Be concise."), msg("user", "Tell me a joke.")]));
    assert_eq!(body.messages.len(), 2);
    assert_eq!(body.messages[0].role, "system");
    assert_eq!(body.messages[1].role, "user");
}

#[test]
fn ollama_test_build_request_body_defaults() {
    let body = ollama_config().request_body(&request(vec![msg("user", "Hello")]));
    assert_eq!(body.model, "llama3");
    assert!((body.temperature as f64 - 0.7).abs() < 1e-6);
    assert_eq!(body.max_tokens, 4096);
    assert_eq!(body.messages[0].role, "user");
    assert_eq!(body.messages[0].content, "Hello");
}

#[test]
fn ollama_test_build_request_body_overrides() {
    let req = LlmCompletionRequest {
        messages: vec![msg("system", "You are helpful.")],
        model: Some("llama3.1".to_string()),
        temperature: Some(0.3f32),
        max_tokens: Some(1024),
    };
    let body = ollama_config().request_body(&req);
    assert_eq!(body.model, "llama3.1");
    assert!((body.temperature as f64 - 0.3).abs() < 1e-6);
    assert_eq!(body.max_tokens, 1024);
}

#[test]
fn test_build_request_body_system_message_extracted() {
    let body = anthropic_config().request_body(&request(vec![
        msg("system", "You are a helpful assistant."),
        msg("user", "Hello!"),
    ]));
    assert_eq!(body.system.as_deref(), Some("You are a helpful assistant."));
    assert_eq!(body.model, "anthropic-sonnet-4-20250514");
    assert_eq!(body.max_tokens, 4096);
    assert_eq!(body.messages.len(), 1);
    assert_eq!(body.messages[0].role, "user");
}

#[test]
fn test_build_request_body_without_system() {
    let req = LlmCompletionRequest {
        messages: vec![msg("user", "Tell me a joke.")],
        model: Some("anthropic-opus-4-20250514".to_string()),
        temperature: Some(0.5f32),
        max_tokens: Some(2048),
    };
    let body = anthropic_config().request_body(&req);
    assert!(body.system.is_none());
    assert_eq!(body.model, "anthropic-opus-4-20250514");
    assert_eq!(body.max_tokens, 2048);
    assert!((body.temperature as f64 - 0.5).abs() < f64::EPSILON);
    assert_eq!(body.messages.len(), 1);
    assert_eq!(body.messages[0].role, "user");
}

#[test]
fn test_build_request_body_system_only_adds_placeholder() {
    let body = anthropic_config().request_body(&request(vec![msg("system", "Be concise.")]));
    assert_eq!(body.system.as_deref(), Some("Be concise."));
    assert_eq!(body.messages.len(), 1);
    assert_eq!(body.messages[0].role, "user");
    assert_eq!(body.messages[0].content, "...");
}

#[test]
fn last_system_message_wins() {
    let messages = vec![msg("system", "a"), msg("user", "u"), msg("system", "b"), msg("assistant", "x")];
    let (system, rest) = lift_system_messages(&messages);
    assert_eq!(system.as_deref(), Some("b"));
    assert_eq!(rest.iter().map(|m| m.role.as_str()).collect::<Vec<_>>(), vec!["user", "assistant"]);
}

#[test]
fn endpoint_url_joins_with_one_slash() {
    assert_eq!(endpoint_url("https://api.openai.com/v1", "chat/completions"), "https://api.openai.com/v1/chat/completions");
    assert_eq!(endpoint_url("http://localhost:11434///", "api/chat"), "http://localhost:11434/api/chat");
    assert_eq!(endpoint_url("", "x"), "/x");
}

// ─── Replies ────────────────────────────────────────────────────────────────

#[test]
fn openai_test_parse_response_success() {
    let reply = OpenAiReply {
        choices: Some(vec![Some("Hello! How can I help you today?".to_string())]),
        model: Some("gpt-4o".to_string()),
        usage: Some(OpenAiUsageCounts { prompt_tokens: Some(10), completion_tokens: Some(8), total_tokens: Some(18) }),
    };
    let result = reply.into_response().unwrap();
    assert_eq!(result.content, "Hello! How can I help you today?");
    assert_eq!(result.model, "gpt-4o");
    assert_eq!(result.usage.prompt_tokens, 10);
    assert_eq!(result.usage.completion_tokens, 8);
    assert_eq!(result.usage.total_tokens, 18);
}

#[test]
fn test_parse_response_usage_defaults() {
    let reply = OpenAiReply {
        choices: Some(vec![Some("Sure!".to_string())]),
        model: Some("gpt-4o-mini".to_string()),
        usage: None,
    };
    let result = reply.into_response().unwrap();
    assert_eq!(result.content, "Sure!");
    assert_eq!(result.model, "gpt-4o-mini");
    assert_eq!(result.usage.prompt_tokens, 0);
    assert_eq!(result.usage.completion_tokens, 0);
    assert_eq!(result.usage.total_tokens, 0);
}

#[test]
fn test_parse_response_missing_choices() {
    let reply = OpenAiReply { choices: None, model: Some("gpt-4o".to_string()), usage: None };
    let result = reply.into_response();
    assert!(result.is_err());
    assert!(custom_message(result.unwrap_err()).contains("missing 'choices' array"));
}

#[test]
fn test_parse_response_empty_choices() {
    let reply = OpenAiReply { choices: Some(vec![]), model: Some("gpt-4o".to_string()), usage: None };
    let result = reply.into_response();
    assert!(result.is_err());
    assert!(custom_message(result.unwrap_err()).contains("returned zero choices"));
}

#[test]
fn openai_test_parse_response_missing_content() {
    let reply = OpenAiReply { choices: Some(vec![None]), model: Some("gpt-4o".to_string()), usage: None };
    let result = reply.into_response();
    assert!(result.is_err());
    assert!(custom_message(result.unwrap_err()).contains("missing 'choices[0].message.content'"));
}

#[test]
fn anthropic_test_parse_response_success() {
    let reply = AnthropicReply {
        content: Some(vec![Some("Hello! How can I help you today?".to_string())]),
        model: Some("anthropic-sonnet-4-20250514".to_string()),
        input_tokens: Some(10),
        output_tokens: Some(25),
    };
    let result = reply.into_response().unwrap();
    assert_eq!(result.content, "Hello! How can I help you today?");
    assert_eq!(result.model, "anthropic-sonnet-4-20250514");
    assert_eq!(result.usage.prompt_tokens, 10);
    assert_eq!(result.usage.completion_tokens, 25);
    assert_eq!(result.usage.total_tokens, 35);
}

#[test]
fn test_parse_response_usage_defaults_when_missing() {
    let reply = AnthropicReply {
        content: Some(vec![Some("Sure!".to_string())]),
        model: Some("anthropic-sonnet-4-20250514".to_string()),
        input_tokens: None,
        output_tokens: None,
    };
    let result = reply.into_response().unwrap();
    assert_eq!(result.content, "Sure!");
    assert_eq!(result.model, "anthropic-sonnet-4-20250514");
    assert_eq!(result.usage.prompt_tokens, 0);
    assert_eq!(result.usage.completion_tokens, 0);
    assert_eq!(result.usage.total_tokens, 0);
}

#[test]
fn anthropic_test_parse_response_missing_content() {
    let reply = AnthropicReply {
        content: None,
        model: Some("anthropic-sonnet-4-20250514".to_string()),
        input_tokens: Some(5),
        output_tokens: Some(10),
    };
    let result = reply.into_response();
    assert!(result.is_err());
    assert!(custom_message(result.unwrap_err()).contains("content[0].text"));
}

#[test]
fn ollama_test_parse_response_success() {
    let reply = OllamaReply {
        content: Some("Hello! How can I help you today?".to_string()),
        model: Some("llama3".to_string()),
        prompt_eval_count: Some(10),
        eval_count: Some(8),
    };
    let result = reply.into_response().unwrap();
    assert_eq!(result.content, "Hello! How can I help you today?");
    assert_eq!(result.model, "llama3");
    assert_eq!(result.usage.prompt_tokens, 10);
    assert_eq!(result.usage.completion_tokens, 8);
    assert_eq!(result.usage.total_tokens, 18);
}

#[test]
fn test_parse_response_missing_counts() {
    let reply = OllamaReply {
        content: Some("Sure!".to_string()),
        model: Some("llama3".to_string()),
        prompt_eval_count: None,
        eval_count: None,
    };
    let result = reply.into_response().unwrap();
    assert_eq!(result.content, "Sure!");
    assert_eq!(result.model, "llama3");
    assert_eq!(result.usage.prompt_tokens, 0);
    assert_eq!(result.usage.completion_tokens, 0);
    assert_eq!(result.usage.total_tokens, 0);
}

#[test]
fn test_parse_response_missing_message() {
    let reply = OllamaReply { content: None, model: Some("llama3".to_string()), prompt_eval_count: None, eval_count: None };
    let result = reply.into_response();
    assert!(result.is_err());
    assert!(custom_message(result.unwrap_err()).contains("missing 'message.content'"));
}

#[test]
fn ollama_test_parse_response_missing_content() {
    let reply = OllamaReply { content: None, model: Some("llama3".to_string()), prompt_eval_count: Some(1), eval_count: None };
    let result = reply.into_response();
    assert!(result.is_err());
    assert!(custom_message(result.unwrap_err()).contains("missing 'message.content'"));
}

#[test]
fn reply_without_model_names_unknown() {
    let reply = OllamaReply { content: Some("x".to_string()), model: None, prompt_eval_count: None, eval_count: None };
    assert_eq!(reply.into_response().unwrap().model, "unknown");
}

#[test]
fn token_counts_are_cut_to_32_bits() {
    let reply = OpenAiReply {
        choices: Some(vec![Some("x".to_string())]),
        model: None,
        usage: Some(OpenAiUsageCounts { prompt_tokens: Some((1u64 << 32) + 5), completion_tokens: None, total_tokens: Some(7) }),
    };
    let r = reply.into_response().unwrap();
    assert_eq!(r.usage.prompt_tokens, 5);
    assert_eq!(r.usage.completion_tokens, 0);
    assert_eq!(r.usage.total_tokens, 7);
}

#[test]
fn missing_keys_and_api_errors() {
    assert_eq!(require_api_key("OpenAI", &Some("k".to_string())).unwrap(), "k");
    let e = require_api_key("Anthropic", &None).unwrap_err();
    assert_eq!(custom_message(e.clone()), "Anthropic API key is not configured");
    assert!(e.message().contains("API key is not configured"));
    let e = api_error("Ollama", 503, "busy");
    assert_eq!(e.message(), "Ollama API error (503): busy");
}

// ─── Configuration ──────────────────────────────────────────────────────────

fn config_without_env() -> LlmConfig<f32> {
    LlmConfig::from_env_values(&LlmEnv::unset(), 0.7, "anthropic-sonnet-4-20250514")
}

#[test]
fn default_config_uses_ollama() {
    let cfg = config_without_env();
    assert_eq!(cfg.default_provider, "ollama");
    assert_eq!(cfg.ollama.model, "llama3");
    assert_eq!(cfg.ollama.base_url, "http://localhost:11434");
}

#[test]
fn default_openai_model() {
    let cfg = config_without_env();
    assert_eq!(cfg.openai.model, "gpt-4o");
}

#[test]
fn default_anthropic_model() {
    let cfg = config_without_env();
    assert_eq!(cfg.anthropic.model, "anthropic-sonnet-4-20250514");
}

#[test]
fn provider_availability() {
    let cfg = config_without_env();
    assert!(cfg.provider_available("ollama"));
    assert_eq!(cfg.provider_available("openai"), cfg.openai.api_key.is_some());
    assert_eq!(cfg.provider_available("anthropic"), cfg.anthropic.api_key.is_some());
    assert!(!cfg.provider_available("nonexistent"));
}

#[test]
fn default_token_and_temp() {
    let cfg = config_without_env();
    assert_eq!(cfg.openai.max_tokens, 4096);
    assert!((cfg.openai.temperature - 0.7).abs() < f32::EPSILON);
}

#[test]
fn environment_values_override_defaults() {
    let mut env: LlmEnv<f32> = LlmEnv::unset();
    env.default_provider = Some("anthropic".to_string());
    env.anthropic_api_key = Some("sk".to_string());
    env.openai_max_tokens = Some("+512".to_string());
    env.ollama_max_tokens = Some("lots".to_string());
    env.anthropic_max_tokens = Some("4294967296".to_string());
    env.ollama_temperature = Some(0.1);
    let cfg = LlmConfig::from_env_values(&env, 0.7, "anthropic-sonnet-4-20250514");
    assert_eq!(cfg.default_provider, "anthropic");
    assert!(cfg.provider_available("anthropic"));
    assert_eq!(cfg.openai.max_tokens, 512);
    assert_eq!(cfg.ollama.max_tokens, 4096);
    assert_eq!(cfg.anthropic.max_tokens, 4096);
    assert!((cfg.ollama.temperature - 0.1).abs() < f32::EPSILON);
}

// ─── Fallback ───────────────────────────────────────────────────────────────

#[test]
fn test_first_provider_succeeds() {
    let (mut run, step) = FallbackRun::start(2);
    assert_eq!(step, FallbackStep::Try(0));
    assert_eq!(run.on_success(), FallbackStep::Succeed(0));
}

#[test]
fn test_first_fails_second_succeeds() {
    let (mut run, step) = FallbackRun::start(2);
    assert_eq!(step, FallbackStep::Try(0));
    assert_eq!(run.on_failure("p1", "boom"), FallbackStep::Try(1));
    assert_eq!(run.on_success(), FallbackStep::Succeed(1));
}

#[test]
fn test_all_providers_fail() {
    let (mut run, _) = FallbackRun::start(3);
    assert_eq!(run.on_failure("a", "e1"), FallbackStep::Try(1));
    assert_eq!(run.on_failure("b", "e2"), FallbackStep::Try(2));
    match run.on_failure("c", "e3") {
        FallbackStep::Fail(m) => {
            assert!(m.contains("All 3 fallback providers failed"));
            assert_eq!(m, "All 3 fallback providers failed: a: e1 | b: e2 | c: e3");
        }
        other => panic!("unexpected {:?}", other),
    }
}

#[test]
fn test_empty_provider_list() {
    let (_, step) = FallbackRun::start(0);
    match step {
        FallbackStep::Fail(m) => assert!(m.contains("no providers configured")),
        other => panic!("unexpected {:?}", other),
    }
}
