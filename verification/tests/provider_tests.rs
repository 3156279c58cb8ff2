use letta_lite::error::LettaError;
use letta_lite::provider::{
    AnthropicConfig, Completion, CompletionRequest, LettaCloudConfig, LlamaConfig, LlmProvider,
    OpenAIConfig, ProviderConfig, ProviderFactory, ToyConfig, ToyProvider,
};
use letta_lite::providers::llama::LlamaProvider;
use letta_lite::providers::toy;
use letta_lite::tool::ToolCall;
use letta_lite::json::Json;

fn request(prompt: &str) -> CompletionRequest {
    CompletionRequest {
        prompt: prompt.to_string(),
        tools: vec![],
        temperature: Some(700),
        max_tokens: None,
        stream: false,
    }
}

#[test]
fn text_completions() {
    let c = Completion::text("12345678");
    assert_eq!(c.text, "12345678");
    assert!(c.tool_calls.is_empty());
    assert!(!c.request_heartbeat);
    assert_eq!(c.usage.prompt_tokens, 0);
    assert_eq!(c.usage.completion_tokens, 2);
    assert_eq!(c.usage.total_tokens, 2);
    let c = c
        .with_tools(vec![ToolCall { id: "1".to_string(), name: "n".to_string(), arguments: Json::Null }])
        .with_heartbeat();
    assert_eq!(c.tool_calls.len(), 1);
    assert!(c.request_heartbeat);
    assert_eq!(c.text, "12345678");
}

#[test]
fn toy_provider_answers_by_the_prompt() {
    let toy = ToyProvider::new(ToyConfig { deterministic: true });
    assert_eq!(toy.name(), "toy");
    assert_eq!(toy.max_tokens(), 8192);
    let plain = toy.complete(request("Hello")).unwrap();
    assert_eq!(plain.text, "I understand your request. How can I help you further?");
    assert!(plain.tool_calls.is_empty());

    let search = toy.complete(request("12345678 #DO_SEARCH")).unwrap();
    assert_eq!(search.text, "");
    assert!(search.request_heartbeat);
    assert_eq!(search.tool_calls.len(), 1);
    assert_eq!(search.tool_calls[0].id, "call_1");
    assert_eq!(search.tool_calls[0].name, "archival_search");
    assert_eq!(search.tool_calls[0].arguments.get_str("query"), Some("latest readings"));
    assert_eq!(search.tool_calls[0].arguments.get_u64("top_k"), Some(3));
    assert_eq!(search.usage.prompt_tokens, 4);
    assert_eq!(search.usage.completion_tokens, 10);
    assert_eq!(search.usage.total_tokens, 14);

    let update = toy.complete(request("#MEMORY_UPDATE")).unwrap();
    assert!(!update.request_heartbeat);
    assert_eq!(update.tool_calls[0].id, "call_2");
    assert_eq!(update.tool_calls[0].name, "memory_replace");
    assert_eq!(update.tool_calls[0].arguments.get_str("label"), Some("human"));
    assert_eq!(update.tool_calls[0].arguments.get_str("value"), Some("Updated user information"));

    let after = toy.complete(request("x #DO_SEARCH\nTool [call_1]: {}")).unwrap();
    assert_eq!(
        after.text,
        "Based on the search results, here's a summary of the latest readings: The most recent values show stable patterns with readings at 168 mg/dL and 112 mg/dL."
    );
    assert!(after.tool_calls.is_empty());

    // the marks are looked for as they are written
    assert_eq!(toy.complete(request("#do_search")).unwrap().tool_calls.len(), 0);

    let free = ToyProvider::new(ToyConfig { deterministic: false });
    assert_eq!(free.answer(&request("Hello")).text, "This is a test response from the toy provider.");
}

#[test]
fn factory_makes_the_toy_provider_only() {
    let toy = ProviderFactory::create(ProviderConfig::Toy(ToyConfig { deterministic: true })).unwrap();
    assert!(toy.config.deterministic);
    let openai = ProviderFactory::create(ProviderConfig::OpenAI(OpenAIConfig {
        api_key: "k".to_string(),
        model: "m".to_string(),
        base_url: None,
    }));
    assert_eq!(openai.unwrap_err().to_string(), "Provider error: OpenAI provider not yet implemented");
    let anthropic = ProviderFactory::create(ProviderConfig::Anthropic(AnthropicConfig {
        api_key: "k".to_string(),
        model: "m".to_string(),
    }));
    assert_eq!(anthropic.unwrap_err().to_string(), "Provider error: Anthropic provider not yet implemented");
    let llama = ProviderFactory::create(ProviderConfig::Llama(LlamaConfig {
        model_path: "p".to_string(),
        context_size: 1,
        n_threads: 1,
    }));
    assert_eq!(llama.unwrap_err().to_string(), "Provider error: Llama provider not yet implemented");
    let cloud = ProviderFactory::create(ProviderConfig::LettaCloud(LettaCloudConfig {
        endpoint: "e".to_string(),
        api_key: "k".to_string(),
        model: "m".to_string(),
    }));
    assert!(matches!(cloud.unwrap_err(), LettaError::Provider(_)));
}

#[test]
fn llama_provider_is_not_there() {
    let llama = LlamaProvider::new("model.gguf".to_string(), 4096, 8);
    assert_eq!(llama.model_path, "model.gguf");
    assert_eq!(llama.n_threads, 8);
    assert_eq!(llama.name(), "llama");
    assert_eq!(llama.max_tokens(), 4096);
    assert_eq!(
        llama.complete(request("x")).unwrap_err().to_string(),
        "Provider error: Llama provider not yet implemented. Use 'toy' provider for testing."
    );
}

#[test]
fn counting_toy_provider() {
    let p = toy::ToyProvider::new(false);
    assert_eq!(p.name(), "toy");
    assert_eq!(p.max_tokens(), 8192);
    let replies = [
        "I'm here to help. What would you like to know?",
        "Thank you for your message. Let me assist you with that.",
        "I've processed your request. Is there anything specific you'd like me to focus on?",
        "That's an interesting point. Could you provide more details?",
        "I understand. Let me think about the best way to help you.",
    ];
    for i in 0..7 {
        assert_eq!(p.complete(request("hi")).unwrap().text, replies[i % 5]);
    }
    let search = p.complete(request("#DO_SEARCH")).unwrap();
    assert_eq!(search.tool_calls[0].id, "call_7");
    assert!(search.request_heartbeat);
    assert_eq!(p.answer_at(123, &request("#MEMORY_UPDATE")).tool_calls[0].id, "call_123");
    assert!(p.answer_at(0, &request("Tool [x]")).text.starts_with("Based on the search results,"));
    let d = toy::ToyProvider::new(true);
    assert_eq!(d.complete(request("hi")).unwrap().text, "I understand your request. How can I help you further?");
}
