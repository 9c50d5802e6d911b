use shellmaster::services::ai::{
    anthropic_delta, anthropic_reply, anthropic_wants_event, check_api_key, endpoint_target,
    gemini_deltas, gemini_reply, is_done_marker, is_success_status, openai_deltas, openai_reply,
    resolve_base_url, resolve_model, system_prompt, wire_messages, AiEndpoint, AiError, AiProviderId,
    ChatMessage, ChatResponse, ChatRole, ProviderAuth, SseParser, StreamEvent,
};

fn msg(role: ChatRole, content: &str) -> ChatMessage {
    ChatMessage { role, content: content.to_string() }
}

#[test]
fn role_names() {
    assert_eq!(ChatRole::System.as_openai_str(), "system");
    assert_eq!(ChatRole::User.as_openai_str(), "user");
    assert_eq!(ChatRole::Assistant.as_openai_str(), "assistant");
}

#[test]
fn error_messages() {
    assert_eq!(AiError::MissingKey.message(), "API key 为空");
    assert_eq!(AiError::Http("timeout".to_string()).message(), "HTTP 请求失败: timeout");
    assert_eq!(AiError::Parse("bad".to_string()).message(), "响应解析失败: bad");
    assert_eq!(
        AiError::Provider { status: 401, body: "nope".to_string() }.message(),
        "供应商返回错误 (401): nope"
    );
}

#[test]
fn blank_api_keys_are_refused() {
    assert!(matches!(check_api_key(""), Err(AiError::MissingKey)));
    assert!(matches!(check_api_key(" \t\n"), Err(AiError::MissingKey)));
    assert!(check_api_key(" sk-123 ").is_ok());
}

#[test]
fn base_url_and_model_resolution() {
    assert_eq!(resolve_base_url("", "https://api.openai.com/v1"), "https://api.openai.com/v1");
    assert_eq!(resolve_base_url("https://proxy.local/v1///", "x"), "https://proxy.local/v1");
    assert_eq!(resolve_base_url("https://proxy.local/v1", "x"), "https://proxy.local/v1");
    assert_eq!(resolve_model("", "gpt-4o"), "gpt-4o");
    assert_eq!(resolve_model("deepseek-chat", "x"), "deepseek-chat");
}

#[test]
fn endpoints_and_authentication() {
    let t = endpoint_target(AiProviderId::OpenAi, AiEndpoint::Chat, "https://b", "k", "m");
    assert_eq!(t.url, "https://b/chat/completions");
    assert!(matches!(t.auth, ProviderAuth::Bearer(ref k) if k == "k"));
    let t = endpoint_target(AiProviderId::DeepSeek, AiEndpoint::ListModels, "https://b", "k", "m");
    assert_eq!(t.url, "https://b/models");
    let t = endpoint_target(AiProviderId::Claude, AiEndpoint::ChatStream, "https://b", "k", "m");
    assert_eq!(t.url, "https://b/messages");
    assert!(matches!(t.auth, ProviderAuth::AnthropicKey(ref k) if k == "k"));
    let t = endpoint_target(AiProviderId::Gemini, AiEndpoint::ListModels, "https://b", "k", "m");
    assert_eq!(t.url, "https://b/models?key=k");
    assert!(matches!(t.auth, ProviderAuth::InUrl));
    let t = endpoint_target(AiProviderId::Gemini, AiEndpoint::Chat, "https://b", "k", "m");
    assert_eq!(t.url, "https://b/models/m:generateContent?key=k");
    let t = endpoint_target(AiProviderId::Gemini, AiEndpoint::ChatStream, "https://b", "k", "m");
    assert_eq!(t.url, "https://b/models/m:streamGenerateContent?alt=sse&key=k");
}

#[test]
fn success_statuses() {
    assert!(is_success_status(200));
    assert!(is_success_status(299));
    assert!(!is_success_status(199));
    assert!(!is_success_status(300));
    assert!(!is_success_status(404));
}

#[test]
fn messages_in_each_providers_terms() {
    let ms = vec![
        msg(ChatRole::System, "be brief"),
        msg(ChatRole::User, "hi"),
        msg(ChatRole::Assistant, "hello"),
        msg(ChatRole::System, "no markdown"),
    ];
    let openai = wire_messages(AiProviderId::OpenAi, &ms);
    assert_eq!(openai.len(), 4);
    assert_eq!(openai[0], ("system".to_string(), "be brief".to_string()));
    let claude = wire_messages(AiProviderId::Claude, &ms);
    assert_eq!(claude, vec![("user".to_string(), "hi".to_string()), ("assistant".to_string(), "hello".to_string())]);
    let gemini = wire_messages(AiProviderId::Gemini, &ms);
    assert_eq!(gemini, vec![("user".to_string(), "hi".to_string()), ("model".to_string(), "hello".to_string())]);
    assert_eq!(system_prompt(&ms).as_deref(), Some("be brief\n\nno markdown"));
    assert!(system_prompt(&ms[1..3]).is_none());
}

#[test]
fn replies_are_assembled() {
    let r: ChatResponse = openai_reply(Some((Some("answer".to_string()), Some("".to_string()))));
    assert_eq!(r.content, "answer");
    assert!(r.reasoning.is_none());
    let r = openai_reply(Some((None, Some("thought".to_string()))));
    assert_eq!(r.content, "");
    assert_eq!(r.reasoning.as_deref(), Some("thought"));
    let r = openai_reply(None);
    assert_eq!(r.content, "");
    let blocks = vec![
        ("text".to_string(), "Hel".to_string()),
        ("tool_use".to_string(), "ignored".to_string()),
        ("text".to_string(), "lo".to_string()),
    ];
    assert_eq!(anthropic_reply(&blocks).content, "Hello");
    let parts = Some(vec![Some("a".to_string()), None, Some("b".to_string())]);
    assert_eq!(gemini_reply(parts).content, "ab");
    assert_eq!(gemini_reply(None).content, "");
}

#[test]
fn server_sent_events_are_parsed() {
    let mut p = SseParser::new();
    let evs = p.push_text("event: content_block_delta\r\ndata: {\"a\":1}\r\n\r\ndata:x\ndata: y\n\n: comment\n\n");
    assert_eq!(
        evs,
        vec![
            ("content_block_delta".to_string(), "{\"a\":1}".to_string()),
            ("".to_string(), "x\ny".to_string()),
        ]
    );
    // an unfinished line waits
    let evs = p.push_text("data: [DO");
    assert!(evs.is_empty());
    let evs = p.push_text("NE]\n\n");
    assert_eq!(evs, vec![("".to_string(), "[DONE]".to_string())]);
}

#[test]
fn open_event_is_flushed_at_the_end_only_with_data() {
    let mut p = SseParser::new();
    p.push_text("data: tail\n");
    assert_eq!(p.finish(), Some(("".to_string(), "tail".to_string())));
    let mut q = SseParser::new();
    q.push_text("event: ping\n");
    assert_eq!(q.finish(), None);
    let mut r = SseParser::new();
    r.push_text("data: unterminated");
    assert_eq!(r.finish(), None);
}

#[test]
fn sse_chunking_does_not_matter() {
    let text = "event: a\ndata: 1\n\ndata: 2\ndata: 3\n\n";
    let mut whole = SseParser::new();
    let all = whole.push_text(text);
    let mut split = SseParser::new();
    let mut got = Vec::new();
    for c in text.chars() {
        got.extend(split.push_text(&c.to_string()));
    }
    assert_eq!(all, got);
    let mut bytes = SseParser::new();
    assert_eq!(bytes.push_bytes(text.as_bytes()), all);
}

#[test]
fn a_character_split_between_chunks_decodes_once() {
    let text = "data: 你好🙂\n\n";
    let b = text.as_bytes();
    let mut whole = SseParser::new();
    let all = whole.push_bytes(b);
    assert_eq!(all, vec![(String::new(), "你好🙂".to_string())]);
    for cut in 0..=b.len() {
        let mut p = SseParser::new();
        let mut got = p.push_bytes(&b[..cut]);
        got.extend(p.push_bytes(&b[cut..]));
        assert_eq!(got, all, "cut at {}", cut);
    }
    let mut one_by_one = SseParser::new();
    let mut got = Vec::new();
    for byte in b {
        got.extend(one_by_one.push_bytes(&[*byte]));
    }
    assert_eq!(got, all);
}

#[test]
fn stream_deltas() {
    assert!(is_done_marker("[DONE]"));
    assert!(!is_done_marker("[DONE] "));
    let evs = openai_deltas(&[
        (Some("think".to_string()), Some("say".to_string())),
        (Some("".to_string()), None),
        (None, Some("more".to_string())),
    ]);
    let texts: Vec<String> = evs
        .iter()
        .map(|e| match e {
            StreamEvent::ReasoningDelta(s) => format!("R:{}", s),
            StreamEvent::ContentDelta(s) => format!("C:{}", s),
            StreamEvent::Done => "D".to_string(),
        })
        .collect();
    assert_eq!(texts, vec!["R:think", "C:say", "C:more"]);
    assert!(anthropic_wants_event("content_block_delta"));
    assert!(!anthropic_wants_event("message_start"));
    assert!(matches!(
        anthropic_delta(Some(("text_delta".to_string(), "hi".to_string()))),
        Some(StreamEvent::ContentDelta(ref s)) if s == "hi"
    ));
    assert!(anthropic_delta(Some(("input_json_delta".to_string(), "x".to_string()))).is_none());
    assert!(anthropic_delta(Some(("text_delta".to_string(), "".to_string()))).is_none());
    assert!(anthropic_delta(None).is_none());
    let g = gemini_deltas(&[Some(vec![Some("a".to_string()), Some("".to_string())]), None, Some(vec![Some("b".to_string())])]);
    assert_eq!(g.len(), 2);
    assert!(matches!(&g[1], StreamEvent::ContentDelta(s) if s == "b"));
}

#[test]
fn anthropic_requests_ask_for_1024_tokens() {
    assert_eq!(shellmaster::services::ai::ANTHROPIC_MAX_TOKENS, 1024);
}
