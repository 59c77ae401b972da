use youwee::summary::{
    build_prompt, connection_message, ensure_enabled, frame_body, network_error, plan_summary, read_response,
    request_for, select_backend, summary_from_text, AIConfig, AIError, AIProvider, Backend,
    SummaryResult, SummaryStyle, CONNECTION_PROBE,
};

fn config(provider: AIProvider, key: Option<&str>) -> AIConfig {
    AIConfig {
        enabled: true,
        provider,
        api_key: key.map(|k| k.to_string()),
        model: "m1".to_string(),
        ollama_url: None,
        summary_style: SummaryStyle::Short,
        summary_language: "auto".to_string(),
    }
}

#[test]
fn prompt_short_auto() {
    assert_eq!(
        build_prompt("HELLO", &SummaryStyle::Short, "auto"),
        "You are a helpful assistant that summarizes video content.\n\nProvide a concise summary in 2-3 sentences.\nRespond in the same language as the transcript.\n\nHere is the video transcript:\n\nHELLO\n\nSummary:"
    );
}

#[test]
fn prompt_detailed_with_languages() {
    let p = build_prompt("t", &SummaryStyle::Detailed, "vi");
    assert_eq!(
        p,
        "You are a helpful assistant that summarizes video content.\n\nProvide a detailed summary with bullet points covering the main topics and key takeaways.\nRespond in Vietnamese.\n\nHere is the video transcript:\n\nt\n\nSummary:"
    );
    assert!(build_prompt("t", &SummaryStyle::Short, "xx").contains("\nRespond in xx.\n"));
    assert!(build_prompt("t", &SummaryStyle::Short, "ru").contains("\nRespond in Russian.\n"));
}

#[test]
fn prompt_truncates_at_character_budget() {
    let long = "é".repeat(8001);
    let p = build_prompt(&long, &SummaryStyle::Short, "auto");
    let expected_tail = format!("{}... [truncated]\n\nSummary:", "é".repeat(8000));
    assert!(p.ends_with(&expected_tail));
    let exact = "a".repeat(8000);
    let p = build_prompt(&exact, &SummaryStyle::Short, "auto");
    assert!(p.ends_with(&format!("{}\n\nSummary:", exact)));
    assert!(!p.contains("[truncated]"));
}

#[test]
fn scenario_empty_transcript_refused_before_dispatch() {
    for t in ["", "   ", "\n\t "] {
        assert!(matches!(plan_summary(&config(AIProvider::Gemini, Some("k")), t), Err(AIError::NoTranscript)));
    }
    assert!(matches!(plan_summary(&config(AIProvider::Gemini, None), ""), Err(AIError::NoTranscript)));
}

#[test]
fn missing_credential() {
    assert!(matches!(plan_summary(&config(AIProvider::Gemini, None), "text"), Err(AIError::NoApiKey)));
    assert!(matches!(plan_summary(&config(AIProvider::OpenAI, None), "text"), Err(AIError::NoApiKey)));
    assert!(plan_summary(&config(AIProvider::Ollama, None), "text").is_ok());
}

#[test]
fn local_backend_defaults_to_well_known_address() {
    match select_backend(&config(AIProvider::Ollama, None)) {
        Ok(Backend::Ollama { base_url }) => assert_eq!(base_url, "http://localhost:11434"),
        other => panic!("unexpected {:?}", other),
    }
    let call = plan_summary(&config(AIProvider::Ollama, None), "text").unwrap();
    assert_eq!(call.request.url, "http://localhost:11434/api/generate");
    assert_eq!(call.model, "m1");
}

#[test]
fn gemini_request() {
    let call = plan_summary(&config(AIProvider::Gemini, Some("KEY")), "hi").unwrap();
    assert_eq!(
        call.request.url,
        "https://generativelanguage.googleapis.com/v1beta/models/m1:generateContent?key=KEY"
    );
    assert_eq!(call.request.headers, vec![("Content-Type".to_string(), "application/json".to_string())]);
    let prompt = build_prompt("hi", &SummaryStyle::Short, "auto");
    let body: serde_json::Value = serde_json::from_str(&call.request.body).unwrap();
    assert_eq!(body["contents"][0]["parts"][0]["text"], serde_json::Value::String(prompt));
    assert_eq!(body["generationConfig"]["maxOutputTokens"], 1024);
}

#[test]
fn openai_request() {
    let b = Backend::OpenAI { api_key: "sk".to_string() };
    let r = request_for(&b, "gpt", "say \"hi\"\n");
    assert_eq!(r.url, "https://api.openai.com/v1/chat/completions");
    assert_eq!(
        r.headers,
        vec![
            ("Content-Type".to_string(), "application/json".to_string()),
            ("Authorization".to_string(), "Bearer sk".to_string()),
        ]
    );
    assert_eq!(
        r.body,
        "{\"model\":\"gpt\",\"messages\":[{\"role\":\"user\",\"content\":\"say \\\"hi\\\"\\n\"}],\"temperature\":0.7,\"max_tokens\":1024}"
    );
}

#[test]
fn ollama_request() {
    let b = Backend::Ollama { base_url: "http://h:1//".to_string() };
    let r = request_for(&b, "m\"x", "p");
    assert_eq!(r.url, "http://h:1/api/generate");
    assert_eq!(
        r.body,
        "{\"model\":\"m\\\"x\",\"prompt\":\"p\",\"stream\":false,\"options\":{\"temperature\":0.7}}"
    );
}

#[test]
fn responses_are_read_per_backend() {
    let g = Backend::Gemini { api_key: "k".to_string() };
    let r = read_response(&g, "gm", 200, "200 OK", "{\"candidates\":[{\"content\":{\"parts\":[{\"text\":\"  Sum  \"}]}}]}").unwrap();
    assert_eq!(r.summary, "Sum");
    assert_eq!(r.provider, "Gemini");
    assert_eq!(r.model, "gm");
    let o = Backend::OpenAI { api_key: "k".to_string() };
    let r = read_response(&o, "om", 200, "200 OK", "{\"choices\":[{\"message\":{\"content\":\"Yes\\n\"}}]}").unwrap();
    assert_eq!(r.summary, "Yes");
    assert_eq!(r.provider, "OpenAI");
    let l = Backend::Ollama { base_url: "u".to_string() };
    let r = read_response(&l, "lm", 201, "201 Created", "{\"response\":\"Local\"}").unwrap();
    assert_eq!(r.summary, "Local");
    assert_eq!(r.provider, "Ollama");
}

#[test]
fn response_errors() {
    let l = Backend::Ollama { base_url: "u".to_string() };
    match read_response(&l, "lm", 401, "401 Unauthorized", "nope") {
        Err(AIError::ApiError(m)) => assert_eq!(m, "Status 401 Unauthorized: nope"),
        other => panic!("unexpected {:?}", other),
    }
    match read_response(&l, "lm", 200, "200 OK", "{\"other\":1}") {
        Err(AIError::ParseError(m)) => assert_eq!(m, "No text in response"),
        other => panic!("unexpected {:?}", other),
    }
    match read_response(&l, "lm", 200, "200 OK", "{\"response\":5}") {
        Err(AIError::ParseError(m)) => assert_eq!(m, "No text in response"),
        other => panic!("unexpected {:?}", other),
    }
    match read_response(&l, "lm", 200, "200 OK", "not json") {
        Err(AIError::ParseError(m)) => assert!(!m.is_empty()),
        other => panic!("unexpected {:?}", other),
    }
}

#[test]
fn text_to_summary() {
    let b = Backend::OpenAI { api_key: "k".to_string() };
    let r = summary_from_text(&b, "m", Some("\t x y \n")).unwrap();
    assert_eq!(r.summary, "x y");
    assert!(matches!(summary_from_text(&b, "m", None), Err(AIError::ParseError(_))));
}

#[test]
fn summary_error_messages() {
    assert_eq!(AIError::NoApiKey.message(), "API key not configured. Please add your API key in Settings.");
    assert_eq!(AIError::NoTranscript.message(), "No transcript available for this video.");
    assert_eq!(AIError::ApiError("x".to_string()).message(), "AI API error: x");
    assert_eq!(AIError::NetworkError("y".to_string()).message(), "Network error: y");
    assert_eq!(AIError::ParseError("z".to_string()).message(), "Failed to parse response: z");
}

#[test]
fn network_errors() {
    let l = Backend::Ollama { base_url: "http://x".to_string() };
    assert_eq!(network_error(&l, "refused").message(), "Network error: Failed to connect to Ollama at http://x: refused");
    let g = Backend::Gemini { api_key: "k".to_string() };
    assert_eq!(network_error(&g, "timeout").message(), "Network error: timeout");
}

#[test]
fn defaults() {
    let c = AIConfig::default();
    assert!(!c.enabled);
    assert_eq!(c.provider, AIProvider::Gemini);
    assert_eq!(c.api_key, None);
    assert_eq!(c.model, "gemini-2.0-flash");
    assert_eq!(c.ollama_url.as_deref(), Some("http://localhost:11434"));
    assert_eq!(c.summary_style, SummaryStyle::Short);
    assert_eq!(c.summary_language, "auto");
    assert_eq!(AIProvider::default(), AIProvider::Gemini);
    assert_eq!(SummaryStyle::default(), SummaryStyle::Short);
    assert!(ensure_enabled(&c).is_err());
    assert_eq!(ensure_enabled(&c).unwrap_err(), "AI features are disabled. Enable them in Settings.");
    assert!(ensure_enabled(&config(AIProvider::Gemini, None)).is_ok());
}

#[test]
fn connection_report() {
    let r = SummaryResult { summary: "s".to_string(), provider: "Gemini".to_string(), model: "g".to_string() };
    assert_eq!(connection_message(&r), "Connection successful! Using Gemini with model g");
    assert!(plan_summary(&config(AIProvider::Gemini, Some("k")), CONNECTION_PROBE).is_ok());
}

#[test]
fn body_frames_per_backend() {
    let g = Backend::Gemini { api_key: "k".to_string() };
    assert_eq!(
        frame_body(&g, "\"m\"", "\"p\""),
        "{\"contents\":[{\"parts\":[{\"text\":\"p\"}]}],\"generationConfig\":{\"temperature\":0.7,\"maxOutputTokens\":1024}}"
    );
    let l = Backend::Ollama { base_url: "u".to_string() };
    assert_eq!(
        frame_body(&l, "M", "P"),
        "{\"model\":M,\"prompt\":P,\"stream\":false,\"options\":{\"temperature\":0.7}}"
    );
}

#[test]
fn prompt_escaping_in_request_body() {
    let l = Backend::Ollama { base_url: "u".to_string() };
    let r = request_for(&l, "m", "a\u{1}b\u{1f}\u{8}\u{c}\t\r\\/é");
    assert_eq!(
        r.body,
        "{\"model\":\"m\",\"prompt\":\"a\\u0001b\\u001f\\b\\f\\t\\r\\\\/é\",\"stream\":false,\"options\":{\"temperature\":0.7}}"
    );
}
