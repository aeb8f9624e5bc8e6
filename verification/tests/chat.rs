use markflow::chat::{
    conclude_chat, prepare_chat, reply_succeeded, ChatMessage, ChatReply, ChatRequest, DeepSeekChoice,
    DeepSeekError, DeepSeekErrorBody, DeepSeekMessage, DeepSeekResponse,
};

fn request(endpoint: &str) -> ChatRequest {
    ChatRequest {
        endpoint: endpoint.to_string(),
        api_key: "  SECRET-REDACTED \n".to_string(),
        model: " deepseek-chat ".to_string(),
        messages: vec![
            ChatMessage { role: "system".to_string(), content: "Polish the text.".to_string() },
            ChatMessage { role: "user".to_string(), content: "Line \"one\"\nline two".to_string() },
        ],
    }
}

fn expected_body(req: &ChatRequest) -> String {
    let mut messages = Vec::new();
    for m in &req.messages {
        let mut obj = serde_json::Map::new();
        obj.insert("role".to_string(), serde_json::Value::String(m.role.clone()));
        obj.insert("content".to_string(), serde_json::Value::String(m.content.clone()));
        messages.push(serde_json::Value::Object(obj));
    }
    let mut body = serde_json::Map::new();
    body.insert("model".to_string(), serde_json::Value::String(req.model.trim().to_string()));
    body.insert("messages".to_string(), serde_json::Value::Array(messages));
    body.insert("stream".to_string(), serde_json::Value::Bool(false));
    serde_json::to_string(&serde_json::Value::Object(body)).unwrap()
}

#[test]
fn endpoint_gets_the_completions_path_appended() {
    let req = request("  https://api.deepseek.com/v1/ ");
    let p = prepare_chat(&req).unwrap();
    assert_eq!(p.url, "https://api.deepseek.com/v1/chat/completions");
    let p = prepare_chat(&request("https://api.deepseek.com")).unwrap();
    assert_eq!(p.url, "https://api.deepseek.com/chat/completions");
}

#[test]
fn endpoint_with_completions_path_is_kept() {
    let p = prepare_chat(&request("https://api.deepseek.com/chat/completions")).unwrap();
    assert_eq!(p.url, "https://api.deepseek.com/chat/completions");
}

#[test]
fn endpoint_that_is_not_http_is_refused() {
    assert_eq!(
        prepare_chat(&request(" ftp://example.com ")),
        Err("Invalid API endpoint: ftp://example.com".to_string())
    );
    assert_eq!(prepare_chat(&request("   ")), Err("Invalid API endpoint: ".to_string()));
}

#[test]
fn authorization_uses_the_trimmed_key() {
    let p = prepare_chat(&request("http://localhost:8080")).unwrap();
    assert_eq!(p.authorization, "Bearer SECRET-REDACTED");
}

#[test]
fn body_is_the_json_that_serde_json_writes() {
    let req = request("https://x");
    let p = prepare_chat(&req).unwrap();
    assert_eq!(p.body, expected_body(&req));
    let mut empty = request("https://x");
    empty.messages.clear();
    let p = prepare_chat(&empty).unwrap();
    assert_eq!(p.body, "{\"messages\":[],\"model\":\"deepseek-chat\",\"stream\":false}");
}

#[test]
fn first_choice_content_is_the_answer() {
    let data = DeepSeekResponse {
        choices: Some(vec![
            DeepSeekChoice { message: Some(DeepSeekMessage { content: Some("Hello".to_string()) }) },
            DeepSeekChoice { message: Some(DeepSeekMessage { content: Some("Other".to_string()) }) },
        ]),
    };
    let r = conclude_chat(ChatReply::Accepted(Ok(data))).unwrap();
    assert_eq!(r.content, "Hello");
}

#[test]
fn missing_content_gives_the_placeholder() {
    for data in [
        DeepSeekResponse { choices: None },
        DeepSeekResponse { choices: Some(vec![]) },
        DeepSeekResponse { choices: Some(vec![DeepSeekChoice { message: None }]) },
        DeepSeekResponse {
            choices: Some(vec![DeepSeekChoice { message: Some(DeepSeekMessage { content: None }) }]),
        },
    ] {
        let r = conclude_chat(ChatReply::Accepted(Ok(data))).unwrap();
        assert_eq!(r.content, "(No response content)");
    }
}

#[test]
fn each_failure_has_its_message() {
    assert_eq!(
        conclude_chat(ChatReply::ClientFailed("tls".to_string())),
        Err("Failed to create HTTP client: tls".to_string())
    );
    assert_eq!(
        conclude_chat(ChatReply::SendFailed("timeout".to_string())),
        Err("Request failed: timeout".to_string())
    );
    assert_eq!(
        conclude_chat(ChatReply::Accepted(Err("EOF".to_string()))),
        Err("Failed to parse response: EOF".to_string())
    );
}

#[test]
fn rejected_reply_prefers_the_server_message() {
    let body = DeepSeekError {
        error: Some(DeepSeekErrorBody { message: Some("Authentication Fails".to_string()) }),
    };
    assert_eq!(
        conclude_chat(ChatReply::Rejected { status: "401 Unauthorized".to_string(), body: Some(body) }),
        Err("Authentication Fails".to_string())
    );
    assert_eq!(
        conclude_chat(ChatReply::Rejected { status: "404 Not Found".to_string(), body: None }),
        Err("HTTP 404 Not Found".to_string())
    );
    let empty = DeepSeekError { error: Some(DeepSeekErrorBody { message: None }) };
    assert_eq!(
        conclude_chat(ChatReply::Rejected { status: "500 Internal Server Error".to_string(), body: Some(empty) }),
        Err("HTTP 500 Internal Server Error".to_string())
    );
}

#[test]
fn normalised_endpoint_is_kept_as_it_is() {
    let first = prepare_chat(&request("https://api.deepseek.com/v1//")).unwrap();
    let second = prepare_chat(&request(&first.url)).unwrap();
    assert_eq!(first.url, second.url);
    assert!(second.url.starts_with("http"));
    let odd = prepare_chat(&request("http/")).unwrap();
    assert_eq!(odd.url, "http/chat/completions");
}

#[test]
fn only_2xx_status_codes_succeed() {
    assert!(reply_succeeded(200));
    assert!(reply_succeeded(204));
    assert!(reply_succeeded(299));
    assert!(!reply_succeeded(199));
    assert!(!reply_succeeded(300));
    assert!(!reply_succeeded(401));
    assert!(!reply_succeeded(500));
}
