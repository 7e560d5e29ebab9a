use ai_news_pusher::engine::ai_provider::{
    create_ai_wrapper, AIError, AIProvider, AIProviderType, AIRequest, AIWrapper, ChatEvent,
    ChatStep, GeminiProvider, Message, MoonShotProvider, OpenAIProvider, Provider,
};
use ai_news_pusher::json::{
    array_exec, get_array_strings, get_element, get_field, get_i64, get_str_or,
    get_u32_or_zero, join_exec, member_exec, object_exec, quote, Json, JsonNumber,
};
use serde_json::Value;

fn to_json(v: &Value) -> Json {
    match v {
        Value::Null => Json::Null,
        Value::Bool(b) => Json::Bool(*b),
        Value::Number(n) => {
            if let Some(u) = n.as_u64() {
                Json::Number(JsonNumber::PosInt(u))
            } else if let Some(i) = n.as_i64() {
                Json::Number(JsonNumber::NegInt(i))
            } else {
                Json::Number(JsonNumber::Float)
            }
        }
        Value::String(s) => Json::String(s.clone()),
        Value::Array(items) => Json::Array(items.iter().map(to_json).collect()),
        Value::Object(m) => Json::Object(m.iter().map(|(k, x)| (k.clone(), to_json(x))).collect()),
    }
}

fn parse(text: &str) -> Json {
    to_json(&serde_json::from_str::<Value>(text).unwrap())
}

fn msg(role: &str, content: &str) -> Message {
    Message { role: role.to_string(), content: content.to_string() }
}

fn obj(pairs: Vec<(&str, Value)>) -> Value {
    let mut m = serde_json::Map::new();
    for (k, v) in pairs {
        m.insert(k.to_string(), v);
    }
    Value::Object(m)
}

fn messages() -> Vec<Message> {
    vec![
        msg("system", "You are \"helpful\"\n"),
        msg("user", "总结一下：AI 新闻 \u{1}"),
        msg("assistant", "好的"),
    ]
}

fn expected_chat_body(model: &str, ms: &[Message], temperature: f32, max_tokens: Option<u32>) -> String {
    let list: Vec<Value> = ms
        .iter()
        .map(|m| obj(vec![("role", Value::from(m.role.clone())), ("content", Value::from(m.content.clone()))]))
        .collect();
    let v = obj(vec![
        ("model", Value::from(model)),
        ("messages", Value::Array(list)),
        ("temperature", serde_json::to_value(temperature).unwrap()),
        ("max_tokens", Value::from(max_tokens.unwrap_or(4096))),
    ]);
    serde_json::to_string(&v).unwrap()
}

/// The temperature as it stands in a `serde_json::Value` body: the `f32`
/// widened to `f64`.
fn temperature_text(t: f32) -> String {
    serde_json::to_value(t).unwrap().to_string()
}

#[test]
fn chat_body_matches_serde_json() {
    let p = OpenAIProvider::new("sk-test".to_string());
    for (t, max) in [(0.7f32, Some(1000)), (0.3f32, None), (1.0f32, Some(0))] {
        let body = p.build_request("gpt-4o-mini", &messages(), &temperature_text(t), max);
        assert_eq!(body, expected_chat_body("gpt-4o-mini", &messages(), t, max));
    }
}

#[test]
fn chat_body_without_messages() {
    let p = MoonShotProvider::new("k".to_string());
    let body = p.build_request("moonshot-v1-8k", &[], "0.5", None);
    assert_eq!(body, r#"{"max_tokens":4096,"messages":[],"model":"moonshot-v1-8k","temperature":0.5}"#);
}

#[test]
fn gemini_body_matches_serde_json() {
    let p = GeminiProvider::new("g".to_string());
    let ms = messages();
    let body = p.build_request("gemini-pro", &ms, &temperature_text(0.7), Some(256));
    let contents: Vec<Value> = ms
        .iter()
        .map(|m| {
            let role = if m.role == "user" { "user" } else { "model" };
            obj(vec![
                ("role", Value::from(role)),
                ("parts", Value::Array(vec![obj(vec![("text", Value::from(m.content.clone()))])])),
            ])
        })
        .collect();
    let expected = obj(vec![
        ("contents", Value::Array(contents)),
        (
            "generationConfig",
            obj(vec![
                ("temperature", serde_json::to_value(0.7f32).unwrap()),
                ("maxOutputTokens", Value::from(256u32)),
            ]),
        ),
    ]);
    assert_eq!(body, serde_json::to_string(&expected).unwrap());
}

#[test]
fn gemini_through_the_trait_uses_the_chat_body() {
    let p = GeminiProvider::new("g".to_string());
    let via_trait =
        <GeminiProvider as AIProvider>::build_request(&p, "gemini-pro", &messages(), &temperature_text(0.3), Some(5));
    assert_eq!(via_trait, expected_chat_body("gemini-pro", &messages(), 0.3, Some(5)));
}

#[test]
fn providers_report_kind_url_and_key() {
    let o = OpenAIProvider::new("a".to_string());
    assert!(matches!(o.provider_type(), AIProviderType::OpenAI));
    assert_eq!(o.base_url(), "https://api.openai.com/v1");
    assert_eq!(o.api_key(), "a");
    let m = MoonShotProvider::new("b".to_string());
    assert!(matches!(m.provider_type(), AIProviderType::MoonShot));
    assert_eq!(m.base_url(), "https://api.moonshot.cn/v1");
    let g = GeminiProvider::new("c".to_string());
    assert!(matches!(g.provider_type(), AIProviderType::Gemini));
    assert_eq!(g.base_url(), "https://generativelanguage.googleapis.com/v1beta");
    assert_eq!(g.api_key(), "c");
}

#[test]
fn openai_reply_is_read() {
    let reply = parse(
        r#"{"model":"gpt-4o-mini","choices":[{"message":{"role":"assistant","content":"你好"}}],
            "usage":{"prompt_tokens":12,"completion_tokens":3,"total_tokens":15}}"#,
    );
    let r = OpenAIProvider::new("k".to_string()).parse_response(&reply).ok().unwrap();
    assert_eq!(r.content, "你好");
    assert_eq!(r.model, "gpt-4o-mini");
    assert_eq!(r.usage.prompt_tokens, 12);
    assert_eq!(r.usage.completion_tokens, 3);
    assert_eq!(r.usage.total_tokens, 15);
}

#[test]
fn openai_reply_with_missing_parts_reads_defaults() {
    let reply = parse(r#"{"choices":[],"usage":{"prompt_tokens":4294967297,"total_tokens":-1}}"#);
    let r = OpenAIProvider::new("k".to_string()).parse_response(&reply).ok().unwrap();
    assert_eq!(r.content, "");
    assert_eq!(r.model, "");
    // `as u32` keeps the low 32 bits
    assert_eq!(r.usage.prompt_tokens, 1);
    assert_eq!(r.usage.completion_tokens, 0);
    assert_eq!(r.usage.total_tokens, 0);
}

#[test]
fn gemini_reply_is_read() {
    let reply = parse(
        r#"{"candidates":[{"content":{"parts":[{"text":"答案"}]}}],
            "usageMetadata":{"promptTokenCount":7,"candidatesTokenCount":2,"totalTokenCount":9}}"#,
    );
    let r = GeminiProvider::new("k".to_string()).parse_response(&reply).ok().unwrap();
    assert_eq!(r.content, "答案");
    assert_eq!(r.model, "gemini");
    assert_eq!(r.usage.total_tokens, 9);
    let with_version = parse(r#"{"modelVersion":"gemini-1.5"}"#);
    let r2 = GeminiProvider::new("k".to_string()).parse_response(&with_version).ok().unwrap();
    assert_eq!(r2.model, "gemini-1.5");
    assert_eq!(r2.content, "");
}

#[test]
fn wrapper_registers_and_finds_providers() {
    let mut w = AIWrapper::new();
    assert!(w.get_provider("openai").is_none());
    w.add_provider("openai".to_string(), Provider::OpenAI(OpenAIProvider::new("one".to_string())));
    w.add_provider("openai".to_string(), Provider::OpenAI(OpenAIProvider::new("two".to_string())));
    w.add_provider("gemini".to_string(), Provider::Gemini(GeminiProvider::new("g".to_string())));
    assert_eq!(w.get_provider("openai").unwrap().api_key(), "two");
    assert_eq!(w.get_provider("gemini").unwrap().api_key(), "g");
    assert!(w.get_provider("moonshot").is_none());
    let d = AIWrapper::default();
    assert!(d.get_provider("openai").is_none());
}

#[test]
fn create_ai_wrapper_supports_three_providers() {
    for name in ["openai", "moonshot", "gemini"] {
        let w = create_ai_wrapper("key", name, "m").ok().unwrap();
        assert_eq!(w.get_provider(name).unwrap().api_key(), "key");
    }
    for name in ["anthropic", "minimax", "OpenAI", ""] {
        match create_ai_wrapper("key", name, "m") {
            Err(e) => assert_eq!(e.to_string(), format!("不支持的提供商: {}", name)),
            Ok(_) => panic!("{} should be refused", name),
        }
    }
}

#[test]
fn ai_error_texts() {
    assert_eq!(AIError::Request("timeout".to_string()).to_string(), "请求错误: timeout");
    assert_eq!(AIError::Api("bad".to_string()).to_string(), "API 错误: bad");
    assert_eq!(AIError::Config("x".to_string()).to_string(), "配置错误: x");
    assert_eq!(AIError::UnsupportedProvider("y".to_string()).to_string(), "不支持的提供商: y");
}

#[test]
fn plan_chat_for_known_and_unknown_providers() {
    let w = create_ai_wrapper("sk-1", "moonshot", "m").ok().unwrap();
    let request = AIRequest {
        model: "moonshot-v1-8k".to_string(),
        messages: messages(),
        temperature: temperature_text(0.7),
        max_tokens: Some(1000),
    };
    let plan = w.plan_chat("moonshot", &request).ok().unwrap();
    assert_eq!(plan.url, "https://api.moonshot.cn/v1/chat/completions");
    assert_eq!(plan.authorization, "Bearer sk-1");
    assert_eq!(plan.body, expected_chat_body("moonshot-v1-8k", &messages(), 0.7, Some(1000)));
    match w.plan_chat("openai", &request) {
        Err(e) => assert_eq!(e.to_string(), "不支持的提供商: openai"),
        Ok(_) => panic!("openai is not registered"),
    }
}

#[test]
fn a_chat_retries_three_times_with_doubling_waits() {
    let w = create_ai_wrapper("k", "openai", "m").ok().unwrap();
    let p = w.get_provider("openai").unwrap();
    let mut retry = w.retry();
    let mut waits = Vec::new();
    let mut sends = 0;
    let mut step = retry.begin();
    let result = loop {
        match step {
            ChatStep::Send => {
                sends += 1;
                step = retry.on_event(p, ChatEvent::Failed(format!("status {}", sends)));
            }
            ChatStep::Wait(ms) => {
                waits.push(ms);
                step = retry.after_wait();
            }
            ChatStep::Finish(r) => break r,
        }
    };
    assert_eq!(sends, 3);
    assert_eq!(waits, vec![100, 200, 400]);
    match result {
        Err(e) => assert_eq!(e.to_string(), "API 错误: status 3"),
        Ok(_) => panic!("every attempt failed"),
    }
}

#[test]
fn a_chat_ends_on_the_first_reply() {
    let w = create_ai_wrapper("k", "openai", "m").ok().unwrap();
    let p = w.get_provider("openai").unwrap();
    let mut retry = w.retry();
    assert!(matches!(retry.begin(), ChatStep::Send));
    let step = retry.on_event(p, ChatEvent::Unreachable("dns".to_string()));
    assert!(matches!(step, ChatStep::Wait(100)));
    assert!(matches!(retry.after_wait(), ChatStep::Send));
    let reply = parse(r#"{"model":"m","choices":[{"message":{"content":"ok"}}]}"#);
    match retry.on_event(p, ChatEvent::Replied(reply)) {
        ChatStep::Finish(Ok(r)) => {
            assert_eq!(r.content, "ok");
            assert_eq!(r.model, "m");
        }
        _ => panic!("a reply ends the chat"),
    }
}

#[test]
fn an_unreadable_body_ends_the_chat() {
    let w = create_ai_wrapper("k", "gemini", "m").ok().unwrap();
    let p = w.get_provider("gemini").unwrap();
    let mut retry = w.retry();
    assert!(matches!(retry.begin(), ChatStep::Send));
    match retry.on_event(p, ChatEvent::BodyUnreadable("eof".to_string())) {
        ChatStep::Finish(Err(e)) => assert_eq!(e.to_string(), "请求错误: eof"),
        _ => panic!("an unreadable body ends the chat"),
    }
}

#[test]
fn json_readers_follow_serde_json_indexing() {
    let text = r#"{"a":{"b":[1,"two",null,-3,18446744073709551615,2.5]},"s":"x","arr":["p",1,"q",{"k":"v"}]}"#;
    let value: Value = serde_json::from_str(text).unwrap();
    let j = to_json(&value);
    let b = get_field(&j, "a").and_then(|a| get_field(a, "b"));
    for i in 0..8usize {
        let e = get_element(b, i);
        let v = &value["a"]["b"][i];
        assert_eq!(get_str_or(e, "dflt"), v.as_str().unwrap_or("dflt"));
        assert_eq!(get_i64(e), v.as_i64());
        assert_eq!(get_u32_or_zero(e), v.as_u64().unwrap_or(0) as u32);
    }
    assert_eq!(get_str_or(get_field(&j, "s"), ""), "x");
    assert!(get_field(&j, "missing").is_none());
    let expected: Vec<String> = value["arr"]
        .as_array()
        .map(|a| a.iter().filter_map(|v| v.as_str().map(String::from)).collect())
        .unwrap_or_default();
    assert_eq!(get_array_strings(get_field(&j, "arr")), expected);
    assert!(get_array_strings(get_field(&j, "s")).is_empty());
}

#[test]
fn json_framing_matches_serde_json() {
    let pieces = vec!["a".to_string(), "b".to_string(), "c".to_string()];
    assert_eq!(join_exec(&pieces, ", "), "a, b, c");
    assert_eq!(join_exec(&Vec::new(), ","), "");
    assert_eq!(member_exec("k\"ey", "1"), r#""k\"ey":1"#);
    let entries = vec![("x".to_string(), "1".to_string()), ("y".to_string(), "\"z\"".to_string())];
    assert_eq!(object_exec(&entries), r#"{"x":1,"y":"z"}"#);
    assert_eq!(object_exec(&Vec::new()), "{}");
    assert_eq!(array_exec(&vec!["1".to_string(), "true".to_string()]), "[1,true]");
    assert_eq!(array_exec(&Vec::new()), "[]");
}

#[test]
fn string_literals_match_serde_json() {
    let mut all_controls = String::new();
    for b in 0u8..0x20 {
        all_controls.push(b as char);
    }
    for s in ["", "plain", "quote \" and \\ backslash", "\u{7f} del", "中文 📰", "/slash/", all_controls.as_str()] {
        assert_eq!(quote(s), serde_json::to_string(s).unwrap(), "text {:?}", s);
    }
    assert_eq!(quote("a\u{1}b"), "\"a\\u0001b\"");
    assert_eq!(quote("\u{1f}"), "\"\\u001f\"");
}

#[test]
fn gemini_chats_send_gemini_bodies() {
    let w = create_ai_wrapper("g-key", "gemini", "gemini-pro").ok().unwrap();
    let request = AIRequest {
        model: "gemini-pro".to_string(),
        messages: messages(),
        temperature: temperature_text(0.7),
        max_tokens: None,
    };
    let plan = w.plan_chat("gemini", &request).ok().unwrap();
    assert_eq!(plan.url, "https://generativelanguage.googleapis.com/v1beta/chat/completions");
    assert_eq!(plan.authorization, "Bearer g-key");
    let direct = GeminiProvider::new("g-key".to_string()).build_request("gemini-pro", &messages(), &temperature_text(0.7), None);
    assert_eq!(plan.body, direct);
    assert!(plan.body.starts_with("{\"contents\":["));
    assert!(plan.body.contains("\"generationConfig\":{\"maxOutputTokens\":4096,"));
}
