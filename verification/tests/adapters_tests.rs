use ai_news_pusher::adapters::email::{
    is_valid_email, parse_email_config_from_key, EmailAdapter, EmailConfig, EmailFailure,
};
use ai_news_pusher::adapters::feishu::{FeishuAdapter, FeishuConfig};
use ai_news_pusher::adapters::qq::{QQAdapter, QQConfig};
use ai_news_pusher::adapters::telegram::{TelegramAdapter, TelegramConfig, TelegramReply};
use ai_news_pusher::adapters::wechat::{WeChatAdapter, WeChatConfig};
use ai_news_pusher::adapters::{ChannelType, PushMessage};
use ai_news_pusher::json::{Json, JsonNumber};
use serde_json::Value;

fn message() -> PushMessage {
    PushMessage {
        title: "新模型 *发布*".to_string(),
        content: "第一行\n第二行\n".to_string(),
        summary: "摘要 \"引号\"".to_string(),
        url: "https://example.com/a?b=1".to_string(),
        category: "AI".to_string(),
        source_name: "Example".to_string(),
    }
}

fn config() -> EmailConfig {
    EmailConfig {
        smtp_host: "smtp.example.com".to_string(),
        smtp_port: 465,
        username: "bot".to_string(),
        password: "secret".to_string(),
        from_email: "bot@example.com".to_string(),
        from_name: "AI 新闻".to_string(),
    }
}

fn to_json(v: &Value) -> Json {
    match v {
        Value::Null => Json::Null,
        Value::Bool(b) => Json::Bool(*b),
        Value::Number(n) => match (n.as_u64(), n.as_i64()) {
            (Some(u), _) => Json::Number(JsonNumber::PosInt(u)),
            (None, Some(i)) => Json::Number(JsonNumber::NegInt(i)),
            _ => Json::Number(JsonNumber::Float),
        },
        Value::String(s) => Json::String(s.clone()),
        Value::Array(items) => Json::Array(items.iter().map(to_json).collect()),
        Value::Object(m) => Json::Object(m.iter().map(|(k, x)| (k.clone(), to_json(x))).collect()),
    }
}

#[test]
fn email_addresses_are_checked_loosely() {
    for (s, ok) in [
        ("a@b.c", true),
        ("user@example.com", true),
        ("a@.", false),
        ("ab.c", false),
        ("abc@", false),
        ("@.", false),
        ("é@.", true),
        ("", false),
    ] {
        assert_eq!(is_valid_email(s), ok, "address {:?}", s);
        assert_eq!(is_valid_email(s), s.contains('@') && s.contains('.') && s.len() > 3);
    }
}

#[test]
fn email_compose_builds_the_mail() {
    let adapter = EmailAdapter::new(config());
    assert_eq!(adapter.config().smtp_port, 465);
    let draft = adapter.compose(&message(), "reader@example.com").ok().unwrap();
    assert_eq!(draft.from, "AI 新闻 <bot@example.com>");
    assert_eq!(draft.to, "reader@example.com");
    assert_eq!(draft.subject, "新模型 *发布*");
    assert_eq!(draft.content_type, "text/html");
    assert_eq!(draft.smtp_host, "smtp.example.com");
    assert_eq!(draft.smtp_port, 465);
    assert_eq!(draft.username, "bot");
    assert_eq!(draft.password, "secret");
    assert_eq!(draft.timeout_secs, 30);
    let m = message();
    let expected = format!(
        "<html>\n<body>\n<h1>{}</h1>\n<p>{}</p>\n<hr>\n<p>来源: {}</p>\n<p>分类: {}</p>\n<p>原文链接: <a href=\"{}\">{}</a></p>\n</body>\n</html>",
        m.title,
        m.content.replace('\n', "<br>"),
        m.source_name,
        m.category,
        m.url,
        m.url
    );
    assert_eq!(draft.html_body, expected);
}

#[test]
fn email_compose_refuses_bad_addresses() {
    let adapter = EmailAdapter::new(config());
    match adapter.compose(&message(), "not-an-address") {
        Err(e) => assert_eq!(e, "无效的邮箱地址"),
        Ok(_) => panic!("the address is invalid"),
    }
}

#[test]
fn email_outcomes() {
    let ok = EmailAdapter::send_outcome(Ok(1_700_000_000)).ok().unwrap();
    assert!(ok.success);
    assert_eq!(ok.message_id, Some("email_1700000000".to_string()));
    assert_eq!(ok.error, None);
    let negative = EmailAdapter::send_outcome(Ok(-5)).ok().unwrap();
    assert_eq!(negative.message_id, Some("email_-5".to_string()));
    for (f, text) in [
        (EmailFailure::Build("x".to_string()), "构建邮件失败: x"),
        (EmailFailure::Connect("y".to_string()), "创建 SMTP 连接失败: y"),
        (EmailFailure::Send("z".to_string()), "发送失败: z"),
    ] {
        match EmailAdapter::send_outcome(Err(f)) {
            Err(e) => assert_eq!(e, text),
            Ok(_) => panic!("a failure is an error"),
        }
    }
}

#[test]
fn email_config_from_key() {
    let c = parse_email_config_from_key("smtp.qq.com:465:me:pw:me@qq.com:Me:extra").unwrap();
    assert_eq!(c.smtp_host, "smtp.qq.com");
    assert_eq!(c.smtp_port, 465);
    assert_eq!(c.username, "me");
    assert_eq!(c.password, "pw");
    assert_eq!(c.from_email, "me@qq.com");
    assert_eq!(c.from_name, "Me");
    let d = parse_email_config_from_key("h:notaport:u:p:f:n").unwrap();
    assert_eq!(d.smtp_port, 587);
    let e = parse_email_config_from_key("h:70000:u:p:f:n").unwrap();
    assert_eq!(e.smtp_port, 587);
    assert!(parse_email_config_from_key("h:25:u:p:f").is_none());
    assert!(parse_email_config_from_key("").is_none());
    for (h, port, u, p, f, n) in [("smtp.example.com", 0u16, "", "p w", "a@b.c", "名字"), ("h", 65535u16, "u", "p", "f", "n")] {
        let key = format!("{}:{}:{}:{}:{}:{}", h, port, u, p, f, n);
        for k in [key.clone(), format!("{}:extra:more", key)] {
            let c = parse_email_config_from_key(&k).unwrap();
            assert_eq!((c.smtp_host.as_str(), c.smtp_port, c.username.as_str()), (h, port, u));
            assert_eq!((c.password.as_str(), c.from_email.as_str(), c.from_name.as_str()), (p, f, n));
        }
    }
    let empty = parse_email_config_from_key(":::::").unwrap();
    assert_eq!(empty.smtp_host, "");
    assert_eq!(empty.smtp_port, 587);
}

#[test]
fn telegram_request() {
    let a = TelegramAdapter::new(TelegramConfig { bot_token: "123:ABC".to_string(), chat_id: "-100".to_string() });
    assert_eq!(a.endpoint(), "https://api.telegram.org/bot123:ABC/sendMessage");
    let m = message();
    let text = format!("📰 *{}*\n\n{}\n\n🔗 [查看原文]({})", m.title, m.summary, m.url);
    assert_eq!(TelegramAdapter::message_text(&m), text);
    let mut params = serde_json::Map::new();
    params.insert("chat_id".to_string(), Value::from("-100"));
    params.insert("text".to_string(), Value::from(text));
    params.insert("parse_mode".to_string(), Value::from("Markdown"));
    assert_eq!(a.request_body(&m), serde_json::to_string(&Value::Object(params)).unwrap());
}

#[test]
fn telegram_outcomes() {
    let body: Value = serde_json::from_str(r#"{"ok":true,"result":{"message_id":42}}"#).unwrap();
    let r = TelegramAdapter::outcome(TelegramReply::Accepted(to_json(&body)));
    assert!(r.success);
    assert_eq!(r.message_id, Some("42".to_string()));
    assert_eq!(r.error, None);
    let no_id: Value = serde_json::from_str(r#"{"ok":true}"#).unwrap();
    let r2 = TelegramAdapter::outcome(TelegramReply::Accepted(to_json(&no_id)));
    assert!(r2.success);
    assert_eq!(r2.message_id, None);
    let r3 = TelegramAdapter::outcome(TelegramReply::Rejected("Bad Request".to_string()));
    assert!(!r3.success);
    assert_eq!(r3.message_id, None);
    assert_eq!(r3.error, Some("Bad Request".to_string()));
}

#[test]
fn reserved_channels_are_not_implemented() {
    let m = message();
    let w = WeChatAdapter::new(WeChatConfig {
        app_id: "a".to_string(),
        app_secret: "b".to_string(),
        template_id: "c".to_string(),
    });
    let r = w.send(&m, "t").ok().unwrap();
    assert!(!r.success);
    assert_eq!(r.error, Some("微信推送功能预留，尚未实现".to_string()));
    let q = QQAdapter::new(QQConfig { server_url: "http://localhost".to_string(), group_id: "1".to_string() });
    let r = q.send(&m, "t").ok().unwrap();
    assert!(!r.success);
    assert_eq!(r.message_id, None);
    let f = FeishuAdapter::new(FeishuConfig { app_id: "a".to_string(), app_secret: "b".to_string(), webhook_url: None });
    let r = f.send(&m, "t").ok().unwrap();
    assert_eq!(r.error, Some("飞书推送功能预留，尚未实现".to_string()));
}

#[test]
fn channel_names() {
    assert_eq!(ChannelType::Email.to_string(), "email");
    assert_eq!(ChannelType::Telegram.to_string(), "telegram");
    assert_eq!(ChannelType::WeChat.to_string(), "wechat");
    assert_eq!(ChannelType::QQ.to_string(), "qq");
    assert_eq!(ChannelType::Feishu.to_string(), "feishu");
    assert_eq!(ChannelType::Webhook.to_string(), "webhook");
}
