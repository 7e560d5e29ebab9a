use ai_news_pusher::engine::storage::{
    Settings, Source, SourceType, StorageError, Task, TaskAction,
};
use std::collections::HashMap;

fn sample_settings() -> Settings {
    Settings {
        ai_provider: "moonshot".to_string(),
        api_key: "sk-\"quoted\"\n".to_string(),
        model: "moonshot-v1-8k".to_string(),
        push_channels: vec!["email".to_string(), "telegram".to_string(), "飞书".to_string()],
        channel_targets: vec![
            ("telegram".to_string(), "12345".to_string()),
            ("email".to_string(), "a@b.com".to_string()),
            ("telegram".to_string(), "67890".to_string()),
        ],
        timezone: "UTC".to_string(),
    }
}

fn targets(s: &Settings) -> HashMap<String, String> {
    s.channel_targets.iter().cloned().collect()
}

#[test]
fn defaults_are_openai_and_shanghai() {
    let d = Settings::defaults();
    assert_eq!(d.ai_provider, "openai");
    assert_eq!(d.api_key, "");
    assert_eq!(d.model, "gpt-4o-mini");
    assert!(d.push_channels.is_empty());
    assert!(d.channel_targets.is_empty());
    assert_eq!(d.timezone, "Asia/Shanghai");
    let none = Settings::from_entries(Vec::new());
    assert_eq!(none.model, "gpt-4o-mini");
}

#[test]
fn settings_read_back_what_was_saved() {
    let s = sample_settings();
    let entries = s.to_entries();
    let keys: Vec<&str> = entries.iter().map(|e| e.0.as_str()).collect();
    assert_eq!(keys, vec!["ai_provider", "api_key", "model", "push_channels", "channel_targets", "timezone"]);
    assert_eq!(entries[3].1, serde_json::to_string(&s.push_channels).unwrap());
    let map: std::collections::BTreeMap<String, String> = s.channel_targets.iter().cloned().collect();
    assert_eq!(entries[4].1, serde_json::to_string(&map).unwrap());
    let back = Settings::from_entries(entries);
    assert_eq!(back.ai_provider, s.ai_provider);
    assert_eq!(back.api_key, s.api_key);
    assert_eq!(back.model, s.model);
    assert_eq!(back.push_channels, s.push_channels);
    assert_eq!(targets(&back), targets(&s));
    assert_eq!(targets(&back).get("telegram").unwrap(), "67890");
    assert_eq!(back.timezone, s.timezone);
}

#[test]
fn unreadable_lists_and_unknown_keys() {
    let entries = vec![
        ("push_channels".to_string(), "not json".to_string()),
        ("channel_targets".to_string(), "[1,2]".to_string()),
        ("colour".to_string(), "blue".to_string()),
        ("model".to_string(), "gpt-4o".to_string()),
    ];
    let s = Settings::from_entries(entries);
    assert!(s.push_channels.is_empty());
    assert!(s.channel_targets.is_empty());
    assert_eq!(s.model, "gpt-4o");
    assert_eq!(s.ai_provider, "openai");
}

#[test]
fn a_later_entry_replaces_an_earlier_one() {
    let mut s = Settings::defaults();
    s.apply_entry("timezone", "Europe/Paris".to_string());
    s.apply_entry("timezone", "UTC".to_string());
    s.apply_entry("push_channels", r#"["qq"]"#.to_string());
    assert_eq!(s.timezone, "UTC");
    assert_eq!(s.push_channels, vec!["qq".to_string()]);
}

#[test]
fn source_types_parse_ignoring_case() {
    assert!(matches!(SourceType::from_name("RSS"), Ok(SourceType::Rss)));
    assert!(matches!(SourceType::from_name("WebSite"), Ok(SourceType::Website)));
    assert!(matches!(SourceType::from_name("firecrawl"), Ok(SourceType::Firecrawl)));
    assert!(matches!(SourceType::from_name("Jina"), Ok(SourceType::Jina)));
    match SourceType::from_name("Blog") {
        Err(e) => assert_eq!(e, "Unknown source type: Blog"),
        Ok(_) => panic!("Blog is not a source type"),
    }
    match SourceType::from_name("atom") {
        Err(e) => assert_eq!(e, "Unknown source type: atom"),
        Ok(_) => panic!("atom is not a source type"),
    }
    for t in [SourceType::Rss, SourceType::Website, SourceType::Firecrawl, SourceType::Jina] {
        let name = t.to_string();
        assert_eq!(SourceType::from_name(&name).ok().unwrap().to_string(), name);
        assert_eq!(SourceType::from_name(&name.to_uppercase()).ok().unwrap().to_string(), name);
    }
}

#[test]
fn task_actions_parse_ignoring_case() {
    assert!(matches!(TaskAction::from_name("Collect"), Ok(TaskAction::Collect)));
    assert!(matches!(TaskAction::from_name("PROCESS"), Ok(TaskAction::Process)));
    assert!(matches!(TaskAction::from_name("push"), Ok(TaskAction::Push)));
    assert!(matches!(TaskAction::from_name("all"), Ok(TaskAction::All)));
    match TaskAction::from_name("sleep") {
        Err(e) => assert_eq!(e, "Unknown task action: sleep"),
        Ok(_) => panic!("sleep is not an action"),
    }
    for a in [TaskAction::Collect, TaskAction::Process, TaskAction::Push, TaskAction::All] {
        let name = a.to_string();
        assert_eq!(TaskAction::from_name(&name).ok().unwrap().to_string(), name);
        assert_eq!(TaskAction::from_name(&name.to_uppercase()).ok().unwrap().to_string(), name);
    }
}

#[test]
fn rows_become_records() {
    let s = Source::from_row(
        7,
        "Hacker News".to_string(),
        "https://hnrss.org/frontpage".to_string(),
        "unknown",
        "tech".to_string(),
        0,
        "2024-01-01T00:00:00+00:00".to_string(),
        "2024-01-02T00:00:00+00:00".to_string(),
    );
    assert_eq!(s.id, 7);
    assert!(matches!(s.source_type, SourceType::Website));
    assert!(!s.enabled);
    assert_eq!(s.updated_at, "2024-01-02T00:00:00+00:00");
    let added = Source::created(8, "Feed", "https://x/rss", "RSS", "ai", "now");
    assert!(added.enabled);
    assert!(matches!(added.source_type, SourceType::Rss));
    assert_eq!(added.created_at, "now");
    assert_eq!(added.updated_at, "now");
    let t = Task::from_row(3, "daily".to_string(), "0 0 8 * * *".to_string(), 1, "bogus", "t".to_string());
    assert!(t.enabled);
    assert!(matches!(t.action, TaskAction::All));
    let t2 = Task::created(4, "push", "0 */5 * * * *", "push", "t2");
    assert!(matches!(t2.action, TaskAction::Push));
    assert_eq!(t2.cron_expression, "0 */5 * * * *");
}

#[test]
fn storage_error_texts() {
    assert_eq!(StorageError::Database("locked".to_string()).to_string(), "数据库错误: locked");
    assert_eq!(StorageError::NotFound.to_string(), "数据不存在");
}

#[test]
fn settings_read_back_in_any_order_beside_other_keys() {
    let s = sample_settings();
    let mut rows = s.to_entries();
    rows.reverse();
    rows.insert(2, ("colour".to_string(), "blue".to_string()));
    let back = Settings::from_entries(rows);
    assert_eq!(back.ai_provider, s.ai_provider);
    assert_eq!(back.api_key, s.api_key);
    assert_eq!(back.model, s.model);
    assert_eq!(back.push_channels, s.push_channels);
    assert_eq!(targets(&back), targets(&s));
    assert_eq!(back.timezone, s.timezone);
}
