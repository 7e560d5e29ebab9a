use ai_news_pusher::engine::processor::{
    AISummarizer, QualityAssessor, SimpleProcessor, TEMP_03, TEMP_07,
};
use ai_news_pusher::json::{Json, JsonNumber};
use serde_json::Value;

fn to_json(v: &Value) -> Json {
    match v {
        Value::Null => Json::Null,
        Value::Bool(b) => Json::Bool(*b),
        Value::Number(n) => match (n.as_u64(), n.as_i64()) {
            (Some(u), _) => Json::Number(JsonNumber::PosInt(u)),
            (None, Some(i)) => Json::Number(JsonNumber::NegInt(i)),
            _ => Json::Number(JsonNumber::Float),
        },
        Value::String(s) => Json::String(s.clone()),
        Value::Array(items) => Json::Array(items.iter().map(to_json).collect()),
        Value::Object(m) => Json::Object(m.iter().map(|(k, x)| (k.clone(), to_json(x))).collect()),
    }
}

fn read(reply: &str) -> Option<Json> {
    serde_json::from_str::<Value>(reply).ok().map(|v| to_json(&v))
}

#[test]
fn temperatures_are_written_as_a_json_value_holds_an_f32() {
    assert_eq!(TEMP_07, serde_json::to_value(0.7f32).unwrap().to_string());
    assert_eq!(TEMP_03, serde_json::to_value(0.3f32).unwrap().to_string());
}

#[test]
fn summary_prompt_and_request() {
    let content = "OpenAI 发布新模型";
    let expected = format!(
        "请分析以下内容，生成一个结构化的摘要。要求：\n1. 提取关键信息\n2. 分类（AI/机器人/游戏/科技/其他）\n3. 生成不超过200字的摘要\n4. 提取标签\n\n内容：\n{}\n\n请按以下 JSON 格式返回：\n{{\n    \"summary\": \"摘要内容\",\n    \"category\": \"分类\",\n    \"tags\": [\"标签1\", \"标签2\"]\n}}",
        content
    );
    assert_eq!(AISummarizer::prompt(content), expected);
    let s = AISummarizer::new("k".to_string(), "openai".to_string(), "gpt-4o-mini".to_string());
    assert_eq!(s.provider(), "openai");
    let r = s.request(content);
    assert_eq!(r.model, "gpt-4o-mini");
    assert_eq!(r.messages.len(), 1);
    assert_eq!(r.messages[0].role, "user");
    assert_eq!(r.messages[0].content, expected);
    assert_eq!(r.temperature, serde_json::to_value(0.7f32).unwrap().to_string());
    assert_eq!(r.max_tokens, Some(1000));
}

#[test]
fn summary_replies_are_read() {
    let reply = r#"{"summary":"新模型发布","category":"AI","tags":["OpenAI",3,"模型"]}"#;
    let p = AISummarizer::read_reply("原文", reply);
    assert_eq!(p.title, "");
    assert_eq!(p.content, "原文");
    assert_eq!(p.summary, "新模型发布");
    assert_eq!(p.category, "AI");
    assert_eq!(p.tags, vec!["OpenAI".to_string(), "模型".to_string()]);
    assert_eq!(p.quality_score_permille, 800);

    let partial = r#"{"summary":1}"#;
    let q = AISummarizer::read_reply("c", partial);
    assert_eq!(q.summary, "");
    assert_eq!(q.category, "other");
    assert!(q.tags.is_empty());

    let plain = "这不是 JSON";
    let t = AISummarizer::read_reply("c", plain);
    assert_eq!(t.summary, plain);
    assert_eq!(t.category, "other");
    assert!(t.tags.is_empty());
}

#[test]
fn summariser_wrappers() {
    let s = AISummarizer::new("k".to_string(), "gemini".to_string(), "m".to_string());
    let w = s.wrapper().ok().unwrap();
    assert!(w.get_provider("gemini").is_some());
    let bad = AISummarizer::new("k".to_string(), "minimax".to_string(), "m".to_string());
    match bad.wrapper() {
        Err(e) => assert_eq!(e, "不支持的提供商: minimax"),
        Ok(_) => panic!("minimax is not supported"),
    }
}

#[test]
fn simple_processor_takes_first_line_and_200_chars() {
    let long: String = std::iter::repeat("新闻").take(150).collect();
    let content = format!("标题行\r\n{}", long);
    let p = SimpleProcessor::new().process(&content).ok().unwrap();
    assert_eq!(p.title, "标题行");
    assert_eq!(p.content, content);
    assert_eq!(p.summary, content.chars().take(200).collect::<String>());
    assert_eq!(p.summary.chars().count(), 200);
    assert_eq!(p.category, "general");
    assert!(p.tags.is_empty());
    assert_eq!(p.quality_score_permille, 500);
    let empty = SimpleProcessor::new().process("").ok().unwrap();
    assert_eq!(empty.title, "");
    assert_eq!(empty.summary, "");
}

#[test]
fn assessment_prompt_and_request() {
    let a = QualityAssessor::new("k".to_string(), "moonshot".to_string(), "moonshot-v1-8k".to_string());
    assert_eq!(a.provider(), "moonshot");
    let prompt = QualityAssessor::prompt("标题");
    assert!(prompt.starts_with("请评估以下内容的技术质量，从以下维度打分（1-5分）：\n\n1. 技术深度"));
    assert!(prompt.contains("内容标题/摘要：\n标题\n\n请按以下 JSON 格式返回："));
    assert!(prompt.ends_with("\"recommendation\": \"approve\"\n}"));
    let r = a.request("标题");
    assert_eq!(r.model, "moonshot-v1-8k");
    assert_eq!(r.messages[0].content, prompt);
    assert_eq!(r.temperature, serde_json::to_value(0.3f32).unwrap().to_string());
    assert_eq!(r.max_tokens, Some(500));
    assert!(a.wrapper().is_ok());
}

#[test]
fn assessment_recommendation() {
    let reply = r#"{"overall":4.5,"recommendation":"approve"}"#;
    assert_eq!(QualityAssessor::recommendation(reply), "approve");
    assert_eq!(QualityAssessor::recommendation("{}"), "manual_review");
    assert_eq!(QualityAssessor::recommendation("not json"), "manual_review");
    assert_eq!(QualityAssessor::recommendation_of(read(reply).as_ref()), "approve");
    assert_eq!(QualityAssessor::recommendation_of(None), "manual_review");
}

#[test]
fn reply_results_from_parsed_values() {
    let reply = r#"{"summary":"s","category":"c","tags":["t"]}"#;
    let p = AISummarizer::reply_result("x", reply, read(reply).as_ref());
    assert_eq!(p.summary, "s");
    assert_eq!(p.category, "c");
    assert_eq!(p.tags, vec!["t".to_string()]);
    let q = AISummarizer::reply_result("x", "plain", None);
    assert_eq!(q.summary, "plain");
    assert_eq!(q.category, "other");
}

#[test]
fn replies_with_numbers_and_nesting_are_read() {
    let reply = r#"{"tags":["a",{"b":1},-2,3.5,"c"],"summary":"\u4e2d","category":null}"#;
    let p = AISummarizer::read_reply("x", reply);
    assert_eq!(p.tags, vec!["a".to_string(), "c".to_string()]);
    assert_eq!(p.summary, "中");
    assert_eq!(p.category, "other");
}
