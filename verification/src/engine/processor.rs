//! Processing of collected content: AI summaries, a plain summary without
//! AI, and the request for an AI quality assessment.
//!
//! The chat with the AI provider is carried out by the application (see
//! `ai_provider::ChatRetry`); this module builds the requests and reads the
//! replies.

use vstd::prelude::*;
use super::ai_provider::{create_ai_wrapper, AIRequest, AIWrapper, Message, made_with, unsupported};
use crate::json::{
    as_str, lemma_strings_among, strings_among,
    array_strings, field, get_array_strings, get_field_opt, get_str_or, json_parse, opt_json, parse_json,
    str_or, views, Json,
};
use crate::text::{first_line, first_line_exec, owned, take_chars, take_chars_exec};

verus! {

/// The start of the summary prompt.
pub const PRE1: &'static str = "请分析以下内容，生成一个结构化的摘要。要求：\n1. 提取关键信息\n2. 分类（AI/机器人/游戏/科技/其他）\n3. 生成不超过200字的摘要\n4. 提取标签\n\n内容：\n";

/// The end of the summary prompt.
pub const POST1: &'static str = "\n\n请按以下 JSON 格式返回：\n{\n    \"summary\": \"摘要内容\",\n    \"category\": \"分类\",\n    \"tags\": [\"标签1\", \"标签2\"]\n}";

/// The start of the assessment prompt.
pub const PRE2: &'static str = "请评估以下内容的技术质量，从以下维度打分（1-5分）：\n\n1. 技术深度 - 内容的技术价值\n2. 新颖性 - 是否为最新资讯\n3. 可信度 - 来源是否可靠\n4. 实操性 - 是否有实用价值\n\n内容标题/摘要：\n";

/// The end of the assessment prompt.
pub const POST2: &'static str = "\n\n请按以下 JSON 格式返回：\n{\n    \"technical_depth\": 3,\n    \"novelty\": 4,\n    \"credibility\": 4,\n    \"practicality\": 3,\n    \"overall\": 3.5,\n    \"recommendation\": \"approve\"\n}";

/// The temperature 0.7 as the request body holds it: the `f32` widened to
/// `f64` in a JSON value, and written so.
pub const TEMP_07: &'static str = "0.699999988079071";

/// The temperature 0.3 as the request body holds it (see `TEMP_07`).
pub const TEMP_03: &'static str = "0.30000001192092896";

/// The result of processing one piece of content.
pub struct ProcessedContent {
    pub title: String,
    pub content: String,
    pub summary: String,
    pub category: String,
    pub tags: Vec<String>,
    /// The quality score in thousandths (500 stands for 0.5).
    pub quality_score_permille: u32,
}

/// The prompt asking for a structured summary of `content`.
pub open spec fn summary_prompt(content: Seq<char>) -> Seq<char> {
    PRE1@ + content + POST1@
}

/// The prompt asking for a quality assessment of `content`.
pub open spec fn assessment_prompt(content: Seq<char>) -> Seq<char> {
    PRE2@ + content + POST2@
}

/// The request holds one user message with the prompt, the model, the
/// temperature text and the token limit.
pub open spec fn prompt_request(
    r: AIRequest,
    model: Seq<char>,
    prompt: Seq<char>,
    temperature: Seq<char>,
    max_tokens: u32,
) -> bool {
    &&& r.model@ == model
    &&& r.messages@.len() == 1
    &&& r.messages@[0].role@ == "user"@
    &&& r.messages@[0].content@ == prompt
    &&& r.temperature@ == temperature
    &&& r.max_tokens == Some(max_tokens)
}

/// What a summary reply gives: when the reply is JSON, its `summary`,
/// `category` (`other` when missing) and string `tags`; otherwise the whole
/// reply as the summary, in category `other`, without tags. The content is
/// kept, the title is empty and the score is 0.8.
pub open spec fn summary_result(
    content: Seq<char>,
    reply: Seq<char>,
    parsed: Option<Json>,
    r: ProcessedContent,
) -> bool {
    &&& r.title@ == Seq::<char>::empty()
    &&& r.content@ == content
    &&& r.quality_score_permille == 800
    &&& match parsed {
        Some(j) => {
            &&& r.summary@ == str_or(field(Some(j), "summary"@), Seq::empty())
            &&& r.category@ == str_or(field(Some(j), "category"@), "other"@)
            &&& views(r.tags@) == array_strings(field(Some(j), "tags"@))
        },
        None => {
            &&& r.summary@ == reply
            &&& r.category@ == "other"@
            &&& r.tags@.len() == 0
        },
    }
}

/// The tags of a summary are the text elements of the reply's `tags`
/// array, in order, however many there are: never more tags than elements,
/// each tag the text of an element, and when every element is a text, one
/// tag for each element, in the same order.
pub proof fn lemma_summary_tags(
    content: Seq<char>,
    reply: Seq<char>,
    j: Json,
    r: ProcessedContent,
    items: Seq<Json>,
)
    requires
        summary_result(content, reply, Some(j), r),
        field(Some(j), "tags"@) matches Some(Json::Array(a)) && a@ == items,
    ensures
        r.tags@.len() <= items.len(),
        forall|i: int|
            #![trigger r.tags@[i]]
            0 <= i < r.tags@.len() ==> exists|k: int|
                0 <= k < items.len() && #[trigger] as_str(Some(items[k])) == Some(r.tags@[i]@),
        (forall|i: int| 0 <= i < items.len() ==> #[trigger] items[i] is String) ==> {
            &&& r.tags@.len() == items.len()
            &&& forall|i: int|
                0 <= i < items.len() ==> #[trigger] as_str(Some(items[i])) == Some(r.tags@[i]@)
        },
{
    lemma_strings_among(items);
    assert(views(r.tags@) == strings_among(items));
    assert forall|i: int| 0 <= i < r.tags@.len() implies views(r.tags@)[i] == #[trigger] r.tags@[i]@ by {}
    assert forall|i: int| #![trigger r.tags@[i]] 0 <= i < r.tags@.len() implies exists|k: int|
        0 <= k < items.len() && #[trigger] as_str(Some(items[k])) == Some(r.tags@[i]@) by {
        assert(views(r.tags@)[i] == r.tags@[i]@);
        assert(strings_among(items)[i] == r.tags@[i]@);
        let k = choose|k: int|
            0 <= k < items.len() && #[trigger] as_str(Some(items[k])) == Some(
                strings_among(items)[i],
            );
        assert(as_str(Some(items[k])) == Some(r.tags@[i]@));
    }
}

/// Summarises content with an AI provider.
pub struct AISummarizer {
    api_key: String,
    provider: String,
    model: String,
}

impl AISummarizer {
    /// The key, provider name and model this summariser was made with.
    pub closed spec fn settings_view(&self) -> (Seq<char>, Seq<char>, Seq<char>) {
        (self.api_key@, self.provider@, self.model@)
    }

    /// A summariser using the given key, provider and model.
    pub fn new(api_key: String, provider: String, model: String) -> (r: Self)
        ensures
            r.settings_view() == (api_key@, provider@, model@),
    {
        Self { api_key, provider, model }
    }

    /// The name of the provider to chat with.
    pub fn provider(&self) -> (r: &str)
        ensures
            r@ == self.settings_view().1,
    {
        self.provider.as_str()
    }

    /// The prompt for `content`.
    pub fn prompt(content: &str) -> (r: String)
        ensures
            r@ == summary_prompt(content@),
    {
        let mut p = owned(PRE1);
        p.append(content);
        p.append(POST1);
        p
    }

    /// The chat request for `content`: the prompt as one user message, the
    /// configured model, temperature 0.7 and at most 1000 tokens.
    pub fn request(&self, content: &str) -> (r: AIRequest)
        ensures
            prompt_request(r, self.settings_view().2, summary_prompt(content@), TEMP_07@, 1000),
    {
        let mut messages: Vec<Message> = Vec::new();
        messages.push(Message { role: owned("user"), content: Self::prompt(content) });
        AIRequest {
            model: self.model.clone(),
            messages,
            temperature: owned(TEMP_07),
            max_tokens: Some(1000),
        }
    }

    /// The registry to chat through, made from the configured key and
    /// provider; an unsupported provider gives the error's text.
    pub fn wrapper(&self) -> (r: Result<AIWrapper, String>)
        ensures
            ({
                let (key, provider, _m) = self.settings_view();
                &&& (provider == "openai"@ || provider == "moonshot"@ || provider == "gemini"@)
                    ==> (r matches Ok(w) && made_with(w, provider, key))
                &&& !(provider == "openai"@ || provider == "moonshot"@ || provider == "gemini"@)
                    ==> (r matches Err(e) && e@ == "不支持的提供商: "@ + provider)
            }),
    {
        match create_ai_wrapper(self.api_key.as_str(), self.provider.as_str(), self.model.as_str()) {
            Ok(w) => Ok(w),
            Err(e) => Err(e.to_string()),
        }
    }

    /// Reads the reply to a summary request about `content`: `reply` is the
    /// text of the reply and `parsed` that text read as JSON, when it is JSON.
    pub fn reply_result(content: &str, reply: &str, parsed: Option<&Json>) -> (r: ProcessedContent)
        ensures
            summary_result(content@, reply@, opt_json(parsed), r),
    {
        match parsed {
            Some(j) => {
                let summary = get_str_or(get_field_opt(Some(j), "summary"), "");
                let category = get_str_or(get_field_opt(Some(j), "category"), "other");
                let tags = get_array_strings(get_field_opt(Some(j), "tags"));
                proof {
                    reveal_strlit("");
                    assert(""@ =~= Seq::<char>::empty());
                }
                ProcessedContent {
                    title: String::new(),
                    content: owned(content),
                    summary,
                    category,
                    tags,
                    quality_score_permille: 800,
                }
            },
            None => ProcessedContent {
                title: String::new(),
                content: owned(content),
                summary: owned(reply),
                category: owned("other"),
                tags: Vec::new(),
                quality_score_permille: 800,
            },
        }
    }

    /// Reads the text of the reply to a summary request about `content`:
    /// the text is read as JSON (`parse_json`), then as `reply_result` says.
    pub fn read_reply(content: &str, reply: &str) -> (r: ProcessedContent)
        ensures
            summary_result(content@, reply@, json_parse(reply@), r),
    {
        let parsed = parse_json(reply);
        Self::reply_result(content, reply, parsed.as_ref())
    }
}

/// Summarises content without AI.
pub struct SimpleProcessor;

impl SimpleProcessor {
    /// A processor.
    pub fn new() -> Self {
        SimpleProcessor
    }

    /// The first line of `content` as title, its first 200 characters as
    /// summary, category `general`, no tags, score 0.5.
    pub fn process(&self, content: &str) -> (r: Result<ProcessedContent, String>)
        ensures
            r matches Ok(p) && {
                &&& p.title@ == first_line(content@)
                &&& p.content@ == content@
                &&& p.summary@ == take_chars(content@, 200)
                &&& p.category@ == "general"@
                &&& p.tags@.len() == 0
                &&& p.quality_score_permille == 500
            },
    {
        let title = first_line_exec(content);
        let summary = take_chars_exec(content, 200);
        Ok(
            ProcessedContent {
                title,
                content: owned(content),
                summary,
                category: owned("general"),
                tags: Vec::new(),
                quality_score_permille: 500,
            },
        )
    }
}

/// Assesses the quality of content with an AI provider (LLM as a judge).
pub struct QualityAssessor {
    api_key: String,
    provider: String,
    model: String,
}

impl QualityAssessor {
    /// The key, provider name and model this assessor was made with.
    pub closed spec fn settings_view(&self) -> (Seq<char>, Seq<char>, Seq<char>) {
        (self.api_key@, self.provider@, self.model@)
    }

    /// An assessor using the given key, provider and model.
    pub fn new(api_key: String, provider: String, model: String) -> (r: Self)
        ensures
            r.settings_view() == (api_key@, provider@, model@),
    {
        Self { api_key, provider, model }
    }

    /// The name of the provider to chat with.
    pub fn provider(&self) -> (r: &str)
        ensures
            r@ == self.settings_view().1,
    {
        self.provider.as_str()
    }

    /// The prompt for `content`.
    pub fn prompt(content: &str) -> (r: String)
        ensures
            r@ == assessment_prompt(content@),
    {
        let mut p = owned(PRE2);
        p.append(content);
        p.append(POST2);
        p
    }

    /// The chat request for `content`: the prompt as one user message, the
    /// configured model, temperature 0.3 and at most 500 tokens.
    pub fn request(&self, content: &str) -> (r: AIRequest)
        ensures
            prompt_request(r, self.settings_view().2, assessment_prompt(content@), TEMP_03@, 500),
    {
        let mut messages: Vec<Message> = Vec::new();
        messages.push(Message { role: owned("user"), content: Self::prompt(content) });
        AIRequest {
            model: self.model.clone(),
            messages,
            temperature: owned(TEMP_03),
            max_tokens: Some(500),
        }
    }

    /// The registry to chat through, made from the configured key and
    /// provider; an unsupported provider gives the error's text.
    pub fn wrapper(&self) -> (r: Result<AIWrapper, String>)
        ensures
            ({
                let (key, provider, _m) = self.settings_view();
                &&& (provider == "openai"@ || provider == "moonshot"@ || provider == "gemini"@)
                    ==> (r matches Ok(w) && made_with(w, provider, key))
                &&& !(provider == "openai"@ || provider == "moonshot"@ || provider == "gemini"@)
                    ==> (r matches Err(e) && e@ == "不支持的提供商: "@ + provider)
            }),
    {
        match create_ai_wrapper(self.api_key.as_str(), self.provider.as_str(), self.model.as_str()) {
            Ok(w) => Ok(w),
            Err(e) => Err(e.to_string()),
        }
    }

    /// The recommendation of an assessment reply read as JSON
    /// (`manual_review` when the reply is not JSON or has none).
    pub fn recommendation_of(parsed: Option<&Json>) -> (r: String)
        ensures
            r@ == str_or(field(opt_json(parsed), "recommendation"@), "manual_review"@),
    {
        get_str_or(get_field_opt(parsed, "recommendation"), "manual_review")
    }

    /// The recommendation of the text of an assessment reply: the text is
    /// read as JSON (`parse_json`), then as `recommendation_of` says.
    pub fn recommendation(reply: &str) -> (r: String)
        ensures
            r@ == str_or(field(json_parse(reply@), "recommendation"@), "manual_review"@),
    {
        let parsed = parse_json(reply);
        Self::recommendation_of(parsed.as_ref())
    }
}

} // verus!
