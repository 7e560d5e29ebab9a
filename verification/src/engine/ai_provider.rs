//! AI providers: the chat requests sent to each provider, how their replies
//! are read, the registry of providers, and the retry discipline of a chat.
//!
//! The HTTP exchange itself is done by the application, which follows the
//! steps that [`ChatRetry`] gives.

use vstd::prelude::*;
use vstd::arithmetic::power2::pow2;
use crate::json::{
    array_exec, element, field, get_element, get_field, get_field_opt, get_str_or, get_u32_or_zero,
    json_array, json_object, json_string_literal, object_exec, opt_json, pair_views, quote, str_or,
    u32_or_zero, Json, JsonNumber,
};
use crate::text::{concat, decimal, decimal_u64, owned, same_text};
use crate::keyed::{keyed_map, lemma_keyed_map_domain, lemma_keyed_map_get, lemma_keyed_map_update, unique_keys};

verus! {

/// Errors of the AI layer.
#[derive(Debug)]
pub enum AIError {
    /// The HTTP request failed, described by the text.
    Request(String),
    /// The provider answered with an error, given by the text.
    Api(String),
    /// The configuration is wrong.
    Config(String),
    /// No provider of that name.
    UnsupportedProvider(String),
}

/// The text of an AI error.
pub open spec fn ai_error_text(e: AIError) -> Seq<char> {
    match e {
        AIError::Request(d) => "请求错误: "@ + d@,
        AIError::Api(d) => "API 错误: "@ + d@,
        AIError::Config(d) => "配置错误: "@ + d@,
        AIError::UnsupportedProvider(d) => "不支持的提供商: "@ + d@,
    }
}

impl AIError {
    /// The displayed text of the error.
    pub fn to_string(&self) -> (r: String)
        ensures
            r@ == ai_error_text(*self),
    {
        match self {
            AIError::Request(d) => concat("请求错误: ", d.as_str()),
            AIError::Api(d) => concat("API 错误: ", d.as_str()),
            AIError::Config(d) => concat("配置错误: ", d.as_str()),
            AIError::UnsupportedProvider(d) => concat("不支持的提供商: ", d.as_str()),
        }
    }
}

/// A chat request.
pub struct AIRequest {
    pub model: String,
    pub messages: Vec<Message>,
    /// The sampling temperature, as the JSON number text that is sent.
    pub temperature: String,
    pub max_tokens: Option<u32>,
}

/// One chat message.
pub struct Message {
    pub role: String,
    pub content: String,
}

/// A chat reply.
pub struct AIResponse {
    pub content: String,
    pub model: String,
    pub usage: Usage,
}

/// Token counts of a reply.
pub struct Usage {
    pub prompt_tokens: u32,
    pub completion_tokens: u32,
    pub total_tokens: u32,
}

/// The kinds of provider.
pub enum AIProviderType {
    OpenAI,
    Anthropic,
    MiniMax,
    MoonShot,
    Gemini,
}

/// The (role, content) pairs of messages.
pub open spec fn message_views(ms: Seq<Message>) -> Seq<(Seq<char>, Seq<char>)> {
    ms.map_values(|m: Message| (m.role@, m.content@))
}

/// A message as a JSON object (members in `serde_json`'s key order).
pub open spec fn message_json(m: (Seq<char>, Seq<char>)) -> Seq<char> {
    json_object(seq![("content"@, json_string_literal(m.1)), ("role"@, json_string_literal(m.0))])
}

/// The token limit sent: the given one, 4096 when none is given.
pub open spec fn token_limit(max_tokens: Option<u32>) -> nat {
    match max_tokens {
        Some(n) => n as nat,
        None => 4096,
    }
}

/// The chat-completions request body: model, messages, temperature and token
/// limit.
pub open spec fn chat_body(
    model: Seq<char>,
    messages: Seq<(Seq<char>, Seq<char>)>,
    temperature: Seq<char>,
    max_tokens: Option<u32>,
) -> Seq<char> {
    json_object(
        seq![
            ("max_tokens"@, decimal(token_limit(max_tokens))),
            ("messages"@, json_array(messages.map_values(|m: (Seq<char>, Seq<char>)| message_json(m)))),
            ("model"@, json_string_literal(model)),
            ("temperature"@, temperature),
        ],
    )
}

/// The role Gemini is told for a message role: `user` stays, any other
/// becomes `model`.
pub open spec fn gemini_role(role: Seq<char>) -> Seq<char> {
    if role == "user"@ {
        "user"@
    } else {
        "model"@
    }
}

/// A message in Gemini's form: its text as the single part.
pub open spec fn gemini_content(m: (Seq<char>, Seq<char>)) -> Seq<char> {
    json_object(
        seq![
            ("parts"@, json_array(seq![json_object(seq![("text"@, json_string_literal(m.1))])])),
            ("role"@, json_string_literal(gemini_role(m.0))),
        ],
    )
}

/// Gemini's request body: the contents and the generation settings.
pub open spec fn gemini_body(
    messages: Seq<(Seq<char>, Seq<char>)>,
    temperature: Seq<char>,
    max_tokens: Option<u32>,
) -> Seq<char> {
    json_object(
        seq![
            ("contents"@, json_array(messages.map_values(|m: (Seq<char>, Seq<char>)| gemini_content(m)))),
            (
                "generationConfig"@,
                json_object(
                    seq![
                        ("maxOutputTokens"@, decimal(token_limit(max_tokens))),
                        ("temperature"@, temperature),
                    ],
                ),
            ),
        ],
    )
}

/// A reply of an OpenAI-style provider read as values: the first choice's
/// message text, the model and the token counts (missing values read as
/// empty or zero).
pub open spec fn openai_reply(r: Json, v: AIResponse) -> bool {
    let resp = Some(r);
    let usage = field(resp, "usage"@);
    &&& v.content@ == str_or(
        field(field(element(field(resp, "choices"@), 0), "message"@), "content"@),
        Seq::empty(),
    )
    &&& v.model@ == str_or(field(resp, "model"@), Seq::empty())
    &&& v.usage.prompt_tokens == u32_or_zero(field(usage, "prompt_tokens"@))
    &&& v.usage.completion_tokens == u32_or_zero(field(usage, "completion_tokens"@))
    &&& v.usage.total_tokens == u32_or_zero(field(usage, "total_tokens"@))
}

/// A Gemini reply read as values: the first candidate's first part, the
/// model version (`gemini` when missing) and the token counts.
pub open spec fn gemini_reply(r: Json, v: AIResponse) -> bool {
    let resp = Some(r);
    let usage = field(resp, "usageMetadata"@);
    &&& v.content@ == str_or(
        field(
            element(field(field(element(field(resp, "candidates"@), 0), "content"@), "parts"@), 0),
            "text"@,
        ),
        Seq::empty(),
    )
    &&& v.model@ == str_or(field(resp, "modelVersion"@), "gemini"@)
    &&& v.usage.prompt_tokens == u32_or_zero(field(usage, "promptTokenCount"@))
    &&& v.usage.completion_tokens == u32_or_zero(field(usage, "candidatesTokenCount"@))
    &&& v.usage.total_tokens == u32_or_zero(field(usage, "totalTokenCount"@))
}

/// The token counts a Gemini reply is read as, by the reply's own keys:
/// `usageMetadata.promptTokenCount` is the prompt's count,
/// `usageMetadata.candidatesTokenCount` the completion's and
/// `usageMetadata.totalTokenCount` the total, each as the reply gives it.
pub proof fn lemma_gemini_usage_keys(
    reply: Json,
    v: AIResponse,
    prompt: u64,
    completion: u64,
    total: u64,
)
    requires
        gemini_reply(reply, v),
        field(field(Some(reply), "usageMetadata"@), "promptTokenCount"@) == Some(
            Json::Number(JsonNumber::PosInt(prompt)),
        ),
        field(field(Some(reply), "usageMetadata"@), "candidatesTokenCount"@) == Some(
            Json::Number(JsonNumber::PosInt(completion)),
        ),
        field(field(Some(reply), "usageMetadata"@), "totalTokenCount"@) == Some(
            Json::Number(JsonNumber::PosInt(total)),
        ),
        prompt <= u32::MAX,
        completion <= u32::MAX,
        total <= u32::MAX,
    ensures
        v.usage.prompt_tokens == prompt,
        v.usage.completion_tokens == completion,
        v.usage.total_tokens == total,
{
}

/// The token counts an OpenAI-style reply is read as, by the reply's own
/// keys: `usage.prompt_tokens`, `usage.completion_tokens` and
/// `usage.total_tokens`, each as the reply gives it.
pub proof fn lemma_openai_usage_keys(
    reply: Json,
    v: AIResponse,
    prompt: u64,
    completion: u64,
    total: u64,
)
    requires
        openai_reply(reply, v),
        field(field(Some(reply), "usage"@), "prompt_tokens"@) == Some(
            Json::Number(JsonNumber::PosInt(prompt)),
        ),
        field(field(Some(reply), "usage"@), "completion_tokens"@) == Some(
            Json::Number(JsonNumber::PosInt(completion)),
        ),
        field(field(Some(reply), "usage"@), "total_tokens"@) == Some(
            Json::Number(JsonNumber::PosInt(total)),
        ),
        prompt <= u32::MAX,
        completion <= u32::MAX,
        total <= u32::MAX,
    ensures
        v.usage.prompt_tokens == prompt,
        v.usage.completion_tokens == completion,
        v.usage.total_tokens == total,
{
}

/// Builds the chat-completions body.
fn chat_body_exec(model: &str, messages: &[Message], temperature: &str, max_tokens: Option<u32>) -> (r:
    String)
    ensures
        r@ == chat_body(model@, message_views(messages@), temperature@, max_tokens),
{
    let mut items: Vec<String> = Vec::new();
    let mut i: usize = 0;
    while i < messages.len()
        invariant
            i <= messages@.len(),
            items@.len() == i,
            forall|j: int|
                0 <= j < i ==> #[trigger] items@[j]@ == message_json(message_views(messages@)[j]),
        decreases messages.len() - i,
    {
        let mut entries: Vec<(String, String)> = Vec::new();
        entries.push((owned("content"), quote(messages[i].content.as_str())));
        entries.push((owned("role"), quote(messages[i].role.as_str())));
        let m = object_exec(&entries);
        proof {
            assert(pair_views(entries@) =~= seq![
                ("content"@, json_string_literal(messages@[i as int].content@)),
                ("role"@, json_string_literal(messages@[i as int].role@)),
            ]);
        }
        items.push(m);
        i = i + 1;
    }
    let list = array_exec(&items);
    let limit: u32 = match max_tokens {
        Some(n) => n,
        None => 4096,
    };
    let mut entries: Vec<(String, String)> = Vec::new();
    entries.push((owned("max_tokens"), decimal_u64(limit as u64)));
    entries.push((owned("messages"), list));
    entries.push((owned("model"), quote(model)));
    entries.push((owned("temperature"), owned(temperature)));
    let r = object_exec(&entries);
    proof {
        assert(crate::json::views(items@) =~= message_views(messages@).map_values(
            |m: (Seq<char>, Seq<char>)| message_json(m),
        ));
        assert(pair_views(entries@) =~= seq![
            ("max_tokens"@, decimal(token_limit(max_tokens))),
            (
                "messages"@,
                json_array(
                    message_views(messages@).map_values(|m: (Seq<char>, Seq<char>)| message_json(m)),
                ),
            ),
            ("model"@, json_string_literal(model@)),
            ("temperature"@, temperature@),
        ]);
    }
    r
}

/// Reads an OpenAI-style reply.
fn parse_openai_reply(response: &Json) -> (r: AIResponse)
    ensures
        openai_reply(*response, r),
{
    proof {
        reveal_strlit("");
    }
    let choices = get_field(response, "choices");
    let first = get_element(choices, 0);
    let message = get_field_opt(first, "message");
    let content = get_str_or(get_field_opt(message, "content"), "");
    let usage = get_field(response, "usage");
    let prompt_tokens = get_u32_or_zero(get_field_opt(usage, "prompt_tokens"));
    let completion_tokens = get_u32_or_zero(get_field_opt(usage, "completion_tokens"));
    let total_tokens = get_u32_or_zero(get_field_opt(usage, "total_tokens"));
    let model = get_str_or(get_field(response, "model"), "");
    assert(opt_json(choices) == field(Some(*response), "choices"@));
    assert(opt_json(first) == element(field(Some(*response), "choices"@), 0));
    assert(content@ == str_or(
        field(field(element(field(Some(*response), "choices"@), 0), "message"@), "content"@),
        Seq::empty(),
    ));
    assert(model@ == str_or(field(Some(*response), "model"@), Seq::empty()));
    assert(prompt_tokens == u32_or_zero(field(field(Some(*response), "usage"@), "prompt_tokens"@)));
    AIResponse {
        content,
        model,
        usage: Usage { prompt_tokens, completion_tokens, total_tokens },
    }
}

/// A provider of chat completions.
pub trait AIProvider {
    /// The kind of provider.
    fn provider_type(&self) -> AIProviderType;

    /// The base URL of the provider's API.
    fn base_url(&self) -> &str;

    /// The key the requests are authorised with.
    fn api_key(&self) -> &str;

    /// The request body for a chat: by default the chat-completions form.
    fn build_request(
        &self,
        model: &str,
        messages: &[Message],
        temperature: &str,
        max_tokens: Option<u32>,
    ) -> (r: String)
        ensures
            r@ == chat_body(model@, message_views(messages@), temperature@, max_tokens),
    {
        chat_body_exec(model, messages, temperature, max_tokens)
    }

    /// Reads a reply.
    fn parse_response(&self, response: &Json) -> Result<AIResponse, AIError>;
}

/// The OpenAI API.
pub struct OpenAIProvider {
    api_key: String,
    base_url: String,
}

impl OpenAIProvider {
    /// The key this provider was made with.
    pub closed spec fn key_view(&self) -> Seq<char> {
        self.api_key@
    }

    /// The base URL of this provider.
    pub closed spec fn url_view(&self) -> Seq<char> {
        self.base_url@
    }

    /// A provider using the given key, at `https://api.openai.com/v1`.
    pub fn new(api_key: String) -> (r: Self)
        ensures
            r.key_view() == api_key@,
            r.url_view() == "https://api.openai.com/v1"@,
    {
        Self { api_key, base_url: owned("https://api.openai.com/v1") }
    }
}

impl AIProvider for OpenAIProvider {
    fn provider_type(&self) -> (r: AIProviderType)
        ensures
            r is OpenAI,
    {
        AIProviderType::OpenAI
    }

    fn base_url(&self) -> (r: &str)
        ensures
            r@ == self.url_view(),
    {
        self.base_url.as_str()
    }

    fn api_key(&self) -> (r: &str)
        ensures
            r@ == self.key_view(),
    {
        self.api_key.as_str()
    }

    fn parse_response(&self, response: &Json) -> (r: Result<AIResponse, AIError>)
        ensures
            r matches Ok(v) && openai_reply(*response, v),
    {
        Ok(parse_openai_reply(response))
    }
}

/// The MoonShot API.
pub struct MoonShotProvider {
    api_key: String,
    base_url: String,
}

impl MoonShotProvider {
    /// The key this provider was made with.
    pub closed spec fn key_view(&self) -> Seq<char> {
        self.api_key@
    }

    /// The base URL of this provider.
    pub closed spec fn url_view(&self) -> Seq<char> {
        self.base_url@
    }

    /// A provider using the given key, at `https://api.moonshot.cn/v1`.
    pub fn new(api_key: String) -> (r: Self)
        ensures
            r.key_view() == api_key@,
            r.url_view() == "https://api.moonshot.cn/v1"@,
    {
        Self { api_key, base_url: owned("https://api.moonshot.cn/v1") }
    }
}

impl AIProvider for MoonShotProvider {
    fn provider_type(&self) -> (r: AIProviderType)
        ensures
            r is MoonShot,
    {
        AIProviderType::MoonShot
    }

    fn base_url(&self) -> (r: &str)
        ensures
            r@ == self.url_view(),
    {
        self.base_url.as_str()
    }

    fn api_key(&self) -> (r: &str)
        ensures
            r@ == self.key_view(),
    {
        self.api_key.as_str()
    }

    fn parse_response(&self, response: &Json) -> (r: Result<AIResponse, AIError>)
        ensures
            r matches Ok(v) && openai_reply(*response, v),
    {
        Ok(parse_openai_reply(response))
    }
}

/// The Google Gemini API.
pub struct GeminiProvider {
    api_key: String,
    base_url: String,
}

impl GeminiProvider {
    /// The key this provider was made with.
    pub closed spec fn key_view(&self) -> Seq<char> {
        self.api_key@
    }

    /// The base URL of this provider.
    pub closed spec fn url_view(&self) -> Seq<char> {
        self.base_url@
    }

    /// A provider using the given key, at
    /// `https://generativelanguage.googleapis.com/v1beta`.
    pub fn new(api_key: String) -> (r: Self)
        ensures
            r.key_view() == api_key@,
            r.url_view() == "https://generativelanguage.googleapis.com/v1beta"@,
    {
        Self { api_key, base_url: owned("https://generativelanguage.googleapis.com/v1beta") }
    }

    /// Gemini's own request body: each message's text as a part, `user`
    /// messages as such and all others as `model`, and the generation
    /// settings.
    pub fn build_request(
        &self,
        _model: &str,
        messages: &[Message],
        temperature: &str,
        max_tokens: Option<u32>,
    ) -> (r: String)
        ensures
            r@ == gemini_body(message_views(messages@), temperature@, max_tokens),
    {
        let mut items: Vec<String> = Vec::new();
        let mut i: usize = 0;
        while i < messages.len()
            invariant
                i <= messages@.len(),
                items@.len() == i,
                forall|j: int|
                    0 <= j < i ==> #[trigger] items@[j]@ == gemini_content(
                        message_views(messages@)[j],
                    ),
            decreases messages.len() - i,
        {
            let role = if same_text(messages[i].role.as_str(), "user") {
                owned("user")
            } else {
                owned("model")
            };
            let mut text_entries: Vec<(String, String)> = Vec::new();
            text_entries.push((owned("text"), quote(messages[i].content.as_str())));
            let part = object_exec(&text_entries);
            let mut parts: Vec<String> = Vec::new();
            parts.push(part);
            let part_list = array_exec(&parts);
            let mut entries: Vec<(String, String)> = Vec::new();
            entries.push((owned("parts"), part_list));
            entries.push((owned("role"), quote(role.as_str())));
            let c = object_exec(&entries);
            proof {
                let m = message_views(messages@)[i as int];
                assert(pair_views(text_entries@) =~= seq![("text"@, json_string_literal(m.1))]);
                assert(crate::json::views(parts@) =~= seq![
                    json_object(seq![("text"@, json_string_literal(m.1))]),
                ]);
                assert(pair_views(entries@) =~= seq![
                    (
                        "parts"@,
                        json_array(seq![json_object(seq![("text"@, json_string_literal(m.1))])]),
                    ),
                    ("role"@, json_string_literal(gemini_role(m.0))),
                ]);
            }
            items.push(c);
            i = i + 1;
        }
        let contents = array_exec(&items);
        let limit: u32 = match max_tokens {
            Some(n) => n,
            None => 4096,
        };
        let mut config_entries: Vec<(String, String)> = Vec::new();
        config_entries.push((owned("maxOutputTokens"), decimal_u64(limit as u64)));
        config_entries.push((owned("temperature"), owned(temperature)));
        let config = object_exec(&config_entries);
        let mut entries: Vec<(String, String)> = Vec::new();
        entries.push((owned("contents"), contents));
        entries.push((owned("generationConfig"), config));
        let r = object_exec(&entries);
        proof {
            assert(crate::json::views(items@) =~= message_views(messages@).map_values(
                |m: (Seq<char>, Seq<char>)| gemini_content(m),
            ));
            assert(pair_views(config_entries@) =~= seq![
                ("maxOutputTokens"@, decimal(token_limit(max_tokens))),
                ("temperature"@, temperature@),
            ]);
            assert(pair_views(entries@) =~= seq![
                (
                    "contents"@,
                    json_array(
                        message_views(messages@).map_values(
                            |m: (Seq<char>, Seq<char>)| gemini_content(m),
                        ),
                    ),
                ),
                (
                    "generationConfig"@,
                    json_object(
                        seq![
                            ("maxOutputTokens"@, decimal(token_limit(max_tokens))),
                            ("temperature"@, temperature@),
                        ],
                    ),
                ),
            ]);
        }
        r
    }
}

impl AIProvider for GeminiProvider {
    fn provider_type(&self) -> (r: AIProviderType)
        ensures
            r is Gemini,
    {
        AIProviderType::Gemini
    }

    fn base_url(&self) -> (r: &str)
        ensures
            r@ == self.url_view(),
    {
        self.base_url.as_str()
    }

    fn api_key(&self) -> (r: &str)
        ensures
            r@ == self.key_view(),
    {
        self.api_key.as_str()
    }

    fn parse_response(&self, response: &Json) -> (r: Result<AIResponse, AIError>)
        ensures
            r matches Ok(v) && gemini_reply(*response, v),
    {
        proof {
            reveal_strlit("");
        }
        let candidates = get_field(response, "candidates");
        let first = get_element(candidates, 0);
        let content_obj = get_field_opt(first, "content");
        let parts = get_field_opt(content_obj, "parts");
        let part = get_element(parts, 0);
        let content = get_str_or(get_field_opt(part, "text"), "");
        let usage = get_field(response, "usageMetadata");
        let prompt_tokens = get_u32_or_zero(get_field_opt(usage, "promptTokenCount"));
        let completion_tokens = get_u32_or_zero(get_field_opt(usage, "candidatesTokenCount"));
        let total_tokens = get_u32_or_zero(get_field_opt(usage, "totalTokenCount"));
        let model = get_str_or(get_field(response, "modelVersion"), "gemini");
        assert(opt_json(candidates) == field(Some(*response), "candidates"@));
        assert(opt_json(first) == element(field(Some(*response), "candidates"@), 0));
        assert(opt_json(part) == element(
            field(field(element(field(Some(*response), "candidates"@), 0), "content"@), "parts"@),
            0,
        ));
        assert(content@ == str_or(
            field(
                element(
                    field(field(element(field(Some(*response), "candidates"@), 0), "content"@), "parts"@),
                    0,
                ),
                "text"@,
            ),
            Seq::empty(),
        ));
        assert(model@ == str_or(field(Some(*response), "modelVersion"@), "gemini"@));
        Ok(
            AIResponse {
                content,
                model,
                usage: Usage { prompt_tokens, completion_tokens, total_tokens },
            },
        )
    }
}


// ---------------------------------------------------------------------------
// The registry of providers
// ---------------------------------------------------------------------------

/// One of the supported providers.
pub enum Provider {
    OpenAI(OpenAIProvider),
    MoonShot(MoonShotProvider),
    Gemini(GeminiProvider),
}

/// The base URL of a provider.
pub open spec fn provider_url(p: Provider) -> Seq<char> {
    match p {
        Provider::OpenAI(x) => x.url_view(),
        Provider::MoonShot(x) => x.url_view(),
        Provider::Gemini(x) => x.url_view(),
    }
}

/// The key of a provider.
pub open spec fn provider_key(p: Provider) -> Seq<char> {
    match p {
        Provider::OpenAI(x) => x.key_view(),
        Provider::MoonShot(x) => x.key_view(),
        Provider::Gemini(x) => x.key_view(),
    }
}

/// How a provider reads a reply.
pub open spec fn provider_reply(p: Provider, r: Json, v: AIResponse) -> bool {
    match p {
        Provider::Gemini(_) => gemini_reply(r, v),
        _ => openai_reply(r, v),
    }
}

impl AIProvider for Provider {
    fn provider_type(&self) -> (r: AIProviderType)
        ensures
            match self {
                Provider::OpenAI(_) => r is OpenAI,
                Provider::MoonShot(_) => r is MoonShot,
                Provider::Gemini(_) => r is Gemini,
            },
    {
        match self {
            Provider::OpenAI(x) => x.provider_type(),
            Provider::MoonShot(x) => x.provider_type(),
            Provider::Gemini(x) => x.provider_type(),
        }
    }

    fn base_url(&self) -> (r: &str)
        ensures
            r@ == provider_url(*self),
    {
        match self {
            Provider::OpenAI(x) => x.base_url(),
            Provider::MoonShot(x) => x.base_url(),
            Provider::Gemini(x) => x.base_url(),
        }
    }

    fn api_key(&self) -> (r: &str)
        ensures
            r@ == provider_key(*self),
    {
        match self {
            Provider::OpenAI(x) => x.api_key(),
            Provider::MoonShot(x) => x.api_key(),
            Provider::Gemini(x) => x.api_key(),
        }
    }

    fn parse_response(&self, response: &Json) -> (r: Result<AIResponse, AIError>)
        ensures
            r matches Ok(v) && provider_reply(*self, *response, v),
    {
        match self {
            Provider::OpenAI(x) => x.parse_response(response),
            Provider::MoonShot(x) => x.parse_response(response),
            Provider::Gemini(x) => x.parse_response(response),
        }
    }
}

/// The body a chat with provider `p` sends: Gemini's own form for Gemini,
/// the chat-completions form for the other providers.
pub open spec fn provider_body(
    p: Provider,
    model: Seq<char>,
    messages: Seq<(Seq<char>, Seq<char>)>,
    temperature: Seq<char>,
    max_tokens: Option<u32>,
) -> Seq<char> {
    match p {
        Provider::Gemini(_) => gemini_body(messages, temperature, max_tokens),
        _ => chat_body(model, messages, temperature, max_tokens),
    }
}

/// The names and providers of a registry's entries.
pub open spec fn entry_views(s: Seq<(String, Provider)>) -> Seq<(Seq<char>, Provider)> {
    s.map_values(|e: (String, Provider)| (e.0@, e.1))
}

/// The number of retries of a chat.
pub open spec fn chat_retries() -> u32 {
    3
}

/// Providers by name, behind one interface.
pub struct AIWrapper {
    /// The providers with their names, each name once (the type's
    /// invariant). A list of pairs stands for a map keyed by name: vstd
    /// specifies `HashMap` contents only for keys whose hashing it models,
    /// and with `String` keys nothing about the contents could be proved.
    providers: Vec<(String, Provider)>,
    max_retries: u32,
}

/// What a chat request is sent as: the endpoint, the `Authorization` header
/// and the JSON body.
pub struct ChatPlan {
    pub url: String,
    pub authorization: String,
    pub body: String,
}

impl AIWrapper {
    #[verifier::type_invariant]
    spec fn inv(&self) -> bool {
        &&& unique_keys(entry_views(self.providers@))
        &&& self.max_retries == chat_retries()
    }

    /// The providers by name.
    pub closed spec fn providers_view(&self) -> Map<Seq<char>, Provider> {
        keyed_map(entry_views(self.providers@))
    }

    /// A registry without providers.
    pub fn new() -> (r: Self)
        ensures
            r.providers_view() == Map::<Seq<char>, Provider>::empty(),
    {
        let r = Self { providers: Vec::new(), max_retries: 3 };
        assert(entry_views(r.providers@) =~= Seq::<(Seq<char>, Provider)>::empty());
        r
    }

    /// Registers `provider` under `name`, replacing any provider of that
    /// name.
    pub fn add_provider(&mut self, name: String, provider: Provider)
        ensures
            final(self).providers_view() == old(self).providers_view().insert(name@, provider),
    {
        proof {
            use_type_invariant(&*self);
        }
        let mut i: usize = 0;
        while i < self.providers.len()
            invariant
                i <= self.providers@.len(),
                unique_keys(entry_views(self.providers@)),
                self.max_retries == chat_retries(),
                self.providers@ == old(self).providers@,
                forall|j: int| 0 <= j < i ==> self.providers@[j].0@ != name@,
            decreases self.providers.len() - i,
        {
            if same_text(self.providers[i].0.as_str(), name.as_str()) {
                let ghost old_entries = entry_views(self.providers@);
                proof {
                    lemma_keyed_map_update(old_entries, i as int, provider);
                }
                let mut entries: Vec<(String, Provider)> = Vec::new();
                std::mem::swap(&mut entries, &mut self.providers);
                entries.set(i, (name, provider));
                proof {
                    assert(entry_views(entries@) =~= old_entries.update(
                        i as int,
                        (old_entries[i as int].0, provider),
                    ));
                }
                self.providers = entries;
                return ;
            }
            i = i + 1;
        }
        let ghost old_entries = entry_views(self.providers@);
        let mut entries: Vec<(String, Provider)> = Vec::new();
        std::mem::swap(&mut entries, &mut self.providers);
        entries.push((name, provider));
        proof {
            assert(entry_views(entries@).drop_last() =~= old_entries);
            assert forall|a: int, b: int|
                0 <= a < b < entry_views(entries@).len() implies entry_views(entries@)[a].0
                != entry_views(entries@)[b].0 by {
                assert(entry_views(entries@)[a] == (entries@[a].0@, entries@[a].1));
                assert(entry_views(entries@)[b] == (entries@[b].0@, entries@[b].1));
                if b == old_entries.len() {
                    assert(entries@[a] == old(self).providers@[a]);
                    assert(entries@[a].0@ != name@);
                } else {
                    assert(entry_views(entries@)[a] == old_entries[a]);
                    assert(entry_views(entries@)[b] == old_entries[b]);
                }
            }
        }
        self.providers = entries;
    }

    /// The provider registered under `name`.
    pub fn get_provider(&self, name: &str) -> (r: Option<&Provider>)
        ensures
            match r {
                Some(p) => self.providers_view().contains_key(name@) && self.providers_view()[name@]
                    == *p,
                None => !self.providers_view().contains_key(name@),
            },
    {
        proof {
            use_type_invariant(self);
        }
        let mut i: usize = 0;
        while i < self.providers.len()
            invariant
                i <= self.providers@.len(),
                unique_keys(entry_views(self.providers@)),
                forall|j: int| 0 <= j < i ==> self.providers@[j].0@ != name@,
            decreases self.providers.len() - i,
        {
            if same_text(self.providers[i].0.as_str(), name) {
                proof {
                    lemma_keyed_map_get(entry_views(self.providers@), i as int);
                }
                return Some(&self.providers[i].1);
            }
            i = i + 1;
        }
        proof {
            lemma_keyed_map_domain(entry_views(self.providers@), name@);
            assert forall|j: int| 0 <= j < entry_views(self.providers@).len() implies #[trigger] entry_views(
                self.providers@,
            )[j].0 != name@ by {
                assert(self.providers@[j].0@ != name@);
            }
        }
        None
    }

    /// The request a chat with the provider `provider_name` sends: the
    /// provider's `chat/completions` endpoint, a bearer authorisation with
    /// its key, and the body in the provider's form (`provider_body`: Gemini's
    /// own `contents`/`generationConfig` form for Gemini, the chat-completions
    /// form for the others); an unknown provider is an error naming it.
    pub fn plan_chat(&self, provider_name: &str, request: &AIRequest) -> (r: Result<ChatPlan, AIError>)
        ensures
            !self.providers_view().contains_key(provider_name@) ==> (r matches Err(e) && unsupported(e, provider_name@)),
            self.providers_view().contains_key(provider_name@) ==> (r matches Ok(plan) && {
                let p = self.providers_view()[provider_name@];
                &&& plan.url@ == provider_url(p) + "/chat/completions"@
                &&& plan.authorization@ == "Bearer "@ + provider_key(p)
                &&& plan.body@ == provider_body(
                    p,
                    request.model@,
                    message_views(request.messages@),
                    request.temperature@,
                    request.max_tokens,
                )
            }),
    {
        let provider = match self.get_provider(provider_name) {
            Some(p) => p,
            None => {
                return Err(AIError::UnsupportedProvider(owned(provider_name)));
            },
        };
        let url = concat(provider.base_url(), "/chat/completions");
        let authorization = concat("Bearer ", provider.api_key());
        let body = match provider {
            Provider::Gemini(g) => g.build_request(
                request.model.as_str(),
                request.messages.as_slice(),
                request.temperature.as_str(),
                request.max_tokens,
            ),
            _ => provider.build_request(
                request.model.as_str(),
                request.messages.as_slice(),
                request.temperature.as_str(),
                request.max_tokens,
            ),
        };
        Ok(ChatPlan { url, authorization, body })
    }

    /// A fresh retry discipline for a chat through this registry.
    pub fn retry(&self) -> (r: ChatRetry)
        ensures
            r.attempt_view() == 0,
            r.max_view() == chat_retries(),
            r.last_error_view() is None,
    {
        proof {
            use_type_invariant(self);
        }
        ChatRetry { attempt: 0, max_retries: self.max_retries, last_error: None }
    }
}

impl Default for AIWrapper {
    fn default() -> (r: Self)
        ensures
            r.providers_view() == Map::<Seq<char>, Provider>::empty(),
    {
        Self::new()
    }
}

/// What `get_provider` finds after `add_provider(name, p)` on a registry
/// whose providers were `before`: `p` under `name`, and under every other
/// name what was there before.
pub proof fn lemma_provider_read_after_write(
    before: Map<Seq<char>, Provider>,
    name: Seq<char>,
    p: Provider,
    other: Seq<char>,
)
    ensures
        before.insert(name, p).contains_key(name),
        before.insert(name, p)[name] == p,
        other != name ==> (before.insert(name, p).contains_key(other) <==> before.contains_key(
            other,
        )),
        other != name && before.contains_key(other) ==> before.insert(name, p)[other]
            == before[other],
{
}

/// The registry holds one provider, under `name`: the provider of that name
/// made with `key`.
pub open spec fn made_with(w: AIWrapper, name: Seq<char>, key: Seq<char>) -> bool {
    &&& w.providers_view().dom() == set![name]
    &&& match w.providers_view()[name] {
        Provider::OpenAI(x) => name == "openai"@ && x.key_view() == key && x.url_view()
            == "https://api.openai.com/v1"@,
        Provider::MoonShot(x) => name == "moonshot"@ && x.key_view() == key && x.url_view()
            == "https://api.moonshot.cn/v1"@,
        Provider::Gemini(x) => name == "gemini"@ && x.key_view() == key && x.url_view()
            == "https://generativelanguage.googleapis.com/v1beta"@,
    }
}

/// The error is the unsupported-provider error naming `name`.
pub open spec fn unsupported(e: AIError, name: Seq<char>) -> bool {
    match e {
        AIError::UnsupportedProvider(n) => n@ == name,
        _ => false,
    }
}

/// A registry with the provider named `provider` under that name, using
/// `api_key`: `openai`, `moonshot` and `gemini` are supported; any other name
/// (`anthropic` and `minimax` among them) is an error naming it.
pub fn create_ai_wrapper(api_key: &str, provider: &str, _model: &str) -> (r: Result<AIWrapper, AIError>)
    ensures
        provider@ == "openai"@ ==> (r matches Ok(w) && made_with(w, "openai"@, api_key@)),
        provider@ == "moonshot"@ ==> (r matches Ok(w) && made_with(w, "moonshot"@, api_key@)),
        provider@ == "gemini"@ ==> (r matches Ok(w) && made_with(w, "gemini"@, api_key@)),
        provider@ != "openai"@ && provider@ != "moonshot"@ && provider@ != "gemini"@ ==> (
        r matches Err(e) && unsupported(e, provider@)),
{
    let mut wrapper = AIWrapper::new();
    if same_text(provider, "openai") {
        wrapper.add_provider(owned("openai"), Provider::OpenAI(OpenAIProvider::new(owned(api_key))));
    } else if same_text(provider, "moonshot") {
        wrapper.add_provider(owned("moonshot"), Provider::MoonShot(MoonShotProvider::new(owned(api_key))));
    } else if same_text(provider, "gemini") {
        wrapper.add_provider(owned("gemini"), Provider::Gemini(GeminiProvider::new(owned(api_key))));
    } else {
        return Err(AIError::UnsupportedProvider(owned(provider)));
    }
    Ok(wrapper)
}

// ---------------------------------------------------------------------------
// Retrying a chat
// ---------------------------------------------------------------------------

/// The wait before the retry that follows attempt `attempt` (counted from
/// 0): 100 ms, doubled after each attempt.
pub open spec fn retry_delay(attempt: nat) -> nat {
    100 * pow2(attempt)
}

/// What the application does next in a chat.
pub enum ChatStep {
    /// Send the planned request.
    Send,
    /// Wait this many milliseconds, then call `after_wait`.
    Wait(u64),
    /// The chat is over, with this result.
    Finish(Result<AIResponse, AIError>),
}

/// What came of a sent request.
pub enum ChatEvent {
    /// A success status, with the JSON body of the reply.
    Replied(Json),
    /// The body of a success reply could not be read, described by the text.
    BodyUnreadable(String),
    /// Another status, with the text of the reply.
    Failed(String),
    /// The request failed, described by the text.
    Unreachable(String),
}

/// The retry discipline of a chat: up to a fixed number of attempts, with a
/// doubling wait after each failed one.
pub struct ChatRetry {
    attempt: u32,
    max_retries: u32,
    last_error: Option<AIError>,
}

impl ChatRetry {
    #[verifier::type_invariant]
    spec fn inv(&self) -> bool {
        self.attempt <= self.max_retries <= 32
    }

    /// The number of attempts made so far.
    pub closed spec fn attempt_view(&self) -> nat {
        self.attempt as nat
    }

    /// The number of attempts allowed.
    pub closed spec fn max_view(&self) -> nat {
        self.max_retries as nat
    }

    /// The failure of the last failed attempt.
    pub closed spec fn last_error_view(&self) -> Option<AIError> {
        self.last_error
    }

    /// The first step, and the step after each wait: send while attempts
    /// are left, otherwise finish with the last failure.
    pub fn begin(&mut self) -> (r: ChatStep)
        ensures
            final(self).attempt_view() <= final(self).max_view(),
            final(self).attempt_view() == old(self).attempt_view(),
            final(self).max_view() == old(self).max_view(),
            old(self).attempt_view() < old(self).max_view() ==> (r is Send && final(self).last_error_view() == old(self).last_error_view()),
            old(self).attempt_view() >= old(self).max_view() ==> (r matches ChatStep::Finish(Err(e)) && exhausted_matches(e, old(self).last_error_view())),
    {
        proof {
            use_type_invariant(&*self);
        }
        if self.attempt < self.max_retries {
            ChatStep::Send
        } else {
            let mut last: Option<AIError> = None;
            std::mem::swap(&mut last, &mut self.last_error);
            let e = match last {
                Some(e) => e,
                None => AIError::Api(owned("重试失败")),
            };
            ChatStep::Finish(Err(e))
        }
    }

    /// The step after a sent request: a readable success reply ends the chat
    /// with what the provider reads from it; an unreadable one ends it with a
    /// request error; a failure is remembered and is followed by a wait of
    /// `retry_delay(attempt)`.
    pub fn on_event(&mut self, provider: &Provider, event: ChatEvent) -> (r: ChatStep)
        ensures
            final(self).attempt_view() <= final(self).max_view(),
            final(self).attempt_view() == old(self).attempt_view(),
            final(self).max_view() == old(self).max_view(),
            match event {
                ChatEvent::Replied(body) => r matches ChatStep::Finish(Ok(v)) && provider_reply(*provider, body, v),
                ChatEvent::BodyUnreadable(d) => r matches ChatStep::Finish(Err(e)) && e == AIError::Request(d),
                ChatEvent::Failed(t) => r matches ChatStep::Wait(ms) && ms == retry_delay(old(self).attempt_view())
                    && final(self).last_error_view() == Some(AIError::Api(t)),
                ChatEvent::Unreachable(d) => r matches ChatStep::Wait(ms) && ms == retry_delay(old(self).attempt_view())
                    && final(self).last_error_view() == Some(AIError::Request(d)),
            },
    {
        proof {
            use_type_invariant(&*self);
        }
        match event {
            ChatEvent::Replied(body) => ChatStep::Finish(provider.parse_response(&body)),
            ChatEvent::BodyUnreadable(d) => ChatStep::Finish(Err(AIError::Request(d))),
            ChatEvent::Failed(t) => {
                self.last_error = Some(AIError::Api(t));
                ChatStep::Wait(delay_ms(self.attempt))
            },
            ChatEvent::Unreachable(d) => {
                self.last_error = Some(AIError::Request(d));
                ChatStep::Wait(delay_ms(self.attempt))
            },
        }
    }

    /// The step after a wait: the next attempt, if one is left.
    pub fn after_wait(&mut self) -> (r: ChatStep)
        ensures
            final(self).attempt_view() <= final(self).max_view(),
            final(self).max_view() == old(self).max_view(),
            final(self).attempt_view() == if old(self).attempt_view() < old(self).max_view() {
                old(self).attempt_view() + 1
            } else {
                old(self).attempt_view()
            },
            final(self).attempt_view() < final(self).max_view() ==> (r is Send && final(self).last_error_view() == old(self).last_error_view()),
            final(self).attempt_view() >= final(self).max_view() ==> (r matches ChatStep::Finish(Err(e)) && exhausted_matches(e, old(self).last_error_view())),
    {
        proof {
            use_type_invariant(&*self);
        }
        if self.attempt < self.max_retries {
            self.attempt = self.attempt + 1;
        }
        self.begin()
    }
}

/// The error a chat ends with when no attempt is left (see
/// `exhausted_error`).
pub open spec fn exhausted_matches(e: AIError, last: Option<AIError>) -> bool {
    match last {
        Some(l) => e == l,
        None => e matches AIError::Api(t) && t@ == "重试失败"@,
    }
}

/// `retry_delay(attempt)` in milliseconds.
fn delay_ms(attempt: u32) -> (r: u64)
    requires
        attempt <= 32,
    ensures
        r == retry_delay(attempt as nat),
{
    let mut d: u64 = 100;
    let mut i: u32 = 0;
    proof {
        vstd::arithmetic::power2::lemma2_to64();
    }
    while i < attempt
        invariant
            i <= attempt <= 32,
            d == 100 * pow2(i as nat),
            pow2(i as nat) <= pow2(32),
        decreases attempt - i,
    {
        proof {
            vstd::arithmetic::power2::lemma_pow2_unfold((i + 1) as nat);
            vstd::arithmetic::power2::lemma_pow2_strictly_increases((i + 1) as nat, 33);
            vstd::arithmetic::power2::lemma2_to64();
            vstd::arithmetic::power2::lemma2_to64_rest();
        }
        d = d * 2;
        i = i + 1;
    }
    d
}

/// The wait after each failed attempt is twice the wait after the one
/// before.
pub proof fn lemma_backoff_doubles(attempt: nat)
    ensures
        retry_delay(attempt + 1) == 2 * retry_delay(attempt),
{
    vstd::arithmetic::power2::lemma_pow2_unfold(attempt + 1);
}

} // verus!
