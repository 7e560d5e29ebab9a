//! The Telegram bot channel: the request a push sends to the Bot API and how
//! its reply is read.

use vstd::prelude::*;
use super::{PushMessage, PushResult};
use crate::json::{
    as_i64, field, get_field, get_field_opt, get_i64, json_object, json_string_literal, object_exec,
    quote, Json,
};
use crate::text::{concat, decimal_i64, decimal_int, owned};

verus! {

/// Settings of a Telegram bot.
pub struct TelegramConfig {
    pub bot_token: String,
    pub chat_id: String,
}

/// Pushes news through a Telegram bot.
pub struct TelegramAdapter {
    config: TelegramConfig,
}

/// What the Bot API answered to a push.
pub enum TelegramReply {
    /// A success status, with the JSON body of the reply.
    Accepted(Json),
    /// Any other status, with the text of the reply.
    Rejected(String),
}

/// The Markdown text of the message for `m`: bold title, summary and a link
/// to the original article.
pub open spec fn telegram_text(m: PushMessage) -> Seq<char> {
    "📰 *"@ + m.title@ + "*\n\n"@ + m.summary@ + "\n\n🔗 [查看原文]("@ + m.url@ + ")"@
}

/// The `sendMessage` endpoint of the bot.
pub open spec fn telegram_endpoint(config: TelegramConfig) -> Seq<char> {
    "https://api.telegram.org/bot"@ + config.bot_token@ + "/sendMessage"@
}

/// The JSON body of the request: chat, Markdown parse mode and text, keys in
/// the order `serde_json` writes an object.
pub open spec fn telegram_body(config: TelegramConfig, m: PushMessage) -> Seq<char> {
    json_object(
        seq![
            ("chat_id"@, json_string_literal(config.chat_id@)),
            ("parse_mode"@, json_string_literal("Markdown"@)),
            ("text"@, json_string_literal(telegram_text(m))),
        ],
    )
}

/// The result of a push given the reply: an accepted reply carries the
/// message id found at `result.message_id` (when it is an integer); a
/// rejected one carries its text as the error.
pub open spec fn telegram_outcome(reply: TelegramReply, r: PushResult) -> bool {
    match reply {
        TelegramReply::Accepted(body) => {
            &&& r.success
            &&& r.error is None
            &&& match as_i64(field(field(Some(body), "result"@), "message_id"@)) {
                Some(id) => r.message_id matches Some(s) && s@ == decimal_int(id as int),
                None => r.message_id is None,
            }
        },
        TelegramReply::Rejected(text) => {
            &&& !r.success
            &&& r.message_id is None
            &&& r.error == Some(text)
        },
    }
}

impl TelegramAdapter {
    /// The settings this adapter was made with.
    pub closed spec fn config_view(&self) -> TelegramConfig {
        self.config
    }

    /// An adapter with the given settings.
    pub fn new(config: TelegramConfig) -> (r: Self)
        ensures
            r.config_view() == config,
    {
        Self { config }
    }

    /// The text sent for `message`.
    pub fn message_text(message: &PushMessage) -> (r: String)
        ensures
            r@ == telegram_text(*message),
    {
        let mut t = owned("📰 *");
        t.append(message.title.as_str());
        t.append("*\n\n");
        t.append(message.summary.as_str());
        t.append("\n\n🔗 [查看原文](");
        t.append(message.url.as_str());
        t.append(")");
        t
    }

    /// The URL the push is posted to.
    pub fn endpoint(&self) -> (r: String)
        ensures
            r@ == telegram_endpoint(self.config_view()),
    {
        let mut u = concat("https://api.telegram.org/bot", self.config.bot_token.as_str());
        u.append("/sendMessage");
        u
    }

    /// The JSON body posted for `message`.
    pub fn request_body(&self, message: &PushMessage) -> (r: String)
        ensures
            r@ == telegram_body(self.config_view(), *message),
    {
        let text = Self::message_text(message);
        let mut entries: Vec<(String, String)> = Vec::new();
        entries.push((owned("chat_id"), quote(self.config.chat_id.as_str())));
        entries.push((owned("parse_mode"), quote("Markdown")));
        entries.push((owned("text"), quote(text.as_str())));
        let r = object_exec(&entries);
        proof {
            assert(crate::json::pair_views(entries@) =~= seq![
                ("chat_id"@, json_string_literal(self.config_view().chat_id@)),
                ("parse_mode"@, json_string_literal("Markdown"@)),
                ("text"@, json_string_literal(telegram_text(*message))),
            ]);
        }
        r
    }

    /// The result of the push, read from the reply.
    pub fn outcome(reply: TelegramReply) -> (r: PushResult)
        ensures
            telegram_outcome(reply, r),
    {
        match reply {
            TelegramReply::Accepted(body) => {
                let result = get_field(&body, "result");
                let id = get_i64(get_field_opt(result, "message_id"));
                let message_id = match id {
                    Some(n) => Some(decimal_i64(n)),
                    None => None,
                };
                PushResult { success: true, message_id, error: None }
            },
            TelegramReply::Rejected(text) => PushResult {
                success: false,
                message_id: None,
                error: Some(text),
            },
        }
    }
}

} // verus!
