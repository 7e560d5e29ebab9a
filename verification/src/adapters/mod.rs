//! Delivery of news to the push channels.
//!
//! Each adapter builds what it sends and reads what comes back; the network
//! and mail transports themselves are driven by the application around the
//! library.

pub mod email;
pub mod telegram;
pub mod wechat;
pub mod qq;
pub mod feishu;

use vstd::prelude::*;
use crate::text::owned;

verus! {

/// A news item ready to be pushed.
pub struct PushMessage {
    pub title: String,
    pub content: String,
    pub summary: String,
    pub url: String,
    pub category: String,
    /// The name of the source the item came from.
    pub source_name: String,
}

/// The outcome of one push.
pub struct PushResult {
    pub success: bool,
    pub message_id: Option<String>,
    pub error: Option<String>,
}

/// The kinds of push channel.
pub enum ChannelType {
    Email,
    Telegram,
    WeChat,
    QQ,
    Feishu,
    Webhook,
}

/// The lower-case name of a channel, as it is displayed and serialised.
pub open spec fn channel_name(c: ChannelType) -> Seq<char> {
    match c {
        ChannelType::Email => "email"@,
        ChannelType::Telegram => "telegram"@,
        ChannelType::WeChat => "wechat"@,
        ChannelType::QQ => "qq"@,
        ChannelType::Feishu => "feishu"@,
        ChannelType::Webhook => "webhook"@,
    }
}

impl ChannelType {
    /// The displayed name of the channel.
    pub fn to_string(&self) -> (r: String)
        ensures
            r@ == channel_name(*self),
    {
        match self {
            ChannelType::Email => owned("email"),
            ChannelType::Telegram => owned("telegram"),
            ChannelType::WeChat => owned("wechat"),
            ChannelType::QQ => owned("qq"),
            ChannelType::Feishu => owned("feishu"),
            ChannelType::Webhook => owned("webhook"),
        }
    }
}

/// The result of a push on a channel that is reserved but not implemented:
/// not delivered, with the given explanation.
pub open spec fn not_implemented(r: PushResult, explanation: Seq<char>) -> bool {
    &&& !r.success
    &&& r.message_id is None
    &&& r.error matches Some(e) && e@ == explanation
}

} // verus!
