//! The Feishu (Lark) bot channel, reserved for a later implementation.

use vstd::prelude::*;
use super::{PushMessage, PushResult, not_implemented};
use crate::text::owned;

verus! {

/// Settings of a Feishu bot.
pub struct FeishuConfig {
    pub app_id: String,
    pub app_secret: String,
    pub webhook_url: Option<String>,
}

/// Pushes to Feishu (not implemented yet).
pub struct FeishuAdapter {
    config: FeishuConfig,
}

/// The explanation a Feishu push gives.
pub open spec fn feishu_pending() -> Seq<char> {
    "飞书推送功能预留，尚未实现"@
}

impl FeishuAdapter {
    /// The settings this adapter was made with.
    pub closed spec fn config_view(&self) -> FeishuConfig {
        self.config
    }

    /// An adapter with the given settings.
    pub fn new(config: FeishuConfig) -> (r: Self)
        ensures
            r.config_view() == config,
    {
        Self { config }
    }

    /// Pushing to Feishu is not implemented: the result says so and nothing
    /// is sent.
    pub fn send(&self, _message: &PushMessage, _target: &str) -> (r: Result<PushResult, String>)
        ensures
            r matches Ok(p) && not_implemented(p, feishu_pending()),
    {
        Ok(PushResult { success: false, message_id: None, error: Some(owned("飞书推送功能预留，尚未实现")) })
    }
}

} // verus!
