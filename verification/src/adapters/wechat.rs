//! The WeChat channel, reserved for a later implementation.

use vstd::prelude::*;
use super::{PushMessage, PushResult, not_implemented};
use crate::text::owned;

verus! {

/// Settings of a WeChat account.
pub struct WeChatConfig {
    pub app_id: String,
    pub app_secret: String,
    pub template_id: String,
}

/// Pushes to WeChat (not implemented yet).
pub struct WeChatAdapter {
    config: WeChatConfig,
}

/// The explanation a WeChat push gives.
pub open spec fn wechat_pending() -> Seq<char> {
    "微信推送功能预留，尚未实现"@
}

impl WeChatAdapter {
    /// The settings this adapter was made with.
    pub closed spec fn config_view(&self) -> WeChatConfig {
        self.config
    }

    /// An adapter with the given settings.
    pub fn new(config: WeChatConfig) -> (r: Self)
        ensures
            r.config_view() == config,
    {
        Self { config }
    }

    /// Pushing to WeChat is not implemented: the result says so and nothing
    /// is sent.
    pub fn send(&self, _message: &PushMessage, _target: &str) -> (r: Result<PushResult, String>)
        ensures
            r matches Ok(p) && not_implemented(p, wechat_pending()),
    {
        Ok(PushResult { success: false, message_id: None, error: Some(owned("微信推送功能预留，尚未实现")) })
    }
}

} // verus!
