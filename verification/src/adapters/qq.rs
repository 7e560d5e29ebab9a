//! The QQ group bot channel, reserved for a later implementation.

use vstd::prelude::*;
use super::{PushMessage, PushResult, not_implemented};
use crate::text::owned;

verus! {

/// Settings of a QQ bot.
pub struct QQConfig {
    pub server_url: String,
    pub group_id: String,
}

/// Pushes to QQ (not implemented yet).
pub struct QQAdapter {
    config: QQConfig,
}

/// The explanation a QQ push gives.
pub open spec fn qq_pending() -> Seq<char> {
    "QQ 推送功能预留，尚未实现"@
}

impl QQAdapter {
    /// The settings this adapter was made with.
    pub closed spec fn config_view(&self) -> QQConfig {
        self.config
    }

    /// An adapter with the given settings.
    pub fn new(config: QQConfig) -> (r: Self)
        ensures
            r.config_view() == config,
    {
        Self { config }
    }

    /// Pushing to QQ is not implemented: the result says so and nothing
    /// is sent.
    pub fn send(&self, _message: &PushMessage, _target: &str) -> (r: Result<PushResult, String>)
        ensures
            r matches Ok(p) && not_implemented(p, qq_pending()),
    {
        Ok(PushResult { success: false, message_id: None, error: Some(owned("QQ 推送功能预留，尚未实现")) })
    }
}

} // verus!
