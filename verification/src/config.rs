//! The daemon's settings.

use std::time::Duration;
use vstd::prelude::*;

verus! {

/// Settings of one run of the daemon.
#[derive(Debug)]
pub struct Config {
    /// URL of the watched (target) node.
    pub target_rpc_url: String,
    /// URL of the reference node.
    pub reference_rpc_url: String,
    /// Time between two probes.
    pub poll_interval: Duration,
    /// The largest slot lag that raises no alert.
    pub slot_lag_threshold: u64,
    /// The largest response time, in milliseconds, that raises no alert.
    pub rtt_threshold_ms: u64,
    /// Time between two alerts.
    pub alert_cooldown: Duration,
    /// Key for the LLM provider.
    pub llm_api_key: String,
    /// Model asked of the LLM provider.
    pub llm_model: String,
    /// Base URL of the LLM provider.
    pub llm_base_url: String,
    /// Token of the Telegram bot.
    pub telegram_bot_token: String,
    /// Telegram chat that receives the alerts.
    pub telegram_chat_id: String,
}

} // verus!
