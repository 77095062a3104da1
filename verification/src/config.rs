//! The application configuration, its defaults and its environment overrides.
pub mod loader;

use vstd::prelude::*;
use crate::text::{cat, owned};

verus! {

/// A model endpoint: model name, provider name, base URL and API key.
#[derive(Debug, Clone)]
pub struct ModelConfig {
    pub default: String,
    pub provider: String,
    pub base_url: String,
    pub api_key: String,
}

/// Agent behaviour.
#[derive(Debug, Clone)]
pub struct AgentConfig {
    pub max_turns: usize,
    pub verbose: bool,
    pub reasoning_effort: String,
}

/// The Feishu channel.
#[derive(Debug, Clone)]
pub struct FeishuConfig {
    pub enabled: bool,
    pub app_id: String,
    pub app_secret: String,
    pub verification_token: String,
    pub encrypt_key: String,
}

/// The channels.
#[derive(Debug, Clone)]
pub struct ChannelsConfig {
    pub feishu: FeishuConfig,
}

/// Tool execution.
#[derive(Debug, Clone)]
pub struct ToolsConfig {
    pub exec_timeout: u64,
    pub workspace: String,
}

/// Session storage.
#[derive(Debug, Clone)]
pub struct SessionConfig {
    pub storage_dir: String,
}

/// The whole configuration.
#[derive(Debug, Clone)]
pub struct AppConfig {
    pub model: ModelConfig,
    pub fallback_models: Vec<ModelConfig>,
    pub agent: AgentConfig,
    pub channels: ChannelsConfig,
    pub tools: ToolsConfig,
    pub session: SessionConfig,
}

/// The default model.
pub fn default_model_name() -> (r: String)
    ensures
        r@ == "gemini/gemini-3.8-flash-high"@,
{
    owned("gemini/gemini-3.8-flash-high")
}

/// The default provider.
pub fn default_provider_name() -> (r: String)
    ensures
        r@ == "custom"@,
{
    owned("custom")
}

/// The default base URL.
pub fn default_base_url() -> (r: String)
    ensures
        r@ == "https://api.seurl.eu.org/v1"@,
{
    owned("https://api.seurl.eu.org/v1")
}

/// The default iteration limit of a turn.
pub fn default_max_turns() -> (r: usize)
    ensures
        r == 50,
{
    50
}

/// The default reasoning effort.
pub fn default_reasoning_effort() -> (r: String)
    ensures
        r@ == "medium"@,
{
    owned("medium")
}

/// The default shell timeout, in seconds.
pub fn default_exec_timeout() -> (r: u64)
    ensures
        r == 60,
{
    60
}

/// The default workspace.
pub fn default_workspace() -> (r: String)
    ensures
        r@ == "."@,
{
    owned(".")
}

/// The home directory used for defaults: `$HOME`, or `.` when unset.
pub open spec fn home_or_here(home: Option<Seq<char>>) -> Seq<char> {
    match home {
        Some(h) => h,
        None => "."@,
    }
}

/// The view of an optional `&str`.
pub open spec fn opt_str_view(s: Option<&str>) -> Option<Seq<char>> {
    match s {
        Some(x) => Some(x@),
        None => None,
    }
}

/// The default session directory: `<home>/.nanobot-rs/sessions`.
pub fn default_session_dir(home: Option<&str>) -> (r: String)
    ensures
        r@ == home_or_here(opt_str_view(home)) + "/.nanobot-rs/sessions"@,
{
    match home {
        Some(h) => cat(h, "/.nanobot-rs/sessions"),
        None => cat(".", "/.nanobot-rs/sessions"),
    }
}

impl Default for ModelConfig {
    fn default() -> (c: Self)
        ensures
            c.default@ == "gemini/gemini-3.8-flash-high"@,
            c.provider@ == "custom"@,
            c.base_url@ == "https://api.seurl.eu.org/v1"@,
            c.api_key@.len() == 0,
    {
        ModelConfig {
            default: default_model_name(),
            provider: default_provider_name(),
            base_url: default_base_url(),
            api_key: String::new(),
        }
    }
}

impl Default for AgentConfig {
    fn default() -> (c: Self)
        ensures
            c.max_turns == 50,
            !c.verbose,
            c.reasoning_effort@ == "medium"@,
    {
        AgentConfig {
            max_turns: default_max_turns(),
            verbose: false,
            reasoning_effort: default_reasoning_effort(),
        }
    }
}

impl Default for FeishuConfig {
    fn default() -> (c: Self)
        ensures
            !c.enabled,
            c.app_id@.len() == 0,
            c.app_secret@.len() == 0,
            c.verification_token@.len() == 0,
            c.encrypt_key@.len() == 0,
    {
        FeishuConfig {
            enabled: false,
            app_id: String::new(),
            app_secret: String::new(),
            verification_token: String::new(),
            encrypt_key: String::new(),
        }
    }
}

impl Default for ChannelsConfig {
    fn default() -> (c: Self)
        ensures
            !c.feishu.enabled,
            c.feishu.app_id@.len() == 0,
            c.feishu.app_secret@.len() == 0,
    {
        ChannelsConfig { feishu: FeishuConfig::default() }
    }
}

impl Default for ToolsConfig {
    fn default() -> (c: Self)
        ensures
            c.exec_timeout == 60,
            c.workspace@ == "."@,
    {
        ToolsConfig { exec_timeout: default_exec_timeout(), workspace: default_workspace() }
    }
}

impl SessionConfig {
    /// The default session settings for a home directory.
    pub fn for_home(home: Option<&str>) -> (c: SessionConfig)
        ensures
            c.storage_dir@ == home_or_here(opt_str_view(home)) + "/.nanobot-rs/sessions"@,
    {
        SessionConfig { storage_dir: default_session_dir(home) }
    }
}

impl AppConfig {
    /// The default configuration for a home directory: every section at its default and no
    /// fallback models.
    pub fn defaults_for_home(home: Option<&str>) -> (c: AppConfig)
        ensures
            c.model.default@ == "gemini/gemini-3.8-flash-high"@,
            c.model.provider@ == "custom"@,
            c.model.base_url@ == "https://api.seurl.eu.org/v1"@,
            c.model.api_key@.len() == 0,
            c.fallback_models@.len() == 0,
            c.agent.max_turns == 50,
            !c.agent.verbose,
            c.agent.reasoning_effort@ == "medium"@,
            !c.channels.feishu.enabled,
            c.tools.exec_timeout == 60,
            c.tools.workspace@ == "."@,
            c.session.storage_dir@ == home_or_here(opt_str_view(home)) + "/.nanobot-rs/sessions"@,
    {
        AppConfig {
            model: ModelConfig::default(),
            fallback_models: Vec::new(),
            agent: AgentConfig::default(),
            channels: ChannelsConfig::default(),
            tools: ToolsConfig::default(),
            session: SessionConfig::for_home(home),
        }
    }
}

} // verus!
