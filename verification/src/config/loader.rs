//! Which configuration file is read, and how the environment overrides it.
use vstd::prelude::*;
use super::{home_or_here, opt_str_view, AppConfig};
use crate::paths::{join, join_path};

verus! {

/// Values from the environment that override the configuration.
#[derive(Debug, Clone)]
pub struct EnvOverrides {
    /// `NANOBOT_API_KEY`
    pub api_key: Option<String>,
    /// `NANOBOT_BASE_URL`
    pub base_url: Option<String>,
    /// `NANOBOT_MODEL`
    pub model: Option<String>,
    /// `NANOBOT_WORKSPACE`
    pub workspace: Option<String>,
}

/// `~/.nanobot-rs/config.yaml`, with `.` standing for an unset home.
pub open spec fn default_config_path_of(home: Option<Seq<char>>) -> Seq<char> {
    join_path(join_path(home_or_here(home), ".nanobot-rs"@), "config.yaml"@)
}

/// The file to read: the given one; else `nanobot.yaml` when it exists here; else the default.
pub open spec fn config_path_of(custom: Option<Seq<char>>, local_exists: bool, home: Option<Seq<char>>) -> Seq<
    char,
> {
    match custom {
        Some(c) => c,
        None => if local_exists {
            "nanobot.yaml"@
        } else {
            default_config_path_of(home)
        },
    }
}

/// The default configuration file for a home directory.
pub fn default_config_path(home: Option<&str>) -> (r: String)
    ensures
        r@ == default_config_path_of(opt_str_view(home)),
{
    let h = match home {
        Some(h) => h,
        None => ".",
    };
    let d = join(h, ".nanobot-rs");
    join(d.as_str(), "config.yaml")
}

/// The configuration file to read.
pub fn config_path(custom: Option<&str>, local_exists: bool, home: Option<&str>) -> (r: String)
    ensures
        r@ == config_path_of(opt_str_view(custom), local_exists, opt_str_view(home)),
{
    match custom {
        Some(c) => crate::text::owned(c),
        None => if local_exists {
            crate::text::owned("nanobot.yaml")
        } else {
            default_config_path(home)
        },
    }
}

/// Applies the environment: each value that is set replaces its setting (API key, base URL
/// and model name of the primary model; the tools' workspace). Nothing else changes.
pub fn apply_env_overrides(config: &mut AppConfig, env: EnvOverrides)
    ensures
        final(config).model.api_key == match env.api_key {
            Some(v) => v,
            None => old(config).model.api_key,
        },
        final(config).model.base_url == match env.base_url {
            Some(v) => v,
            None => old(config).model.base_url,
        },
        final(config).model.default == match env.model {
            Some(v) => v,
            None => old(config).model.default,
        },
        final(config).tools.workspace == match env.workspace {
            Some(v) => v,
            None => old(config).tools.workspace,
        },
        final(config).model.provider == old(config).model.provider,
        final(config).fallback_models == old(config).fallback_models,
        final(config).agent == old(config).agent,
        final(config).channels == old(config).channels,
        final(config).tools.exec_timeout == old(config).tools.exec_timeout,
        final(config).session == old(config).session,
{
    if let Some(key) = env.api_key {
        config.model.api_key = key;
    }
    if let Some(url) = env.base_url {
        config.model.base_url = url;
    }
    if let Some(model) = env.model {
        config.model.default = model;
    }
    if let Some(ws) = env.workspace {
        config.tools.workspace = ws;
    }
}

} // verus!
