//! Flat provider settings and the numeric defaults of the runtime.
use vstd::prelude::*;

use crate::config::schema::{
    DEFAULT_CONTEXT_TOKENS, DEFAULT_FAKE_PROFILE, DEFAULT_MAX_STEPS, DEFAULT_OPENAI_BASE_URL, DEFAULT_PROVIDER,
    DEFAULT_TOOL_PREVIEW_BYTES,
};

use crate::expr::{PhiVariableEffect, PhiVariableEffects};

verus! {

/// Settings changed while the process runs, by variable name; they win over
/// the environment. A setting that was unset holds `Remove`.
pub struct RuntimeOverrides {
    pub settings: PhiVariableEffects<String>,
}

impl RuntimeOverrides {
    pub fn new() -> (overrides: Self)
        ensures
            overrides.settings@ == Map::<Seq<char>, PhiVariableEffect<String>>::empty(),
    {
        RuntimeOverrides { settings: PhiVariableEffects::new() }
    }
}

/// Sets the runtime setting `name` to `value`, or unsets it.
pub fn set_runtime_setting(overrides: &mut RuntimeOverrides, name: &str, value: Option<String>)
    ensures
        final(overrides).settings@ == old(overrides).settings@.insert(
            name@,
            match value {
                Some(value) => PhiVariableEffect::Store { value },
                None => PhiVariableEffect::Remove,
            },
        ),
{
    let effect = match value {
        Some(value) => PhiVariableEffect::Store { value },
        None => PhiVariableEffect::Remove,
    };
    overrides.settings.set(name.to_owned(), effect);
}

/// The value of setting `name`: the runtime setting where one is set, else
/// the environment's value.
pub fn ambient_value(environment: Option<String>, overrides: &RuntimeOverrides, name: &str) -> (value: Option<String>)
    ensures
        value == if overrides.settings@.dom().contains(name@) && overrides.settings@[name@] is Store {
            Some(overrides.settings@[name@]->Store_value)
        } else {
            environment
        },
{
    match overrides.settings.get(name) {
        Some(PhiVariableEffect::Store { value }) => Some(value.clone()),
        _ => environment,
    }
}

/// Tool output threshold, in tokens, when nothing configures it: 24 KiB of text.
pub const DEFAULT_TOOL_OUTPUT_THRESHOLD_TOKENS: usize = 6144;

pub struct ProviderConfig {
    pub provider: String,
    pub api_base: String,
    pub api_key: String,
    pub fake_profile: String,
}

impl ProviderConfig {
    pub fn defaults() -> (config: ProviderConfig)
        ensures
            config.provider@ == DEFAULT_PROVIDER@,
            config.api_base@ == DEFAULT_OPENAI_BASE_URL@,
            config.api_key@ == Seq::<char>::empty(),
            config.fake_profile@ == DEFAULT_FAKE_PROFILE@,
    {
        ProviderConfig {
            provider: DEFAULT_PROVIDER.to_owned(),
            api_base: DEFAULT_OPENAI_BASE_URL.to_owned(),
            api_key: String::new(),
            fake_profile: DEFAULT_FAKE_PROFILE.to_owned(),
        }
    }
}

pub fn default_max_steps() -> (steps: usize)
    ensures
        steps == DEFAULT_MAX_STEPS,
{
    DEFAULT_MAX_STEPS
}

pub fn default_context_tokens() -> (tokens: usize)
    ensures
        tokens == DEFAULT_CONTEXT_TOKENS,
{
    DEFAULT_CONTEXT_TOKENS
}

/// Nine tenths of the default context window.
pub fn default_auto_compact_threshold_tokens() -> (tokens: usize)
    ensures
        tokens == DEFAULT_CONTEXT_TOKENS * 9 / 10,
{
    DEFAULT_CONTEXT_TOKENS * 9 / 10
}

pub fn default_tool_threshold_tokens() -> (tokens: usize)
    ensures
        tokens == DEFAULT_TOOL_OUTPUT_THRESHOLD_TOKENS,
{
    DEFAULT_TOOL_OUTPUT_THRESHOLD_TOKENS
}

pub fn default_tool_preview_bytes() -> (bytes: usize)
    ensures
        bytes == DEFAULT_TOOL_PREVIEW_BYTES,
{
    DEFAULT_TOOL_PREVIEW_BYTES
}

} // verus!
