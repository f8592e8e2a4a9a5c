//! Typed configuration: built-in defaults, then a configuration file, then the
//! `PHI_*` environment, each setting replaced only where a later source sets it.
pub mod env;
pub mod executor;
pub mod flat;
pub mod model;
pub mod provider;
pub mod runtime;
pub mod schema;
pub mod settings;

use vstd::prelude::*;

use crate::config::env::EnvOverrides;
use crate::config::executor::{ExecutorConfig, ExecutorConfigPatch};
use crate::config::model::{patched, ModelConfig, ModelConfigPatch};
use crate::config::provider::{ProviderConfig, ProviderConfigPatch};
use crate::config::runtime::{RuntimeConfig, RuntimeConfigPatch};
use crate::executor::tool_call::PhiToolDefinition;

verus! {

pub struct PhiConfig {
    pub model: ModelConfig,
    pub provider: ProviderConfig,
    pub runtime: RuntimeConfig,
    pub executor: ExecutorConfig,
    pub tools: Vec<PhiToolDefinition>,
}

/// What a configuration file sets; every part may be left out.
pub struct PhiConfigFile {
    pub model: ModelConfigPatch,
    pub provider: ProviderConfigPatch,
    pub runtime: RuntimeConfigPatch,
    pub executor: ExecutorConfigPatch,
    pub tools: Option<Vec<PhiToolDefinition>>,
}

/// `after` is `before` with the patches applied, each setting replaced only
/// where its patch holds a value.
pub open spec fn patched_config(
    before: PhiConfig,
    after: PhiConfig,
    model: ModelConfigPatch,
    provider: ProviderConfigPatch,
    runtime: RuntimeConfigPatch,
    executor: ExecutorConfigPatch,
    tools: Option<Vec<PhiToolDefinition>>,
) -> bool {
    &&& after.model.name == patched(before.model.name, model.name)
    &&& after.model.temperature_bits == (match model.temperature_bits {
        Some(bits) => Some(bits),
        None => before.model.temperature_bits,
    })
    &&& after.model.max_tokens == patched(before.model.max_tokens, model.max_tokens)
    &&& after.model.reasoning == before.model.reasoning.spec_apply(model.reasoning)
    &&& after.provider.kind == patched(before.provider.kind, provider.kind)
    &&& after.provider.api_base == patched(before.provider.api_base, provider.api_base)
    &&& after.provider.api_key == patched(before.provider.api_key, provider.api_key)
    &&& after.provider.fake_profile == patched(before.provider.fake_profile, provider.fake_profile)
    &&& after.runtime.system == (match runtime.system {
        Some(system) => Some(system),
        None => before.runtime.system,
    })
    &&& after.runtime.max_steps == patched(before.runtime.max_steps, runtime.max_steps)
    &&& after.runtime.context_tokens == patched(before.runtime.context_tokens, runtime.context_tokens)
    &&& after.executor.tool_threshold_tokens == patched(before.executor.tool_threshold_tokens, executor.tool_threshold_tokens)
    &&& after.executor.tool_preview_bytes == patched(before.executor.tool_preview_bytes, executor.tool_preview_bytes)
    &&& after.tools == patched(before.tools, tools)
}

impl PhiConfig {
    /// The built-in configuration, with no tools.
    pub fn default() -> (config: PhiConfig)
        ensures
            config.tools@.len() == 0,
            config.runtime.system is None,
    {
        PhiConfig {
            model: ModelConfig::default(),
            provider: ProviderConfig::default(),
            runtime: RuntimeConfig::default(),
            executor: ExecutorConfig::default(),
            tools: Vec::new(),
        }
    }

    /// The settings of a configuration file put over these.
    pub fn apply_file(self, file: PhiConfigFile) -> (config: PhiConfig)
        ensures
            patched_config(self, config, file.model, file.provider, file.runtime, file.executor, file.tools),
    {
        let PhiConfigFile { model, provider, runtime, executor, tools } = file;
        self.apply_patches(model, provider, runtime, executor, tools)
    }

    /// The settings of the environment put over these; `tools` are the tool
    /// definitions that its JSON text gave.
    pub fn apply_env(self, overrides: EnvOverrides, tools: Option<Vec<PhiToolDefinition>>) -> (config: PhiConfig)
        ensures
            patched_config(
                self,
                config,
                overrides.model,
                overrides.provider,
                overrides.runtime,
                overrides.executor,
                tools,
            ),
    {
        let EnvOverrides { model, provider, runtime, executor, tools_json: _ } = overrides;
        self.apply_patches(model, provider, runtime, executor, tools)
    }

    fn apply_patches(
        self,
        model: ModelConfigPatch,
        provider: ProviderConfigPatch,
        runtime: RuntimeConfigPatch,
        executor: ExecutorConfigPatch,
        tools: Option<Vec<PhiToolDefinition>>,
    ) -> (config: PhiConfig)
        ensures
            patched_config(self, config, model, provider, runtime, executor, tools),
    {
        let mut config = self;
        config.model.apply(model);
        config.provider.apply(provider);
        config.runtime.apply(runtime);
        config.executor.apply(executor);
        if let Some(tools) = tools {
            config.tools = tools;
        }
        config
    }

    pub fn model(&self) -> (model: &ModelConfig)
        ensures
            *model == self.model,
    {
        &self.model
    }

    pub fn provider(&self) -> (provider: &ProviderConfig)
        ensures
            *provider == self.provider,
    {
        &self.provider
    }

    pub fn runtime(&self) -> (runtime: &RuntimeConfig)
        ensures
            *runtime == self.runtime,
    {
        &self.runtime
    }

    pub fn executor(&self) -> (executor: &ExecutorConfig)
        ensures
            *executor == self.executor,
    {
        &self.executor
    }

    pub fn tools(&self) -> (tools: &[PhiToolDefinition])
        ensures
            tools@ == self.tools@,
    {
        self.tools.as_slice()
    }
}

} // verus!
