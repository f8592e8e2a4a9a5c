//! Reading the `PHI_*` environment variables into configuration patches.
use vstd::prelude::*;

use crate::config::executor::ExecutorConfigPatch;
use crate::config::model::{ModelConfigPatch, ReasoningConfigPatch, ReasoningEffort};
use crate::config::provider::ProviderConfigPatch;
use crate::config::runtime::RuntimeConfigPatch;
use crate::config::schema::{env_index, env_name, lemma_env_index_injective, PhiConfigEnv, PHI_CONFIG_ENV_COUNT};
use crate::text::{
    ascii_lowercase, chars_of_str, is_blank, is_blank_str, lowercase_equals, parse_unsigned,
    parse_unsigned_spec, trim, trim_chars,
};

verus! {

/// Values of configuration variables, at most one per variable, held in
/// declaration order of the variables.
pub struct EnvValues {
    pub slots: Vec<Option<String>>,
}

impl EnvValues {
    pub open spec fn wf(&self) -> bool {
        self.slots@.len() == PHI_CONFIG_ENV_COUNT
    }

    pub fn new() -> (values: EnvValues)
        ensures
            values.wf(),
            forall|key: PhiConfigEnv| #[trigger] values.spec_get(key) is None,
    {
        let mut slots: Vec<Option<String>> = Vec::new();
        for i in 0..PHI_CONFIG_ENV_COUNT
            invariant
                slots@.len() == i,
                forall|k: int| 0 <= k < i ==> #[trigger] slots@[k] is None,
        {
            slots.push(None);
        }
        EnvValues { slots }
    }

    pub open spec fn spec_get(&self, key: PhiConfigEnv) -> Option<String> {
        self.slots@[env_index(key) as int]
    }

    pub fn get(&self, key: PhiConfigEnv) -> (value: Option<&String>)
        requires
            self.wf(),
        ensures
            value matches Some(v) ==> self.spec_get(key) == Some(*v),
            value is None <==> self.spec_get(key) is None,
    {
        match &self.slots[key.index()] {
            Some(value) => Some(value),
            None => None,
        }
    }

    /// Sets `key` to `value`, or unsets it when `value` is `None`.
    pub fn set(&mut self, key: PhiConfigEnv, value: Option<String>)
        requires
            old(self).wf(),
        ensures
            final(self).wf(),
            final(self).spec_get(key) == value,
            forall|other: PhiConfigEnv| other != key ==> #[trigger] final(self).spec_get(other) == old(self).spec_get(other),
    {
        proof { lemma_env_index_injective(); }
        self.slots.set(key.index(), value);
    }
}

/// Sets, or with `None` unsets, the runtime override of a configuration
/// variable; an override wins over the environment.
pub fn set_runtime_setting(overrides: &mut EnvValues, key: PhiConfigEnv, value: Option<String>)
    requires
        old(overrides).wf(),
    ensures
        final(overrides).wf(),
        final(overrides).spec_get(key) == value,
        forall|other: PhiConfigEnv| other != key ==> #[trigger] final(overrides).spec_get(other) == old(overrides).spec_get(other),
{
    overrides.set(key, value);
}

/// The value a variable takes: its runtime override where it has one, else
/// its value in the environment.
pub fn overridden_value(environment: Option<String>, overrides: &EnvValues, key: PhiConfigEnv) -> (value: Option<String>)
    requires
        overrides.wf(),
    ensures
        value == match overrides.spec_get(key) {
            Some(v) => Some(v),
            None => environment,
        },
{
    match overrides.get(key) {
        Some(value) => Some(value.clone()),
        None => environment,
    }
}

/// The kind of value a variable must hold.
#[derive(Clone, Copy, PartialEq, Eq, Structural)]
pub enum Expectation {
    Float,
    UnsignedInteger,
    ReasoningEffortName,
    Boolean,
}

/// A variable that holds a value of the wrong kind.
#[derive(Clone, Copy, PartialEq, Eq, Structural)]
pub struct ConfigError {
    pub key: PhiConfigEnv,
    pub expected: Expectation,
}

pub open spec fn expectation_text(expected: Expectation) -> Seq<char> {
    match expected {
        Expectation::Float => "a valid float"@,
        Expectation::UnsignedInteger => "an unsigned integer"@,
        Expectation::ReasoningEffortName => "one of: minimal, low, medium, high"@,
        Expectation::Boolean => "a valid boolean"@,
    }
}

impl ConfigError {
    pub open spec fn spec_message(&self) -> Seq<char> {
        env_name(self.key) + " must be "@ + expectation_text(self.expected)
    }

    pub fn message(&self) -> (message: String)
        ensures
            message@ == self.spec_message(),
    {
        let mut message = self.key.name().to_owned();
        message.append(" must be ");
        message.append(
            match self.expected {
                Expectation::Float => "a valid float",
                Expectation::UnsignedInteger => "an unsigned integer",
                Expectation::ReasoningEffortName => "one of: minimal, low, medium, high",
                Expectation::Boolean => "a valid boolean",
            },
        );
        message
    }
}

/// The trimmed value, when it is not blank.
pub open spec fn nonempty_spec(value: Option<String>) -> Option<Seq<char>> {
    match value {
        Some(v) => if is_blank(v@) { None } else { Some(trim_chars(v@)) },
        None => None,
    }
}

pub fn nonempty(value: Option<&String>) -> (trimmed: Option<String>)
    ensures
        trimmed matches Some(t) ==> value matches Some(v) && nonempty_spec(Some(*v)) == Some(t@),
        trimmed is None ==> (value matches Some(v) ==> nonempty_spec(Some(*v)) is None),
{
    match value {
        Some(v) => {
            let trimmed = trim(v.as_str());
            proof { crate::text::lemma_blank_iff_trim_empty(v@); }
            if trimmed.as_str().is_empty() {
                None
            } else {
                Some(trimmed)
            }
        },
        None => None,
    }
}

/// A present value parsed as an unsigned number no larger than `max`.
pub open spec fn parsed_unsigned(value: Option<String>, key: PhiConfigEnv, max: nat) -> Result<Option<nat>, ConfigError> {
    match value {
        None => Ok(None),
        Some(v) => match parse_unsigned_spec(v@, max) {
            Some(n) => Ok(Some(n)),
            None => Err(ConfigError { key, expected: Expectation::UnsignedInteger }),
        },
    }
}

pub fn parse_u64(values: &EnvValues, key: PhiConfigEnv) -> (parsed: Result<Option<u64>, ConfigError>)
    requires
        values.wf(),
    ensures
        parsed matches Ok(Some(n)) ==> parsed_unsigned(values.spec_get(key), key, u64::MAX as nat) == Ok::<Option<nat>, ConfigError>(Some(n as nat)),
        parsed matches Ok(None) ==> parsed_unsigned(values.spec_get(key), key, u64::MAX as nat) == Ok::<Option<nat>, ConfigError>(None),
        parsed matches Err(e) ==> parsed_unsigned(values.spec_get(key), key, u64::MAX as nat) == Err::<Option<nat>, ConfigError>(e),
{
    match values.get(key) {
        None => Ok(None),
        Some(value) => match parse_unsigned(value.as_str(), u64::MAX) {
            Some(n) => Ok(Some(n)),
            None => Err(ConfigError { key, expected: Expectation::UnsignedInteger }),
        },
    }
}

pub fn parse_usize(values: &EnvValues, key: PhiConfigEnv) -> (parsed: Result<Option<usize>, ConfigError>)
    requires
        values.wf(),
    ensures
        parsed matches Ok(Some(n)) ==> parsed_unsigned(values.spec_get(key), key, usize::MAX as nat) == Ok::<Option<nat>, ConfigError>(Some(n as nat)),
        parsed matches Ok(None) ==> parsed_unsigned(values.spec_get(key), key, usize::MAX as nat) == Ok::<Option<nat>, ConfigError>(None),
        parsed matches Err(e) ==> parsed_unsigned(values.spec_get(key), key, usize::MAX as nat) == Err::<Option<nat>, ConfigError>(e),
{
    match values.get(key) {
        None => Ok(None),
        Some(value) => match parse_unsigned(value.as_str(), usize::MAX as u64) {
            Some(n) => Ok(Some(n as usize)),
            None => Err(ConfigError { key, expected: Expectation::UnsignedInteger }),
        },
    }
}

pub open spec fn parsed_effort(value: Option<String>, key: PhiConfigEnv) -> Result<Option<ReasoningEffort>, ConfigError> {
    match value {
        None => Ok(None),
        Some(v) => match ReasoningEffort::spec_from_str(v@) {
            Some(effort) => Ok(Some(effort)),
            None => Err(ConfigError { key, expected: Expectation::ReasoningEffortName }),
        },
    }
}

pub fn parse_effort(values: &EnvValues, key: PhiConfigEnv) -> (parsed: Result<Option<ReasoningEffort>, ConfigError>)
    requires
        values.wf(),
    ensures
        parsed == parsed_effort(values.spec_get(key), key),
{
    match values.get(key) {
        None => Ok(None),
        Some(value) => match ReasoningEffort::from_str(value.as_str()) {
            Ok(effort) => Ok(Some(effort)),
            Err(_) => Err(ConfigError { key, expected: Expectation::ReasoningEffortName }),
        },
    }
}

/// Words that mean yes, and words that mean no, in lower case.
pub open spec fn true_word(word: Seq<char>) -> bool {
    word == "1"@ || word == "true"@ || word == "yes"@ || word == "on"@
}

pub open spec fn false_word(word: Seq<char>) -> bool {
    word == "0"@ || word == "false"@ || word == "no"@ || word == "off"@
}

pub open spec fn parsed_bool(value: Option<String>, key: PhiConfigEnv) -> Result<Option<bool>, ConfigError> {
    match value {
        None => Ok(None),
        Some(v) => {
            let word = ascii_lowercase(trim_chars(v@));
            if true_word(word) {
                Ok(Some(true))
            } else if false_word(word) {
                Ok(Some(false))
            } else {
                Err(ConfigError { key, expected: Expectation::Boolean })
            }
        },
    }
}

/// `1`, `true`, `yes`, `on` and `0`, `false`, `no`, `off`, in any ASCII case and
/// with surrounding whitespace.
pub fn parse_bool_text(value: &str) -> (parsed: Option<bool>)
    ensures
        parsed == (if true_word(ascii_lowercase(trim_chars(value@))) {
            Some(true)
        } else if false_word(ascii_lowercase(trim_chars(value@))) {
            Some(false)
        } else {
            None::<bool>
        }),
{
    let trimmed = trim(value);
    let chars = chars_of_str(trimmed.as_str());
    if lowercase_equals(&chars, "1") || lowercase_equals(&chars, "true") || lowercase_equals(&chars, "yes")
        || lowercase_equals(&chars, "on") {
        Some(true)
    } else if lowercase_equals(&chars, "0") || lowercase_equals(&chars, "false") || lowercase_equals(&chars, "no")
        || lowercase_equals(&chars, "off") {
        Some(false)
    } else {
        None
    }
}

pub fn parse_bool(values: &EnvValues, key: PhiConfigEnv) -> (parsed: Result<Option<bool>, ConfigError>)
    requires
        values.wf(),
    ensures
        parsed == parsed_bool(values.spec_get(key), key),
{
    match values.get(key) {
        None => Ok(None),
        Some(value) => match parse_bool_text(value.as_str()) {
            Some(flag) => Ok(Some(flag)),
            None => Err(ConfigError { key, expected: Expectation::Boolean }),
        },
    }
}

/// Configuration patches that the environment holds. The model patch's
/// temperature is the one handed in, parsed beforehand; the tool definitions stay
/// JSON text.
pub struct EnvOverrides {
    pub model: ModelConfigPatch,
    pub provider: ProviderConfigPatch,
    pub runtime: RuntimeConfigPatch,
    pub executor: ExecutorConfigPatch,
    pub tools_json: Option<String>,
}

/// The first variable, in the order in which they are read, that holds a value
/// of the wrong kind.
pub open spec fn first_env_error(values: EnvValues) -> Option<ConfigError> {
    let u64_max = u64::MAX as nat;
    let usize_max = usize::MAX as nat;
    if let Err(e) = parsed_unsigned(values.spec_get(PhiConfigEnv::MaxTokens), PhiConfigEnv::MaxTokens, u64_max) {
        Some(e)
    } else if let Err(e) = parsed_bool(values.spec_get(PhiConfigEnv::EnableReasoning), PhiConfigEnv::EnableReasoning) {
        Some(e)
    } else if let Err(e) = parsed_effort(values.spec_get(PhiConfigEnv::ReasoningEffort), PhiConfigEnv::ReasoningEffort) {
        Some(e)
    } else if let Err(e) = parsed_unsigned(values.spec_get(PhiConfigEnv::ThinkingTokenBudget), PhiConfigEnv::ThinkingTokenBudget, u64_max) {
        Some(e)
    } else if let Err(e) = parsed_unsigned(values.spec_get(PhiConfigEnv::MaxSteps), PhiConfigEnv::MaxSteps, usize_max) {
        Some(e)
    } else if let Err(e) = parsed_unsigned(values.spec_get(PhiConfigEnv::ContextTokens), PhiConfigEnv::ContextTokens, usize_max) {
        Some(e)
    } else if let Err(e) = parsed_unsigned(values.spec_get(PhiConfigEnv::ToolThresholdTokens), PhiConfigEnv::ToolThresholdTokens, usize_max) {
        Some(e)
    } else if let Err(e) = parsed_unsigned(values.spec_get(PhiConfigEnv::ToolPreviewBytes), PhiConfigEnv::ToolPreviewBytes, usize_max) {
        Some(e)
    } else {
        None
    }
}

pub open spec fn opt_view(value: Option<String>) -> Option<Seq<char>> {
    match value {
        Some(v) => Some(v@),
        None => None,
    }
}

pub open spec fn opt_nat_u64(value: Option<u64>) -> Option<nat> {
    match value {
        Some(v) => Some(v as nat),
        None => None,
    }
}

pub open spec fn opt_nat_usize(value: Option<usize>) -> Option<nat> {
    match value {
        Some(v) => Some(v as nat),
        None => None,
    }
}

pub open spec fn ok_value<T>(parsed: Result<Option<T>, ConfigError>) -> Option<T> {
    match parsed {
        Ok(value) => value,
        Err(_) => None,
    }
}

/// The tool definitions' text, when the variable holds more than whitespace.
pub open spec fn tools_text(value: Option<String>) -> Option<String> {
    match value {
        Some(v) => if is_blank(v@) { None } else { Some(v) },
        None => None,
    }
}

impl EnvOverrides {
    pub fn from_typed_values(values: &EnvValues, temperature_bits: Option<u64>) -> (overrides: Result<EnvOverrides, ConfigError>)
        requires
            values.wf(),
        ensures
            overrides matches Err(e) ==> first_env_error(*values) == Some(e),
            overrides is Ok ==> first_env_error(*values) is None,
            overrides matches Ok(o) ==> {
                let u64_max = u64::MAX as nat;
                let usize_max = usize::MAX as nat;
                &&& opt_view(o.model.name) == nonempty_spec(values.spec_get(PhiConfigEnv::Model))
                &&& o.model.temperature_bits == temperature_bits
                &&& opt_nat_u64(o.model.max_tokens) == ok_value(parsed_unsigned(values.spec_get(PhiConfigEnv::MaxTokens), PhiConfigEnv::MaxTokens, u64_max))
                &&& o.model.reasoning.enabled == ok_value(parsed_bool(values.spec_get(PhiConfigEnv::EnableReasoning), PhiConfigEnv::EnableReasoning))
                &&& o.model.reasoning.effort == ok_value(parsed_effort(values.spec_get(PhiConfigEnv::ReasoningEffort), PhiConfigEnv::ReasoningEffort))
                &&& opt_nat_u64(o.model.reasoning.token_budget) == ok_value(parsed_unsigned(values.spec_get(PhiConfigEnv::ThinkingTokenBudget), PhiConfigEnv::ThinkingTokenBudget, u64_max))
                &&& opt_view(o.provider.kind) == nonempty_spec(values.spec_get(PhiConfigEnv::Provider))
                &&& opt_view(o.provider.api_base) == nonempty_spec(values.spec_get(PhiConfigEnv::ApiBase))
                &&& o.provider.api_key == values.spec_get(PhiConfigEnv::ApiKey)
                &&& opt_view(o.provider.fake_profile) == nonempty_spec(values.spec_get(PhiConfigEnv::FakeProfile))
                &&& o.runtime.system == values.spec_get(PhiConfigEnv::System)
                &&& opt_nat_usize(o.runtime.max_steps) == ok_value(parsed_unsigned(values.spec_get(PhiConfigEnv::MaxSteps), PhiConfigEnv::MaxSteps, usize_max))
                &&& opt_nat_usize(o.runtime.context_tokens) == ok_value(parsed_unsigned(values.spec_get(PhiConfigEnv::ContextTokens), PhiConfigEnv::ContextTokens, usize_max))
                &&& opt_nat_usize(o.executor.tool_threshold_tokens) == ok_value(parsed_unsigned(values.spec_get(PhiConfigEnv::ToolThresholdTokens), PhiConfigEnv::ToolThresholdTokens, usize_max))
                &&& opt_nat_usize(o.executor.tool_preview_bytes) == ok_value(parsed_unsigned(values.spec_get(PhiConfigEnv::ToolPreviewBytes), PhiConfigEnv::ToolPreviewBytes, usize_max))
                &&& o.tools_json == tools_text(values.spec_get(PhiConfigEnv::Tools))
            },
    {
        let max_tokens = match parse_u64(values, PhiConfigEnv::MaxTokens) {
            Ok(value) => value,
            Err(error) => return Err(error),
        };
        let enabled = match parse_bool(values, PhiConfigEnv::EnableReasoning) {
            Ok(value) => value,
            Err(error) => return Err(error),
        };
        let effort = match parse_effort(values, PhiConfigEnv::ReasoningEffort) {
            Ok(value) => value,
            Err(error) => return Err(error),
        };
        let token_budget = match parse_u64(values, PhiConfigEnv::ThinkingTokenBudget) {
            Ok(value) => value,
            Err(error) => return Err(error),
        };
        let max_steps = match parse_usize(values, PhiConfigEnv::MaxSteps) {
            Ok(value) => value,
            Err(error) => return Err(error),
        };
        let context_tokens = match parse_usize(values, PhiConfigEnv::ContextTokens) {
            Ok(value) => value,
            Err(error) => return Err(error),
        };
        let tool_threshold_tokens = match parse_usize(values, PhiConfigEnv::ToolThresholdTokens) {
            Ok(value) => value,
            Err(error) => return Err(error),
        };
        let tool_preview_bytes = match parse_usize(values, PhiConfigEnv::ToolPreviewBytes) {
            Ok(value) => value,
            Err(error) => return Err(error),
        };
        let model = ModelConfigPatch {
            name: nonempty(values.get(PhiConfigEnv::Model)),
            temperature_bits,
            max_tokens,
            reasoning: ReasoningConfigPatch { enabled, effort, token_budget },
        };
        let provider = ProviderConfigPatch {
            kind: nonempty(values.get(PhiConfigEnv::Provider)),
            api_base: nonempty(values.get(PhiConfigEnv::ApiBase)),
            api_key: match values.get(PhiConfigEnv::ApiKey) {
                Some(key) => Some(key.clone()),
                None => None,
            },
            fake_profile: nonempty(values.get(PhiConfigEnv::FakeProfile)),
        };
        let runtime = RuntimeConfigPatch {
            system: match values.get(PhiConfigEnv::System) {
                Some(system) => Some(system.clone()),
                None => None,
            },
            max_steps,
            context_tokens,
        };
        let executor = ExecutorConfigPatch { tool_threshold_tokens, tool_preview_bytes };
        let tools_json = match values.get(PhiConfigEnv::Tools) {
            Some(text) => if is_blank_str(text.as_str()) { None } else { Some(text.clone()) },
            None => None,
        };
        Ok(EnvOverrides { model, provider, runtime, executor, tools_json })
    }
}

} // verus!
