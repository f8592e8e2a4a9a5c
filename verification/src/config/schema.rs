//! The environment variables that configure Phi, and the built-in defaults.
use vstd::prelude::*;

verus! {

#[derive(Clone, Copy, PartialEq, Eq, Structural)]
pub enum PhiConfigEnv {
    Model,
    Temperature,
    MaxTokens,
    EnableReasoning,
    ReasoningEffort,
    ThinkingTokenBudget,
    Provider,
    ApiBase,
    ApiKey,
    FakeProfile,
    System,
    MaxSteps,
    ContextTokens,
    ToolThresholdTokens,
    ToolPreviewBytes,
    Tools,
}

/// Number of configuration variables.
pub const PHI_CONFIG_ENV_COUNT: usize = 16;

pub open spec fn env_name(key: PhiConfigEnv) -> Seq<char> {
    match key {
        PhiConfigEnv::Model => "PHI_MODEL"@,
        PhiConfigEnv::Temperature => "PHI_TEMPERATURE"@,
        PhiConfigEnv::MaxTokens => "PHI_MAX_TOKENS"@,
        PhiConfigEnv::EnableReasoning => "PHI_ENABLE_REASONING"@,
        PhiConfigEnv::ReasoningEffort => "PHI_REASONING_EFFORT"@,
        PhiConfigEnv::ThinkingTokenBudget => "PHI_THINKING_TOKEN_BUDGET"@,
        PhiConfigEnv::Provider => "PHI_PROVIDER"@,
        PhiConfigEnv::ApiBase => "PHI_API"@,
        PhiConfigEnv::ApiKey => "PHI_KEY"@,
        PhiConfigEnv::FakeProfile => "PHI_FAKE_PROFILE"@,
        PhiConfigEnv::System => "PHI_SYSTEM"@,
        PhiConfigEnv::MaxSteps => "PHI_MAX_STEPS"@,
        PhiConfigEnv::ContextTokens => "PHI_CONTEXT_TOKENS"@,
        PhiConfigEnv::ToolThresholdTokens => "PHI_TOOL_THRESHOLD_TOKENS"@,
        PhiConfigEnv::ToolPreviewBytes => "PHI_TOOL_PREVIEW_BYTES"@,
        PhiConfigEnv::Tools => "PHI_TOOLS"@,
    }
}

pub open spec fn env_at(index: int) -> PhiConfigEnv {
    if index == 0 { PhiConfigEnv::Model }
    else if index == 1 { PhiConfigEnv::Temperature }
    else if index == 2 { PhiConfigEnv::MaxTokens }
    else if index == 3 { PhiConfigEnv::EnableReasoning }
    else if index == 4 { PhiConfigEnv::ReasoningEffort }
    else if index == 5 { PhiConfigEnv::ThinkingTokenBudget }
    else if index == 6 { PhiConfigEnv::Provider }
    else if index == 7 { PhiConfigEnv::ApiBase }
    else if index == 8 { PhiConfigEnv::ApiKey }
    else if index == 9 { PhiConfigEnv::FakeProfile }
    else if index == 10 { PhiConfigEnv::System }
    else if index == 11 { PhiConfigEnv::MaxSteps }
    else if index == 12 { PhiConfigEnv::ContextTokens }
    else if index == 13 { PhiConfigEnv::ToolThresholdTokens }
    else if index == 14 { PhiConfigEnv::ToolPreviewBytes }
    else { PhiConfigEnv::Tools }
}

/// Position of `key` in declaration order.
pub open spec fn env_index(key: PhiConfigEnv) -> nat {
    match key {
        PhiConfigEnv::Model => 0,
        PhiConfigEnv::Temperature => 1,
        PhiConfigEnv::MaxTokens => 2,
        PhiConfigEnv::EnableReasoning => 3,
        PhiConfigEnv::ReasoningEffort => 4,
        PhiConfigEnv::ThinkingTokenBudget => 5,
        PhiConfigEnv::Provider => 6,
        PhiConfigEnv::ApiBase => 7,
        PhiConfigEnv::ApiKey => 8,
        PhiConfigEnv::FakeProfile => 9,
        PhiConfigEnv::System => 10,
        PhiConfigEnv::MaxSteps => 11,
        PhiConfigEnv::ContextTokens => 12,
        PhiConfigEnv::ToolThresholdTokens => 13,
        PhiConfigEnv::ToolPreviewBytes => 14,
        PhiConfigEnv::Tools => 15,
    }
}

pub proof fn lemma_env_index_injective()
    ensures
        forall|a: PhiConfigEnv, b: PhiConfigEnv| #[trigger] env_index(a) == #[trigger] env_index(b) ==> a == b,
        forall|a: PhiConfigEnv| #[trigger] env_index(a) < PHI_CONFIG_ENV_COUNT,
        forall|i: int| 0 <= i < PHI_CONFIG_ENV_COUNT ==> env_index(#[trigger] env_at(i)) == i,
{
}

impl PhiConfigEnv {
    pub fn index(self) -> (index: usize)
        ensures
            index == env_index(self),
            index < PHI_CONFIG_ENV_COUNT,
    {
        match self {
            PhiConfigEnv::Model => 0,
            PhiConfigEnv::Temperature => 1,
            PhiConfigEnv::MaxTokens => 2,
            PhiConfigEnv::EnableReasoning => 3,
            PhiConfigEnv::ReasoningEffort => 4,
            PhiConfigEnv::ThinkingTokenBudget => 5,
            PhiConfigEnv::Provider => 6,
            PhiConfigEnv::ApiBase => 7,
            PhiConfigEnv::ApiKey => 8,
            PhiConfigEnv::FakeProfile => 9,
            PhiConfigEnv::System => 10,
            PhiConfigEnv::MaxSteps => 11,
            PhiConfigEnv::ContextTokens => 12,
            PhiConfigEnv::ToolThresholdTokens => 13,
            PhiConfigEnv::ToolPreviewBytes => 14,
            PhiConfigEnv::Tools => 15,
        }
    }

    /// Every configuration variable, in declaration order.
    pub fn all() -> (all: Vec<PhiConfigEnv>)
        ensures
            all@.len() == PHI_CONFIG_ENV_COUNT,
            forall|i: int| 0 <= i < PHI_CONFIG_ENV_COUNT ==> #[trigger] all@[i] == env_at(i),
    {
        vec![
            PhiConfigEnv::Model,
            PhiConfigEnv::Temperature,
            PhiConfigEnv::MaxTokens,
            PhiConfigEnv::EnableReasoning,
            PhiConfigEnv::ReasoningEffort,
            PhiConfigEnv::ThinkingTokenBudget,
            PhiConfigEnv::Provider,
            PhiConfigEnv::ApiBase,
            PhiConfigEnv::ApiKey,
            PhiConfigEnv::FakeProfile,
            PhiConfigEnv::System,
            PhiConfigEnv::MaxSteps,
            PhiConfigEnv::ContextTokens,
            PhiConfigEnv::ToolThresholdTokens,
            PhiConfigEnv::ToolPreviewBytes,
            PhiConfigEnv::Tools,
        ]
    }

    pub fn name(self) -> (name: &'static str)
        ensures
            name@ == env_name(self),
    {
        match self {
            PhiConfigEnv::Model => "PHI_MODEL",
            PhiConfigEnv::Temperature => "PHI_TEMPERATURE",
            PhiConfigEnv::MaxTokens => "PHI_MAX_TOKENS",
            PhiConfigEnv::EnableReasoning => "PHI_ENABLE_REASONING",
            PhiConfigEnv::ReasoningEffort => "PHI_REASONING_EFFORT",
            PhiConfigEnv::ThinkingTokenBudget => "PHI_THINKING_TOKEN_BUDGET",
            PhiConfigEnv::Provider => "PHI_PROVIDER",
            PhiConfigEnv::ApiBase => "PHI_API",
            PhiConfigEnv::ApiKey => "PHI_KEY",
            PhiConfigEnv::FakeProfile => "PHI_FAKE_PROFILE",
            PhiConfigEnv::System => "PHI_SYSTEM",
            PhiConfigEnv::MaxSteps => "PHI_MAX_STEPS",
            PhiConfigEnv::ContextTokens => "PHI_CONTEXT_TOKENS",
            PhiConfigEnv::ToolThresholdTokens => "PHI_TOOL_THRESHOLD_TOKENS",
            PhiConfigEnv::ToolPreviewBytes => "PHI_TOOL_PREVIEW_BYTES",
            PhiConfigEnv::Tools => "PHI_TOOLS",
        }
    }
}

/// Every variable name starts with `PHI_`, and no two variables share a name.
pub proof fn env_names_are_unique_and_phi_scoped(a: PhiConfigEnv, b: PhiConfigEnv)
    ensures
        env_name(a).len() >= 4,
        env_name(a).take(4) == "PHI_"@,
        a != b ==> env_name(a) != env_name(b),
{
    reveal_strlit("PHI_");
    reveal_strlit("PHI_MODEL");
    reveal_strlit("PHI_TEMPERATURE");
    reveal_strlit("PHI_MAX_TOKENS");
    reveal_strlit("PHI_ENABLE_REASONING");
    reveal_strlit("PHI_REASONING_EFFORT");
    reveal_strlit("PHI_THINKING_TOKEN_BUDGET");
    reveal_strlit("PHI_PROVIDER");
    reveal_strlit("PHI_API");
    reveal_strlit("PHI_KEY");
    reveal_strlit("PHI_FAKE_PROFILE");
    reveal_strlit("PHI_SYSTEM");
    reveal_strlit("PHI_MAX_STEPS");
    reveal_strlit("PHI_CONTEXT_TOKENS");
    reveal_strlit("PHI_TOOL_THRESHOLD_TOKENS");
    reveal_strlit("PHI_TOOL_PREVIEW_BYTES");
    reveal_strlit("PHI_TOOLS");
    assert(env_name(a).take(4) =~= "PHI_"@);
    if a != b && env_name(a) == env_name(b) {
        assert(env_name(a).len() == env_name(b).len());
        assert(env_name(a)[4] == env_name(b)[4]);
        assert(env_name(a)[5] == env_name(b)[5]);
    }
}

/// Built-in values of the settings that nothing overrides.
pub const DEFAULT_MODEL: &'static str = "";
pub const DEFAULT_MAX_TOKENS: u64 = 32768;
pub const DEFAULT_REASONING_ENABLED: bool = true;
pub const DEFAULT_REASONING_TOKEN_BUDGET: u64 = 4096;
pub const DEFAULT_PROVIDER: &'static str = "openai_chat";
pub const DEFAULT_OPENAI_BASE_URL: &'static str = "https://api.openai.com/v1";
pub const DEFAULT_API_KEY: &'static str = "";
pub const DEFAULT_FAKE_PROFILE: &'static str = "assistant_text";
pub const DEFAULT_MAX_STEPS: usize = 1_000_000;
pub const DEFAULT_CONTEXT_TOKENS: usize = 262144;
pub const DEFAULT_TOOL_THRESHOLD_TOKENS: usize = 8192;
pub const DEFAULT_TOOL_PREVIEW_BYTES: usize = 2048;

} // verus!
