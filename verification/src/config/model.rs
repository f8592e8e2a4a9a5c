//! Model settings: the model name, sampling temperature, token limits and reasoning.
use vstd::prelude::*;

use crate::config::schema::{
    DEFAULT_MAX_TOKENS, DEFAULT_MODEL, DEFAULT_REASONING_ENABLED, DEFAULT_REASONING_TOKEN_BUDGET,
};
use crate::text::{ascii_lower, ascii_lowercase, chars_of_str, leading_space, lowercase_equals, trailing_space, trim, trim_chars};

verus! {

/// IEEE-754 bits of the default sampling temperature, 1.0.
pub const DEFAULT_TEMPERATURE_BITS: u64 = 0x3FF0_0000_0000_0000;

#[derive(Clone, Copy, Debug, PartialEq, Eq, Structural)]
pub enum ReasoningEffort {
    Minimal,
    Low,
    Medium,
    High,
}

impl ReasoningEffort {
    pub open spec fn spec_as_str(self) -> Seq<char> {
        match self {
            ReasoningEffort::Minimal => "minimal"@,
            ReasoningEffort::Low => "low"@,
            ReasoningEffort::Medium => "medium"@,
            ReasoningEffort::High => "high"@,
        }
    }

    pub fn as_str(self) -> (name: &'static str)
        ensures
            name@ == self.spec_as_str(),
    {
        match self {
            ReasoningEffort::Minimal => "minimal",
            ReasoningEffort::Low => "low",
            ReasoningEffort::Medium => "medium",
            ReasoningEffort::High => "high",
        }
    }

    /// The effort named by `text`, ignoring surrounding whitespace and ASCII case.
    pub open spec fn spec_from_str(text: Seq<char>) -> Option<ReasoningEffort> {
        let word = ascii_lowercase(trim_chars(text));
        if word == "minimal"@ {
            Some(ReasoningEffort::Minimal)
        } else if word == "low"@ {
            Some(ReasoningEffort::Low)
        } else if word == "medium"@ {
            Some(ReasoningEffort::Medium)
        } else if word == "high"@ {
            Some(ReasoningEffort::High)
        } else {
            None
        }
    }

    pub fn from_str(value: &str) -> (effort: Result<ReasoningEffort, String>)
        ensures
            effort matches Ok(e) ==> Self::spec_from_str(value@) == Some(e),
            effort matches Err(message) ==> Self::spec_from_str(value@) is None
                && message@ == "expected one of: minimal, low, medium, high"@,
    {
        let trimmed = trim(value);
        let chars = chars_of_str(trimmed.as_str());
        if lowercase_equals(&chars, "minimal") {
            Ok(ReasoningEffort::Minimal)
        } else if lowercase_equals(&chars, "low") {
            Ok(ReasoningEffort::Low)
        } else if lowercase_equals(&chars, "medium") {
            Ok(ReasoningEffort::Medium)
        } else if lowercase_equals(&chars, "high") {
            Ok(ReasoningEffort::High)
        } else {
            Err("expected one of: minimal, low, medium, high".to_owned())
        }
    }

    /// Reading back an effort's name gives the effort again, also with
    /// whitespace around it or in upper case.
    pub proof fn effort_name_round_trips(effort: ReasoningEffort)
        ensures
            Self::spec_from_str(effort.spec_as_str()) == Some(effort),
            Self::spec_from_str(ascii_uppercase(effort.spec_as_str())) == Some(effort),
            Self::spec_from_str(seq![' '] + effort.spec_as_str() + seq!['\n']) == Some(effort),
    {
        reveal_strlit("minimal");
        reveal_strlit("low");
        reveal_strlit("medium");
        reveal_strlit("high");
        let name = effort.spec_as_str();
        assert(forall|i: int| 0 <= i < name.len() ==> 'a' <= #[trigger] name[i] <= 'z');
        lemma_plain_word(name);
        lemma_upper_word(name);
        lemma_padded_word(name);
    }

    pub fn default() -> (effort: ReasoningEffort)
        ensures
            effort == ReasoningEffort::Medium,
    {
        ReasoningEffort::Medium
    }
}

#[derive(Clone, Copy, PartialEq, Eq, Structural)]
pub struct ReasoningConfig {
    pub enabled: bool,
    pub effort: ReasoningEffort,
    pub token_budget: u64,
}

/// Model settings. The temperature is held as the IEEE-754 bits of an `f64`.
pub struct ModelConfig {
    pub name: String,
    pub temperature_bits: Option<u64>,
    pub max_tokens: u64,
    pub reasoning: ReasoningConfig,
}

pub struct ReasoningConfigPatch {
    pub enabled: Option<bool>,
    pub effort: Option<ReasoningEffort>,
    pub token_budget: Option<u64>,
}

pub struct ModelConfigPatch {
    pub name: Option<String>,
    pub temperature_bits: Option<u64>,
    pub max_tokens: Option<u64>,
    pub reasoning: ReasoningConfigPatch,
}

/// The request defaults that a model configuration hands to provider calls.
pub struct ModelRequestDefaults {
    pub model: String,
    pub temperature_bits: Option<u64>,
    pub max_tokens: u64,
    pub enable_reasoning: bool,
    pub thinking_token_budget: u64,
    pub reasoning_effort: ReasoningEffort,
}

/// `patched` holds the patch's value where it has one, `current` elsewhere.
pub open spec fn patched<T>(current: T, patch: Option<T>) -> T {
    match patch {
        Some(value) => value,
        None => current,
    }
}

impl ReasoningConfig {
    pub open spec fn spec_apply(self, patch: ReasoningConfigPatch) -> ReasoningConfig {
        ReasoningConfig {
            enabled: patched(self.enabled, patch.enabled),
            effort: patched(self.effort, patch.effort),
            token_budget: patched(self.token_budget, patch.token_budget),
        }
    }

    pub fn apply(&mut self, patch: ReasoningConfigPatch)
        ensures
            *final(self) == old(self).spec_apply(patch),
    {
        if let Some(value) = patch.enabled {
            self.enabled = value;
        }
        if let Some(value) = patch.effort {
            self.effort = value;
        }
        if let Some(value) = patch.token_budget {
            self.token_budget = value;
        }
    }
}

impl ModelConfig {
    pub fn default() -> (config: ModelConfig)
        ensures
            config.name@ == DEFAULT_MODEL@,
            config.temperature_bits == Some(DEFAULT_TEMPERATURE_BITS),
            config.max_tokens == DEFAULT_MAX_TOKENS,
            config.reasoning == (ReasoningConfig {
                enabled: DEFAULT_REASONING_ENABLED,
                effort: ReasoningEffort::Medium,
                token_budget: DEFAULT_REASONING_TOKEN_BUDGET,
            }),
    {
        ModelConfig {
            name: DEFAULT_MODEL.to_owned(),
            temperature_bits: Some(DEFAULT_TEMPERATURE_BITS),
            max_tokens: DEFAULT_MAX_TOKENS,
            reasoning: ReasoningConfig {
                enabled: DEFAULT_REASONING_ENABLED,
                effort: ReasoningEffort::default(),
                token_budget: DEFAULT_REASONING_TOKEN_BUDGET,
            },
        }
    }

    /// Every setting that the patch holds replaces the current one; the others stay.
    pub fn apply(&mut self, patch: ModelConfigPatch)
        ensures
            final(self).name == patched(old(self).name, patch.name),
            final(self).temperature_bits == (match patch.temperature_bits {
                Some(bits) => Some(bits),
                None => old(self).temperature_bits,
            }),
            final(self).max_tokens == patched(old(self).max_tokens, patch.max_tokens),
            final(self).reasoning == old(self).reasoning.spec_apply(patch.reasoning),
    {
        let ModelConfigPatch { name, temperature_bits, max_tokens, reasoning } = patch;
        if let Some(value) = name {
            self.name = value;
        }
        if let Some(value) = temperature_bits {
            self.temperature_bits = Some(value);
        }
        if let Some(value) = max_tokens {
            self.max_tokens = value;
        }
        self.reasoning.apply(reasoning);
    }
}

impl ModelRequestDefaults {
    pub fn from_model(config: &ModelConfig) -> (defaults: ModelRequestDefaults)
        ensures
            defaults.model@ == config.name@,
            defaults.temperature_bits == config.temperature_bits,
            defaults.max_tokens == config.max_tokens,
            defaults.enable_reasoning == config.reasoning.enabled,
            defaults.thinking_token_budget == config.reasoning.token_budget,
            defaults.reasoning_effort == config.reasoning.effort,
    {
        ModelRequestDefaults {
            model: config.name.clone(),
            temperature_bits: config.temperature_bits,
            max_tokens: config.max_tokens,
            enable_reasoning: config.reasoning.enabled,
            thinking_token_budget: config.reasoning.token_budget,
            reasoning_effort: config.reasoning.effort,
        }
    }

    /// The request defaults of the built-in model configuration.
    pub fn defaults() -> (defaults: ModelRequestDefaults)
        ensures
            defaults.model@ == DEFAULT_MODEL@,
            defaults.temperature_bits == Some(DEFAULT_TEMPERATURE_BITS),
            defaults.max_tokens == DEFAULT_MAX_TOKENS,
            defaults.enable_reasoning == DEFAULT_REASONING_ENABLED,
            defaults.thinking_token_budget == DEFAULT_REASONING_TOKEN_BUDGET,
            defaults.reasoning_effort == ReasoningEffort::Medium,
    {
        Self::from_model(&ModelConfig::default())
    }
}

/// `s` with ASCII lower-case letters made upper-case.
pub open spec fn ascii_uppercase(s: Seq<char>) -> Seq<char> {
    s.map_values(|c: char| if 'a' <= c <= 'z' { (((c as u32) - 32) as u8) as char } else { c })
}

/// A word of lower-case ASCII letters is its own trimmed, lower-cased form.
proof fn lemma_plain_word(w: Seq<char>)
    requires
        forall|i: int| 0 <= i < w.len() ==> 'a' <= #[trigger] w[i] <= 'z',
    ensures
        ascii_lowercase(trim_chars(w)) == w,
{
    assert(leading_space(w) == 0);
    assert(w.subrange(0, w.len() as int) =~= w);
    assert(trailing_space(w) == 0);
    assert(ascii_lowercase(w) =~= w);
}

/// Upper-casing a word of lower-case ASCII letters is undone by lower-casing.
proof fn lemma_upper_word(w: Seq<char>)
    requires
        forall|i: int| 0 <= i < w.len() ==> 'a' <= #[trigger] w[i] <= 'z',
    ensures
        ascii_lowercase(trim_chars(ascii_uppercase(w))) == w,
{
    let u = ascii_uppercase(w);
    assert forall|i: int| 0 <= i < u.len() implies 'A' <= #[trigger] u[i] <= 'Z' && ascii_lower(u[i]) == w[i] by {
        let c = w[i];
        assert('a' <= c <= 'z');
        assert((((c as u32) - 32) as u8) as char == u[i]);
        assert(((((((c as u32) - 32) as u8) as char) as u32 + 32) as u8) as char == c) by {
            assert(97 <= c as u32 <= 122);
        }
    }
    assert(leading_space(u) == 0);
    assert(u.subrange(0, u.len() as int) =~= u);
    assert(trailing_space(u) == 0);
    assert(ascii_lowercase(u) =~= w);
}

/// Whitespace around a word of lower-case ASCII letters is trimmed away.
proof fn lemma_padded_word(w: Seq<char>)
    requires
        w.len() > 0,
        forall|i: int| 0 <= i < w.len() ==> 'a' <= #[trigger] w[i] <= 'z',
    ensures
        ascii_lowercase(trim_chars(seq![' '] + w + seq!['\n'])) == w,
{
    let p = seq![' '] + w + seq!['\n'];
    let rest = w + seq!['\n'];
    assert(p.drop_first() =~= rest);
    assert(leading_space(rest) == 0);
    assert(leading_space(p) == 1);
    let started = p.subrange(1, p.len() as int);
    assert(started =~= rest);
    assert(rest.drop_last() =~= w);
    assert(trailing_space(w) == 0);
    assert(trailing_space(rest) == 1);
    assert(rest.subrange(0, rest.len() - 1) =~= w);
    lemma_plain_word(w);
    assert(trim_chars(w) =~= w) by {
        assert(w.subrange(0, w.len() as int) =~= w);
    }
}

} // verus!
