//! Runtime settings: the system prompt, the step budget and the context window.
use vstd::prelude::*;

use crate::config::model::patched;
use crate::config::schema::{DEFAULT_CONTEXT_TOKENS, DEFAULT_MAX_STEPS};

verus! {

pub struct RuntimeConfig {
    pub system: Option<String>,
    pub max_steps: usize,
    pub context_tokens: usize,
}

pub struct RuntimeConfigPatch {
    pub system: Option<String>,
    pub max_steps: Option<usize>,
    pub context_tokens: Option<usize>,
}

impl RuntimeConfig {
    pub fn default() -> (config: RuntimeConfig)
        ensures
            config.system is None,
            config.max_steps == DEFAULT_MAX_STEPS,
            config.context_tokens == DEFAULT_CONTEXT_TOKENS,
    {
        RuntimeConfig { system: None, max_steps: DEFAULT_MAX_STEPS, context_tokens: DEFAULT_CONTEXT_TOKENS }
    }

    /// Every setting that the patch holds replaces the current one; the others stay.
    pub fn apply(&mut self, patch: RuntimeConfigPatch)
        ensures
            final(self).system == (match patch.system {
                Some(system) => Some(system),
                None => old(self).system,
            }),
            final(self).max_steps == patched(old(self).max_steps, patch.max_steps),
            final(self).context_tokens == patched(old(self).context_tokens, patch.context_tokens),
    {
        let RuntimeConfigPatch { system, max_steps, context_tokens } = patch;
        if let Some(value) = system {
            self.system = Some(value);
        }
        if let Some(value) = max_steps {
            self.max_steps = value;
        }
        if let Some(value) = context_tokens {
            self.context_tokens = value;
        }
    }
}

} // verus!
