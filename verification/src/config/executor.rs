//! Executor settings: how much tool output reaches the model.
use vstd::prelude::*;

use crate::config::model::patched;
use crate::config::schema::{DEFAULT_TOOL_PREVIEW_BYTES, DEFAULT_TOOL_THRESHOLD_TOKENS};

verus! {

#[derive(Clone, Copy, PartialEq, Eq, Structural)]
pub struct ExecutorConfig {
    pub tool_threshold_tokens: usize,
    pub tool_preview_bytes: usize,
}

pub struct ExecutorConfigPatch {
    pub tool_threshold_tokens: Option<usize>,
    pub tool_preview_bytes: Option<usize>,
}

impl ExecutorConfig {
    pub fn default() -> (config: ExecutorConfig)
        ensures
            config.tool_threshold_tokens == DEFAULT_TOOL_THRESHOLD_TOKENS,
            config.tool_preview_bytes == DEFAULT_TOOL_PREVIEW_BYTES,
    {
        ExecutorConfig {
            tool_threshold_tokens: DEFAULT_TOOL_THRESHOLD_TOKENS,
            tool_preview_bytes: DEFAULT_TOOL_PREVIEW_BYTES,
        }
    }

    /// Every setting that the patch holds replaces the current one; the others stay.
    pub fn apply(&mut self, patch: ExecutorConfigPatch)
        ensures
            final(self).tool_threshold_tokens == patched(old(self).tool_threshold_tokens, patch.tool_threshold_tokens),
            final(self).tool_preview_bytes == patched(old(self).tool_preview_bytes, patch.tool_preview_bytes),
    {
        if let Some(value) = patch.tool_threshold_tokens {
            self.tool_threshold_tokens = value;
        }
        if let Some(value) = patch.tool_preview_bytes {
            self.tool_preview_bytes = value;
        }
    }
}

} // verus!
