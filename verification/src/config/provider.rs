//! Provider settings: which API to call, where, and with which key.
use vstd::prelude::*;

use crate::config::model::patched;
use crate::config::schema::{DEFAULT_API_KEY, DEFAULT_FAKE_PROFILE, DEFAULT_OPENAI_BASE_URL, DEFAULT_PROVIDER};

verus! {

pub struct ProviderConfig {
    pub kind: String,
    pub api_base: String,
    pub api_key: String,
    pub fake_profile: String,
}

pub struct ProviderConfigPatch {
    pub kind: Option<String>,
    pub api_base: Option<String>,
    pub api_key: Option<String>,
    pub fake_profile: Option<String>,
}

impl ProviderConfig {
    pub fn default() -> (config: ProviderConfig)
        ensures
            config.kind@ == DEFAULT_PROVIDER@,
            config.api_base@ == DEFAULT_OPENAI_BASE_URL@,
            config.api_key@ == DEFAULT_API_KEY@,
            config.fake_profile@ == DEFAULT_FAKE_PROFILE@,
    {
        ProviderConfig {
            kind: DEFAULT_PROVIDER.to_owned(),
            api_base: DEFAULT_OPENAI_BASE_URL.to_owned(),
            api_key: DEFAULT_API_KEY.to_owned(),
            fake_profile: DEFAULT_FAKE_PROFILE.to_owned(),
        }
    }

    /// Every setting that the patch holds replaces the current one; the others stay.
    pub fn apply(&mut self, patch: ProviderConfigPatch)
        ensures
            final(self).kind == patched(old(self).kind, patch.kind),
            final(self).api_base == patched(old(self).api_base, patch.api_base),
            final(self).api_key == patched(old(self).api_key, patch.api_key),
            final(self).fake_profile == patched(old(self).fake_profile, patch.fake_profile),
    {
        let ProviderConfigPatch { kind, api_base, api_key, fake_profile } = patch;
        if let Some(value) = kind {
            self.kind = value;
        }
        if let Some(value) = api_base {
            self.api_base = value;
        }
        if let Some(value) = api_key {
            self.api_key = value;
        }
        if let Some(value) = fake_profile {
            self.fake_profile = value;
        }
    }
}

} // verus!
