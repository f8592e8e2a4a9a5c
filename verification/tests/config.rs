use std::collections::BTreeSet;

use phi::config::env::{
    nonempty, overridden_value, parse_bool_text, set_runtime_setting, EnvOverrides, EnvValues,
};
use phi::config::schema::PhiConfigEnv;
use phi::config::settings::{ambient_value, RuntimeOverrides};

#[test]
fn environment_names_are_unique_and_phi_scoped() {
    let names: Vec<&str> = PhiConfigEnv::all().into_iter().map(PhiConfigEnv::name).collect();
    assert!(names.iter().all(|name| name.starts_with("PHI_")));
    assert_eq!(names.len(), names.into_iter().collect::<BTreeSet<_>>().len());
}

#[test]
fn environment_rejects_invalid_typed_values() {
    let mut values = EnvValues::new();
    values.set(PhiConfigEnv::ContextTokens, Some("many".into()));
    let Err(error) = EnvOverrides::from_typed_values(&values, None) else {
        panic!("a non-numeric context size must be refused")
    };
    assert!(error.message().contains("PHI_CONTEXT_TOKENS"));
    assert_eq!(error.message(), "PHI_CONTEXT_TOKENS must be an unsigned integer");
}

#[test]
fn typed_environment_values_become_overrides() {
    let mut values = EnvValues::new();
    values.set(PhiConfigEnv::Model, Some("  gpt-test  ".into()));
    values.set(PhiConfigEnv::MaxSteps, Some("12".into()));
    values.set(PhiConfigEnv::EnableReasoning, Some(" Off ".into()));
    let Ok(overrides) = EnvOverrides::from_typed_values(&values, None) else {
        panic!("valid values must be accepted")
    };
    assert_eq!(overrides.model.name.as_deref(), Some("gpt-test"));
    assert_eq!(overrides.runtime.max_steps, Some(12));
    assert_eq!(overrides.model.reasoning.enabled, Some(false));
}

#[test]
fn booleans_accept_the_usual_spellings() {
    for word in ["1", "true", "YES", " on "] {
        assert_eq!(parse_bool_text(word), Some(true), "{word}");
    }
    for word in ["0", "False", "no", "off"] {
        assert_eq!(parse_bool_text(word), Some(false), "{word}");
    }
    assert_eq!(parse_bool_text("maybe"), None);
    assert_eq!(nonempty(Some(&"   ".to_string())), None);
    assert_eq!(nonempty(Some(&" x ".to_string())), Some("x".to_string()));
}

#[test]
fn runtime_settings_win_over_the_environment_until_unset() {
    let mut overrides = EnvValues::new();
    set_runtime_setting(&mut overrides, PhiConfigEnv::Model, Some("override".into()));
    assert_eq!(
        overridden_value(Some("env".into()), &overrides, PhiConfigEnv::Model),
        Some("override".to_string())
    );
    set_runtime_setting(&mut overrides, PhiConfigEnv::Model, None);
    assert_eq!(overridden_value(Some("env".into()), &overrides, PhiConfigEnv::Model), Some("env".to_string()));

    let mut named = RuntimeOverrides::new();
    phi::config::settings::set_runtime_setting(&mut named, "PHI_MODEL", Some("named".into()));
    assert_eq!(ambient_value(Some("env".into()), &named, "PHI_MODEL"), Some("named".to_string()));
    assert_eq!(ambient_value(Some("env".into()), &named, "PHI_API"), Some("env".to_string()));
    phi::config::settings::set_runtime_setting(&mut named, "PHI_MODEL", None);
    assert_eq!(ambient_value(None, &named, "PHI_MODEL"), None);
}

use phi::config::executor::ExecutorConfigPatch;
use phi::config::model::{ModelConfigPatch, ReasoningConfigPatch};
use phi::config::provider::ProviderConfigPatch;
use phi::config::runtime::RuntimeConfigPatch;
use phi::config::{PhiConfig, PhiConfigFile};
use phi::executor::tool_call::PhiToolDefinition;

#[test]
fn file_and_environment_merge_into_one_typed_config() {
    let file = PhiConfigFile {
        model: ModelConfigPatch {
            name: Some("home-model".into()),
            temperature_bits: None,
            max_tokens: None,
            reasoning: ReasoningConfigPatch { enabled: Some(false), effort: None, token_budget: None },
        },
        provider: ProviderConfigPatch {
            kind: Some("openai_response".into()),
            api_base: None,
            api_key: None,
            fake_profile: None,
        },
        runtime: RuntimeConfigPatch { system: None, max_steps: None, context_tokens: Some(1000) },
        executor: ExecutorConfigPatch { tool_threshold_tokens: None, tool_preview_bytes: None },
        tools: Some(vec![PhiToolDefinition {
            name: "lookup".into(),
            description: "Lookup".into(),
            parameters: serde_json::from_str(r#"{"type":"object"}"#).unwrap(),
        }]),
    };
    let config = PhiConfig::default().apply_file(file);

    let mut values = EnvValues::new();
    values.set(PhiConfigEnv::Model, Some("env-model".into()));
    values.set(PhiConfigEnv::EnableReasoning, Some("true".into()));
    let Ok(overrides) = EnvOverrides::from_typed_values(&values, None) else {
        panic!("valid environment values must be accepted")
    };
    let config = config.apply_env(overrides, None);

    assert_eq!(config.model().name, "env-model");
    assert!(config.model().reasoning.enabled);
    assert_eq!(config.provider().kind, "openai_response");
    assert_eq!(config.runtime().context_tokens, 1000);
    assert_eq!(config.tools()[0].name, "lookup");
}

#[test]
fn default_config_has_no_tools_and_no_system_prompt() {
    let config = PhiConfig::default();
    assert!(config.tools().is_empty());
    assert!(config.runtime().system.is_none());
}

use phi::config::flat::{
    optional_bool_from_config, optional_public_usize_from_config, optional_reasoning_effort_from_config,
    optional_string_from_config, optional_u64_from_config, tool_output_limits_from_config, PhiConfig as FlatConfig,
};
use phi::config::model::{ModelRequestDefaults, ReasoningEffort};
use phi::config::settings::ProviderConfig;

fn flat(entries: &[(&str, &str)]) -> FlatConfig {
    FlatConfig::new(entries.iter().map(|(name, value)| (name.to_string(), value.to_string())).collect())
}

#[test]
fn flat_settings_keep_the_last_value_and_extend_over() {
    let mut config = flat(&[("PHI_MODEL", "a"), ("PHI_MODEL", "b"), ("PHI_KEY", "k")]);
    assert_eq!(config.get("PHI_MODEL").map(String::as_str), Some("b"));
    config.extend(&flat(&[("PHI_KEY", "other"), ("PHI_API", "http://x")]));
    assert_eq!(config.get("PHI_KEY").map(String::as_str), Some("other"));
    assert_eq!(config.get("PHI_API").map(String::as_str), Some("http://x"));
    config.insert("PHI_MODEL".into(), "c".into());
    assert_eq!(config.get("PHI_MODEL").map(String::as_str), Some("c"));
    assert_eq!(config.get("PHI_SYSTEM"), None);
}

#[test]
fn flat_settings_are_typed_with_messages() {
    let config = flat(&[
        ("PHI_MAX_TOKENS", "12"),
        ("PHI_CONTEXT_TOKENS", "many"),
        ("PHI_ENABLE_REASONING", " Yes "),
        ("PHI_REASONING_EFFORT", "sometimes"),
        ("PHI_KEY", "   "),
    ]);
    assert_eq!(optional_u64_from_config(&config, "PHI_MAX_TOKENS"), Ok(Some(12)));
    assert_eq!(
        optional_u64_from_config(&config, "PHI_CONTEXT_TOKENS"),
        Err("PHI_CONTEXT_TOKENS must be a valid unsigned integer".to_string())
    );
    assert_eq!(optional_public_usize_from_config(&config, "PHI_MAX_STEPS"), Ok(None));
    assert_eq!(optional_bool_from_config(&config, "PHI_ENABLE_REASONING"), Ok(Some(true)));
    assert_eq!(
        optional_reasoning_effort_from_config(&config, "PHI_REASONING_EFFORT"),
        Err("PHI_REASONING_EFFORT must be one of: minimal, low, medium, high".to_string())
    );
    assert_eq!(optional_string_from_config(&config, "PHI_KEY"), None);
}

#[test]
fn flat_provider_and_request_defaults() {
    let config = flat(&[("PHI_PROVIDER", "fake"), ("PHI_MODEL", "m"), ("PHI_REASONING_EFFORT", "high")]);
    let Ok(provider) = ProviderConfig::from_config(&config) else { panic!("provider settings never fail") };
    assert_eq!(provider.provider, "fake");
    assert_eq!(provider.api_base, "https://api.openai.com/v1");
    assert_eq!(provider.api_key, "");
    let Ok(defaults) = ModelRequestDefaults::from_config(&config, None) else { panic!("valid settings") };
    assert_eq!(defaults.model, "m");
    assert_eq!(defaults.temperature_bits, Some(1.0f64.to_bits()));
    assert_eq!(defaults.max_tokens, 32000);
    assert!(defaults.enable_reasoning);
    assert_eq!(defaults.thinking_token_budget, 4096);
    assert!(matches!(defaults.reasoning_effort, ReasoningEffort::High));
    let bad = flat(&[("PHI_ENABLE_REASONING", "perhaps")]);
    assert!(matches!(
        ModelRequestDefaults::from_config(&bad, None),
        Err(message) if message == "PHI_ENABLE_REASONING must be a valid boolean"
    ));
}

#[test]
fn flat_tool_limits_default_when_unset_or_invalid() {
    assert_eq!(tool_output_limits_from_config(&flat(&[])).output_threshold_tokens, 6144);
    assert_eq!(
        tool_output_limits_from_config(&flat(&[("PHI_TOOL_THRESHOLD_TOKENS", "77")])).output_threshold_tokens,
        77
    );
    assert_eq!(
        tool_output_limits_from_config(&flat(&[("PHI_TOOL_THRESHOLD_TOKENS", "x")])).output_threshold_tokens,
        6144
    );
}

#[test]
fn reasoning_effort_names_read_back() {
    for effort in [ReasoningEffort::Minimal, ReasoningEffort::Low, ReasoningEffort::Medium, ReasoningEffort::High] {
        assert_eq!(ReasoningEffort::from_str(effort.as_str()), Ok(effort));
        assert_eq!(ReasoningEffort::from_str(&format!(" {}\n", effort.as_str().to_uppercase())), Ok(effort));
    }
}

#[test]
fn flat_settings_are_listed_in_name_order() {
    let config = FlatConfig::new(vec![
        ("PHI_TOOLS".to_string(), "[]".to_string()),
        ("PHI_MODEL".to_string(), "first".to_string()),
        ("PHI_MAX_STEPS".to_string(), "3".to_string()),
        ("PHI_MODEL".to_string(), "second".to_string()),
    ]);
    assert_eq!(
        config.iter(),
        vec![
            ("PHI_MAX_STEPS".to_string(), "3".to_string()),
            ("PHI_MODEL".to_string(), "second".to_string()),
            ("PHI_TOOLS".to_string(), "[]".to_string()),
        ]
    );
}
