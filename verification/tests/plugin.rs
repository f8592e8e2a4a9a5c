use phi::agent::command::PhiAgentCommand;
use phi::features::plugin::python::{
    configured_backend_names, ensure_supported_version, minimum_version_string, parse_python_version,
    VersionError, MINIMUM_PYTHON_MAJOR, MINIMUM_PYTHON_MINOR,
};
use phi::features::plugin::types::{
    command_kind, descriptor_for, loaded_plugins, python_plugin_status, LoadedPyPlugin, PluginAvailability,
    PHI_PYTHON_MODULE_NAME, PHI_PYTHON_SDK_VERSION,
};

#[test]
fn parses_cpython_version_prefix() {
    assert_eq!(parse_python_version("3.12.4 (main, Jun 1 2026, 00:00:00)"), Some((3, 12)));
    assert_eq!(parse_python_version("3.11.9"), Some((3, 11)));
}

#[test]
fn rejects_unparseable_versions() {
    assert_eq!(parse_python_version("cpython"), None);
    assert_eq!(parse_python_version(""), None);
}

#[test]
fn minimum_version_contract_stays_at_python_311() {
    assert_eq!((MINIMUM_PYTHON_MAJOR, MINIMUM_PYTHON_MINOR), (3, 11));
}

#[test]
fn version_check_reports_old_and_unparseable_runtimes() {
    assert!(ensure_supported_version("3.11.0").is_ok());
    assert!(ensure_supported_version("4.0").is_ok());
    let Err(old) = ensure_supported_version("3.10.14") else { panic!("3.10 is too old") };
    assert_eq!(old.message(), "python 3.10 is below the required minimum version 3.11");
    assert!(matches!(old, VersionError::TooOld { major: 3, minor: 10 }));
    let Err(unparseable) = ensure_supported_version("cpython") else { panic!("no version") };
    assert_eq!(unparseable.message(), "could not parse Python version from 'cpython'");
    assert_eq!(minimum_version_string(), "3.11");
}

#[test]
fn plugin_status_reports_the_build() {
    let status = python_plugin_status(PluginAvailability::Disabled { reason: "no python".to_string() });
    assert_eq!(status.provider, "python");
    assert_eq!(status.build.configured_backends, configured_backend_names());
    assert_eq!(status.build.configured_backends, vec!["subprocess".to_string()]);
    assert_eq!(status.build.minimum_version, "3.11");
    assert_eq!(status.build.sdk_version, PHI_PYTHON_SDK_VERSION);
    assert_eq!(status.build.sdk_version, "0.1.0");
    assert_eq!(status.build.sdk_module, PHI_PYTHON_MODULE_NAME);
    assert_eq!(status.build.sdk_capabilities, vec!["sdk_version", "capabilities", "tool_registry"]);
    assert!(matches!(status.availability, PluginAvailability::Disabled { reason } if reason == "no python"));
}

#[test]
fn plugins_know_their_command() {
    let step = PhiAgentCommand::Step(PhiAgentCommand::step());
    assert_eq!(command_kind(&step), "step");
    assert_eq!(command_kind(&PhiAgentCommand::Yolo(PhiAgentCommand::yolo())), "yolo");
    let descriptor = descriptor_for(&step, vec!["--plugin-mode".to_string()]);
    assert_eq!(descriptor.command_kind, "step");
    assert_eq!(descriptor.plugin_args, vec!["--plugin-mode".to_string()]);
}

#[test]
fn failed_plugin_loads_are_left_out() {
    let plugin = |name: &str| LoadedPyPlugin { name: name.to_string(), backend: "mock".to_string(), source: None };
    let loaded = loaded_plugins(
        Vec::new(),
        vec![Err("plugin 'broken.py' is empty".to_string()), Ok(plugin("ok.py"))],
    );
    assert_eq!(loaded.len(), 1);
    assert!(loaded[0].name.contains("ok.py"));
    let again = loaded_plugins(loaded, vec![Ok(plugin("other.py"))]);
    assert_eq!(again.len(), 1);
}
