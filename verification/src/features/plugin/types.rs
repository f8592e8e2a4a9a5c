//! What the plugin runtime reports of itself, and what it knows of the plugins
//! it loaded.
use vstd::prelude::*;

use crate::agent::command::PhiAgentCommand;
use crate::features::plugin::python::{configured_backend_names, minimum_version_string, MINIMUM_PYTHON_MAJOR,
    MINIMUM_PYTHON_MINOR};
use crate::text::decimal_chars;

verus! {

/// The name of the module that plugins import.
pub const PHI_PYTHON_MODULE_NAME: &'static str = "phi";

/// The version of the plugin SDK.
pub const PHI_PYTHON_SDK_VERSION: &'static str = "0.1.0";

/// Whether plugins can run, and on what.
pub enum PluginAvailability {
    Enabled { runtime: PythonRuntimeInfo },
    Disabled { reason: String },
}

/// The Python runtime that plugins run on.
pub struct PythonRuntimeInfo {
    pub backend: String,
    pub version: String,
    pub implementation: String,
    pub library: Option<String>,
}

/// The command that plugins are loaded for, and the arguments they get.
pub struct PyPluginDescriptor {
    pub command_kind: String,
    pub plugin_args: Vec<String>,
}

/// A plugin that was loaded.
pub struct LoadedPyPlugin {
    pub name: String,
    pub backend: String,
    pub source: Option<String>,
}

/// What `phi doctor` reports of plugins.
pub struct PluginRuntimeStatus {
    pub provider: String,
    pub build: PythonBuildInfo,
    pub availability: PluginAvailability,
}

/// What was built in: the backends, the oldest Python, and the SDK.
pub struct PythonBuildInfo {
    pub configured_backends: Vec<String>,
    pub minimum_version: String,
    pub sdk_version: String,
    pub sdk_module: String,
    pub sdk_capabilities: Vec<String>,
}

/// What the SDK offers plugins.
pub fn sdk_capabilities() -> (capabilities: Vec<String>)
    ensures
        capabilities@.len() == 3,
        capabilities@[0]@ == "sdk_version"@,
        capabilities@[1]@ == "capabilities"@,
        capabilities@[2]@ == "tool_registry"@,
{
    let mut capabilities = Vec::new();
    capabilities.push("sdk_version".to_owned());
    capabilities.push("capabilities".to_owned());
    capabilities.push("tool_registry".to_owned());
    capabilities
}

/// What was built into this binary for Python plugins.
pub fn python_build_info() -> (info: PythonBuildInfo)
    ensures
        info.configured_backends@.len() == 1,
        info.configured_backends@[0]@ == "subprocess"@,
        info.minimum_version@ == decimal_chars(MINIMUM_PYTHON_MAJOR as nat) + "."@ + decimal_chars(MINIMUM_PYTHON_MINOR as nat),
        info.sdk_version@ == PHI_PYTHON_SDK_VERSION@,
        info.sdk_module@ == PHI_PYTHON_MODULE_NAME@,
        info.sdk_capabilities@.len() == 3,
        info.sdk_capabilities@[0]@ == "sdk_version"@,
        info.sdk_capabilities@[1]@ == "capabilities"@,
        info.sdk_capabilities@[2]@ == "tool_registry"@,
{
    PythonBuildInfo {
        configured_backends: configured_backend_names(),
        minimum_version: minimum_version_string(),
        sdk_version: PHI_PYTHON_SDK_VERSION.to_owned(),
        sdk_module: PHI_PYTHON_MODULE_NAME.to_owned(),
        sdk_capabilities: sdk_capabilities(),
    }
}

/// The status of Python plugins, given whether a runtime could be loaded.
pub fn python_plugin_status(availability: PluginAvailability) -> (status: PluginRuntimeStatus)
    ensures
        status.provider@ == "python"@,
        status.availability == availability,
        status.build.configured_backends@.len() == 1,
        status.build.configured_backends@[0]@ == "subprocess"@,
        status.build.minimum_version@ == decimal_chars(MINIMUM_PYTHON_MAJOR as nat) + "."@ + decimal_chars(
            MINIMUM_PYTHON_MINOR as nat,
        ),
        status.build.sdk_version@ == PHI_PYTHON_SDK_VERSION@,
        status.build.sdk_module@ == PHI_PYTHON_MODULE_NAME@,
        status.build.sdk_capabilities@.len() == 3,
{
    PluginRuntimeStatus { provider: "python".to_owned(), build: python_build_info(), availability }
}

pub open spec fn command_kind_spec(command: PhiAgentCommand) -> Seq<char> {
    match command {
        PhiAgentCommand::Run(_) => "run"@,
        PhiAgentCommand::Yolo(_) => "yolo"@,
        PhiAgentCommand::Step(_) => "step"@,
        PhiAgentCommand::Probe(_) => "probe"@,
        PhiAgentCommand::Doctor(_) => "doctor"@,
        PhiAgentCommand::History(_) => "history"@,
    }
}

/// The name plugins know the command by.
pub fn command_kind(command: &PhiAgentCommand) -> (kind: &'static str)
    ensures
        kind@ == command_kind_spec(*command),
{
    match command {
        PhiAgentCommand::Run(_) => {
            proof {
                reveal_strlit("run");
            }
            "run"
        },
        PhiAgentCommand::Yolo(_) => {
            proof {
                reveal_strlit("yolo");
            }
            "yolo"
        },
        PhiAgentCommand::Step(_) => {
            proof {
                reveal_strlit("step");
            }
            "step"
        },
        PhiAgentCommand::Probe(_) => {
            proof {
                reveal_strlit("probe");
            }
            "probe"
        },
        PhiAgentCommand::Doctor(_) => {
            proof {
                reveal_strlit("doctor");
            }
            "doctor"
        },
        PhiAgentCommand::History(_) => {
            proof {
                reveal_strlit("history");
            }
            "history"
        },
    }
}

/// What plugins are told of the command they are loaded for.
pub fn descriptor_for(command: &PhiAgentCommand, plugin_args: Vec<String>) -> (descriptor: PyPluginDescriptor)
    ensures
        descriptor.command_kind@ == command_kind_spec(*command),
        descriptor.plugin_args@ == plugin_args@,
{
    PyPluginDescriptor { command_kind: command_kind(command).to_owned(), plugin_args }
}

/// The plugins that loaded, in order; a plugin that failed to read or load is
/// left out, as are all plugins when some were loaded before.
pub fn loaded_plugins(already_loaded: Vec<LoadedPyPlugin>, attempts: Vec<Result<LoadedPyPlugin, String>>) -> (loaded: Vec<
    LoadedPyPlugin,
>)
    ensures
        already_loaded@.len() > 0 ==> loaded@ == already_loaded@,
        already_loaded@.len() == 0 ==> loaded@ == successes(attempts@),
{
    if already_loaded.len() > 0 {
        return already_loaded;
    }
    let mut loaded = Vec::new();
    let ghost all = attempts@;
    let mut rest = attempts;
    while rest.len() > 0
        invariant
            rest@.len() <= all.len(),
            rest@ == all.skip(all.len() - rest@.len()),
            loaded@ == successes(all.take(all.len() - rest@.len())),
        decreases rest.len(),
    {
        let ghost done = all.len() - rest@.len();
        let attempt = rest.remove(0);
        proof {
            assert(attempt == all[done]);
            assert(all.take(done + 1).drop_last() =~= all.take(done));
            assert(rest@ =~= all.skip(done + 1));
        }
        match attempt {
            Ok(plugin) => loaded.push(plugin),
            Err(_) => {},
        }
    }
    assert(all.take(all.len() as int) =~= all);
    loaded
}

/// The plugins among `attempts` that loaded, in order.
pub open spec fn successes(attempts: Seq<Result<LoadedPyPlugin, String>>) -> Seq<LoadedPyPlugin>
    decreases attempts.len(),
{
    if attempts.len() == 0 {
        Seq::empty()
    } else {
        let rest = successes(attempts.drop_last());
        match attempts.last() {
            Ok(plugin) => rest.push(plugin),
            Err(_) => rest,
        }
    }
}

} // verus!
