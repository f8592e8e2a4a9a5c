//! The commands an agent is built for, and the validation of their options.
use vstd::prelude::*;

use crate::text::{is_blank, is_blank_str};

verus! {

/// How a shell command reaches a terminal.
pub enum TerminalCommand {
    Shell { command: String },
    DockerExec { container: String, command: String },
    CustomRunner { program: String, args: Vec<String>, command: String },
}

impl TerminalCommand {
    pub fn shell(command: String) -> (terminal: Self)
        ensures
            terminal == (TerminalCommand::Shell { command }),
    {
        TerminalCommand::Shell { command }
    }

    pub fn docker_exec(container: String, command: String) -> (terminal: Self)
        ensures
            terminal == (TerminalCommand::DockerExec { container, command }),
    {
        TerminalCommand::DockerExec { container, command }
    }

    pub fn custom_runner(program: String, args: Vec<String>, command: String) -> (terminal: Self)
        ensures
            terminal == (TerminalCommand::CustomRunner { program, args, command }),
    {
        TerminalCommand::CustomRunner { program, args, command }
    }
}

/// Why command options were refused.
#[derive(PartialEq, Eq, Structural)]
pub enum CommandError {
    EmptyRunnerProgram,
    ConflictingTargets,
    RunnerArgsWithoutRunner,
}

impl CommandError {
    pub fn message(&self) -> (message: String)
        ensures
            message@ == self.spec_message(),
    {
        match self {
            CommandError::EmptyRunnerProgram => "--runner requires a non-empty program".to_owned(),
            CommandError::ConflictingTargets => "--container and --runner are mutually exclusive".to_owned(),
            CommandError::RunnerArgsWithoutRunner => "runner arguments require a runner program".to_owned(),
        }
    }

    pub open spec fn spec_message(&self) -> Seq<char> {
        match self {
            CommandError::EmptyRunnerProgram => "--runner requires a non-empty program"@,
            CommandError::ConflictingTargets => "--container and --runner are mutually exclusive"@,
            CommandError::RunnerArgsWithoutRunner => "runner arguments require a runner program"@,
        }
    }
}

pub enum PhiAgentCommand {
    Run(RunCommand),
    Yolo(RunCommand),
    Step(StepCommand),
    Probe(ProbeCommand),
    Doctor(DoctorCommand),
    History(HistoryCommand),
}

pub struct RunCommand {
    pub max_steps: Option<usize>,
    pub options: AgentCommandOptions,
}

pub struct StepCommand {
    pub options: AgentCommandOptions,
}

pub struct AgentCommandOptions {
    pub max_model_request_retries: Option<usize>,
    pub quiet: bool,
    pub executor: ExecutorOptions,
}

pub enum ExecutorOptions {
    Enabled { target: ExecutionTarget },
    Null,
}

pub enum ExecutionTarget {
    LocalShell,
    Container(String),
    CustomRunner { program: String, args: Vec<String> },
}

pub struct ProbeCommand {
    pub max_model_request_retries: Option<usize>,
}

pub struct DoctorCommand;

pub struct HistoryCommand;

pub struct RunCommandArgs {
    pub options: AgentCommandArgs,
    pub max_steps: Option<usize>,
}

pub struct AgentCommandArgs {
    pub quiet: bool,
    pub null_executor: bool,
    pub max_model_request_retries: Option<usize>,
    pub container: Option<String>,
    pub runner: Option<String>,
    pub runner_args: Vec<String>,
}

impl Default for AgentCommandArgs {
    fn default() -> (args: Self)
        ensures
            !args.quiet,
            !args.null_executor,
            args.max_model_request_retries is None,
            args.container is None,
            args.runner is None,
            args.runner_args@.len() == 0,
    {
        AgentCommandArgs {
            quiet: false,
            null_executor: false,
            max_model_request_retries: None,
            container: None,
            runner: None,
            runner_args: Vec::new(),
        }
    }
}

pub struct ProbeCommandArgs {
    pub max_model_request_retries: Option<usize>,
}

pub struct RunCommandInput {
    pub args: RunCommandArgs,
    pub forced_max_steps: Option<usize>,
}

pub struct StepCommandInput {
    pub args: AgentCommandArgs,
}

pub struct YoloCommandInput {
    pub args: RunCommandArgs,
    pub forced_max_steps: Option<usize>,
}

/// A container name counts only when it holds more than whitespace.
pub open spec fn usable_container(container: Option<String>) -> Option<String> {
    match container {
        Some(name) => if is_blank(name@) { None } else { Some(name) },
        None => None,
    }
}

/// The executor target that `container` selects: the named container, or the local shell.
pub open spec fn container_target(container: Option<String>) -> ExecutionTarget {
    match usable_container(container) {
        Some(name) => ExecutionTarget::Container(name),
        None => ExecutionTarget::LocalShell,
    }
}

/// The options that command-line arguments stand for, or why they are refused.
pub open spec fn options_from_args(args: AgentCommandArgs) -> Result<AgentCommandOptions, CommandError> {
    if args.null_executor {
        Ok(
            AgentCommandOptions {
                max_model_request_retries: args.max_model_request_retries,
                quiet: args.quiet,
                executor: ExecutorOptions::Null,
            },
        )
    } else if args.runner matches Some(program) && is_blank(program@) {
        Err(CommandError::EmptyRunnerProgram)
    } else if usable_container(args.container) is Some && args.runner is Some {
        Err(CommandError::ConflictingTargets)
    } else if args.runner is None && args.runner_args@.len() != 0 {
        Err(CommandError::RunnerArgsWithoutRunner)
    } else {
        let target = match (usable_container(args.container), args.runner) {
            (Some(container), _) => ExecutionTarget::Container(container),
            (None, Some(program)) => ExecutionTarget::CustomRunner { program, args: args.runner_args },
            (None, None) => ExecutionTarget::LocalShell,
        };
        Ok(
            AgentCommandOptions {
                max_model_request_retries: args.max_model_request_retries,
                quiet: args.quiet,
                executor: ExecutorOptions::Enabled { target },
            },
        )
    }
}

fn usable_container_of(container: Option<String>) -> (usable: Option<String>)
    ensures
        usable == usable_container(container),
{
    match container {
        Some(name) => if is_blank_str(name.as_str()) { None } else { Some(name) },
        None => None,
    }
}

impl AgentCommandOptions {
    pub fn try_from_args(args: AgentCommandArgs) -> (options: Result<Self, CommandError>)
        ensures
            options == options_from_args(args),
    {
        if args.null_executor {
            return Ok(
                Self {
                    max_model_request_retries: args.max_model_request_retries,
                    quiet: args.quiet,
                    executor: ExecutorOptions::Null,
                },
            );
        }
        let ghost original = args;
        let AgentCommandArgs {
            quiet,
            null_executor: _,
            max_model_request_retries,
            container,
            runner,
            runner_args,
        } = args;
        let container = usable_container_of(container);
        if let Some(program) = &runner {
            if is_blank_str(program.as_str()) {
                return Err(CommandError::EmptyRunnerProgram);
            }
        }
        if container.is_some() && runner.is_some() {
            return Err(CommandError::ConflictingTargets);
        }
        if runner.is_none() && runner_args.len() != 0 {
            return Err(CommandError::RunnerArgsWithoutRunner);
        }
        let target = match (container, runner) {
            (Some(container), _) => ExecutionTarget::Container(container),
            (None, Some(program)) => ExecutionTarget::CustomRunner { program, args: runner_args },
            (None, None) => ExecutionTarget::LocalShell,
        };
        Ok(Self { max_model_request_retries, quiet, executor: ExecutorOptions::Enabled { target } })
    }

    pub fn enabled_local() -> (options: Self)
        ensures
            options == (AgentCommandOptions {
                max_model_request_retries: None,
                quiet: false,
                executor: ExecutorOptions::Enabled { target: ExecutionTarget::LocalShell },
            }),
    {
        Self {
            max_model_request_retries: None,
            quiet: false,
            executor: ExecutorOptions::Enabled { target: ExecutionTarget::LocalShell },
        }
    }

    pub open spec fn spec_container(&self) -> Option<String> {
        match self.executor {
            ExecutorOptions::Enabled { target: ExecutionTarget::Container(container) } => Some(container),
            _ => None,
        }
    }

    pub fn container(&self) -> (container: Option<&str>)
        ensures
            container matches Some(name) ==> self.spec_container() matches Some(c) && name@ == c@,
            container is None <==> self.spec_container() is None,
    {
        match &self.executor {
            ExecutorOptions::Enabled { target: ExecutionTarget::Container(container) } => Some(container.as_str()),
            _ => None,
        }
    }

    pub open spec fn spec_terminal_command(&self, command: String) -> Option<TerminalCommand> {
        match self.executor {
            ExecutorOptions::Enabled { target: ExecutionTarget::LocalShell } => Some(TerminalCommand::Shell { command }),
            ExecutorOptions::Enabled { target: ExecutionTarget::Container(container) } => Some(
                TerminalCommand::DockerExec { container, command },
            ),
            ExecutorOptions::Enabled { target: ExecutionTarget::CustomRunner { program, args } } => Some(
                TerminalCommand::CustomRunner { program, args, command },
            ),
            ExecutorOptions::Null => None,
        }
    }

    pub fn terminal_command(&self, command: String) -> (terminal: Option<TerminalCommand>)
        ensures
            terminal matches Some(t) ==> self.spec_terminal_command(command) matches Some(s)
                && same_terminal(t, s),
            terminal is None <==> self.spec_terminal_command(command) is None,
    {
        match &self.executor {
            ExecutorOptions::Enabled { target: ExecutionTarget::LocalShell } => Some(TerminalCommand::shell(command)),
            ExecutorOptions::Enabled { target: ExecutionTarget::Container(container) } => Some(
                TerminalCommand::docker_exec(container.clone(), command),
            ),
            ExecutorOptions::Enabled { target: ExecutionTarget::CustomRunner { program, args } } => Some(
                TerminalCommand::custom_runner(program.clone(), clone_strings(args), command),
            ),
            ExecutorOptions::Null => None,
        }
    }
}

/// Two terminal commands with equal texts.
pub open spec fn same_terminal(a: TerminalCommand, b: TerminalCommand) -> bool {
    match (a, b) {
        (TerminalCommand::Shell { command: c1 }, TerminalCommand::Shell { command: c2 }) => c1@ == c2@,
        (
            TerminalCommand::DockerExec { container: n1, command: c1 },
            TerminalCommand::DockerExec { container: n2, command: c2 },
        ) => n1@ == n2@ && c1@ == c2@,
        (
            TerminalCommand::CustomRunner { program: p1, args: a1, command: c1 },
            TerminalCommand::CustomRunner { program: p2, args: a2, command: c2 },
        ) => p1@ == p2@ && a1@.map_values(|s: String| s@) == a2@.map_values(|s: String| s@) && c1@ == c2@,
        _ => false,
    }
}

pub fn clone_strings(strings: &Vec<String>) -> (copy: Vec<String>)
    ensures
        copy@.map_values(|s: String| s@) == strings@.map_values(|s: String| s@),
{
    let mut copy: Vec<String> = Vec::new();
    for i in 0..strings.len()
        invariant
            copy@.len() == i,
            forall|k: int| 0 <= k < i ==> #[trigger] copy@[k]@ == strings@[k]@,
    {
        copy.push(strings[i].clone());
    }
    assert(copy@.map_values(|s: String| s@) =~= strings@.map_values(|s: String| s@));
    copy
}

} // verus!

verus! {

impl PhiAgentCommand {
    pub fn run() -> (command: RunCommand)
        ensures
            command.max_steps is None,
            command.options == AgentCommandOptions::default_local(),
    {
        RunCommand { max_steps: None, options: AgentCommandOptions::enabled_local() }
    }

    pub fn step() -> (command: StepCommand)
        ensures
            command.options == AgentCommandOptions::default_local(),
    {
        StepCommand { options: AgentCommandOptions::enabled_local() }
    }

    pub fn probe() -> (command: ProbeCommand)
        ensures
            command.max_model_request_retries is None,
    {
        ProbeCommand { max_model_request_retries: None }
    }

    pub fn doctor() -> DoctorCommand {
        DoctorCommand
    }

    pub fn history() -> HistoryCommand {
        HistoryCommand
    }

    pub fn yolo() -> (command: RunCommand)
        ensures
            command.max_steps is None,
            command.options == AgentCommandOptions::default_local(),
    {
        Self::run()
    }

    /// A run command from parsed arguments; an explicit `max_steps` wins over the parsed one.
    pub fn from_run_args(args: RunCommandArgs, max_steps: Option<usize>) -> (command: Result<Self, CommandError>)
        ensures
            command == (match options_from_args(args.options) {
                Ok(options) => Ok(PhiAgentCommand::Run(RunCommand { max_steps: or_option(max_steps, args.max_steps), options })),
                Err(error) => Err(error),
            }),
            max_steps matches Some(n) ==> (command matches Ok(PhiAgentCommand::Run(c)) ==> c.max_steps == Some(n)),
            max_steps is None ==> (command matches Ok(PhiAgentCommand::Run(c)) ==> c.max_steps == args.max_steps),
    {
        let steps = match max_steps {
            Some(steps) => Some(steps),
            None => args.max_steps,
        };
        match AgentCommandOptions::try_from_args(args.options) {
            Ok(options) => Ok(PhiAgentCommand::Run(RunCommand { max_steps: steps, options })),
            Err(error) => Err(error),
        }
    }

    /// A yolo command from parsed arguments; an explicit `max_steps` wins over the parsed one.
    pub fn from_yolo_args(args: RunCommandArgs, max_steps: Option<usize>) -> (command: Result<Self, CommandError>)
        ensures
            command == (match options_from_args(args.options) {
                Ok(options) => Ok(PhiAgentCommand::Yolo(RunCommand { max_steps: or_option(max_steps, args.max_steps), options })),
                Err(error) => Err(error),
            }),
            max_steps matches Some(n) ==> (command matches Ok(PhiAgentCommand::Yolo(c)) ==> c.max_steps == Some(n)),
            max_steps is None ==> (command matches Ok(PhiAgentCommand::Yolo(c)) ==> c.max_steps == args.max_steps),
    {
        let steps = match max_steps {
            Some(steps) => Some(steps),
            None => args.max_steps,
        };
        match AgentCommandOptions::try_from_args(args.options) {
            Ok(options) => Ok(PhiAgentCommand::Yolo(RunCommand { max_steps: steps, options })),
            Err(error) => Err(error),
        }
    }

    pub fn from_step_args(args: AgentCommandArgs) -> (command: Result<Self, CommandError>)
        ensures
            command == (match options_from_args(args) {
                Ok(options) => Ok(PhiAgentCommand::Step(StepCommand { options })),
                Err(error) => Err(error),
            }),
    {
        match AgentCommandOptions::try_from_args(args) {
            Ok(options) => Ok(PhiAgentCommand::Step(StepCommand { options })),
            Err(error) => Err(error),
        }
    }

    pub fn from_probe_args(args: ProbeCommandArgs) -> (command: Result<Self, CommandError>)
        ensures
            command == Ok::<PhiAgentCommand, CommandError>(
                PhiAgentCommand::Probe(ProbeCommand { max_model_request_retries: args.max_model_request_retries }),
            ),
    {
        Ok(PhiAgentCommand::Probe(Self::probe().with_max_model_request_retries(args.max_model_request_retries)))
    }

    pub fn from_run_input(input: RunCommandInput) -> (command: Result<Self, CommandError>)
        ensures
            command == (match options_from_args(input.args.options) {
                Ok(options) => Ok(PhiAgentCommand::Run(RunCommand { max_steps: or_option(input.forced_max_steps, input.args.max_steps), options })),
                Err(error) => Err(error),
            }),
            input.forced_max_steps matches Some(n) ==> (command matches Ok(PhiAgentCommand::Run(c)) ==> c.max_steps == Some(n)),
            input.forced_max_steps is None ==> (command matches Ok(PhiAgentCommand::Run(c)) ==> c.max_steps == input.args.max_steps),
    {
        Self::from_run_args(input.args, input.forced_max_steps)
    }

    pub fn from_yolo_input(input: YoloCommandInput) -> (command: Result<Self, CommandError>)
        ensures
            command == (match options_from_args(input.args.options) {
                Ok(options) => Ok(PhiAgentCommand::Yolo(RunCommand { max_steps: or_option(input.forced_max_steps, input.args.max_steps), options })),
                Err(error) => Err(error),
            }),
            input.forced_max_steps matches Some(n) ==> (command matches Ok(PhiAgentCommand::Yolo(c)) ==> c.max_steps == Some(n)),
            input.forced_max_steps is None ==> (command matches Ok(PhiAgentCommand::Yolo(c)) ==> c.max_steps == input.args.max_steps),
    {
        Self::from_yolo_args(input.args, input.forced_max_steps)
    }

    pub fn from_step_input(input: StepCommandInput) -> (command: Result<Self, CommandError>)
        ensures
            command == (match options_from_args(input.args) {
                Ok(options) => Ok(PhiAgentCommand::Step(StepCommand { options })),
                Err(error) => Err(error),
            }),
    {
        Self::from_step_args(input.args)
    }

    /// The executor options of the commands that execute tools.
    pub open spec fn spec_options(&self) -> Option<AgentCommandOptions> {
        match self {
            PhiAgentCommand::Run(command) | PhiAgentCommand::Yolo(command) => Some(command.options),
            PhiAgentCommand::Step(command) => Some(command.options),
            _ => None,
        }
    }

    pub fn options(&self) -> (options: Option<&AgentCommandOptions>)
        ensures
            options matches Some(o) ==> self.spec_options() == Some(*o),
            options is None <==> self.spec_options() is None,
    {
        match self {
            PhiAgentCommand::Run(command) | PhiAgentCommand::Yolo(command) => Some(&command.options),
            PhiAgentCommand::Step(command) => Some(&command.options),
            _ => None,
        }
    }

    pub open spec fn spec_container(&self) -> Option<String> {
        match self.spec_options() {
            Some(options) => options.spec_container(),
            None => None,
        }
    }

    pub fn container(&self) -> (container: Option<&str>)
        ensures
            container matches Some(name) ==> self.spec_container() matches Some(c) && name@ == c@,
            container is None <==> self.spec_container() is None,
    {
        match self.options() {
            Some(options) => options.container(),
            None => None,
        }
    }

    pub fn terminal_command(&self, command: String) -> (terminal: Option<TerminalCommand>)
        ensures
            terminal matches Some(t) ==> self.spec_options() matches Some(o)
                && o.spec_terminal_command(command) matches Some(s) && same_terminal(t, s),
            terminal is None <==> (self.spec_options() matches Some(o) ==> o.spec_terminal_command(command) is None),
    {
        match self.options() {
            Some(options) => options.terminal_command(command),
            None => None,
        }
    }

    pub open spec fn spec_null_executor(&self) -> bool {
        self.spec_options() matches Some(options) && options.executor is Null
    }

    pub fn null_executor(&self) -> (null: bool)
        ensures
            null == self.spec_null_executor(),
    {
        match self.options() {
            Some(options) => match options.executor {
                ExecutorOptions::Null => true,
                ExecutorOptions::Enabled { .. } => false,
            },
            None => false,
        }
    }

    pub fn max_steps(&self) -> (max_steps: Option<usize>)
        ensures
            max_steps == (match self {
                PhiAgentCommand::Run(command) | PhiAgentCommand::Yolo(command) => command.max_steps,
                _ => None,
            }),
    {
        match self {
            PhiAgentCommand::Run(command) | PhiAgentCommand::Yolo(command) => command.max_steps,
            _ => None,
        }
    }

    pub open spec fn spec_max_model_request_retries(&self) -> Option<usize> {
        match self {
            PhiAgentCommand::Probe(command) => command.max_model_request_retries,
            _ => match self.spec_options() {
                Some(options) => options.max_model_request_retries,
                None => None,
            },
        }
    }

    pub fn max_model_request_retries(&self) -> (retries: Option<usize>)
        ensures
            retries == self.spec_max_model_request_retries(),
    {
        match self {
            PhiAgentCommand::Probe(command) => command.max_model_request_retries,
            _ => match self.options() {
                Some(options) => options.max_model_request_retries,
                None => None,
            },
        }
    }

    pub fn verbose(&self) -> (verbose: bool)
        ensures
            verbose == (self.spec_options() matches Some(options) && !options.quiet),
    {
        match self.options() {
            Some(options) => !options.quiet,
            None => false,
        }
    }
}

pub open spec fn or_option(first: Option<usize>, second: Option<usize>) -> Option<usize> {
    match first {
        Some(value) => Some(value),
        None => second,
    }
}

/// An explicit step limit wins over the parsed one, which counts only where
/// no explicit limit is given.
pub proof fn explicit_max_steps_wins(explicit: Option<usize>, parsed: Option<usize>)
    ensures
        explicit matches Some(n) ==> or_option(explicit, parsed) == Some(n),
        explicit is None ==> or_option(explicit, parsed) == parsed,
        or_option(explicit, parsed) is None <==> (explicit is None && parsed is None),
{
}

impl AgentCommandOptions {
    pub open spec fn default_local() -> AgentCommandOptions {
        AgentCommandOptions {
            max_model_request_retries: None,
            quiet: false,
            executor: ExecutorOptions::Enabled { target: ExecutionTarget::LocalShell },
        }
    }
}

/// The executor after a `with_null_executor(null_executor)` request.
pub open spec fn null_executor_update(executor: ExecutorOptions, null_executor: bool) -> ExecutorOptions {
    if null_executor {
        ExecutorOptions::Null
    } else if executor is Null {
        ExecutorOptions::Enabled { target: ExecutionTarget::LocalShell }
    } else {
        executor
    }
}

fn update_null_executor(executor: ExecutorOptions, null_executor: bool) -> (updated: ExecutorOptions)
    ensures
        updated == null_executor_update(executor, null_executor),
{
    if null_executor {
        ExecutorOptions::Null
    } else {
        match executor {
            ExecutorOptions::Null => ExecutorOptions::Enabled { target: ExecutionTarget::LocalShell },
            enabled => enabled,
        }
    }
}

fn target_for_container(container: Option<String>) -> (target: ExecutionTarget)
    ensures
        target == container_target(container),
{
    match usable_container_of(container) {
        Some(name) => ExecutionTarget::Container(name),
        None => ExecutionTarget::LocalShell,
    }
}

impl ProbeCommand {
    pub fn with_max_model_request_retries(self, max_model_request_retries: Option<usize>) -> (command: Self)
        ensures
            command.max_model_request_retries == max_model_request_retries,
    {
        ProbeCommand { max_model_request_retries }
    }
}

impl RunCommand {
    pub fn with_max_steps(self, max_steps: Option<usize>) -> (command: Self)
        ensures
            command == (RunCommand { max_steps, ..self }),
    {
        RunCommand { max_steps, ..self }
    }

    pub fn with_max_model_request_retries(self, max_model_request_retries: Option<usize>) -> (command: Self)
        ensures
            command == (RunCommand { options: AgentCommandOptions { max_model_request_retries, ..self.options }, ..self }),
    {
        let RunCommand { max_steps, options } = self;
        RunCommand { max_steps, options: AgentCommandOptions { max_model_request_retries, ..options } }
    }

    pub fn with_quiet(self, quiet: bool) -> (command: Self)
        ensures
            command == (RunCommand { options: AgentCommandOptions { quiet, ..self.options }, ..self }),
    {
        let RunCommand { max_steps, options } = self;
        RunCommand { max_steps, options: AgentCommandOptions { quiet, ..options } }
    }

    pub fn with_null_executor(self, null_executor: bool) -> (command: Self)
        ensures
            command == (RunCommand {
                options: AgentCommandOptions {
                    executor: null_executor_update(self.options.executor, null_executor),
                    ..self.options
                },
                ..self
            }),
    {
        let RunCommand { max_steps, options } = self;
        let AgentCommandOptions { max_model_request_retries, quiet, executor } = options;
        RunCommand {
            max_steps,
            options: AgentCommandOptions {
                max_model_request_retries,
                quiet,
                executor: update_null_executor(executor, null_executor),
            },
        }
    }

    pub fn with_container(self, container: Option<String>) -> (command: Self)
        ensures
            command == (RunCommand {
                options: AgentCommandOptions {
                    executor: ExecutorOptions::Enabled { target: container_target(container) },
                    ..self.options
                },
                ..self
            }),
    {
        let RunCommand { max_steps, options } = self;
        let AgentCommandOptions { max_model_request_retries, quiet, executor: _ } = options;
        RunCommand {
            max_steps,
            options: AgentCommandOptions {
                max_model_request_retries,
                quiet,
                executor: ExecutorOptions::Enabled { target: target_for_container(container) },
            },
        }
    }
}

impl StepCommand {
    pub fn with_max_model_request_retries(self, max_model_request_retries: Option<usize>) -> (command: Self)
        ensures
            command == (StepCommand { options: AgentCommandOptions { max_model_request_retries, ..self.options } }),
    {
        let StepCommand { options } = self;
        StepCommand { options: AgentCommandOptions { max_model_request_retries, ..options } }
    }

    pub fn with_quiet(self, quiet: bool) -> (command: Self)
        ensures
            command == (StepCommand { options: AgentCommandOptions { quiet, ..self.options } }),
    {
        let StepCommand { options } = self;
        StepCommand { options: AgentCommandOptions { quiet, ..options } }
    }

    pub fn with_null_executor(self, null_executor: bool) -> (command: Self)
        ensures
            command == (StepCommand {
                options: AgentCommandOptions {
                    executor: null_executor_update(self.options.executor, null_executor),
                    ..self.options
                },
            }),
    {
        let StepCommand { options } = self;
        let AgentCommandOptions { max_model_request_retries, quiet, executor } = options;
        StepCommand {
            options: AgentCommandOptions {
                max_model_request_retries,
                quiet,
                executor: update_null_executor(executor, null_executor),
            },
        }
    }

    pub fn with_container(self, container: Option<String>) -> (command: Self)
        ensures
            command == (StepCommand {
                options: AgentCommandOptions {
                    executor: ExecutorOptions::Enabled { target: container_target(container) },
                    ..self.options
                },
            }),
    {
        let StepCommand { options } = self;
        let AgentCommandOptions { max_model_request_retries, quiet, executor: _ } = options;
        StepCommand {
            options: AgentCommandOptions {
                max_model_request_retries,
                quiet,
                executor: ExecutorOptions::Enabled { target: target_for_container(container) },
            },
        }
    }
}

} // verus!
