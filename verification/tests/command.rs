use phi::agent::command::{AgentCommandArgs, PhiAgentCommand, TerminalCommand};

#[test]
fn library_command_defaults_do_not_enable_model_retry() {
    for command in [
        PhiAgentCommand::Run(PhiAgentCommand::run()),
        PhiAgentCommand::Yolo(PhiAgentCommand::yolo()),
        PhiAgentCommand::Step(PhiAgentCommand::step()),
        PhiAgentCommand::Probe(PhiAgentCommand::probe()),
    ] {
        assert_eq!(command.max_model_request_retries(), None);
    }
}

#[test]
fn normalized_command_options_preserve_explicit_model_retry_budget() {
    let command = PhiAgentCommand::from_step_args(AgentCommandArgs {
        max_model_request_retries: Some(5),
        ..AgentCommandArgs::default()
    })
    .ok()
    .expect("step command should build");

    assert_eq!(command.max_model_request_retries(), Some(5));
}

#[test]
fn null_executor_discards_container_when_command_options_are_built() {
    let command = PhiAgentCommand::from_step_args(AgentCommandArgs {
        quiet: false,
        null_executor: true,
        max_model_request_retries: Some(3),
        container: Some("unused-container".to_string()),
        ..AgentCommandArgs::default()
    })
    .ok()
    .expect("step command should build");

    assert!(command.null_executor());
    assert_eq!(command.container(), None);
}

#[test]
fn runner_builds_a_custom_terminal_command() {
    let command = PhiAgentCommand::from_step_args(AgentCommandArgs {
        runner: Some("bash".to_owned()),
        runner_args: vec!["-c".to_owned()],
        ..AgentCommandArgs::default()
    })
    .ok()
    .expect("step command should accept a custom runner");

    assert!(matches!(
        command.terminal_command("printf ready".to_owned()),
        Some(TerminalCommand::CustomRunner {
            program,
            args,
            command,
        }) if program == "bash" && args == ["-c"] && command == "printf ready"
    ));
}

#[test]
fn runner_arguments_require_a_runner_program() {
    let result = PhiAgentCommand::from_step_args(AgentCommandArgs {
        runner_args: vec!["-c".to_owned()],
        ..AgentCommandArgs::default()
    });
    let Err(error) = result else {
        panic!("runner arguments without a runner should fail")
    };
    assert!(error.message().contains("require a runner program"));
}

#[test]
fn runner_program_cannot_be_empty() {
    let result = PhiAgentCommand::from_step_args(AgentCommandArgs {
        runner: Some("  ".to_owned()),
        ..AgentCommandArgs::default()
    });
    let Err(error) = result else {
        panic!("an empty runner program should fail")
    };
    assert!(error.message().contains("non-empty program"));
}

#[test]
fn container_and_runner_are_mutually_exclusive() {
    let result = PhiAgentCommand::from_step_args(AgentCommandArgs {
        runner: Some("bash".to_owned()),
        container: Some("box".to_owned()),
        ..AgentCommandArgs::default()
    });
    let Err(error) = result else {
        panic!("a container together with a runner should fail")
    };
    assert_eq!(error.message(), "--container and --runner are mutually exclusive");
}

#[test]
fn container_builds_a_docker_exec_terminal_command() {
    let command = PhiAgentCommand::from_step_args(AgentCommandArgs {
        container: Some("box".to_owned()),
        ..AgentCommandArgs::default()
    })
    .ok()
    .expect("step command should accept a container");
    assert_eq!(command.container(), Some("box"));
    assert!(matches!(
        command.terminal_command("ls".to_owned()),
        Some(TerminalCommand::DockerExec { container, command }) if container == "box" && command == "ls"
    ));
}

use phi::features::{command_max_model_request_retries, command_max_steps, command_requires_user_input, command_verbose};

#[test]
fn commands_that_start_from_user_messages() {
    assert!(command_requires_user_input(&PhiAgentCommand::Run(PhiAgentCommand::run())));
    assert!(command_requires_user_input(&PhiAgentCommand::Yolo(PhiAgentCommand::yolo())));
    assert!(command_requires_user_input(&PhiAgentCommand::Step(PhiAgentCommand::step())));
    assert!(!command_requires_user_input(&PhiAgentCommand::Probe(PhiAgentCommand::probe())));
    assert!(!command_requires_user_input(&PhiAgentCommand::Doctor(PhiAgentCommand::doctor())));
    assert!(!command_requires_user_input(&PhiAgentCommand::History(PhiAgentCommand::history())));
}

#[test]
fn command_settings_read_through_the_features() {
    let run = PhiAgentCommand::Run(PhiAgentCommand::run());
    assert_eq!(command_max_steps(&run), run.max_steps());
    assert_eq!(command_verbose(&run), run.verbose());
    assert_eq!(command_max_model_request_retries(&run), None);
    let doctor = PhiAgentCommand::Doctor(PhiAgentCommand::doctor());
    assert_eq!(command_max_steps(&doctor), None);
    assert!(!command_verbose(&doctor));
}
