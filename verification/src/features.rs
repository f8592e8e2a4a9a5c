//! Features around the agent loop: governance policies, observers and plugins,
//! and what they read of the command that started the agent.
pub mod governance;
pub mod observers;
pub mod plugin;

use vstd::prelude::*;

use crate::agent::command::PhiAgentCommand;

verus! {

/// Whether the command starts from messages that the user gives.
pub fn command_requires_user_input(command: &PhiAgentCommand) -> (requires: bool)
    ensures
        requires == (command is Run || command is Yolo || command is Step),
{
    match command {
        PhiAgentCommand::Run(_) | PhiAgentCommand::Yolo(_) | PhiAgentCommand::Step(_) => true,
        _ => false,
    }
}

/// The step limit the command sets, if any.
pub fn command_max_steps(command: &PhiAgentCommand) -> (max_steps: Option<usize>)
    ensures
        max_steps == (match command {
            PhiAgentCommand::Run(run) | PhiAgentCommand::Yolo(run) => run.max_steps,
            _ => None,
        }),
{
    command.max_steps()
}

/// Whether the command echoes the conversation.
pub fn command_verbose(command: &PhiAgentCommand) -> (verbose: bool)
    ensures
        verbose == (command.spec_options() matches Some(options) && !options.quiet),
{
    command.verbose()
}

/// The model-request retry budget the command sets, if any.
pub fn command_max_model_request_retries(command: &PhiAgentCommand) -> (retries: Option<usize>)
    ensures
        retries == command.spec_max_model_request_retries(),
{
    command.max_model_request_retries()
}

} // verus!
