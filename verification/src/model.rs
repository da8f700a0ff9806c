//! Plain values that the monitor's views read about processes, agent
//! requests and diagnostic findings.
use vstd::prelude::*;

verus! {

/// Operating-system state of a process.
#[derive(Debug, Clone, Copy, PartialEq, Eq, Structural)]
pub enum ProcessState {
    Running,
    Sleeping,
    Zombie,
    Stopped,
}

/// The number by which compiled rules see a process state.
pub open spec fn state_code(state: ProcessState) -> u32 {
    match state {
        ProcessState::Running => 0,
        ProcessState::Sleeping => 1,
        ProcessState::Zombie => 2,
        ProcessState::Stopped => 3,
    }
}

/// The number by which compiled rules see `state`.
pub fn process_state_to_u32(state: ProcessState) -> (n: u32)
    ensures
        n == state_code(state),
{
    match state {
        ProcessState::Running => 0,
        ProcessState::Sleeping => 1,
        ProcessState::Zombie => 2,
        ProcessState::Stopped => 3,
    }
}

/// An action that an agent asks the operator to approve.
#[derive(Debug, Clone, PartialEq, Eq)]
pub enum AgentAction {
    KillProcess { pid: u32 },
    RestartService { name: String },
    Inspect { pid: u32 },
    CustomScript { command: String },
}

/// View of an [`AgentAction`].
pub enum SpecAgentAction {
    KillProcess { pid: u32 },
    RestartService { name: Seq<char> },
    Inspect { pid: u32 },
    CustomScript { command: Seq<char> },
}

impl View for AgentAction {
    type V = SpecAgentAction;

    open spec fn view(&self) -> SpecAgentAction {
        match self {
            AgentAction::KillProcess { pid } => SpecAgentAction::KillProcess { pid: *pid },
            AgentAction::RestartService { name } => SpecAgentAction::RestartService { name: name@ },
            AgentAction::Inspect { pid } => SpecAgentAction::Inspect { pid: *pid },
            AgentAction::CustomScript { command } => SpecAgentAction::CustomScript { command: command@ },
        }
    }
}

/// Severity of a diagnostic finding, from least to most severe.
#[derive(Debug, Clone, Copy, PartialEq, Eq, Structural)]
pub enum DiagSeverity {
    Info,
    Warning,
    Critical,
}

} // verus!
