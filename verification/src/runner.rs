//! Running a research agent: the kinds of runner, their failures, and what an agent's output means.

use vstd::prelude::*;

use crate::duration::Duration;
use crate::text;

pub mod acp;
pub mod generic;
pub mod process;
pub mod stream_json;

verus! {

/// How a research agent is driven.
#[derive(Debug, Clone, Copy, PartialEq, Eq, Structural)]
pub enum RunnerType {
    Generic,
    StreamJson,
    Acp,
}

impl RunnerType {
    /// Whether the agent takes its prompt as a command line argument.
    pub open spec fn takes_prompt_argument(self) -> bool {
        self != RunnerType::Acp
    }

    /// Whether the agent command must name the place of the prompt.
    pub fn requires_prompt_placeholder(self) -> (res: bool)
        ensures
            res == self.takes_prompt_argument(),
    {
        match self {
            RunnerType::Generic | RunnerType::StreamJson => true,
            RunnerType::Acp => false,
        }
    }
}

impl Default for RunnerType {
    /// Agents are driven as plain commands unless configured otherwise.
    fn default() -> (res: Self)
        ensures
            res == RunnerType::Generic,
    {
        RunnerType::Generic
    }
}

/// What went wrong with an agent that did answer.
#[derive(Debug, Clone, Copy, PartialEq, Eq, Structural)]
#[non_exhaustive]
pub enum FailureKind {
    Framing,
    Protocol,
}

impl FailureKind {
    /// The name of the kind.
    pub open spec fn says(self) -> Seq<char> {
        match self {
            FailureKind::Framing => "framing"@,
            FailureKind::Protocol => "protocol"@,
        }
    }

    /// The name of the kind.
    pub fn message(self) -> (res: String)
        ensures
            res@ == self.says(),
    {
        match self {
            FailureKind::Framing => "framing".to_string(),
            FailureKind::Protocol => "protocol".to_string(),
        }
    }
}

/// Why a run of an agent failed.
#[derive(Debug, PartialEq, Eq)]
#[non_exhaustive]
pub enum RunnerError<S = String> {
    Timeout { secs: u64 },
    Spawn(S),
    Exited { exit_code: i32 },
    Io { op: S, source: S },
    Other { kind: FailureKind, source: S },
}

impl DeepView for RunnerError<String> {
    type V = RunnerError<Seq<char>>;

    open spec fn deep_view(&self) -> RunnerError<Seq<char>> {
        match self {
            RunnerError::Timeout { secs } => RunnerError::Timeout { secs: *secs },
            RunnerError::Spawn(source) => RunnerError::Spawn(source@),
            RunnerError::Exited { exit_code } => RunnerError::Exited { exit_code: *exit_code },
            RunnerError::Io { op, source } => RunnerError::Io { op: op@, source: source@ },
            RunnerError::Other { kind, source } => RunnerError::Other {
                kind: *kind,
                source: source@,
            },
        }
    }
}

impl Clone for RunnerError<String> {
    fn clone(&self) -> (res: Self)
        ensures
            res == *self,
    {
        match self {
            RunnerError::Timeout { secs } => RunnerError::Timeout { secs: *secs },
            RunnerError::Spawn(source) => RunnerError::Spawn(source.clone()),
            RunnerError::Exited { exit_code } => RunnerError::Exited { exit_code: *exit_code },
            RunnerError::Io { op, source } => RunnerError::Io {
                op: op.clone(),
                source: source.clone(),
            },
            RunnerError::Other { kind, source } => RunnerError::Other {
                kind: *kind,
                source: source.clone(),
            },
        }
    }
}

impl RunnerError<Seq<char>> {
    /// What the error says.
    pub open spec fn says(self) -> Seq<char> {
        match self {
            RunnerError::Timeout { secs } => "agent timed out after "@ + text::decimal(secs as nat)
                + "s"@,
            RunnerError::Spawn(_) => "failed to spawn subprocess"@,
            RunnerError::Exited { exit_code } => "process exited with code "@ + text::decimal_int(
                exit_code as int,
            ),
            RunnerError::Io { op, source: _ } => "I/O error while "@ + op,
            RunnerError::Other { kind, source: _ } => kind.says() + " failure"@,
        }
    }
}

impl RunnerError {
    /// The message of the error.
    pub fn message(&self) -> (res: String)
        ensures
            res@ == self.deep_view().says(),
    {
        match self {
            RunnerError::Timeout { secs } => "agent timed out after ".to_string().concat(
                text::decimal_text(*secs).as_str(),
            ).concat("s"),
            RunnerError::Spawn(_) => "failed to spawn subprocess".to_string(),
            RunnerError::Exited { exit_code } => "process exited with code ".to_string().concat(
                text::decimal_int_text(*exit_code).as_str(),
            ),
            RunnerError::Io { op, source: _ } => "I/O error while ".to_string().concat(op.as_str()),
            RunnerError::Other { kind, source: _ } => kind.message().concat(" failure"),
        }
    }
}

/// An agent as it is configured: how it is driven, its command, and how long it may take.
#[derive(Debug, PartialEq, Eq)]
pub struct ConfiguredAgentRunner {
    pub runner: RunnerType,
    pub command: Vec<String>,
    pub timeout: Duration,
}

impl ConfiguredAgentRunner {
    /// An agent as it is configured.
    pub fn new(runner: RunnerType, command: Vec<String>, timeout: Duration) -> (res: Self)
        ensures
            res == (ConfiguredAgentRunner { runner, command, timeout }),
    {
        ConfiguredAgentRunner { runner, command, timeout }
    }

    /// The arguments of the agent's process for a prompt.
    pub fn arguments(&self, prompt: &str) -> (res: Vec<String>)
        ensures
            res.deep_view() == process::with_prompt(self.command.deep_view(), prompt@),
    {
        process::substitute_prompt(&self.command, prompt)
    }
}

/// What is said of a failed run.
pub proof fn failed_runs_are_told(secs: u64, code: i32, text: Seq<char>, op: Seq<char>)
    ensures
        (RunnerError::<Seq<char>>::Timeout { secs }).says() == "agent timed out after "@
            + text::decimal(secs as nat) + "s"@,
        RunnerError::Spawn(text).says() == "failed to spawn subprocess"@,
        (RunnerError::<Seq<char>>::Exited { exit_code: code }).says() == "process exited with code "@
            + text::decimal_int(code as int),
        (RunnerError::Io { op, source: text }).says() == "I/O error while "@ + op,
        (RunnerError::Other { kind: FailureKind::Framing, source: text }).says()
            == "framing failure"@,
        (RunnerError::Other { kind: FailureKind::Protocol, source: text }).says()
            == "protocol failure"@,
{
    reveal_strlit("framing");
    reveal_strlit("protocol");
    reveal_strlit(" failure");
    reveal_strlit("framing failure");
    reveal_strlit("protocol failure");
    assert("framing"@ + " failure"@ =~= "framing failure"@);
    assert("protocol"@ + " failure"@ =~= "protocol failure"@);
}

/// Agents that are driven as commands take their prompt as an argument, those that speak a protocol
/// do not.
pub proof fn commands_take_their_prompt()
    ensures
        RunnerType::Generic.takes_prompt_argument(),
        RunnerType::StreamJson.takes_prompt_argument(),
        !RunnerType::Acp.takes_prompt_argument(),
{
}

} // verus!
