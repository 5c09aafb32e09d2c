//! Agents that speak the Agent Client Protocol.

use vstd::prelude::*;

use crate::duration::Duration;
use crate::runner::generic;
use crate::runner::{FailureKind, RunnerError};
use crate::views;

verus! {

/// A step of a session with an agent.
#[derive(Debug, Clone, Copy, PartialEq, Eq, Structural)]
pub enum AcpOp {
    Connect,
    Initialize,
    NewSession,
    Prompt,
}

impl AcpOp {
    /// The name of the step.
    pub open spec fn says(self) -> Seq<char> {
        match self {
            AcpOp::Connect => "connect"@,
            AcpOp::Initialize => "initialize"@,
            AcpOp::NewSession => "new_session"@,
            AcpOp::Prompt => "prompt"@,
        }
    }

    /// The name of the step.
    pub fn message(self) -> (res: String)
        ensures
            res@ == self.says(),
    {
        match self {
            AcpOp::Connect => "connect".to_string(),
            AcpOp::Initialize => "initialize".to_string(),
            AcpOp::NewSession => "new_session".to_string(),
            AcpOp::Prompt => "prompt".to_string(),
        }
    }

    /// The step that follows a successful one; the prompt is the last.
    pub open spec fn following(self) -> Option<AcpOp> {
        match self {
            AcpOp::Connect => Some(AcpOp::Initialize),
            AcpOp::Initialize => Some(AcpOp::NewSession),
            AcpOp::NewSession => Some(AcpOp::Prompt),
            AcpOp::Prompt => None,
        }
    }

    /// The step that follows a successful one.
    pub fn next(self) -> (res: Option<AcpOp>)
        ensures
            res == self.following(),
    {
        match self {
            AcpOp::Connect => Some(AcpOp::Initialize),
            AcpOp::Initialize => Some(AcpOp::NewSession),
            AcpOp::NewSession => Some(AcpOp::Prompt),
            AcpOp::Prompt => None,
        }
    }
}

/// What an agent reports during a session.
#[derive(Debug, PartialEq, Eq)]
pub enum SessionUpdate<S = String> {
    /// A piece of the answer: its text, or none where it is something else than text.
    AgentMessageChunk { text: Option<S> },
    ToolCall,
    ToolCallUpdate,
    Plan,
    Other,
}

impl DeepView for SessionUpdate<String> {
    type V = SessionUpdate<Seq<char>>;

    open spec fn deep_view(&self) -> SessionUpdate<Seq<char>> {
        match self {
            SessionUpdate::AgentMessageChunk { text } => SessionUpdate::AgentMessageChunk {
                text: text.deep_view(),
            },
            SessionUpdate::ToolCall => SessionUpdate::ToolCall,
            SessionUpdate::ToolCallUpdate => SessionUpdate::ToolCallUpdate,
            SessionUpdate::Plan => SessionUpdate::Plan,
            SessionUpdate::Other => SessionUpdate::Other,
        }
    }
}

/// The text that an update adds to the answer.
pub open spec fn added_text(update: SessionUpdate<Seq<char>>) -> Seq<char> {
    match update {
        SessionUpdate::AgentMessageChunk { text: Some(text) } => text,
        _ => Seq::empty(),
    }
}

/// Adds the text of an update to the answer.
pub fn handle_session_update(answer: &mut String, update: SessionUpdate)
    ensures
        final(answer)@ == old(answer)@ + added_text(update.deep_view()),
{
    match update {
        SessionUpdate::AgentMessageChunk { text } => match text {
            Some(text) => {
                answer.append(text.as_str());
            },
            None => {
                assert(answer@ =~= old(answer)@ + Seq::<char>::empty());
            },
        },
        _ => {
            assert(answer@ =~= old(answer)@ + Seq::<char>::empty());
        },
    }
}

/// How a session ended.
#[derive(Debug, PartialEq, Eq)]
pub enum SessionEnd<S = String> {
    TimedOut,
    Failed { operation: AcpOp, source: S },
    Completed,
}

impl DeepView for SessionEnd<String> {
    type V = SessionEnd<Seq<char>>;

    open spec fn deep_view(&self) -> SessionEnd<Seq<char>> {
        match self {
            SessionEnd::TimedOut => SessionEnd::TimedOut,
            SessionEnd::Failed { operation, source } => SessionEnd::Failed {
                operation: *operation,
                source: source@,
            },
            SessionEnd::Completed => SessionEnd::Completed,
        }
    }
}

/// The outcome of a session: what the agent wrote, if every step succeeded in time.
pub open spec fn session_outcome(
    end: SessionEnd<Seq<char>>,
    answer: Seq<char>,
    timeout: Duration,
) -> Result<Option<Seq<char>>, RunnerError<Seq<char>>> {
    match end {
        SessionEnd::TimedOut => Err(generic::timed_out(timeout)),
        SessionEnd::Failed { operation, source } => Err(
            RunnerError::Other {
                kind: FailureKind::Protocol,
                source: "ACP "@ + operation.says() + " failed: "@ + source,
            },
        ),
        SessionEnd::Completed => Ok(generic::nonempty_answer(answer)),
    }
}

/// The runner of agents that speak the Agent Client Protocol.
#[derive(Debug, Clone, Copy, PartialEq, Eq, Structural)]
pub struct AcpRunner;

impl AcpRunner {
    /// The outcome of a session.
    pub fn outcome(&self, end: SessionEnd, answer: String, timeout: Duration) -> (res: Result<
        Option<String>,
        RunnerError,
    >)
        ensures
            views::outcome(res) == session_outcome(end.deep_view(), answer@, timeout),
    {
        match end {
            SessionEnd::TimedOut => Err(generic::timeout_failure(timeout)),
            SessionEnd::Failed { operation, source } => Err(
                RunnerError::Other {
                    kind: FailureKind::Protocol,
                    source: "ACP ".to_string().concat(operation.message().as_str()).concat(
                        " failed: ",
                    ).concat(source.as_str()),
                },
            ),
            SessionEnd::Completed => Ok(generic::answer_in(answer)),
        }
    }
}

/// A session is connected, initialized, opened and prompted, in this order. Once it is completed the
/// answer is what the agent wrote; a step that failed is told by its name.
pub proof fn sessions_go_through_their_steps(
    source: Seq<char>,
    answer: Seq<char>,
    timeout: Duration,
)
    ensures
        AcpOp::Connect.following() == Some(AcpOp::Initialize),
        AcpOp::Initialize.following() == Some(AcpOp::NewSession),
        AcpOp::NewSession.following() == Some(AcpOp::Prompt),
        AcpOp::Prompt.following() is None,
        session_outcome(SessionEnd::Completed, Seq::empty(), timeout) == Ok::<
            _,
            RunnerError<Seq<char>>,
        >(None::<Seq<char>>),
        answer.len() > 0 ==> session_outcome(SessionEnd::Completed, answer, timeout) == Ok::<
            _,
            RunnerError<Seq<char>>,
        >(Some(answer)),
        session_outcome(SessionEnd::TimedOut, answer, timeout) == Err::<Option<Seq<char>>, _>(
            RunnerError::<Seq<char>>::Timeout { secs: (timeout@ / 1_000_000_000) as u64 },
        ),
        failed_step(AcpOp::Connect, "ACP connect failed: "@, source, answer, timeout),
        failed_step(AcpOp::Initialize, "ACP initialize failed: "@, source, answer, timeout),
        failed_step(AcpOp::NewSession, "ACP new_session failed: "@, source, answer, timeout),
        failed_step(AcpOp::Prompt, "ACP prompt failed: "@, source, answer, timeout),
{
    reveal_strlit("ACP ");
    reveal_strlit(" failed: ");
    reveal_strlit("connect");
    reveal_strlit("initialize");
    reveal_strlit("new_session");
    reveal_strlit("prompt");
    reveal_strlit("ACP connect failed: ");
    reveal_strlit("ACP initialize failed: ");
    reveal_strlit("ACP new_session failed: ");
    reveal_strlit("ACP prompt failed: ");
    assert("ACP "@ + "connect"@ + " failed: "@ =~= "ACP connect failed: "@);
    assert("ACP "@ + "initialize"@ + " failed: "@ =~= "ACP initialize failed: "@);
    assert("ACP "@ + "new_session"@ + " failed: "@ =~= "ACP new_session failed: "@);
    assert("ACP "@ + "prompt"@ + " failed: "@ =~= "ACP prompt failed: "@);
}

/// Whether a session whose step failed is told with a text and the reason.
pub open spec fn failed_step(
    operation: AcpOp,
    told: Seq<char>,
    source: Seq<char>,
    answer: Seq<char>,
    timeout: Duration,
) -> bool {
    session_outcome(SessionEnd::Failed { operation, source }, answer, timeout) == Err::<
        Option<Seq<char>>,
        _,
    >(RunnerError::Other { kind: FailureKind::Protocol, source: told + source })
}

/// Only the text of the answer's pieces is added to the answer.
pub proof fn pieces_are_added_to_the_answer(text: Seq<char>)
    ensures
        added_text(SessionUpdate::AgentMessageChunk { text: Some(text) }) == text,
        added_text(SessionUpdate::AgentMessageChunk { text: None }) == Seq::<char>::empty(),
        added_text(SessionUpdate::ToolCall) == Seq::<char>::empty(),
        added_text(SessionUpdate::ToolCallUpdate) == Seq::<char>::empty(),
        added_text(SessionUpdate::Plan) == Seq::<char>::empty(),
        added_text(SessionUpdate::Other) == Seq::<char>::empty(),
{
}

} // verus!
