//! Agents that answer on their standard output.

use vstd::prelude::*;

use crate::duration::Duration;
use crate::runner::stream_json;
use crate::runner::stream_json::Exit;
use crate::runner::RunnerError;
use crate::text;
use crate::views;

verus! {

/// How waiting for an agent's output ended. What the agent wrote is text, or the bytes of it.
#[derive(Debug, PartialEq, Eq)]
pub enum Waited<O, S = String> {
    TimedOut,
    Ended { exit: Exit<S>, stdout: O },
}

/// The failure of a run that took too long.
pub open spec fn timed_out(timeout: Duration) -> RunnerError<Seq<char>> {
    RunnerError::Timeout {
        secs: (timeout@ / crate::duration::NANOS_PER_SEC as nat) as u64,
    }
}

/// The failure of a run that took too long.
pub fn timeout_failure(timeout: Duration) -> (res: RunnerError)
    ensures
        res.deep_view() == timed_out(timeout),
{
    RunnerError::Timeout { secs: timeout.as_secs() }
}

/// The answer in a text: none where it is empty.
pub open spec fn nonempty_answer(text: Seq<char>) -> Option<Seq<char>> {
    if text.len() == 0 {
        None
    } else {
        Some(text)
    }
}

/// The answer in a text.
pub fn answer_in(text: String) -> (res: Option<String>)
    ensures
        res.deep_view() == nonempty_answer(text@),
{
    if text.as_str().is_empty() {
        None
    } else {
        Some(text)
    }
}

/// The outcome of a run: what the agent wrote, if it ended well and in time.
pub open spec fn generic_outcome(
    waited: Waited<Seq<char>, Seq<char>>,
    timeout: Duration,
) -> Result<Option<Seq<char>>, RunnerError<Seq<char>>> {
    match waited {
        Waited::TimedOut => Err(timed_out(timeout)),
        Waited::Ended { exit, stdout } => match stream_json::ended(exit) {
            Ok(u) => Ok(nonempty_answer(stdout)),
            Err(e) => Err(e),
        },
    }
}

/// A wait by its views.
pub open spec fn waited_text(waited: Waited<String>) -> Waited<Seq<char>, Seq<char>> {
    match waited {
        Waited::TimedOut => Waited::TimedOut,
        Waited::Ended { exit, stdout } => Waited::Ended {
            exit: exit.deep_view(),
            stdout: stdout@,
        },
    }
}

/// A wait for bytes by its views, with what the bytes say.
pub open spec fn waited_bytes(waited: Waited<Vec<u8>>) -> Waited<Seq<char>, Seq<char>> {
    match waited {
        Waited::TimedOut => Waited::TimedOut,
        Waited::Ended { exit, stdout } => Waited::Ended {
            exit: exit.deep_view(),
            stdout: text::lossy(stdout@),
        },
    }
}

/// The runner of agents that answer on their standard output.
#[derive(Debug, Clone, Copy, PartialEq, Eq, Structural)]
pub struct GenericRunner;

impl GenericRunner {
    /// The outcome of a run, from the text that the agent wrote.
    pub fn outcome_of_text(&self, waited: Waited<String>, timeout: Duration) -> (res: Result<
        Option<String>,
        RunnerError,
    >)
        ensures
            views::outcome(res) == generic_outcome(waited_text(waited), timeout),
    {
        match waited {
            Waited::TimedOut => Err(timeout_failure(timeout)),
            Waited::Ended { exit, stdout } => match stream_json::check_exit(exit) {
                Ok(()) => Ok(answer_in(stdout)),
                Err(e) => Err(e),
            },
        }
    }

    /// The outcome of a run, from the bytes that the agent wrote.
    pub fn outcome(&self, waited: Waited<Vec<u8>>, timeout: Duration) -> (res: Result<
        Option<String>,
        RunnerError,
    >)
        ensures
            views::outcome(res) == generic_outcome(waited_bytes(waited), timeout),
    {
        match waited {
            Waited::TimedOut => self.outcome_of_text(Waited::TimedOut, timeout),
            Waited::Ended { exit, stdout } => self.outcome_of_text(
                Waited::Ended { exit, stdout: text::lossy_text(&stdout) },
                timeout,
            ),
        }
    }
}

/// An agent that ended well and in time answers with exactly what it wrote; one that wrote nothing
/// gave no answer. An agent that took too long, ended with another code or could not be waited for
/// failed, whatever it wrote.
pub proof fn output_is_the_answer(
    stdout: Seq<char>,
    code: Option<i32>,
    reason: Seq<char>,
    timeout: Duration,
)
    requires
        code != Some(0i32),
    ensures
        stdout.len() > 0 ==> generic_outcome(
            Waited::Ended { exit: Exit::Code(Some(0)), stdout },
            timeout,
        ) == Ok::<_, RunnerError<Seq<char>>>(Some(stdout)),
        generic_outcome(
            Waited::Ended { exit: Exit::Code(Some(0)), stdout: Seq::empty() },
            timeout,
        ) == Ok::<_, RunnerError<Seq<char>>>(None::<Seq<char>>),
        generic_outcome(Waited::Ended { exit: Exit::Code(code), stdout }, timeout) == Err::<
            Option<Seq<char>>,
            _,
        >(
            RunnerError::<Seq<char>>::Exited {
                exit_code: match code {
                    Some(code) => code,
                    None => (-1) as i32,
                },
            },
        ),
        generic_outcome(Waited::Ended { exit: Exit::Lost(reason), stdout }, timeout) == Err::<
            Option<Seq<char>>,
            _,
        >(RunnerError::Io { op: "waiting for child"@, source: reason }),
        generic_outcome(Waited::TimedOut, timeout) == Err::<Option<Seq<char>>, _>(
            timed_out(timeout),
        ),
        timed_out(timeout) == (RunnerError::<Seq<char>>::Timeout {
            secs: (timeout@ / 1_000_000_000) as u64,
        }),
{
}

} // verus!
