//! A single run of a wiki's agent, from the question to the answer with its links.

use vstd::prelude::*;

use crate::config::{AppConfig, QUESTION_PLACEHOLDER};
use crate::delivery;
use crate::duration::NANOS_PER_SEC;
use crate::research_task;
use crate::rewrite;
use crate::runner::process;
use crate::sync::tree::Listing;
use crate::text;
use crate::views;

verus! {

/// How the agent's process ended. What it wrote is text, or the bytes of it.
#[derive(Debug, PartialEq, Eq)]
pub enum AgentEnd<O, S = String> {
    /// It could not be started or waited for, with the reason.
    Lost(S),
    /// It did not end in time.
    TimedOut,
    /// It ended; how it is said that it ended, whether well, and what it wrote.
    Ended { success: bool, status: S, stdout: O, stderr: O },
}

/// Why there is no answer.
#[derive(Debug, PartialEq, Eq)]
pub enum AgentError<S = String> {
    Lost(S),
    TimedOut { secs: u64 },
    Exited { status: S, stderr: S },
}

/// A failure by its views.
pub type Fault = AgentError<Seq<char>>;

impl DeepView for AgentError<String> {
    type V = AgentError<Seq<char>>;

    open spec fn deep_view(&self) -> AgentError<Seq<char>> {
        match self {
            AgentError::Lost(reason) => AgentError::Lost(reason@),
            AgentError::TimedOut { secs } => AgentError::TimedOut { secs: *secs },
            AgentError::Exited { status, stderr } => AgentError::Exited {
                status: status@,
                stderr: stderr@,
            },
        }
    }
}

impl AgentError<Seq<char>> {
    /// What the failure says.
    pub open spec fn says(self) -> Seq<char> {
        match self {
            AgentError::Lost(reason) => reason,
            AgentError::TimedOut { secs } => "agent timed out after "@ + text::decimal(secs as nat)
                + "s"@,
            AgentError::Exited { status, stderr } => "agent exited with "@ + status + ": "@ + stderr,
        }
    }
}

impl AgentError {
    /// The message of the failure.
    pub fn message(&self) -> (res: String)
        ensures
            res@ == self.deep_view().says(),
    {
        match self {
            AgentError::Lost(reason) => reason.clone(),
            AgentError::TimedOut { secs } => "agent timed out after ".to_string().concat(
                text::decimal_text(*secs).as_str(),
            ).concat("s"),
            AgentError::Exited { status, stderr } => "agent exited with ".to_string().concat(
                status.as_str(),
            ).concat(": ").concat(stderr.as_str()),
        }
    }
}

/// The arguments of the agent's process: its command with the question's prompt put in.
pub open spec fn arguments_of(
    command: Seq<Seq<char>>,
    template: Seq<char>,
    question: Seq<char>,
) -> Seq<Seq<char>> {
    process::with_prompt(command, research_task::prompt_of(template, question))
}

/// The arguments of the agent's process.
pub fn agent_arguments(config: &AppConfig, question: &str) -> (res: Vec<String>)
    ensures
        res.deep_view() == arguments_of(
            config.agent_command.deep_view(),
            config.prompt_template_content@,
            question@,
        ),
{
    let prompt = text::replaced(
        config.prompt_template_content.as_str(),
        QUESTION_PLACEHOLDER,
        question,
    );
    process::substitute_prompt(&config.agent_command, prompt.as_str())
}

/// The answer of a run.
pub open spec fn run_outcome(
    wiki_repo: Seq<char>,
    timeout: nat,
    end: AgentEnd<Seq<char>, Seq<char>>,
    found: Option<Listing>,
) -> Result<Seq<char>, Fault> {
    match end {
        AgentEnd::Lost(reason) => Err(AgentError::Lost(reason)),
        AgentEnd::TimedOut => Err(
            AgentError::TimedOut { secs: (timeout / NANOS_PER_SEC as nat) as u64 },
        ),
        AgentEnd::Ended { success, status, stdout, stderr } => if success {
            Ok(delivery::with_links(stdout, wiki_repo, found, "wiki"@))
        } else {
            Err(AgentError::Exited { status, stderr: text::trim(stderr) })
        },
    }
}

/// An end by its views.
pub open spec fn text_end(end: AgentEnd<String>) -> AgentEnd<Seq<char>, Seq<char>> {
    match end {
        AgentEnd::Lost(reason) => AgentEnd::Lost(reason@),
        AgentEnd::TimedOut => AgentEnd::TimedOut,
        AgentEnd::Ended { success, status, stdout, stderr } => AgentEnd::Ended {
            success,
            status: status@,
            stdout: stdout@,
            stderr: stderr@,
        },
    }
}

/// An end by its views, with what the bytes say.
pub open spec fn byte_end(end: AgentEnd<Vec<u8>>) -> AgentEnd<Seq<char>, Seq<char>> {
    match end {
        AgentEnd::Lost(reason) => AgentEnd::Lost(reason@),
        AgentEnd::TimedOut => AgentEnd::TimedOut,
        AgentEnd::Ended { success, status, stdout, stderr } => AgentEnd::Ended {
            success,
            status: status@,
            stdout: text::lossy(stdout@),
            stderr: text::lossy(stderr@),
        },
    }
}

/// The answer of a run, from the text that the agent wrote.
pub fn answer_of_text(config: &AppConfig, end: AgentEnd<String>, found: &Option<Listing>) -> (res:
    Result<String, AgentError>)
    ensures
        views::outcome(res) == run_outcome(
            config.wiki_repo@,
            config.agent_timeout@,
            text_end(end),
            *found,
        ),
{
    match end {
        AgentEnd::Lost(reason) => Err(AgentError::Lost(reason)),
        AgentEnd::TimedOut => Err(AgentError::TimedOut { secs: config.agent_timeout.as_secs() }),
        AgentEnd::Ended { success, status, stdout, stderr } => if success {
            Ok(
                delivery::render_wikilinks(
                    stdout.as_str(),
                    config.wiki_repo.as_str(),
                    found,
                    "wiki",
                ),
            )
        } else {
            Err(AgentError::Exited { status, stderr: text::trimmed(stderr.as_str()) })
        },
    }
}

/// The answer of a run, given how the agent's process ended and what was found in the repository's
/// directory of pages.
pub fn run_agent(config: &AppConfig, end: AgentEnd<Vec<u8>>, found: &Option<Listing>) -> (res:
    Result<String, AgentError>)
    ensures
        views::outcome(res) == run_outcome(
            config.wiki_repo@,
            config.agent_timeout@,
            byte_end(end),
            *found,
        ),
{
    let read = match end {
        AgentEnd::Lost(reason) => AgentEnd::Lost(reason),
        AgentEnd::TimedOut => AgentEnd::TimedOut,
        AgentEnd::Ended { success, status, stdout, stderr } => AgentEnd::Ended {
            success,
            status,
            stdout: text::lossy_text(&stdout),
            stderr: text::lossy_text(&stderr),
        },
    };
    answer_of_text(config, read, found)
}

/// The answer of a run that ended well is what the agent wrote, its links into the pages of the
/// repository's directory `wiki`. A run that did not end well failed, with what the agent wrote about
/// it, without the white space around that.
pub proof fn runs_answer_with_links(
    repo: Seq<char>,
    timeout: nat,
    status: Seq<char>,
    stdout: Seq<char>,
    stderr: Seq<char>,
    reason: Seq<char>,
    found: Option<Listing>,
)
    requires
        repo.len() > 0,
        repo.last() != '/',
    ensures
        run_outcome(repo, timeout, AgentEnd::Ended { success: true, status, stdout, stderr }, found)
            == Ok::<_, Fault>(rewrite::rewritten(stdout, repo + "/wiki"@, found, "wiki"@)),
        run_outcome(repo, timeout, AgentEnd::Ended { success: false, status, stdout, stderr }, found)
            == Err::<Seq<char>, _>(AgentError::Exited { status, stderr: text::trim(stderr) }),
        run_outcome(repo, timeout, AgentEnd::TimedOut, found) == Err::<Seq<char>, Fault>(
            AgentError::TimedOut { secs: (timeout / 1_000_000_000) as u64 },
        ),
        run_outcome(repo, timeout, AgentEnd::Lost(reason), found) == Err::<Seq<char>, _>(
            AgentError::Lost(reason),
        ),
{
    delivery::finished_tasks_are_delivered(stdout, stderr, repo, found, "wiki"@);
}

/// The agent's command gets the template with the question in it in place of its prompt.
pub proof fn commands_get_the_question(
    command: Seq<Seq<char>>,
    before: Seq<char>,
    behind: Seq<char>,
    question: Seq<char>,
    i: int,
)
    requires
        0 <= i < command.len(),
        !before.contains('{'),
        !behind.contains('{'),
    ensures
        arguments_of(command, before + "{question}"@ + behind, question)[i] == (if command[i]
            == "$PROMPT"@ {
            before + question + behind
        } else {
            command[i]
        }),
{
    research_task::questions_take_their_place(before, question, behind);
}

/// What is said where there is no answer.
pub proof fn failed_agents_are_told(
    reason: Seq<char>,
    secs: u64,
    status: Seq<char>,
    stderr: Seq<char>,
)
    ensures
        AgentError::Lost(reason).says() == reason,
        (AgentError::<Seq<char>>::TimedOut { secs }).says() == "agent timed out after "@
            + text::decimal(secs as nat) + "s"@,
        (AgentError::Exited { status, stderr }).says() == "agent exited with "@ + status + ": "@
            + stderr,
{
}

} // verus!
