//! Research tasks: what a wiki's tasks do to its repository, step by step.

use vstd::prelude::*;

use crate::config::{AppConfig, GitSyncConfig, VcsWorkflow, QUESTION_PLACEHOLDER};
use crate::flow;
use crate::flow::Program;
use crate::research_task::jj::workflow::Workflow;
use crate::research_task::jj::workspace;
use crate::research_task::published::PublishedWikiRepo;
use crate::research_task::steps::{Act, Log, Rep, Stepped};
use crate::runner::{ConfiguredAgentRunner, RunnerError};
use crate::text;
use crate::views;

pub mod jj;
pub mod published;
pub mod steps;

verus! {

/// How many characters of a question its title holds.
pub const TITLE_CHARS: usize = 80;

/// The first of the lines that is not blank.
pub open spec fn first_written(lines: Seq<Seq<char>>) -> Option<Seq<char>>
    decreases lines.len(),
{
    if lines.len() == 0 {
        None
    } else if !text::is_blank(lines[0]) {
        Some(lines[0])
    } else {
        first_written(lines.drop_first())
    }
}

/// The title of a question: the words of its first line that is not blank, cut to
/// [`TITLE_CHARS`] characters with an ellipsis behind them where there are more.
pub open spec fn title_of(question: Seq<char>) -> Seq<char> {
    let line = match first_written(text::lines(question)) {
        Some(line) => line,
        None => question,
    };
    let words = text::compact(line);
    if words.len() <= TITLE_CHARS {
        words
    } else {
        words.take(TITLE_CHARS as int).push('…')
    }
}

fn title_line(question: &str) -> (res: String)
    ensures
        res@ == (match first_written(text::lines(question@)) {
            Some(line) => line,
            None => question@,
        }),
{
    let lines = text::line_list(question);
    let n: usize = lines.len();
    let ghost all = lines.deep_view();
    let mut i: usize = 0;
    assert(all.skip(0) =~= all);
    while i < n
        invariant
            n == lines@.len(),
            i <= n,
            all == lines.deep_view(),
            first_written(all) == first_written(all.skip(i as int)),
            all == text::lines(question@),
        decreases n - i,
    {
        assert(all.skip(i as int)[0] == lines@[i as int]@);
        if !text::blank(lines[i].as_str()) {
            return lines[i].clone();
        }
        assert(all.skip(i as int).drop_first() =~= all.skip(i + 1));
        i = i + 1;
    }
    question.to_string()
}

/// The title of a question.
pub fn question_title(question: &str) -> (res: String)
    ensures
        res@ == title_of(question@),
{
    let line = title_line(question);
    let words = text::compacted(line.as_str());
    let cs = text::chars(words.as_str());
    if cs.len() <= TITLE_CHARS {
        return words;
    }
    assert(cs@.subrange(0, TITLE_CHARS as int) =~= words@.take(TITLE_CHARS as int));
    let mut title = text::text_of(vstd::slice::slice_subrange(cs.as_slice(), 0, TITLE_CHARS));
    title.push('…');
    title
}

/// Why a task of a wiki failed.
#[derive(Debug, PartialEq, Eq)]
#[non_exhaustive]
pub enum Error<S = String> {
    AgentNoOutput,
    Runner(RunnerError<S>),
    Jj(jj::Error<S>),
}

/// A failure by its views.
pub type Fault = Error<Seq<char>>;

impl DeepView for Error<String> {
    type V = Error<Seq<char>>;

    open spec fn deep_view(&self) -> Error<Seq<char>> {
        match self {
            Error::AgentNoOutput => Error::AgentNoOutput,
            Error::Runner(error) => Error::Runner(error.deep_view()),
            Error::Jj(error) => Error::Jj(error.deep_view()),
        }
    }
}

impl Error<Seq<char>> {
    /// What the error says.
    pub open spec fn says(self) -> Seq<char> {
        match self {
            Error::AgentNoOutput => "agent produced no output"@,
            Error::Runner(error) => error.says(),
            Error::Jj(error) => error.says(),
        }
    }
}

impl Error<Seq<char>> {
    /// Whether a synchronisation with the remote is worth another try.
    pub open spec fn is_worth_retrying(self) -> bool {
        self matches Error::Jj(jj::Error::JjCommand { .. })
    }
}

impl Error {
    /// The message of the error.
    pub fn message(&self) -> (res: String)
        ensures
            res@ == self.deep_view().says(),
    {
        match self {
            Error::AgentNoOutput => "agent produced no output".to_string(),
            Error::Runner(error) => error.message(),
            Error::Jj(error) => error.message(),
        }
    }

    /// Whether a synchronisation with the remote is worth another try.
    pub fn is_retryable_remote_sync(&self) -> (res: bool)
        ensures
            res == (self matches Error::Jj(jj::Error::JjCommand { .. })),
            res == self.deep_view().is_worth_retrying(),
    {
        match self {
            Error::Jj(error) => error.is_retryable_remote_sync(),
            _ => false,
        }
    }
}

/// A prompt: the template with the question in place of each placeholder.
pub open spec fn prompt_of(template: Seq<char>, question: Seq<char>) -> Seq<char> {
    text::replace(template, QUESTION_PLACEHOLDER@, question)
}

/// The outcome of a flow in a Jujutsu repository, as that of the task.
pub open spec fn as_task<T>(outcome: Result<T, steps::Fault>) -> Result<T, Fault> {
    match outcome {
        Ok(v) => Ok(v),
        Err(e) => Err(Error::Jj(e)),
    }
}

/// The outcome of a run of the agent in the published repository, as that of the task.
pub open spec fn direct_outcome(outcome: Result<Option<Seq<char>>, steps::Fault>) -> Result<
    Seq<char>,
    Fault,
> {
    match outcome {
        Ok(Some(answer)) => Ok(answer),
        Ok(None) => Err(Error::AgentNoOutput),
        Err(jj::Error::Runner(e)) => Err(Error::Runner(e)),
        Err(e) => Err(Error::Jj(e)),
    }
}

/// The tasks of a wiki.
pub struct Executor {
    pub agent: ConfiguredAgentRunner,
    pub prompt_template_content: String,
    pub git_sync: Option<GitSyncConfig>,
    /// The flows of a Jujutsu repository, where the wiki is in one.
    pub workflow: Option<Workflow>,
    pub published: PublishedWikiRepo,
}

impl Executor {
    /// Answers a question: directly in the published repository, or by a research flow.
    pub open spec fn execution(self, task_id: Seq<char>, question: Seq<char>) -> Program<
        Act,
        Rep,
        Result<Seq<char>, Fault>,
    > {
        let prompt = prompt_of(self.prompt_template_content@, question);
        match self.workflow {
            None => flow::bind(
                steps::agent(prompt, self.published.repo@),
                |outcome: Result<Option<Seq<char>>, steps::Fault>|
                    Program::Return(direct_outcome(outcome)),
            ),
            Some(workflow) => flow::bind(
                workflow.deep_view().research(
                    self.published.deep_view(),
                    prompt,
                    task_id,
                    question,
                ),
                |outcome: Result<Seq<char>, steps::Fault>| Program::Return(as_task(outcome)),
            ),
        }
    }

    /// Makes the published pages ready for a reader.
    pub open spec fn reading(self) -> Program<Act, Rep, Result<(), Fault>> {
        flow::bind(
            self.published.deep_view().read_preparation(),
            |outcome: Result<(), steps::Fault>| Program::Return(as_task(outcome)),
        )
    }

    /// Makes the wiki ready when the server starts.
    pub open spec fn starting(self, is_jj_workspace: bool) -> Program<
        Act,
        Rep,
        Result<(), Fault>,
    > {
        match self.workflow {
            None => Program::Return(Ok(())),
            Some(workflow) => flow::bind(
                workflow.deep_view().startup(self.published.deep_view(), is_jj_workspace),
                |outcome: Result<(), steps::Fault>| Program::Return(as_task(outcome)),
            ),
        }
    }

    /// Synchronises the wiki with its remote, if it has one.
    pub open spec fn syncing(self, run_id: Seq<char>) -> Program<Act, Rep, Result<(), Fault>> {
        match (self.workflow, self.git_sync) {
            (Some(workflow), Some(sync)) => flow::bind(
                workflow.deep_view().remote_sync(
                    self.published.deep_view(),
                    sync.deep_view(),
                    run_id,
                ),
                |outcome: Result<(), steps::Fault>| Program::Return(as_task(outcome)),
            ),
            _ => Program::Return(Ok(())),
        }
    }

    /// Whether the tasks are those of a wiki, with workspaces below the directory `data_root`.
    pub open spec fn is_for(self, config: AppConfig, data_root: Seq<char>) -> bool {
        &&& self.agent.runner == config.runner
        &&& self.agent.command.deep_view() == config.agent_command.deep_view()
        &&& self.agent.timeout == config.agent_timeout
        &&& self.prompt_template_content@ == config.prompt_template_content@
        &&& self.git_sync.deep_view() == config.git_sync.deep_view()
        &&& self.workflow.deep_view() == (match config.vcs_workflow {
            VcsWorkflow::Unversioned => None,
            VcsWorkflow::Jj => Some(
                Workflow {
                    wiki: config.name@,
                    wiki_repo: config.wiki_repo@,
                    workspace_root: workspace::workspace_root_of(data_root, config.wiki_repo@),
                },
            ),
        })
        &&& self.published.deep_view() == (PublishedWikiRepo {
            repo: config.wiki_repo@,
            workflow: config.vcs_workflow,
        })
    }

    /// The tasks of a wiki whose workspaces lie below the directory `data_root`.
    pub fn new(config: &AppConfig, data_root: &str) -> (res: Self)
        ensures
            res.is_for(*config, data_root@),
    {
        let workflow = match config.vcs_workflow {
            VcsWorkflow::Unversioned => None,
            VcsWorkflow::Jj => Some(
                Workflow::new(config.name.clone(), config.wiki_repo.clone(), data_root),
            ),
        };
        let git_sync = match &config.git_sync {
            Some(sync) => Some(sync.clone()),
            None => None,
        };
        Executor {
            agent: ConfiguredAgentRunner::new(
                config.runner,
                views::cloned(&config.agent_command),
                config.agent_timeout,
            ),
            prompt_template_content: config.prompt_template_content.clone(),
            git_sync,
            workflow,
            published: PublishedWikiRepo::new(config.wiki_repo.clone(), config.vcs_workflow),
        }
    }

    /// The prompt for a question.
    pub fn build_prompt(&self, question: &str) -> (res: String)
        ensures
            res@ == prompt_of(self.prompt_template_content@, question@),
    {
        text::replaced(self.prompt_template_content.as_str(), QUESTION_PLACEHOLDER, question)
    }

    fn run_direct(&self, prompt: String, log: &mut Log) -> (res: Stepped<Result<String, Error>>)
        ensures
            flow::run(
                flow::bind(
                    steps::agent(prompt@, self.published.repo@),
                    |outcome: Result<Option<Seq<char>>, steps::Fault>|
                        Program::Return(direct_outcome(outcome)),
                ),
                old(log).rest(),
            ) == (steps::tried(res), final(log).rest()),
    {
        broadcast use flow::lemma_run_bind;

        match steps::run_agent(prompt, self.published.wiki_repo(), log) {
            Ok(Ok(Some(answer))) => Ok(Ok(answer)),
            Ok(Ok(None)) => Ok(Err(Error::AgentNoOutput)),
            Ok(Err(jj::Error::Runner(e))) => Ok(Err(Error::Runner(e))),
            Ok(Err(e)) => Ok(Err(Error::Jj(e))),
            Err(action) => Err(action),
        }
    }

    /// Answers a question: the next step, given the replies to the steps so far, or the answer.
    pub fn execute(&self, task_id: &str, question: &str, log: &mut Log) -> (res: Stepped<
        Result<String, Error>,
    >)
        ensures
            flow::run(self.execution(task_id@, question@), old(log).rest()) == (
                steps::tried(res),
                final(log).rest(),
            ),
    {
        broadcast use flow::lemma_run_bind;

        let prompt = self.build_prompt(question);
        match &self.workflow {
            None => self.run_direct(prompt, log),
            Some(workflow) => match workflow.run_research(
                &self.published,
                prompt.as_str(),
                task_id,
                question,
                log,
            ) {
                Ok(Ok(answer)) => Ok(Ok(answer)),
                Ok(Err(e)) => Ok(Err(Error::Jj(e))),
                Err(action) => Err(action),
            },
        }
    }

    /// Makes the published pages ready for a reader, who keeps their lock where that succeeds.
    pub fn prepare_published_for_read(&self, log: &mut Log) -> (res: Stepped<Result<(), Error>>)
        ensures
            flow::run(self.reading(), old(log).rest()) == (steps::tried(res), final(log).rest()),
    {
        broadcast use flow::lemma_run_bind;

        match self.published.prepare_for_read(log) {
            Ok(Ok(())) => Ok(Ok(())),
            Ok(Err(e)) => Ok(Err(Error::Jj(e))),
            Err(action) => Err(action),
        }
    }

    /// Makes the wiki ready when the server starts.
    pub fn prepare_startup(&self, is_jj_workspace: bool, log: &mut Log) -> (res: Stepped<
        Result<(), Error>,
    >)
        ensures
            flow::run(self.starting(is_jj_workspace), old(log).rest()) == (
                steps::tried(res),
                final(log).rest(),
            ),
    {
        broadcast use flow::lemma_run_bind;

        match &self.workflow {
            None => Ok(Ok(())),
            Some(workflow) => match workflow.prepare_startup(
                &self.published,
                is_jj_workspace,
                log,
            ) {
                Ok(Ok(())) => Ok(Ok(())),
                Ok(Err(e)) => Ok(Err(Error::Jj(e))),
                Err(action) => Err(action),
            },
        }
    }

    /// Synchronises the wiki with its remote, if it has one.
    pub fn sync_remote_once(&self, run_id: &str, log: &mut Log) -> (res: Stepped<
        Result<(), Error>,
    >)
        ensures
            flow::run(self.syncing(run_id@), old(log).rest()) == (
                steps::tried(res),
                final(log).rest(),
            ),
    {
        broadcast use flow::lemma_run_bind;

        match (&self.workflow, &self.git_sync) {
            (Some(workflow), Some(sync)) => match workflow.sync_remote_once(
                &self.published,
                sync,
                run_id,
                log,
            ) {
                Ok(Ok(())) => Ok(Ok(())),
                Ok(Err(e)) => Ok(Err(Error::Jj(e))),
                Err(action) => Err(action),
            },
            _ => Ok(Ok(())),
        }
    }
}

/// A template without a place for the question is the prompt of every question.
pub proof fn template_without_placeholder_is_the_prompt(template: Seq<char>, question: Seq<char>)
    requires
        !text::contains(template, QUESTION_PLACEHOLDER@),
    ensures
        prompt_of(template, question) == template,
{
    reveal_strlit("{question}");
    text::lemma_replace_absent(template, QUESTION_PLACEHOLDER@, question);
}

/// The question stands in the prompt where the template has its place, and the template around it
/// stays as it is.
pub proof fn questions_take_their_place(
    before: Seq<char>,
    question: Seq<char>,
    behind: Seq<char>,
)
    requires
        !before.contains('{'),
        !behind.contains('{'),
    ensures
        prompt_of(before + "{question}"@ + behind, question) == before + question + behind,
{
    let mark = "{question}"@;
    reveal_strlit("{question}");
    assert(mark[0] == '{');
    text::lemma_replace_one(before, mark, behind, question);
}

/// The title of a question stands in its first line that is not blank: white space within it is one
/// blank, and a title that is longer than eighty characters is cut there and ends with an ellipsis.
pub proof fn titles_are_cut_lines(line: Seq<char>, rest: Seq<char>, blank: Seq<char>)
    requires
        !line.contains('\n'),
        !text::is_blank(text::strip_cr(line)),
        !blank.contains('\n'),
        text::is_blank(text::strip_cr(blank)),
    ensures
        title_of(line + seq!['\n'] + rest) == (if text::compact(text::strip_cr(line)).len() <= 80 {
            text::compact(text::strip_cr(line))
        } else {
            text::compact(text::strip_cr(line)).take(80) + seq!['…']
        }),
        title_of(blank + seq!['\n'] + line + seq!['\n'] + rest) == title_of(
            line + seq!['\n'] + rest,
        ),
{
    text::lemma_lines_first(line, rest);
    let first = text::strip_cr(line);
    let all = line + seq!['\n'] + rest;
    assert(text::lines(all)[0] == first);
    assert(first_written(text::lines(all)) == Some(first));
    let words = text::compact(first);
    assert(words.take(80).push('…') =~= words.take(80) + seq!['…']);
    let longer = blank + seq!['\n'] + all;
    assert(blank + seq!['\n'] + line + seq!['\n'] + rest =~= longer);
    text::lemma_lines_first(blank, all);
    assert(text::lines(longer)[0] == text::strip_cr(blank));
    assert(text::lines(longer).drop_first() =~= text::lines(all));
}

/// Without version control the agent is asked the question's prompt in the repository, and what it
/// answers is the answer; without an answer the task has failed, and with an error it fails so.
pub proof fn unversioned_tasks_ask_the_agent(
    executor: Executor,
    id: Seq<char>,
    question: Seq<char>,
    answer: Seq<char>,
    failure: RunnerError<Seq<char>>,
)
    requires
        executor.workflow is None,
    ensures
        ({
            let p = executor.execution(id, question);
            let asked = steps::Action::Agent {
                prompt: text::replace(
                    executor.prompt_template_content@,
                    "{question}"@,
                    question,
                ),
                dir: executor.published.repo@,
            };
            &&& flow::run(p, Seq::empty()).0 == flow::Status::<Act, Result<Seq<char>, Fault>>::Waiting(
                asked,
            )
            &&& flow::run(p, seq![steps::Reply::Text(answer)]).0 == flow::Status::<
                Act,
                Result<Seq<char>, Fault>,
            >::Finished(Ok(answer))
            &&& flow::run(p, seq![steps::Reply::Nothing]).0 == flow::Status::<
                Act,
                Result<Seq<char>, Fault>,
            >::Finished(Err(Error::AgentNoOutput))
            &&& flow::run(p, seq![steps::Reply::Failed(jj::Error::Runner(failure))]).0
                == flow::Status::<Act, Result<Seq<char>, Fault>>::Finished(
                Err(Error::Runner(failure)),
            )
        }),
        executor.starting(true) == Program::<Act, Rep, Result<(), Fault>>::Return(Ok(())),
        executor.starting(false) == Program::<Act, Rep, Result<(), Fault>>::Return(Ok(())),
        executor.syncing(id) == Program::<Act, Rep, Result<(), Fault>>::Return(Ok(())),
{
    broadcast use flow::lemma_run_bind;

    let replies = seq![
        steps::Reply::Text(answer),
        steps::Reply::Nothing,
        steps::Reply::Failed(jj::Error::Runner(failure)),
    ];
    assert(seq![replies[0]].drop_first() =~= Seq::empty());
    assert(seq![replies[1]].drop_first() =~= Seq::empty());
    assert(seq![replies[2]].drop_first() =~= Seq::empty());
    reveal_with_fuel(flow::run, 3);
}

/// Where a flow stands whose outcome is told as that of a task.
pub open spec fn told<T>(
    stands: (flow::Status<Act, Result<T, steps::Fault>>, Seq<Rep>),
) -> (flow::Status<Act, Result<T, Fault>>, Seq<Rep>) {
    match stands {
        (flow::Status::Waiting(action), rest) => (flow::Status::Waiting(action), rest),
        (flow::Status::Finished(Ok(v)), rest) => (flow::Status::Finished(Ok(v)), rest),
        (flow::Status::Finished(Err(e)), rest) => (
            flow::Status::Finished(Err(Error::Jj(e))),
            rest,
        ),
    }
}

/// In a Jujutsu repository a task runs the research flow with the question's prompt, a start runs the
/// flow that makes the repository ready, and a synchronisation the flow with the configured remote,
/// where there is one. What the flows end with is what the tasks end with.
pub proof fn versioned_tasks_run_their_flows(
    executor: Executor,
    workflow: Workflow,
    id: Seq<char>,
    question: Seq<char>,
    ready: bool,
    log: Seq<Rep>,
)
    requires
        executor.workflow == Some(workflow),
    ensures
        flow::run(executor.execution(id, question), log) == told(
            flow::run(
                workflow.deep_view().research(
                    executor.published.deep_view(),
                    text::replace(executor.prompt_template_content@, "{question}"@, question),
                    id,
                    question,
                ),
                log,
            ),
        ),
        flow::run(executor.starting(ready), log) == told(
            flow::run(workflow.deep_view().startup(executor.published.deep_view(), ready), log),
        ),
        executor.git_sync matches Some(sync) ==> flow::run(executor.syncing(id), log) == told(
            flow::run(
                workflow.deep_view().remote_sync(
                    executor.published.deep_view(),
                    sync.deep_view(),
                    id,
                ),
                log,
            ),
        ),
        executor.git_sync is None ==> executor.syncing(id) == Program::<
            Act,
            Rep,
            Result<(), Fault>,
        >::Return(Ok(())),
        flow::run(executor.reading(), log) == told(
            flow::run(executor.published.deep_view().read_preparation(), log),
        ),
{
    broadcast use flow::lemma_run_bind;

}

/// What is said of a failed task, and which failures of a synchronisation are worth another try:
/// those of a command of `jj`, and no other.
pub proof fn failed_tasks_are_told(runner: RunnerError<Seq<char>>, error: jj::Error<Seq<char>>)
    ensures
        Error::<Seq<char>>::AgentNoOutput.says() == "agent produced no output"@,
        Error::Runner(runner).says() == runner.says(),
        Error::Jj(error).says() == error.says(),
        Error::Jj(error).is_worth_retrying() <==> error is JjCommand,
        !Error::Runner(runner).is_worth_retrying(),
        !Error::<Seq<char>>::AgentNoOutput.is_worth_retrying(),
{
}

} // verus!
