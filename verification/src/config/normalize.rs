//! From the configuration of a wiki as it is written to the one the server works with.

use vstd::prelude::*;

use crate::config::raw::{RawGitSyncConfig, RawWiki, RawWikiConfig};
use crate::config::{App, AppConfig, ConfigError, Fault, GitSyncConfig, VcsWorkflow};
use crate::config::{PROMPT_PLACEHOLDER, QUESTION_PLACEHOLDER};
use crate::duration::Duration;
use crate::names;
use crate::paths;
use crate::runner::RunnerType;
use crate::text;
use crate::views;

verus! {

/// A path as the configuration means it: taken from the directory of the configuration file.
pub open spec fn resolved(base: Seq<char>, path: Seq<char>) -> Seq<char> {
    paths::join_path(base, path)
}

/// A path as the configuration means it.
pub fn resolve(base: &str, path: &str) -> (res: String)
    ensures
        res@ == resolved(base@, path@),
{
    paths::join(base, path)
}

/// The repository of a wiki, beside the configuration file.
pub open spec fn repo_of(config_dir: Seq<char>, name: Seq<char>) -> Seq<char> {
    paths::join_path(config_dir, names::wiki_path_of(name))
}

/// The repository of a wiki.
pub fn wiki_repo_path(config_dir: &str, name: &str) -> (res: String)
    ensures
        res@ == repo_of(config_dir@, name@),
{
    paths::join(config_dir, names::derived_wiki_path(name).as_str())
}

/// The places on disk that the configuration of a wiki depends on.
#[derive(Debug, PartialEq, Eq)]
pub struct WikiPlaces<S = String> {
    pub repo: S,
    pub wiki_dir: S,
    pub prompt_template: S,
}

impl DeepView for WikiPlaces<String> {
    type V = WikiPlaces<Seq<char>>;

    open spec fn deep_view(&self) -> WikiPlaces<Seq<char>> {
        WikiPlaces {
            repo: self.repo@,
            wiki_dir: self.wiki_dir@,
            prompt_template: self.prompt_template@,
        }
    }
}

/// The places on disk that the configuration of a wiki depends on.
pub open spec fn places_of(config_dir: Seq<char>, raw: RawWiki) -> WikiPlaces<Seq<char>> {
    WikiPlaces {
        repo: repo_of(config_dir, raw.name),
        wiki_dir: paths::join_path(repo_of(config_dir, raw.name), "wiki"@),
        prompt_template: resolved(config_dir, raw.prompt_template),
    }
}

/// The places on disk that the configuration of a wiki depends on.
pub fn wiki_places(config_dir: &str, raw: &RawWikiConfig) -> (res: WikiPlaces)
    ensures
        res.deep_view() == places_of(config_dir@, raw.deep_view()),
{
    let repo = wiki_repo_path(config_dir, raw.name.as_str());
    let wiki_dir = paths::join(repo.as_str(), "wiki");
    WikiPlaces {
        repo,
        wiki_dir,
        prompt_template: resolve(config_dir, raw.prompt_template.as_str()),
    }
}

/// A file as it was read.
#[derive(Debug, PartialEq, Eq)]
pub enum FileRead<S = String> {
    Text(S),
    Missing,
    Failed(S),
}

/// What was found at the places of a wiki.
#[derive(Debug, PartialEq, Eq)]
pub struct WikiFound<S = String> {
    pub repo_is_dir: bool,
    pub wiki_is_dir: bool,
    pub prompt_template: FileRead<S>,
}

impl DeepView for FileRead<String> {
    type V = FileRead<Seq<char>>;

    open spec fn deep_view(&self) -> FileRead<Seq<char>> {
        match self {
            FileRead::Text(text) => FileRead::Text(text@),
            FileRead::Missing => FileRead::Missing,
            FileRead::Failed(reason) => FileRead::Failed(reason@),
        }
    }
}

impl DeepView for WikiFound<String> {
    type V = WikiFound<Seq<char>>;

    open spec fn deep_view(&self) -> WikiFound<Seq<char>> {
        WikiFound {
            repo_is_dir: self.repo_is_dir,
            wiki_is_dir: self.wiki_is_dir,
            prompt_template: self.prompt_template.deep_view(),
        }
    }
}

/// Whether a name may be that of a wiki.
pub open spec fn name_check(name: Seq<char>) -> Result<(), Fault> {
    if names::wiki_name(name) {
        Ok(())
    } else {
        Err(ConfigError::InvalidWikiName(name))
    }
}

/// Whether a name may be that of a wiki.
pub fn validate_wiki_name(name: &str) -> (res: Result<(), ConfigError>)
    ensures
        views::outcome(res) == name_check(name@),
{
    if names::is_valid_wiki_name(name) {
        Ok(())
    } else {
        Err(ConfigError::InvalidWikiName(name.to_string()))
    }
}

/// The description of a wiki, trimmed.
pub open spec fn description_check(name: Seq<char>, description: Seq<char>) -> Result<
    Seq<char>,
    Fault,
> {
    if text::is_blank(description) {
        Err(ConfigError::WikiDescriptionEmpty(name))
    } else {
        Ok(text::trim(description))
    }
}

/// The description of a wiki, trimmed.
pub fn validate_description(name: &str, description: &str) -> (res: Result<String, ConfigError>)
    ensures
        views::outcome(res) == description_check(name@, description@),
{
    if text::blank(description) {
        Err(ConfigError::WikiDescriptionEmpty(name.to_string()))
    } else {
        Ok(text::trimmed(description))
    }
}

/// The instructions of a wiki that gives none.
pub open spec fn instructions_for(description: Seq<char>) -> Seq<char> {
    "Use this wiki for: "@ + description
        + "\n\nUse research when the existing wiki may not cover the full picture, including adjacent knowledge that may not have been researched yet."@
}

/// The instructions of a wiki that gives none.
pub fn default_mcp_instructions(description: &str) -> (res: String)
    ensures
        res@ == instructions_for(description@),
{
    "Use this wiki for: ".to_string().concat(description).concat(
        "\n\nUse research when the existing wiki may not cover the full picture, including adjacent knowledge that may not have been researched yet.",
    )
}

/// The description of the research tool of a wiki that gives none.
pub open spec fn tool_description_for(description: Seq<char>) -> Seq<char> {
    "Submit a research question for this wiki. Covers: "@ + description
}

/// The description of the research tool of a wiki that gives none.
pub fn default_research_tool_description(description: &str) -> (res: String)
    ensures
        res@ == tool_description_for(description@),
{
    "Submit a research question for this wiki. Covers: ".to_string().concat(description)
}

/// How many elements of a command stand for the prompt.
pub open spec fn prompt_count(command: Seq<Seq<char>>) -> nat {
    command.filter(|a: Seq<char>| a == PROMPT_PLACEHOLDER@).len()
}

/// Whether a command fits the runner: not empty, and with one place for the prompt exactly if the
/// runner passes the prompt on the command line.
pub open spec fn command_check(
    name: Seq<char>,
    runner: RunnerType,
    command: Seq<Seq<char>>,
) -> Result<(), Fault> {
    if command.len() == 0 {
        Err(ConfigError::AgentCommandEmpty(name))
    } else if runner.takes_prompt_argument() && prompt_count(command) != 1 {
        Err(ConfigError::AgentCommandMissingPrompt(name))
    } else if !runner.takes_prompt_argument() && prompt_count(command) != 0 {
        Err(ConfigError::AgentCommandUnexpectedPrompt(name))
    } else {
        Ok(())
    }
}

fn count_prompts(command: &Vec<String>) -> (res: usize)
    ensures
        res == prompt_count(command.deep_view()),
{
    let ghost all = command.deep_view();
    let ghost f = |a: Seq<char>| a == PROMPT_PLACEHOLDER@;
    let n: usize = command.len();
    let mut count: usize = 0;
    let mut i: usize = 0;
    proof {
        reveal(Seq::filter);
        assert(all.take(0) =~= Seq::empty());
    }
    while i < n
        invariant
            n == command@.len(),
            i <= n,
            all == command.deep_view(),
            f == (|a: Seq<char>| a == PROMPT_PLACEHOLDER@),
            count == all.take(i as int).filter(f).len(),
            count <= i,
        decreases n - i,
    {
        proof {
            reveal(Seq::filter);
            assert(all.take(i + 1).drop_last() =~= all.take(i as int));
            assert(all.take(i + 1).last() == command@[i as int]@);
        }
        if text::same(command[i].as_str(), PROMPT_PLACEHOLDER) {
            count = count + 1;
        }
        i = i + 1;
    }
    assert(all.take(n as int) =~= all);
    count
}

/// Whether a command fits the runner.
pub fn validate_agent_command(
    wiki_name: &str,
    runner: RunnerType,
    agent_command: &Vec<String>,
) -> (res: Result<(), ConfigError>)
    ensures
        views::outcome(res) == command_check(wiki_name@, runner, agent_command.deep_view()),
{
    assert(agent_command.deep_view().len() == agent_command@.len());
    if agent_command.len() == 0 {
        return Err(ConfigError::AgentCommandEmpty(wiki_name.to_string()));
    }
    let prompts: usize = count_prompts(agent_command);
    if runner.requires_prompt_placeholder() {
        if prompts != 1 {
            return Err(ConfigError::AgentCommandMissingPrompt(wiki_name.to_string()));
        }
    } else if prompts != 0 {
        return Err(ConfigError::AgentCommandUnexpectedPrompt(wiki_name.to_string()));
    }
    Ok(())
}

/// The research concurrency of a wiki: one unless configured otherwise, which takes a
/// versioned repository.
pub open spec fn concurrency_check(
    name: Seq<char>,
    workflow: VcsWorkflow,
    raw: Option<usize>,
) -> Result<usize, Fault> {
    match raw {
        None => Ok(1),
        Some(n) => if workflow == VcsWorkflow::Unversioned {
            Err(ConfigError::ResearchConcurrencyRequiresVcs(name))
        } else if n == 0 {
            Err(ConfigError::ResearchConcurrencyZero(name))
        } else {
            Ok(n)
        },
    }
}

/// The research concurrency of a wiki.
pub fn validate_research_concurrency(
    wiki_name: &str,
    workflow: VcsWorkflow,
    raw: Option<usize>,
) -> (res: Result<usize, ConfigError>)
    ensures
        views::outcome(res) == concurrency_check(wiki_name@, workflow, raw),
{
    match raw {
        None => Ok(1),
        Some(n) => match workflow {
            VcsWorkflow::Unversioned => Err(
                ConfigError::ResearchConcurrencyRequiresVcs(wiki_name.to_string()),
            ),
            VcsWorkflow::Jj => if n == 0 {
                Err(ConfigError::ResearchConcurrencyZero(wiki_name.to_string()))
            } else {
                Ok(n)
            },
        },
    }
}

/// How a wiki is kept in step with a remote: it takes a Jujutsu repository, the name of the remote,
/// and spans of at least a second. The first of these that is missing is reported.
pub open spec fn git_sync_check(
    name: Seq<char>,
    workflow: VcsWorkflow,
    raw: Option<RawGitSyncConfig<Seq<char>>>,
) -> Result<Option<GitSyncConfig<Seq<char>>>, Fault> {
    match raw {
        None => Ok(None),
        Some(raw) => if workflow != VcsWorkflow::Jj {
            Err(ConfigError::GitSyncRequiresJj(name))
        } else if text::is_blank(raw.remote) {
            Err(ConfigError::GitSyncRemoteEmpty(name))
        } else if raw.interval_secs == 0 {
            Err(ConfigError::GitSyncIntervalZero(name))
        } else if raw.retry_max_elapsed_secs == 0 {
            Err(ConfigError::GitSyncRetryMaxElapsedZero(name))
        } else if raw.retry_initial_delay_secs == 0 {
            Err(ConfigError::GitSyncRetryInitialDelayZero(name))
        } else if raw.retry_max_delay_secs == 0 {
            Err(ConfigError::GitSyncRetryMaxDelayZero(name))
        } else {
            Ok(
                Some(
                    GitSyncConfig {
                        remote: text::trim(raw.remote),
                        interval: Duration::of_secs(raw.interval_secs),
                        retry_max_elapsed: Duration::of_secs(raw.retry_max_elapsed_secs),
                        retry_initial_delay: Duration::of_secs(raw.retry_initial_delay_secs),
                        retry_max_delay: Duration::of_secs(raw.retry_max_delay_secs),
                        ssh_command: raw.ssh_command,
                    },
                ),
            )
        },
    }
}

/// How a wiki is kept in step with a remote.
pub fn validate_git_sync(
    wiki_name: &str,
    workflow: VcsWorkflow,
    raw: &Option<RawGitSyncConfig>,
) -> (res: Result<Option<GitSyncConfig>, ConfigError>)
    ensures
        views::outcome(res) == git_sync_check(wiki_name@, workflow, raw.deep_view()),
{
    let raw = match raw {
        None => return Ok(None),
        Some(raw) => raw,
    };
    match workflow {
        VcsWorkflow::Unversioned => {
            return Err(ConfigError::GitSyncRequiresJj(wiki_name.to_string()));
        },
        VcsWorkflow::Jj => {},
    }
    if text::blank(raw.remote.as_str()) {
        return Err(ConfigError::GitSyncRemoteEmpty(wiki_name.to_string()));
    }
    if raw.interval_secs == 0 {
        return Err(ConfigError::GitSyncIntervalZero(wiki_name.to_string()));
    }
    if raw.retry_max_elapsed_secs == 0 {
        return Err(ConfigError::GitSyncRetryMaxElapsedZero(wiki_name.to_string()));
    }
    if raw.retry_initial_delay_secs == 0 {
        return Err(ConfigError::GitSyncRetryInitialDelayZero(wiki_name.to_string()));
    }
    if raw.retry_max_delay_secs == 0 {
        return Err(ConfigError::GitSyncRetryMaxDelayZero(wiki_name.to_string()));
    }
    Ok(
        Some(
            GitSyncConfig {
                remote: text::trimmed(raw.remote.as_str()),
                interval: Duration::from_secs(raw.interval_secs),
                retry_max_elapsed: Duration::from_secs(raw.retry_max_elapsed_secs),
                retry_initial_delay: Duration::from_secs(raw.retry_initial_delay_secs),
                retry_max_delay: Duration::from_secs(raw.retry_max_delay_secs),
                ssh_command: raw.ssh_command.clone(),
            },
        ),
    )
}

/// The prompt template, which has a place for the question.
pub open spec fn template_check(path: Seq<char>, read: FileRead<Seq<char>>) -> Result<
    Seq<char>,
    Fault,
> {
    match read {
        FileRead::Missing => Err(ConfigError::PromptTemplateMissing(path)),
        FileRead::Failed(reason) => Err(ConfigError::Io(path, reason)),
        FileRead::Text(content) => if text::contains(content, QUESTION_PLACEHOLDER@) {
            Ok(content)
        } else {
            Err(ConfigError::PromptTemplateMissingPlaceholder(path))
        },
    }
}

/// The prompt template.
pub fn load_prompt_template(path: &str, read: &FileRead) -> (res: Result<String, ConfigError>)
    ensures
        views::outcome(res) == template_check(path@, read.deep_view()),
{
    match read {
        FileRead::Missing => Err(ConfigError::PromptTemplateMissing(path.to_string())),
        FileRead::Failed(reason) => Err(ConfigError::Io(path.to_string(), reason.clone())),
        FileRead::Text(content) => if text::has(content.as_str(), QUESTION_PLACEHOLDER) {
            Ok(content.clone())
        } else {
            Err(ConfigError::PromptTemplateMissingPlaceholder(path.to_string()))
        },
    }
}

/// What is on disk for a wiki: its repository, the pages in it, and the prompt template.
pub open spec fn places_check(
    name: Seq<char>,
    places: WikiPlaces<Seq<char>>,
    found: WikiFound<Seq<char>>,
) -> Result<Seq<char>, Fault> {
    if !found.repo_is_dir {
        Err(ConfigError::WikiRepoMissing { name, path: places.repo })
    } else if !found.wiki_is_dir {
        Err(ConfigError::WikiDirMissing { name, path: places.wiki_dir })
    } else {
        template_check(places.prompt_template, found.prompt_template)
    }
}

/// A text, or what stands in for it.
pub open spec fn or_else(text: Option<Seq<char>>, otherwise: Seq<char>) -> Seq<char> {
    match text {
        Some(text) => text,
        None => otherwise,
    }
}

/// The configuration of a wiki, or the first thing that is wrong with it: its name, a wiki of the
/// same name before it, its description, its command, its concurrency, its synchronisation, and
/// what is on disk.
pub open spec fn normalized(
    config_dir: Seq<char>,
    raw: RawWiki,
    found: WikiFound<Seq<char>>,
    seen: Seq<Seq<char>>,
) -> Result<App, Fault> {
    let places = places_of(config_dir, raw);
    match name_check(raw.name) {
        Err(e) => Err(e),
        Ok(_) => if seen.contains(raw.name) {
            Err(ConfigError::DuplicateWikiName(raw.name))
        } else {
            match description_check(raw.name, raw.description) {
                Err(e) => Err(e),
                Ok(description) => match command_check(raw.name, raw.runner, raw.agent_command) {
                    Err(e) => Err(e),
                    Ok(_) => match concurrency_check(
                        raw.name,
                        raw.vcs_workflow,
                        raw.research_concurrency,
                    ) {
                        Err(e) => Err(e),
                        Ok(research_concurrency) => match git_sync_check(
                            raw.name,
                            raw.vcs_workflow,
                            raw.git_sync,
                        ) {
                            Err(e) => Err(e),
                            Ok(git_sync) => match places_check(raw.name, places, found) {
                                Err(e) => Err(e),
                                Ok(prompt_template_content) => Ok(
                                    AppConfig {
                                        name: raw.name,
                                        wiki_repo: places.repo,
                                        description,
                                        runner: raw.runner,
                                        agent_command: raw.agent_command,
                                        prompt_template_content,
                                        vcs_workflow: raw.vcs_workflow,
                                        research_concurrency,
                                        git_sync,
                                        mcp_instructions: or_else(
                                            raw.mcp.instructions,
                                            instructions_for(description),
                                        ),
                                        research_tool_description: or_else(
                                            raw.mcp.research_tool_description,
                                            tool_description_for(description),
                                        ),
                                        completed_task_ttl: Duration::of_secs(
                                            raw.completed_task_ttl_secs,
                                        ),
                                        agent_timeout: Duration::of_secs(raw.agent_timeout_secs),
                                    },
                                ),
                            },
                        },
                    },
                },
            }
        },
    }
}

/// The names seen once a wiki has been looked at: its name is taken as soon as it is a valid one,
/// whether or not the wiki is accepted.
pub open spec fn seen_after(seen: Seq<Seq<char>>, name: Seq<char>) -> Seq<Seq<char>> {
    if names::wiki_name(name) && !seen.contains(name) {
        seen.push(name)
    } else {
        seen
    }
}

fn listed(names: &Vec<String>, name: &str) -> (res: bool)
    ensures
        res == names.deep_view().contains(name@),
{
    let n: usize = names.len();
    let mut i: usize = 0;
    while i < n
        invariant
            n == names@.len(),
            i <= n,
            forall|k: int| 0 <= k < i ==> names.deep_view()[k] != name@,
        decreases n - i,
    {
        assert(names.deep_view()[i as int] == names@[i as int]@);
        if text::same(names[i].as_str(), name) {
            return true;
        }
        i = i + 1;
    }
    false
}

fn check_places(name: &str, places: &WikiPlaces, found: &WikiFound) -> (res: Result<
    String,
    ConfigError,
>)
    ensures
        views::outcome(res) == places_check(name@, places.deep_view(), found.deep_view()),
{
    if !found.repo_is_dir {
        return Err(
            ConfigError::WikiRepoMissing { name: name.to_string(), path: places.repo.clone() },
        );
    }
    if !found.wiki_is_dir {
        return Err(
            ConfigError::WikiDirMissing { name: name.to_string(), path: places.wiki_dir.clone() },
        );
    }
    load_prompt_template(places.prompt_template.as_str(), &found.prompt_template)
}

/// The configuration of a wiki, or the first thing that is wrong with it. A valid name counts as
/// seen from here on, even where the wiki is refused.
pub fn normalize_wiki_config(
    config_dir: &str,
    raw: &RawWikiConfig,
    found: &WikiFound,
    seen: &mut Vec<String>,
) -> (res: Result<AppConfig, ConfigError>)
    ensures
        views::outcome(res) == normalized(
            config_dir@,
            raw.deep_view(),
            found.deep_view(),
            old(seen).deep_view(),
        ),
        final(seen).deep_view() == seen_after(old(seen).deep_view(), raw.name@),
{
    let name = raw.name.as_str();
    match validate_wiki_name(name) {
        Ok(()) => {},
        Err(e) => return Err(e),
    }
    if listed(seen, name) {
        return Err(ConfigError::DuplicateWikiName(raw.name.clone()));
    }
    let ghost before = seen.deep_view();
    seen.push(raw.name.clone());
    assert(seen.deep_view() =~= before.push(raw.name@));
    let description = match validate_description(name, raw.description.as_str()) {
        Ok(description) => description,
        Err(e) => return Err(e),
    };
    match validate_agent_command(name, raw.runner, &raw.agent_command) {
        Ok(()) => {},
        Err(e) => return Err(e),
    }
    let research_concurrency: usize = match validate_research_concurrency(
        name,
        raw.vcs_workflow,
        raw.research_concurrency,
    ) {
        Ok(n) => n,
        Err(e) => return Err(e),
    };
    let git_sync = match validate_git_sync(name, raw.vcs_workflow, &raw.git_sync) {
        Ok(git_sync) => git_sync,
        Err(e) => return Err(e),
    };
    let places = wiki_places(config_dir, raw);
    let prompt_template_content = match check_places(name, &places, found) {
        Ok(content) => content,
        Err(e) => return Err(e),
    };
    let mcp_instructions = match &raw.mcp.instructions {
        Some(text) => text.clone(),
        None => default_mcp_instructions(description.as_str()),
    };
    let research_tool_description = match &raw.mcp.research_tool_description {
        Some(text) => text.clone(),
        None => default_research_tool_description(description.as_str()),
    };
    Ok(
        AppConfig {
            name: raw.name.clone(),
            wiki_repo: places.repo,
            description,
            runner: raw.runner,
            agent_command: views::cloned(&raw.agent_command),
            prompt_template_content,
            vcs_workflow: raw.vcs_workflow,
            research_concurrency,
            git_sync,
            mcp_instructions,
            research_tool_description,
            completed_task_ttl: Duration::from_secs(raw.completed_task_ttl_secs),
            agent_timeout: Duration::from_secs(raw.agent_timeout_secs),
        },
    )
}

/// A valid name is taken once: whatever became of the first wiki that bears it, another one after it
/// is refused.
pub proof fn names_are_taken_once(
    config_dir: Seq<char>,
    raw: RawWiki,
    found: WikiFound<Seq<char>>,
    seen: Seq<Seq<char>>,
    name: Seq<char>,
)
    requires
        names::wiki_name(name),
        raw.name == name,
    ensures
        normalized(config_dir, raw, found, seen_after(seen, name)) == Err::<App, Fault>(
            ConfigError::DuplicateWikiName(name),
        ),
        seen_after(seen_after(seen, name), name) == seen_after(seen, name),
{
    if !seen.contains(name) {
        assert(seen.push(name)[seen.len() as int] == name);
    }
}

/// A wiki that is accepted has a valid name that none before it has, a description, a command with
/// the places for the prompt that its runner takes, a template with a place for the question, and a
/// research concurrency of at least one. A concurrency above one, and a remote, take a Jujutsu
/// repository; a remote has a name and spans that are not zero.
pub proof fn accepted_wiki_is_sound(
    config_dir: Seq<char>,
    raw: RawWiki,
    found: WikiFound<Seq<char>>,
    seen: Seq<Seq<char>>,
    app: App,
)
    requires
        normalized(config_dir, raw, found, seen) == Ok::<App, Fault>(app),
    ensures
        names::wiki_name(app.name),
        !seen.contains(app.name),
        app.wiki_repo == repo_of(config_dir, app.name),
        !text::is_blank(app.description),
        app.agent_command.len() > 0,
        prompt_count(app.agent_command) == (if app.runner.takes_prompt_argument() {
            1nat
        } else {
            0nat
        }),
        text::contains(app.prompt_template_content, QUESTION_PLACEHOLDER@),
        app.research_concurrency > 0,
        app.research_concurrency > 1 ==> app.vcs_workflow == VcsWorkflow::Jj,
        app.git_sync matches Some(sync) ==> {
            &&& app.vcs_workflow == VcsWorkflow::Jj
            &&& !text::is_blank(sync.remote)
            &&& sync.interval@ > 0
            &&& sync.retry_max_elapsed@ > 0
            &&& sync.retry_initial_delay@ > 0
            &&& sync.retry_max_delay@ > 0
        },
{
    broadcast use crate::duration::lemma_of_secs;

    text::lemma_trim_idempotent(raw.description);
    text::lemma_trim_blank(raw.description);
    text::lemma_trim_blank(text::trim(raw.description));
    if let Some(sync) = raw.git_sync {
        text::lemma_trim_idempotent(sync.remote);
        text::lemma_trim_blank(sync.remote);
        text::lemma_trim_blank(text::trim(sync.remote));
    }
}

/// The places of the prompt in a command are counted one by one.
pub proof fn prompts_are_counted(command: Seq<Seq<char>>, argument: Seq<char>)
    ensures
        prompt_count(Seq::empty()) == 0,
        prompt_count(command.push(argument)) == prompt_count(command) + if argument == "$PROMPT"@ {
            1int
        } else {
            0
        },
{
    reveal(Seq::filter);
    assert(command.push(argument).drop_last() =~= command);
}

/// A wiki with which nothing is wrong is accepted, with what is written of it and what is found: its
/// repository lies beside the configuration file, its texts are trimmed, its spans are in seconds,
/// and what it leaves out is made up for.
pub proof fn sound_wikis_are_accepted(
    dir: Seq<char>,
    raw: RawWiki,
    template: Seq<char>,
    seen: Seq<Seq<char>>,
)
    requires
        dir.len() > 0,
        dir.last() != '/',
        names::wiki_name(raw.name),
        !seen.contains(raw.name),
        !text::is_blank(raw.description),
        raw.agent_command.len() > 0,
        prompt_count(raw.agent_command) == (if raw.runner == RunnerType::Acp {
            0nat
        } else {
            1nat
        }),
        raw.research_concurrency matches Some(n) ==> n > 0 && raw.vcs_workflow == VcsWorkflow::Jj,
        raw.git_sync matches Some(sync) ==> {
            &&& raw.vcs_workflow == VcsWorkflow::Jj
            &&& !text::is_blank(sync.remote)
            &&& sync.interval_secs > 0
            &&& sync.retry_max_elapsed_secs > 0
            &&& sync.retry_initial_delay_secs > 0
            &&& sync.retry_max_delay_secs > 0
        },
        text::contains(template, "{question}"@),
    ensures
        ({
            let found = WikiFound {
                repo_is_dir: true,
                wiki_is_dir: true,
                prompt_template: FileRead::Text(template),
            };
            let outcome = normalized(dir, raw, found, seen);
            let app = outcome->Ok_0;
            let about = text::trim(raw.description);
            &&& outcome is Ok
            &&& app.name == raw.name
            &&& app.wiki_repo == dir + (if raw.name == "default"@ {
                "/wiki"@
            } else {
                "/wiki-"@ + raw.name
            })
            &&& app.description == about
            &&& app.runner == raw.runner
            &&& app.agent_command == raw.agent_command
            &&& app.prompt_template_content == template
            &&& app.vcs_workflow == raw.vcs_workflow
            &&& app.research_concurrency == (match raw.research_concurrency {
                Some(n) => n,
                None => 1usize,
            })
            &&& app.mcp_instructions == (match raw.mcp.instructions {
                Some(instructions) => instructions,
                None => "Use this wiki for: "@ + about
                    + "\n\nUse research when the existing wiki may not cover the full picture, including adjacent knowledge that may not have been researched yet."@,
            })
            &&& app.research_tool_description == (match raw.mcp.research_tool_description {
                Some(description) => description,
                None => "Submit a research question for this wiki. Covers: "@ + about,
            })
            &&& app.completed_task_ttl@ == raw.completed_task_ttl_secs * 1_000_000_000
            &&& app.agent_timeout@ == raw.agent_timeout_secs * 1_000_000_000
            &&& match raw.git_sync {
                None => app.git_sync is None,
                Some(sync) => {
                    &&& app.git_sync is Some
                    &&& app.git_sync->0.remote == text::trim(sync.remote)
                    &&& app.git_sync->0.interval@ == sync.interval_secs * 1_000_000_000
                    &&& app.git_sync->0.retry_max_elapsed@ == sync.retry_max_elapsed_secs
                        * 1_000_000_000
                    &&& app.git_sync->0.retry_initial_delay@ == sync.retry_initial_delay_secs
                        * 1_000_000_000
                    &&& app.git_sync->0.retry_max_delay@ == sync.retry_max_delay_secs
                        * 1_000_000_000
                    &&& app.git_sync->0.ssh_command == sync.ssh_command
                },
            }
        }),
{
    broadcast use crate::duration::lemma_of_secs;

    lemma_repo_beside(dir, raw.name);
}

proof fn lemma_repo_beside(dir: Seq<char>, name: Seq<char>)
    requires
        dir.len() > 0,
        dir.last() != '/',
    ensures
        repo_of(dir, name) == dir + (if name == "default"@ {
            "/wiki"@
        } else {
            "/wiki-"@ + name
        }),
{
    reveal_strlit("wiki");
    reveal_strlit("wiki-");
    reveal_strlit("/wiki");
    reveal_strlit("/wiki-");
    reveal_strlit("/");
    paths::paths_are_taken_from_directories(dir, "wiki"@);
    paths::paths_are_taken_from_directories(dir, "wiki-"@ + name);
    assert(dir + "/"@ + "wiki"@ =~= dir + "/wiki"@);
    assert(dir + "/"@ + ("wiki-"@ + name) =~= dir + ("/wiki-"@ + name));
}

/// The places of a wiki: its repository beside the configuration file, its pages in the directory
/// `wiki` of the repository, and its template where its path leads from the configuration file.
pub proof fn wikis_have_their_places(dir: Seq<char>, raw: RawWiki)
    requires
        dir.len() > 0,
        dir.last() != '/',
        names::wiki_name(raw.name),
        raw.prompt_template.len() > 0,
        raw.prompt_template[0] != '/',
    ensures
        ({
            let repo = dir + (if raw.name == "default"@ {
                "/wiki"@
            } else {
                "/wiki-"@ + raw.name
            });
            places_of(dir, raw) == (WikiPlaces {
                repo,
                wiki_dir: repo + "/wiki"@,
                prompt_template: dir + "/"@ + raw.prompt_template,
            })
        }),
{
    lemma_repo_beside(dir, raw.name);
    let repo = repo_of(dir, raw.name);
    reveal_strlit("wiki");
    reveal_strlit("/wiki");
    reveal_strlit("/wiki-");
    reveal_strlit("/");
    paths::paths_are_taken_from_directories(repo, "wiki"@);
    paths::paths_are_taken_from_directories(dir, raw.prompt_template);
    assert(repo + "/"@ + "wiki"@ =~= repo + "/wiki"@);
    names::names_are_slugs(raw.name);
    if raw.name == "default"@ {
        assert(repo.last() == "/wiki"@.last());
    } else {
        assert(repo.last() == raw.name.last());
    }
}

/// What is wrong with a wiki is told, the first of these: its name, that another has it, its
/// description, its command, its concurrency, its remote, and what is on disk.
pub proof fn first_fault_is_told(
    dir: Seq<char>,
    raw: RawWiki,
    found: WikiFound<Seq<char>>,
    seen: Seq<Seq<char>>,
)
    ensures
        ({
            let told = normalized(dir, raw, found, seen);
            let description = description_check(raw.name, raw.description);
            let command = command_check(raw.name, raw.runner, raw.agent_command);
            let concurrency = concurrency_check(
                raw.name,
                raw.vcs_workflow,
                raw.research_concurrency,
            );
            let sync = git_sync_check(raw.name, raw.vcs_workflow, raw.git_sync);
            let disk = places_check(raw.name, places_of(dir, raw), found);
            let named = names::wiki_name(raw.name);
            let fresh = named && !seen.contains(raw.name);
            let told_of = |fault: Fault| told == Err::<App, Fault>(fault);
            &&& !named ==> told_of(ConfigError::InvalidWikiName(raw.name))
            &&& named && !fresh ==> told_of(ConfigError::DuplicateWikiName(raw.name))
            &&& fresh && description is Err ==> told_of(description->Err_0)
            &&& fresh && description is Ok && command is Err ==> told_of(command->Err_0)
            &&& fresh && description is Ok && command is Ok && concurrency is Err ==> told_of(
                concurrency->Err_0,
            )
            &&& fresh && description is Ok && command is Ok && concurrency is Ok && sync is Err
                ==> told_of(sync->Err_0)
            &&& fresh && description is Ok && command is Ok && concurrency is Ok && sync is Ok
                && disk is Err ==> told_of(disk->Err_0)
        }),
{
}

/// What may be wrong with the description, the command and the concurrency of a wiki.
pub proof fn settings_are_checked(
    name: Seq<char>,
    blank: Seq<char>,
    text: Seq<char>,
    runner: RunnerType,
    command: Seq<Seq<char>>,
    n: usize,
)
    requires
        text::is_blank(blank),
        !text::is_blank(text),
        command.len() > 0,
        n > 0,
    ensures
        description_check(name, blank) == Err::<Seq<char>, _>(
            ConfigError::WikiDescriptionEmpty(name),
        ),
        description_check(name, text) == Ok::<_, Fault>(text::trim(text)),
        command_check(name, runner, Seq::empty()) == Err::<(), _>(
            ConfigError::AgentCommandEmpty(name),
        ),
        prompt_count(command) != 1 ==> command_check(name, RunnerType::Generic, command) == Err::<
            (),
            _,
        >(ConfigError::AgentCommandMissingPrompt(name)),
        prompt_count(command) != 1 ==> command_check(name, RunnerType::StreamJson, command) == Err::<
            (),
            _,
        >(ConfigError::AgentCommandMissingPrompt(name)),
        prompt_count(command) != 0 ==> command_check(name, RunnerType::Acp, command) == Err::<(), _>(
            ConfigError::AgentCommandUnexpectedPrompt(name),
        ),
        prompt_count(command) == 1 ==> command_check(name, RunnerType::Generic, command) is Ok
            && command_check(name, RunnerType::StreamJson, command) is Ok,
        prompt_count(command) == 0 ==> command_check(name, RunnerType::Acp, command) is Ok,
        concurrency_check(name, VcsWorkflow::Unversioned, None) == Ok::<usize, Fault>(1),
        concurrency_check(name, VcsWorkflow::Jj, None) == Ok::<usize, Fault>(1),
        concurrency_check(name, VcsWorkflow::Unversioned, Some(n)) == Err::<usize, _>(
            ConfigError::ResearchConcurrencyRequiresVcs(name),
        ),
        concurrency_check(name, VcsWorkflow::Jj, Some(0)) == Err::<usize, _>(
            ConfigError::ResearchConcurrencyZero(name),
        ),
        concurrency_check(name, VcsWorkflow::Jj, Some(n)) == Ok::<usize, Fault>(n),
{
}

/// What may be wrong with a remote: it takes a Jujutsu repository, a name and spans that are not
/// zero, and the first of these that is missing is told.
pub proof fn remotes_are_checked(name: Seq<char>, raw: RawGitSyncConfig<Seq<char>>)
    ensures
        git_sync_check(name, VcsWorkflow::Unversioned, None) == Ok::<_, Fault>(
            None::<GitSyncConfig<Seq<char>>>,
        ),
        git_sync_check(name, VcsWorkflow::Unversioned, Some(raw)) == Err::<
            Option<GitSyncConfig<Seq<char>>>,
            _,
        >(ConfigError::GitSyncRequiresJj(name)),
        ({
            let told = git_sync_check(name, VcsWorkflow::Jj, Some(raw));
            let told_of = |fault: Fault|
                told == Err::<Option<GitSyncConfig<Seq<char>>>, Fault>(fault);
            let named = !text::is_blank(raw.remote);
            let often = named && raw.interval_secs > 0;
            let long = often && raw.retry_max_elapsed_secs > 0;
            let late = long && raw.retry_initial_delay_secs > 0;
            &&& !named ==> told_of(ConfigError::GitSyncRemoteEmpty(name))
            &&& named && !often ==> told_of(ConfigError::GitSyncIntervalZero(name))
            &&& often && !long ==> told_of(ConfigError::GitSyncRetryMaxElapsedZero(name))
            &&& long && !late ==> told_of(ConfigError::GitSyncRetryInitialDelayZero(name))
            &&& late && raw.retry_max_delay_secs == 0 ==> told_of(
                ConfigError::GitSyncRetryMaxDelayZero(name),
            )
            &&& late && raw.retry_max_delay_secs > 0 ==> told is Ok
        }),
{
}

/// What may be missing on disk: the repository, the directory of its pages, the template, and in
/// that the place for the question.
pub proof fn places_are_checked(
    name: Seq<char>,
    places: WikiPlaces<Seq<char>>,
    found: WikiFound<Seq<char>>,
    read: FileRead<Seq<char>>,
    reason: Seq<char>,
    template: Seq<char>,
)
    ensures
        places_check(name, places, WikiFound { repo_is_dir: false, ..found }) == Err::<Seq<char>, _>(
            ConfigError::WikiRepoMissing { name, path: places.repo },
        ),
        places_check(
            name,
            places,
            WikiFound { repo_is_dir: true, wiki_is_dir: false, ..found },
        ) == Err::<Seq<char>, _>(ConfigError::WikiDirMissing { name, path: places.wiki_dir }),
        places_check(
            name,
            places,
            WikiFound { repo_is_dir: true, wiki_is_dir: true, prompt_template: read },
        ) == template_check(places.prompt_template, read),
        template_check(name, FileRead::Missing) == Err::<Seq<char>, _>(
            ConfigError::PromptTemplateMissing(name),
        ),
        template_check(name, FileRead::Failed(reason)) == Err::<Seq<char>, _>(
            ConfigError::Io(name, reason),
        ),
        text::contains(template, "{question}"@) ==> template_check(name, FileRead::Text(template))
            == Ok::<_, Fault>(template),
        !text::contains(template, "{question}"@) ==> template_check(name, FileRead::Text(template))
            == Err::<Seq<char>, _>(ConfigError::PromptTemplateMissingPlaceholder(name)),
{
}

} // verus!
