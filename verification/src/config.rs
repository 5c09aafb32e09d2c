//! Configuration of the server and of its wikis.

use vstd::prelude::*;

use crate::config::normalize::WikiFound;
use crate::config::raw::{RawServerConfig, RawWiki, RawWikiConfig};
use crate::duration::Duration;
use crate::names;
use crate::names::WikiInfo;
use crate::runner::RunnerType;
use crate::text;
use crate::views;

pub mod normalize;
pub mod raw;

verus! {

/// The part of a prompt template that stands for the question.
pub const QUESTION_PLACEHOLDER: &'static str = "{question}";

/// The element of an agent command that stands for the prompt.
pub const PROMPT_PLACEHOLDER: &'static str = "$PROMPT";

/// How a wiki repository is versioned.
#[derive(Debug, Clone, Copy, PartialEq, Eq, Structural)]
pub enum VcsWorkflow {
    /// The agent edits the repository in place.
    Unversioned,
    /// Research runs in Jujutsu workspaces of its own.
    Jj,
}

impl Default for VcsWorkflow {
    /// A repository is left as it is unless configured otherwise.
    fn default() -> (res: Self)
        ensures
            res == VcsWorkflow::Unversioned,
    {
        VcsWorkflow::Unversioned
    }
}

/// How a wiki is kept in step with a Git remote.
#[derive(Debug, PartialEq, Eq)]
pub struct GitSyncConfig<S = String> {
    pub remote: S,
    pub interval: Duration,
    pub retry_max_elapsed: Duration,
    pub retry_initial_delay: Duration,
    pub retry_max_delay: Duration,
    pub ssh_command: Option<S>,
}

impl DeepView for GitSyncConfig<String> {
    type V = GitSyncConfig<Seq<char>>;

    open spec fn deep_view(&self) -> GitSyncConfig<Seq<char>> {
        GitSyncConfig {
            remote: self.remote@,
            interval: self.interval,
            retry_max_elapsed: self.retry_max_elapsed,
            retry_initial_delay: self.retry_initial_delay,
            retry_max_delay: self.retry_max_delay,
            ssh_command: self.ssh_command.deep_view(),
        }
    }
}

impl Clone for GitSyncConfig<String> {
    fn clone(&self) -> (res: Self)
        ensures
            res.deep_view() == self.deep_view(),
    {
        GitSyncConfig {
            remote: self.remote.clone(),
            interval: self.interval,
            retry_max_elapsed: self.retry_max_elapsed,
            retry_initial_delay: self.retry_initial_delay,
            retry_max_delay: self.retry_max_delay,
            ssh_command: self.ssh_command.clone(),
        }
    }
}

/// The configuration of a wiki.
#[derive(Debug, PartialEq, Eq)]
pub struct AppConfig<S = String, L = Vec<String>> {
    pub name: S,
    pub wiki_repo: S,
    pub description: S,
    pub runner: RunnerType,
    pub agent_command: L,
    pub prompt_template_content: S,
    pub vcs_workflow: VcsWorkflow,
    pub research_concurrency: usize,
    pub git_sync: Option<GitSyncConfig<S>>,
    pub mcp_instructions: S,
    pub research_tool_description: S,
    pub completed_task_ttl: Duration,
    pub agent_timeout: Duration,
}

/// A wiki's configuration by its views.
pub type App = AppConfig<Seq<char>, Seq<Seq<char>>>;

impl DeepView for AppConfig<String, Vec<String>> {
    type V = AppConfig<Seq<char>, Seq<Seq<char>>>;

    open spec fn deep_view(&self) -> AppConfig<Seq<char>, Seq<Seq<char>>> {
        AppConfig {
            name: self.name@,
            wiki_repo: self.wiki_repo@,
            description: self.description@,
            runner: self.runner,
            agent_command: self.agent_command.deep_view(),
            prompt_template_content: self.prompt_template_content@,
            vcs_workflow: self.vcs_workflow,
            research_concurrency: self.research_concurrency,
            git_sync: self.git_sync.deep_view(),
            mcp_instructions: self.mcp_instructions@,
            research_tool_description: self.research_tool_description@,
            completed_task_ttl: self.completed_task_ttl,
            agent_timeout: self.agent_timeout,
        }
    }
}

impl AppConfig {
    /// The path of the wiki's endpoint.
    pub fn base_path(&self) -> (res: String)
        ensures
            res@ == names::base_path_of(self.name@),
    {
        names::wiki_base_path(self.name.as_str())
    }

    /// The path of the wiki's repository, beside the configuration file.
    pub fn derived_wiki_path(&self) -> (res: String)
        ensures
            res@ == names::wiki_path_of(self.name@),
    {
        names::derived_wiki_path(self.name.as_str())
    }

    /// What clients are told about the wiki.
    pub fn info(&self) -> (res: WikiInfo)
        ensures
            res.name@ == self.name@,
            res.description@ == self.description@,
    {
        WikiInfo { name: self.name.clone(), description: self.description.clone() }
    }

    /// The instructions for clients of the wiki's MCP endpoint.
    pub fn mcp_instructions(&self) -> (res: &str)
        ensures
            res@ == self.mcp_instructions@,
    {
        self.mcp_instructions.as_str()
    }

    /// The description of the wiki's research tool.
    pub fn research_tool_description(&self) -> (res: &str)
        ensures
            res@ == self.research_tool_description@,
    {
        self.research_tool_description.as_str()
    }
}

/// Why a configuration is refused.
#[derive(Debug, PartialEq, Eq)]
#[non_exhaustive]
pub enum ConfigError<S = String> {
    Load(S),
    Io(S, S),
    NoWikis,
    InvalidWikiName(S),
    DuplicateWikiName(S),
    WikiDescriptionEmpty(S),
    WikiRepoMissing { name: S, path: S },
    WikiDirMissing { name: S, path: S },
    PromptTemplateMissing(S),
    PromptTemplateMissingPlaceholder(S),
    InvalidBindAddress(S, S),
    AgentCommandEmpty(S),
    AgentCommandMissingPrompt(S),
    AgentCommandUnexpectedPrompt(S),
    GitSyncRequiresJj(S),
    ResearchConcurrencyZero(S),
    ResearchConcurrencyRequiresVcs(S),
    GitSyncRemoteEmpty(S),
    GitSyncIntervalZero(S),
    GitSyncRetryMaxElapsedZero(S),
    GitSyncRetryInitialDelayZero(S),
    GitSyncRetryMaxDelayZero(S),
}

/// A refusal by its views.
pub type Fault = ConfigError<Seq<char>>;

impl DeepView for ConfigError<String> {
    type V = ConfigError<Seq<char>>;

    open spec fn deep_view(&self) -> ConfigError<Seq<char>> {
        match self {
            ConfigError::Load(reason) => ConfigError::Load(reason@),
            ConfigError::Io(path, reason) => ConfigError::Io(path@, reason@),
            ConfigError::NoWikis => ConfigError::NoWikis,
            ConfigError::InvalidWikiName(name) => ConfigError::InvalidWikiName(name@),
            ConfigError::DuplicateWikiName(name) => ConfigError::DuplicateWikiName(name@),
            ConfigError::WikiDescriptionEmpty(name) => ConfigError::WikiDescriptionEmpty(name@),
            ConfigError::WikiRepoMissing { name, path } => ConfigError::WikiRepoMissing {
                name: name@,
                path: path@,
            },
            ConfigError::WikiDirMissing { name, path } => ConfigError::WikiDirMissing {
                name: name@,
                path: path@,
            },
            ConfigError::PromptTemplateMissing(path) => ConfigError::PromptTemplateMissing(path@),
            ConfigError::PromptTemplateMissingPlaceholder(
                path,
            ) => ConfigError::PromptTemplateMissingPlaceholder(path@),
            ConfigError::InvalidBindAddress(address, reason) => ConfigError::InvalidBindAddress(
                address@,
                reason@,
            ),
            ConfigError::AgentCommandEmpty(name) => ConfigError::AgentCommandEmpty(name@),
            ConfigError::AgentCommandMissingPrompt(name) => ConfigError::AgentCommandMissingPrompt(
                name@,
            ),
            ConfigError::AgentCommandUnexpectedPrompt(
                name,
            ) => ConfigError::AgentCommandUnexpectedPrompt(name@),
            ConfigError::GitSyncRequiresJj(name) => ConfigError::GitSyncRequiresJj(name@),
            ConfigError::ResearchConcurrencyZero(name) => ConfigError::ResearchConcurrencyZero(
                name@,
            ),
            ConfigError::ResearchConcurrencyRequiresVcs(
                name,
            ) => ConfigError::ResearchConcurrencyRequiresVcs(name@),
            ConfigError::GitSyncRemoteEmpty(name) => ConfigError::GitSyncRemoteEmpty(name@),
            ConfigError::GitSyncIntervalZero(name) => ConfigError::GitSyncIntervalZero(name@),
            ConfigError::GitSyncRetryMaxElapsedZero(
                name,
            ) => ConfigError::GitSyncRetryMaxElapsedZero(name@),
            ConfigError::GitSyncRetryInitialDelayZero(
                name,
            ) => ConfigError::GitSyncRetryInitialDelayZero(name@),
            ConfigError::GitSyncRetryMaxDelayZero(name) => ConfigError::GitSyncRetryMaxDelayZero(
                name@,
            ),
        }
    }
}

/// A text about a wiki or a path: what stands before its name, the name, and what stands behind.
pub open spec fn about(before: Seq<char>, name: Seq<char>, behind: Seq<char>) -> Seq<char> {
    before + name + behind
}

fn about_text(before: &str, name: &str, behind: &str) -> (res: String)
    ensures
        res@ == about(before@, name@, behind@),
{
    before.to_string().concat(name).concat(behind)
}

impl ConfigError<Seq<char>> {
    /// What the refusal says.
    pub open spec fn says(self) -> Seq<char> {
        match self {
            ConfigError::Load(reason) => reason,
            ConfigError::Io(path, _) => about("failed to read '"@, path, "'"@),
            ConfigError::NoWikis => "at least one [[wikis]] entry is required"@,
            ConfigError::InvalidWikiName(name) => about(
                "invalid wiki name '"@,
                name,
                "' (use lowercase letters, digits, and hyphens; start and end with a letter or digit)"@,
            ),
            ConfigError::DuplicateWikiName(name) => about("duplicate wiki name '"@, name, "'"@),
            ConfigError::WikiDescriptionEmpty(name) => about(
                "description for wiki '"@,
                name,
                "' must not be empty"@,
            ),
            ConfigError::WikiRepoMissing { name, path } => about(
                about("wiki repo for '"@, name, "' does not exist at '"@),
                path,
                "'"@,
            ),
            ConfigError::WikiDirMissing { name, path } => about(
                about("wiki repo for '"@, name, "' has no wiki/ subdirectory at '"@),
                path,
                "'"@,
            ),
            ConfigError::PromptTemplateMissing(path) => about(
                "prompt_template '"@,
                path,
                "' does not exist"@,
            ),
            ConfigError::PromptTemplateMissingPlaceholder(path) => about(
                "prompt_template '"@,
                path,
                "' does not contain {question} placeholder"@,
            ),
            ConfigError::InvalidBindAddress(address, _) => about(
                "failed to resolve bind_address '"@,
                address,
                "'"@,
            ),
            ConfigError::AgentCommandEmpty(name) => about(
                "agent_command for wiki '"@,
                name,
                "' must not be empty"@,
            ),
            ConfigError::AgentCommandMissingPrompt(name) => about(
                "agent_command for wiki '"@,
                name,
                "' must contain exactly one $PROMPT element"@,
            ),
            ConfigError::AgentCommandUnexpectedPrompt(name) => about(
                "agent_command for acp runner in wiki '"@,
                name,
                "' must not contain $PROMPT (ACP sends prompt via RPC)"@,
            ),
            ConfigError::GitSyncRequiresJj(name) => about(
                "git_sync for wiki '"@,
                name,
                "' requires vcs_workflow = \"jj\""@,
            ),
            ConfigError::ResearchConcurrencyZero(name) => about(
                "research_concurrency for wiki '"@,
                name,
                "' must be greater than zero"@,
            ),
            ConfigError::ResearchConcurrencyRequiresVcs(name) => about(
                "research_concurrency for wiki '"@,
                name,
                "' requires vcs_workflow != \"none\""@,
            ),
            ConfigError::GitSyncRemoteEmpty(name) => about(
                "git_sync remote for wiki '"@,
                name,
                "' must not be empty"@,
            ),
            ConfigError::GitSyncIntervalZero(name) => about(
                "git_sync interval_secs for wiki '"@,
                name,
                "' must be greater than zero"@,
            ),
            ConfigError::GitSyncRetryMaxElapsedZero(name) => about(
                "git_sync retry_max_elapsed_secs for wiki '"@,
                name,
                "' must be greater than zero"@,
            ),
            ConfigError::GitSyncRetryInitialDelayZero(name) => about(
                "git_sync retry_initial_delay_secs for wiki '"@,
                name,
                "' must be greater than zero"@,
            ),
            ConfigError::GitSyncRetryMaxDelayZero(name) => about(
                "git_sync retry_max_delay_secs for wiki '"@,
                name,
                "' must be greater than zero"@,
            ),
        }
    }
}

impl ConfigError {
    /// The message of the refusal.
    pub fn message(&self) -> (res: String)
        ensures
            res@ == self.deep_view().says(),
    {
        match self {
            ConfigError::Load(reason) => reason.clone(),
            ConfigError::Io(path, _) => about_text("failed to read '", path.as_str(), "'"),
            ConfigError::NoWikis => "at least one [[wikis]] entry is required".to_string(),
            ConfigError::InvalidWikiName(name) => about_text(
                "invalid wiki name '",
                name.as_str(),
                "' (use lowercase letters, digits, and hyphens; start and end with a letter or digit)",
            ),
            ConfigError::DuplicateWikiName(name) => about_text(
                "duplicate wiki name '",
                name.as_str(),
                "'",
            ),
            ConfigError::WikiDescriptionEmpty(name) => about_text(
                "description for wiki '",
                name.as_str(),
                "' must not be empty",
            ),
            ConfigError::WikiRepoMissing { name, path } => about_text(
                about_text("wiki repo for '", name.as_str(), "' does not exist at '").as_str(),
                path.as_str(),
                "'",
            ),
            ConfigError::WikiDirMissing { name, path } => about_text(
                about_text(
                    "wiki repo for '",
                    name.as_str(),
                    "' has no wiki/ subdirectory at '",
                ).as_str(),
                path.as_str(),
                "'",
            ),
            ConfigError::PromptTemplateMissing(path) => about_text(
                "prompt_template '",
                path.as_str(),
                "' does not exist",
            ),
            ConfigError::PromptTemplateMissingPlaceholder(path) => about_text(
                "prompt_template '",
                path.as_str(),
                "' does not contain {question} placeholder",
            ),
            ConfigError::InvalidBindAddress(address, _) => about_text(
                "failed to resolve bind_address '",
                address.as_str(),
                "'",
            ),
            ConfigError::AgentCommandEmpty(name) => about_text(
                "agent_command for wiki '",
                name.as_str(),
                "' must not be empty",
            ),
            ConfigError::AgentCommandMissingPrompt(name) => about_text(
                "agent_command for wiki '",
                name.as_str(),
                "' must contain exactly one $PROMPT element",
            ),
            ConfigError::AgentCommandUnexpectedPrompt(name) => about_text(
                "agent_command for acp runner in wiki '",
                name.as_str(),
                "' must not contain $PROMPT (ACP sends prompt via RPC)",
            ),
            ConfigError::GitSyncRequiresJj(name) => about_text(
                "git_sync for wiki '",
                name.as_str(),
                "' requires vcs_workflow = \"jj\"",
            ),
            ConfigError::ResearchConcurrencyZero(name) => about_text(
                "research_concurrency for wiki '",
                name.as_str(),
                "' must be greater than zero",
            ),
            ConfigError::ResearchConcurrencyRequiresVcs(name) => about_text(
                "research_concurrency for wiki '",
                name.as_str(),
                "' requires vcs_workflow != \"none\"",
            ),
            ConfigError::GitSyncRemoteEmpty(name) => about_text(
                "git_sync remote for wiki '",
                name.as_str(),
                "' must not be empty",
            ),
            ConfigError::GitSyncIntervalZero(name) => about_text(
                "git_sync interval_secs for wiki '",
                name.as_str(),
                "' must be greater than zero",
            ),
            ConfigError::GitSyncRetryMaxElapsedZero(name) => about_text(
                "git_sync retry_max_elapsed_secs for wiki '",
                name.as_str(),
                "' must be greater than zero",
            ),
            ConfigError::GitSyncRetryInitialDelayZero(name) => about_text(
                "git_sync retry_initial_delay_secs for wiki '",
                name.as_str(),
                "' must be greater than zero",
            ),
            ConfigError::GitSyncRetryMaxDelayZero(name) => about_text(
                "git_sync retry_max_delay_secs for wiki '",
                name.as_str(),
                "' must be greater than zero",
            ),
        }
    }
}

/// The names of wikis.
pub open spec fn names_of(wikis: Seq<App>) -> Seq<Seq<char>> {
    wikis.map_values(|wiki: App| wiki.name)
}

/// The configurations of all wikis, or what is wrong with the first that is refused.
pub open spec fn all_normalized(
    config_dir: Seq<char>,
    raws: Seq<RawWiki>,
    found: Seq<WikiFound<Seq<char>>>,
) -> Result<Seq<App>, Fault>
    decreases raws.len(),
{
    if raws.len() == 0 {
        Ok(Seq::empty())
    } else {
        match all_normalized(config_dir, raws.drop_last(), found.drop_last()) {
            Err(e) => Err(e),
            Ok(wikis) => match normalize::normalized(
                config_dir,
                raws.last(),
                found.last(),
                names_of(wikis),
            ) {
                Err(e) => Err(e),
                Ok(wiki) => Ok(wikis.push(wiki)),
            },
        }
    }
}

/// The address that the server listens on: the first of those that its name stands for.
pub open spec fn bind_check(address: Seq<char>, found: Result<Seq<Seq<char>>, Seq<char>>) -> Result<
    Seq<char>,
    Fault,
> {
    match found {
        Err(reason) => Err(ConfigError::InvalidBindAddress(address, reason)),
        Ok(addresses) => if addresses.len() == 0 {
            Err(ConfigError::InvalidBindAddress(address, "no addresses found"@))
        } else {
            Ok(addresses[0])
        },
    }
}

/// The address that the server listens on.
pub fn choose_bind_address(address: &str, found: Result<Vec<String>, String>) -> (res: Result<
    String,
    ConfigError,
>)
    ensures
        views::outcome(res) == bind_check(address@, views::outcome(found)),
{
    match found {
        Err(reason) => Err(ConfigError::InvalidBindAddress(address.to_string(), reason)),
        Ok(addresses) => {
            assert(addresses.deep_view().len() == addresses@.len());
            if addresses.len() == 0 {
                Err(
                    ConfigError::InvalidBindAddress(
                        address.to_string(),
                        "no addresses found".to_string(),
                    ),
                )
            } else {
                assert(addresses.deep_view()[0] == addresses@[0]@);
                Ok(addresses[0].clone())
            }
        },
    }
}

/// The address and the wikis of a server, or why its configuration is refused.
pub open spec fn loaded(
    config_dir: Seq<char>,
    address: Seq<char>,
    addresses: Result<Seq<Seq<char>>, Seq<char>>,
    raws: Seq<RawWiki>,
    found: Seq<WikiFound<Seq<char>>>,
) -> Result<(Seq<char>, Seq<App>), Fault> {
    if raws.len() == 0 {
        Err(ConfigError::NoWikis)
    } else {
        match bind_check(address, addresses) {
            Err(e) => Err(e),
            Ok(bound) => match all_normalized(config_dir, raws, found) {
                Err(e) => Err(e),
                Ok(wikis) => Ok((bound, wikis)),
            },
        }
    }
}

/// The configuration of the server.
#[derive(Debug, PartialEq, Eq)]
pub struct ServerConfig {
    pub bind_addr: String,
    pub wikis: Vec<AppConfig>,
}

impl ServerConfig {
    /// The configuration of the server, from what is written and what was found: the addresses
    /// that the bind address stands for, and what is on disk for each wiki.
    pub fn load(
        config_dir: &str,
        raw: &RawServerConfig,
        addresses: Result<Vec<String>, String>,
        found: &Vec<WikiFound>,
    ) -> (res: Result<ServerConfig, ConfigError>)
        requires
            found@.len() == raw.wikis@.len(),
        ensures
            match res {
                Ok(config) => {
                    &&& raw.wikis@.len() > 0
                    &&& bind_check(raw.bind_address@, views::outcome(addresses)) == Ok::<_, Fault>(
                        config.bind_addr@,
                    )
                    &&& all_normalized(
                        config_dir@,
                        raw.wikis.deep_view(),
                        found.deep_view(),
                    ) == Ok::<_, Fault>(config.wikis.deep_view())
                },
                Err(e) => if raw.wikis@.len() == 0 {
                    e is NoWikis
                } else {
                    match bind_check(raw.bind_address@, views::outcome(addresses)) {
                        Err(refused) => e.deep_view() == refused,
                        Ok(_) => all_normalized(
                            config_dir@,
                            raw.wikis.deep_view(),
                            found.deep_view(),
                        ) == Err::<Seq<App>, _>(e.deep_view()),
                    }
                },
            },
            loaded(
                config_dir@,
                raw.bind_address@,
                views::outcome(addresses),
                raw.wikis.deep_view(),
                found.deep_view(),
            ) == (match res {
                Ok(config) => Ok::<_, Fault>((config.bind_addr@, config.wikis.deep_view())),
                Err(e) => Err(e.deep_view()),
            }),
    {
        if raw.wikis.len() == 0 {
            return Err(ConfigError::NoWikis);
        }
        let bind_addr = match choose_bind_address(raw.bind_address.as_str(), addresses) {
            Ok(address) => address,
            Err(e) => return Err(e),
        };
        match normalize_all(config_dir, &raw.wikis, found) {
            Ok(wikis) => Ok(ServerConfig { bind_addr, wikis }),
            Err(e) => Err(e),
        }
    }
}

fn normalize_all(config_dir: &str, raws: &Vec<RawWikiConfig>, found: &Vec<WikiFound>) -> (res:
    Result<Vec<AppConfig>, ConfigError>)
    requires
        found@.len() == raws@.len(),
    ensures
        views::outcome(res) == all_normalized(
            config_dir@,
            raws.deep_view(),
            found.deep_view(),
        ),
{
    let ghost all = raws.deep_view();
    let ghost facts = found.deep_view();
    let n: usize = raws.len();
    let mut wikis: Vec<AppConfig> = Vec::new();
    let mut seen: Vec<String> = Vec::new();
    let mut i: usize = 0;
    proof {
        assert(all.take(0) =~= Seq::empty());
        assert(wikis.deep_view() =~= Seq::empty());
        assert(seen.deep_view() =~= names_of(wikis.deep_view()));
    }
    while i < n
        invariant
            n == raws@.len(),
            n == found@.len(),
            i <= n,
            all == raws.deep_view(),
            facts == found.deep_view(),
            all_normalized(config_dir@, all.take(i as int), facts.take(i as int)) == Ok::<
                _,
                Fault,
            >(wikis.deep_view()),
            seen.deep_view() == names_of(wikis.deep_view()),
        decreases n - i,
    {
        proof {
            assert(all.take(i + 1).drop_last() =~= all.take(i as int));
            assert(facts.take(i + 1).drop_last() =~= facts.take(i as int));
            assert(all.take(i + 1).last() == raws@[i as int].deep_view());
            assert(facts.take(i + 1).last() == found@[i as int].deep_view());
        }
        let ghost before = wikis.deep_view();
        let ghost named = seen.deep_view();
        match normalize::normalize_wiki_config(config_dir, &raws[i], &found[i], &mut seen) {
            Ok(wiki) => {
                let ghost shown = wiki.deep_view();
                wikis.push(wiki);
                proof {
                    assert(wikis.deep_view() =~= before.push(shown));
                    assert(seen.deep_view() == named.push(shown.name));
                    assert(seen.deep_view() =~= names_of(wikis.deep_view()));
                }
            },
            Err(e) => {
                proof {
                    lemma_refused_stays(config_dir@, all, facts, i + 1);
                }
                return Err(e);
            },
        }
        i = i + 1;
    }
    assert(all.take(n as int) =~= all);
    assert(facts.take(n as int) =~= facts);
    Ok(wikis)
}

proof fn lemma_refused_stays(
    config_dir: Seq<char>,
    raws: Seq<RawWiki>,
    found: Seq<WikiFound<Seq<char>>>,
    k: int,
)
    requires
        0 <= k <= raws.len(),
        raws.len() == found.len(),
        all_normalized(config_dir, raws.take(k), found.take(k)) is Err,
    ensures
        all_normalized(config_dir, raws, found) == all_normalized(
            config_dir,
            raws.take(k),
            found.take(k),
        ),
    decreases raws.len() - k,
{
    if k < raws.len() {
        assert(raws.take(k + 1).drop_last() =~= raws.take(k));
        assert(found.take(k + 1).drop_last() =~= found.take(k));
        lemma_refused_stays(config_dir, raws, found, k + 1);
    } else {
        assert(raws.take(k) =~= raws);
        assert(found.take(k) =~= found);
    }
}

/// Wikis that are accepted together keep their order and bear different names.
pub proof fn accepted_wikis_are_distinct(
    config_dir: Seq<char>,
    raws: Seq<RawWiki>,
    found: Seq<WikiFound<Seq<char>>>,
    wikis: Seq<App>,
)
    requires
        raws.len() == found.len(),
        all_normalized(config_dir, raws, found) == Ok::<Seq<App>, Fault>(wikis),
    ensures
        wikis.len() == raws.len(),
        forall|i: int| 0 <= i < raws.len() ==> #[trigger] wikis[i].name == raws[i].name,
        names_of(wikis).no_duplicates(),
    decreases raws.len(),
{
    if raws.len() > 0 {
        let before = all_normalized(config_dir, raws.drop_last(), found.drop_last())->Ok_0;
        accepted_wikis_are_distinct(
            config_dir,
            raws.drop_last(),
            found.drop_last(),
            before,
        );
        assert(names_of(wikis).drop_last() =~= names_of(before));
        assert(names_of(wikis).last() == raws.last().name);
        assert forall|i: int, j: int|
            0 <= i < j < names_of(wikis).len() implies names_of(wikis)[i] != names_of(wikis)[j] by {
            if j == names_of(wikis).len() - 1 {
                assert(names_of(before)[i] == names_of(wikis)[i]);
            } else {
                assert(names_of(before)[i] == names_of(wikis)[i]);
                assert(names_of(before)[j] == names_of(wikis)[j]);
            }
        }
    }
}

/// The places for the question in a template and for the prompt in a command.
pub proof fn placeholders_are_written_so()
    ensures
        QUESTION_PLACEHOLDER@ == "{question}"@,
        PROMPT_PLACEHOLDER@ == "$PROMPT"@,
{
}

/// The server listens on the first address that its name stands for, and not where there is none.
pub proof fn first_address_is_bound(
    address: Seq<char>,
    first: Seq<char>,
    others: Seq<Seq<char>>,
    reason: Seq<char>,
)
    ensures
        bind_check(address, Ok(seq![first] + others)) == Ok::<_, Fault>(first),
        bind_check(address, Ok(Seq::empty())) == Err::<Seq<char>, _>(
            ConfigError::InvalidBindAddress(address, "no addresses found"@),
        ),
        bind_check(address, Err(reason)) == Err::<Seq<char>, _>(
            ConfigError::InvalidBindAddress(address, reason),
        ),
{
}

/// A server has wikis. Its address is looked at first, then its wikis in their order; where one is
/// refused, so is the whole configuration.
pub proof fn servers_take_all_their_wikis(
    config_dir: Seq<char>,
    address: Seq<char>,
    found_at: Result<Seq<Seq<char>>, Seq<char>>,
    raws: Seq<RawWiki>,
    found: Seq<WikiFound<Seq<char>>>,
    raw: RawWiki,
    at: WikiFound<Seq<char>>,
)
    requires
        raws.len() == found.len(),
    ensures
        loaded(config_dir, address, found_at, Seq::empty(), Seq::empty()) == Err::<
            (Seq<char>, Seq<App>),
            Fault,
        >(ConfigError::NoWikis),
        raws.len() > 0 && bind_check(address, found_at) is Err ==> loaded(
            config_dir,
            address,
            found_at,
            raws,
            found,
        ) == Err::<(Seq<char>, Seq<App>), Fault>(bind_check(address, found_at)->Err_0),
        raws.len() > 0 && bind_check(address, found_at) is Ok ==> loaded(
            config_dir,
            address,
            found_at,
            raws,
            found,
        ) == (match all_normalized(config_dir, raws, found) {
            Ok(wikis) => Ok::<_, Fault>((bind_check(address, found_at)->Ok_0, wikis)),
            Err(e) => Err(e),
        }),
        all_normalized(config_dir, Seq::empty(), Seq::empty()) == Ok::<_, Fault>(
            Seq::<App>::empty(),
        ),
        all_normalized(config_dir, raws.push(raw), found.push(at)) == (match all_normalized(
            config_dir,
            raws,
            found,
        ) {
            Err(e) => Err::<Seq<App>, _>(e),
            Ok(wikis) => match normalize::normalized(
                config_dir,
                raw,
                at,
                wikis.map_values(|wiki: App| wiki.name),
            ) {
                Err(e) => Err(e),
                Ok(wiki) => Ok(wikis.push(wiki)),
            },
        }),
{
    assert(raws.push(raw).drop_last() =~= raws);
    assert(found.push(at).drop_last() =~= found);
}

/// What is said of a configuration that is refused.
pub proof fn refused_configurations_are_told(name: Seq<char>, path: Seq<char>, reason: Seq<char>)
    ensures
        ConfigError::Load(reason).says() == reason,
        ConfigError::Io(path, reason).says() == "failed to read '"@ + path + "'"@,
        ConfigError::<Seq<char>>::NoWikis.says() == "at least one [[wikis]] entry is required"@,
        ConfigError::InvalidWikiName(name).says() == "invalid wiki name '"@ + name
            + "' (use lowercase letters, digits, and hyphens; start and end with a letter or digit)"@,
        ConfigError::DuplicateWikiName(name).says() == "duplicate wiki name '"@ + name + "'"@,
        ConfigError::WikiDescriptionEmpty(name).says() == "description for wiki '"@ + name
            + "' must not be empty"@,
        (ConfigError::WikiRepoMissing { name, path }).says() == "wiki repo for '"@ + name
            + "' does not exist at '"@ + path + "'"@,
        (ConfigError::WikiDirMissing { name, path }).says() == "wiki repo for '"@ + name
            + "' has no wiki/ subdirectory at '"@ + path + "'"@,
        ConfigError::PromptTemplateMissing(path).says() == "prompt_template '"@ + path
            + "' does not exist"@,
        ConfigError::PromptTemplateMissingPlaceholder(path).says() == "prompt_template '"@ + path
            + "' does not contain {question} placeholder"@,
        ConfigError::InvalidBindAddress(path, reason).says()
            == "failed to resolve bind_address '"@ + path + "'"@,
        ConfigError::AgentCommandEmpty(name).says() == "agent_command for wiki '"@ + name
            + "' must not be empty"@,
        ConfigError::AgentCommandMissingPrompt(name).says() == "agent_command for wiki '"@ + name
            + "' must contain exactly one $PROMPT element"@,
        ConfigError::AgentCommandUnexpectedPrompt(name).says()
            == "agent_command for acp runner in wiki '"@ + name
            + "' must not contain $PROMPT (ACP sends prompt via RPC)"@,
        ConfigError::GitSyncRequiresJj(name).says() == "git_sync for wiki '"@ + name
            + "' requires vcs_workflow = \"jj\""@,
        ConfigError::ResearchConcurrencyZero(name).says() == "research_concurrency for wiki '"@
            + name + "' must be greater than zero"@,
        ConfigError::ResearchConcurrencyRequiresVcs(name).says()
            == "research_concurrency for wiki '"@ + name
            + "' requires vcs_workflow != \"none\""@,
        ConfigError::GitSyncRemoteEmpty(name).says() == "git_sync remote for wiki '"@ + name
            + "' must not be empty"@,
        ConfigError::GitSyncIntervalZero(name).says() == "git_sync interval_secs for wiki '"@
            + name + "' must be greater than zero"@,
        ConfigError::GitSyncRetryMaxElapsedZero(name).says()
            == "git_sync retry_max_elapsed_secs for wiki '"@ + name
            + "' must be greater than zero"@,
        ConfigError::GitSyncRetryInitialDelayZero(name).says()
            == "git_sync retry_initial_delay_secs for wiki '"@ + name
            + "' must be greater than zero"@,
        ConfigError::GitSyncRetryMaxDelayZero(name).says()
            == "git_sync retry_max_delay_secs for wiki '"@ + name
            + "' must be greater than zero"@,
{
}

} // verus!
