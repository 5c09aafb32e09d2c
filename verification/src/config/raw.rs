//! The configuration as it is written, with the defaults for what is left out.

use vstd::prelude::*;

use crate::config::VcsWorkflow;
use crate::runner::RunnerType;

verus! {

/// The configuration of the server.
#[derive(Debug, PartialEq, Eq)]
pub struct RawServerConfig {
    pub bind_address: String,
    pub wikis: Vec<RawWikiConfig>,
}

/// The configuration of a wiki.
#[derive(Debug, PartialEq, Eq)]
pub struct RawWikiConfig<S = String, L = Vec<String>> {
    pub name: S,
    pub description: S,
    pub runner: RunnerType,
    pub agent_command: L,
    pub prompt_template: S,
    pub vcs_workflow: VcsWorkflow,
    pub research_concurrency: Option<usize>,
    pub mcp: RawMcpConfig<S>,
    pub git_sync: Option<RawGitSyncConfig<S>>,
    pub completed_task_ttl_secs: u64,
    pub agent_timeout_secs: u64,
}

/// The texts that a wiki shows to clients of its MCP endpoint.
#[derive(Debug, PartialEq, Eq)]
pub struct RawMcpConfig<S = String> {
    pub instructions: Option<S>,
    pub research_tool_description: Option<S>,
}

/// How a wiki is kept in step with a Git remote.
#[derive(Debug, PartialEq, Eq)]
pub struct RawGitSyncConfig<S = String> {
    pub remote: S,
    pub interval_secs: u64,
    pub retry_max_elapsed_secs: u64,
    pub retry_initial_delay_secs: u64,
    pub retry_max_delay_secs: u64,
    pub ssh_command: Option<S>,
}

/// A wiki's configuration by its views.
pub type RawWiki = RawWikiConfig<Seq<char>, Seq<Seq<char>>>;

impl DeepView for RawMcpConfig<String> {
    type V = RawMcpConfig<Seq<char>>;

    open spec fn deep_view(&self) -> RawMcpConfig<Seq<char>> {
        RawMcpConfig {
            instructions: self.instructions.deep_view(),
            research_tool_description: self.research_tool_description.deep_view(),
        }
    }
}

impl DeepView for RawGitSyncConfig<String> {
    type V = RawGitSyncConfig<Seq<char>>;

    open spec fn deep_view(&self) -> RawGitSyncConfig<Seq<char>> {
        RawGitSyncConfig {
            remote: self.remote@,
            interval_secs: self.interval_secs,
            retry_max_elapsed_secs: self.retry_max_elapsed_secs,
            retry_initial_delay_secs: self.retry_initial_delay_secs,
            retry_max_delay_secs: self.retry_max_delay_secs,
            ssh_command: self.ssh_command.deep_view(),
        }
    }
}

impl DeepView for RawWikiConfig<String, Vec<String>> {
    type V = RawWikiConfig<Seq<char>, Seq<Seq<char>>>;

    open spec fn deep_view(&self) -> RawWikiConfig<Seq<char>, Seq<Seq<char>>> {
        RawWikiConfig {
            name: self.name@,
            description: self.description@,
            runner: self.runner,
            agent_command: self.agent_command.deep_view(),
            prompt_template: self.prompt_template@,
            vcs_workflow: self.vcs_workflow,
            research_concurrency: self.research_concurrency,
            mcp: self.mcp.deep_view(),
            git_sync: self.git_sync.deep_view(),
            completed_task_ttl_secs: self.completed_task_ttl_secs,
            agent_timeout_secs: self.agent_timeout_secs,
        }
    }
}

impl Default for RawMcpConfig<String> {
    fn default() -> (res: Self)
        ensures
            res.instructions is None,
            res.research_tool_description is None,
    {
        RawMcpConfig { instructions: None, research_tool_description: None }
    }
}

/// What is meant where the configuration leaves something out.
pub struct Defaults {
    /// Where the server listens.
    pub bind_address: Seq<char>,
    /// How long completed tasks are kept, in seconds.
    pub completed_task_ttl_secs: u64,
    /// How long an agent may take, in seconds.
    pub agent_timeout_secs: u64,
    /// The remote that a wiki is synchronised with.
    pub git_sync_remote: Seq<char>,
    /// How often a wiki is synchronised, in seconds.
    pub git_sync_interval_secs: u64,
    /// How long a failed synchronisation is retried, in seconds.
    pub git_sync_retry_max_elapsed_secs: u64,
    /// How long the first wait before a retry is, in seconds.
    pub git_sync_retry_initial_delay_secs: u64,
    /// How long a wait before a retry grows at most, in seconds.
    pub git_sync_retry_max_delay_secs: u64,
}

/// What is meant where the configuration leaves something out.
pub open spec fn defaults() -> Defaults {
    Defaults {
        bind_address: "127.0.0.1:1238"@,
        completed_task_ttl_secs: 900,
        agent_timeout_secs: 1800,
        git_sync_remote: "origin"@,
        git_sync_interval_secs: 3600,
        git_sync_retry_max_elapsed_secs: 900,
        git_sync_retry_initial_delay_secs: 5,
        git_sync_retry_max_delay_secs: 60,
    }
}

/// Where the server listens unless configured otherwise.
pub fn default_bind_address() -> (res: String)
    ensures
        res@ == "127.0.0.1:1238"@,
        res@ == defaults().bind_address,
{
    "127.0.0.1:1238".to_string()
}

/// How long completed tasks are kept unless configured otherwise, in seconds.
pub fn default_completed_task_ttl_secs() -> (res: u64)
    ensures
        res == 900,
        res == defaults().completed_task_ttl_secs,
{
    900
}

/// How long an agent may take unless configured otherwise, in seconds.
pub fn default_agent_timeout_secs() -> (res: u64)
    ensures
        res == 1800,
        res == defaults().agent_timeout_secs,
{
    1800
}

/// The remote that a wiki is synchronised with unless configured otherwise.
pub fn default_git_sync_remote() -> (res: String)
    ensures
        res@ == "origin"@,
        res@ == defaults().git_sync_remote,
{
    "origin".to_string()
}

/// How often a wiki is synchronised unless configured otherwise, in seconds.
pub fn default_git_sync_interval_secs() -> (res: u64)
    ensures
        res == 3600,
        res == defaults().git_sync_interval_secs,
{
    3600
}

/// How long a failed synchronisation is retried unless configured otherwise, in seconds.
pub fn default_git_sync_retry_max_elapsed_secs() -> (res: u64)
    ensures
        res == 900,
        res == defaults().git_sync_retry_max_elapsed_secs,
{
    900
}

/// How long the first wait before a retry is unless configured otherwise, in seconds.
pub fn default_git_sync_retry_initial_delay_secs() -> (res: u64)
    ensures
        res == 5,
        res == defaults().git_sync_retry_initial_delay_secs,
{
    5
}

/// How long a wait before a retry grows at most unless configured otherwise, in seconds.
pub fn default_git_sync_retry_max_delay_secs() -> (res: u64)
    ensures
        res == 60,
        res == defaults().git_sync_retry_max_delay_secs,
{
    60
}

/// The server listens on the machine itself; completed tasks are kept for a quarter of an hour and an
/// agent may take half an hour; a wiki is synchronised every hour with the remote `origin`, and a
/// failed synchronisation is retried for a quarter of an hour, first after five seconds and at most
/// a minute apart.
pub proof fn left_out_settings_have_defaults()
    ensures
        defaults().bind_address == "127.0.0.1:1238"@,
        defaults().completed_task_ttl_secs == 15 * 60,
        defaults().agent_timeout_secs == 30 * 60,
        defaults().git_sync_remote == "origin"@,
        defaults().git_sync_interval_secs == 60 * 60,
        defaults().git_sync_retry_max_elapsed_secs == 15 * 60,
        defaults().git_sync_retry_initial_delay_secs == 5,
        defaults().git_sync_retry_max_delay_secs == 60,
{
}

} // verus!
