//! The server's configuration.

use wikidesk::config::normalize::{normalize_wiki_config, wiki_places, FileRead, WikiFound};
use wikidesk::config::raw::{
    default_agent_timeout_secs, default_bind_address, default_completed_task_ttl_secs,
    default_git_sync_interval_secs, default_git_sync_remote,
    default_git_sync_retry_initial_delay_secs, default_git_sync_retry_max_delay_secs,
    default_git_sync_retry_max_elapsed_secs, RawGitSyncConfig, RawMcpConfig, RawServerConfig,
    RawWikiConfig,
};
use wikidesk::config::{
    choose_bind_address, AppConfig, ConfigError, GitSyncConfig, ServerConfig, VcsWorkflow,
};
use wikidesk::duration::Duration;
use wikidesk::runner::RunnerType;

const CONFIG_DIR: &str = "/srv/wikidesk";

fn raw_wiki(name: &str) -> RawWikiConfig {
    RawWikiConfig {
        name: name.into(),
        description: "Test wiki.".into(),
        runner: RunnerType::Generic,
        agent_command: vec!["echo".into(), "$PROMPT".into()],
        prompt_template: "prompt.md".into(),
        vcs_workflow: VcsWorkflow::Unversioned,
        research_concurrency: None,
        mcp: RawMcpConfig {
            instructions: None,
            research_tool_description: None,
        },
        git_sync: None,
        completed_task_ttl_secs: default_completed_task_ttl_secs(),
        agent_timeout_secs: default_agent_timeout_secs(),
    }
}

fn raw_git_sync() -> RawGitSyncConfig {
    RawGitSyncConfig {
        remote: default_git_sync_remote(),
        interval_secs: default_git_sync_interval_secs(),
        retry_max_elapsed_secs: default_git_sync_retry_max_elapsed_secs(),
        retry_initial_delay_secs: default_git_sync_retry_initial_delay_secs(),
        retry_max_delay_secs: default_git_sync_retry_max_delay_secs(),
        ssh_command: None,
    }
}

fn found() -> WikiFound {
    WikiFound {
        repo_is_dir: true,
        wiki_is_dir: true,
        prompt_template: FileRead::Text("Research: {question}".into()),
    }
}

fn load_with(wikis: Vec<RawWikiConfig>, found: Vec<WikiFound>) -> Result<ServerConfig, ConfigError> {
    ServerConfig::load(
        CONFIG_DIR,
        &RawServerConfig {
            bind_address: default_bind_address(),
            wikis,
        },
        Ok(vec!["127.0.0.1:1238".into()]),
        &found,
    )
}

fn load(wikis: Vec<RawWikiConfig>) -> Result<ServerConfig, ConfigError> {
    let found = wikis.iter().map(|_| found()).collect();
    load_with(wikis, found)
}

fn load_one(wiki: RawWikiConfig) -> AppConfig {
    load(vec![wiki]).unwrap().wikis.pop().unwrap()
}

fn refused(wiki: RawWikiConfig) -> ConfigError {
    load(vec![wiki]).err().unwrap()
}

#[test]
fn loads_named_wiki_config_with_derived_paths() {
    let cfg = load(vec![raw_wiki("rlhf")]).unwrap();

    assert_eq!(cfg.bind_addr, "127.0.0.1:1238");
    assert_eq!(cfg.wikis.len(), 1);
    let wiki = &cfg.wikis[0];
    assert_eq!(wiki.name, "rlhf");
    assert_eq!(wiki.agent_command, ["echo", "$PROMPT"]);
    assert_eq!(wiki.wiki_repo, "/srv/wikidesk/wiki-rlhf");
    assert_eq!(
        wiki_places(CONFIG_DIR, &raw_wiki("rlhf")).wiki_dir,
        "/srv/wikidesk/wiki-rlhf/wiki"
    );
    assert_eq!(wiki.base_path(), "/wiki/rlhf");
    assert_eq!(wiki.derived_wiki_path(), "wiki-rlhf");
    assert_eq!(wiki.description, "Test wiki.");
    assert_eq!(
        wiki.mcp_instructions,
        "Use this wiki for: Test wiki.\n\nUse research when the existing wiki may not cover the full picture, including adjacent knowledge that may not have been researched yet."
    );
    assert_eq!(
        wiki.research_tool_description,
        "Submit a research question for this wiki. Covers: Test wiki."
    );
    assert_eq!(wiki.info().description, "Test wiki.");
    assert_eq!(wiki.prompt_template_content, "Research: {question}");
    assert_eq!(wiki.vcs_workflow, VcsWorkflow::Unversioned);
    assert_eq!(wiki.research_concurrency, 1);
    assert_eq!(wiki.git_sync, None);
}

#[test]
fn loads_jj_vcs_workflow() {
    let mut raw = raw_wiki("rlhf");
    raw.vcs_workflow = VcsWorkflow::Jj;

    let wiki = load_one(raw);

    assert_eq!(wiki.vcs_workflow, VcsWorkflow::Jj);
}

#[test]
fn loads_research_concurrency_for_jj_workflow() {
    let mut raw = raw_wiki("rlhf");
    raw.vcs_workflow = VcsWorkflow::Jj;
    raw.research_concurrency = Some(3);

    let wiki = load_one(raw);

    assert_eq!(wiki.research_concurrency, 3);
}

#[test]
fn rejects_research_concurrency_without_vcs_workflow() {
    let mut raw = raw_wiki("rlhf");
    raw.research_concurrency = Some(2);

    let err = refused(raw);

    assert!(matches!(
        err,
        ConfigError::ResearchConcurrencyRequiresVcs(name) if name == "rlhf"
    ));
}

#[test]
fn rejects_zero_research_concurrency() {
    let mut raw = raw_wiki("rlhf");
    raw.vcs_workflow = VcsWorkflow::Jj;
    raw.research_concurrency = Some(0);

    let err = refused(raw);

    assert!(matches!(
        err,
        ConfigError::ResearchConcurrencyZero(name) if name == "rlhf"
    ));
}

#[test]
fn loads_git_sync_for_jj_wiki() {
    let mut raw = raw_wiki("rlhf");
    raw.vcs_workflow = VcsWorkflow::Jj;
    raw.git_sync = Some(RawGitSyncConfig {
        remote: "origin".into(),
        interval_secs: 60,
        retry_max_elapsed_secs: 120,
        retry_initial_delay_secs: 2,
        retry_max_delay_secs: 10,
        ssh_command: Some("ssh -i /run/secrets/wikidesk/rlhf -o IdentitiesOnly=yes".into()),
    });

    let wiki = load_one(raw);

    assert_eq!(
        wiki.git_sync,
        Some(GitSyncConfig {
            remote: "origin".into(),
            interval: Duration::from_secs(60),
            retry_max_elapsed: Duration::from_secs(120),
            retry_initial_delay: Duration::from_secs(2),
            retry_max_delay: Duration::from_secs(10),
            ssh_command: Some("ssh -i /run/secrets/wikidesk/rlhf -o IdentitiesOnly=yes".into()),
        })
    );
}

#[test]
fn rejects_git_sync_without_jj_workflow() {
    let mut raw = raw_wiki("rlhf");
    raw.git_sync = Some(raw_git_sync());

    let err = refused(raw);
    assert!(matches!(err, ConfigError::GitSyncRequiresJj(name) if name == "rlhf"));
}

#[test]
fn rejects_git_sync_without_remote_or_times() {
    let with = |change: fn(&mut RawGitSyncConfig)| {
        let mut raw = raw_wiki("rlhf");
        raw.vcs_workflow = VcsWorkflow::Jj;
        let mut sync = raw_git_sync();
        change(&mut sync);
        raw.git_sync = Some(sync);
        refused(raw)
    };
    assert_eq!(
        with(|sync| sync.remote = " ".into()),
        ConfigError::GitSyncRemoteEmpty("rlhf".into())
    );
    assert_eq!(
        with(|sync| sync.interval_secs = 0),
        ConfigError::GitSyncIntervalZero("rlhf".into())
    );
    assert_eq!(
        with(|sync| sync.retry_max_elapsed_secs = 0),
        ConfigError::GitSyncRetryMaxElapsedZero("rlhf".into())
    );
    assert_eq!(
        with(|sync| sync.retry_initial_delay_secs = 0),
        ConfigError::GitSyncRetryInitialDelayZero("rlhf".into())
    );
    assert_eq!(
        with(|sync| sync.retry_max_delay_secs = 0),
        ConfigError::GitSyncRetryMaxDelayZero("rlhf".into())
    );
}

#[test]
fn default_wiki_uses_plain_wiki_repo() {
    let wiki = load_one(raw_wiki("default"));

    assert_eq!(wiki.wiki_repo, "/srv/wikidesk/wiki");
    assert_eq!(wiki.base_path(), "/wiki/default");
    assert_eq!(wiki.derived_wiki_path(), "wiki");
}

#[test]
fn loads_multiple_wikis() {
    let cfg = load(vec![raw_wiki("rlhf"), raw_wiki("rust-notes")]).unwrap();

    assert_eq!(
        cfg.wikis
            .iter()
            .map(|w| w.name.as_str())
            .collect::<Vec<_>>(),
        ["rlhf", "rust-notes"]
    );
}

#[test]
fn rejects_missing_wikis() {
    let err = ServerConfig::load(
        CONFIG_DIR,
        &RawServerConfig {
            bind_address: "127.0.0.1:1238".into(),
            wikis: vec![],
        },
        Ok(vec!["127.0.0.1:1238".into()]),
        &vec![],
    )
    .err()
    .unwrap();
    assert!(matches!(err, ConfigError::NoWikis));
}

#[test]
fn loads_mcp_overrides() {
    let mut raw = raw_wiki("rlhf");
    raw.mcp = RawMcpConfig {
        instructions: Some("custom instructions".into()),
        research_tool_description: Some("custom tool".into()),
    };

    let cfg = load_one(raw);

    assert_eq!(cfg.mcp_instructions, "custom instructions");
    assert_eq!(cfg.research_tool_description, "custom tool");
}

#[test]
fn rejects_empty_description() {
    let mut raw = raw_wiki("rlhf");
    raw.description = " ".into();

    let err = refused(raw);
    assert!(matches!(err, ConfigError::WikiDescriptionEmpty(name) if name == "rlhf"));
}

#[test]
fn rejects_invalid_wiki_name() {
    let err = refused(raw_wiki("Wiki"));
    assert!(matches!(err, ConfigError::InvalidWikiName(name) if name == "Wiki"));
}

#[test]
fn rejects_duplicate_wiki_name() {
    let err = load(vec![raw_wiki("rlhf"), raw_wiki("rlhf")])
        .err()
        .unwrap();
    assert!(matches!(err, ConfigError::DuplicateWikiName(name) if name == "rlhf"));
}

#[test]
fn rejects_missing_derived_wiki_repo() {
    let mut place = found();
    place.repo_is_dir = false;
    place.wiki_is_dir = false;

    let err = load_with(vec![raw_wiki("rlhf")], vec![place]).err().unwrap();
    assert!(matches!(err, ConfigError::WikiRepoMissing { name, .. } if name == "rlhf"));
}

#[test]
fn rejects_missing_wiki_dir() {
    let mut place = found();
    place.wiki_is_dir = false;

    let err = load_with(vec![raw_wiki("rlhf")], vec![place]).err().unwrap();
    assert!(matches!(err, ConfigError::WikiDirMissing { name, .. } if name == "rlhf"));
}

#[test]
fn rejects_prompt_without_placeholder() {
    let mut place = found();
    place.prompt_template = FileRead::Text("No placeholder here".into());

    let err = load_with(vec![raw_wiki("rlhf")], vec![place]).err().unwrap();
    assert!(matches!(
        err,
        ConfigError::PromptTemplateMissingPlaceholder(_)
    ));
}

#[test]
fn rejects_missing_or_unreadable_prompt() {
    let mut place = found();
    place.prompt_template = FileRead::Missing;
    let err = load_with(vec![raw_wiki("rlhf")], vec![place]).err().unwrap();
    assert_eq!(
        err,
        ConfigError::PromptTemplateMissing("/srv/wikidesk/prompt.md".into())
    );

    let mut place = found();
    place.prompt_template = FileRead::Failed("denied".into());
    let err = load_with(vec![raw_wiki("rlhf")], vec![place]).err().unwrap();
    assert_eq!(
        err,
        ConfigError::Io("/srv/wikidesk/prompt.md".into(), "denied".into())
    );
}

#[test]
fn accepts_hostname_bind_address() {
    let cfg = ServerConfig::load(
        CONFIG_DIR,
        &RawServerConfig {
            bind_address: "localhost:1238".into(),
            wikis: vec![raw_wiki("rlhf")],
        },
        Ok(vec!["[::1]:1238".into(), "127.0.0.1:1238".into()]),
        &vec![found()],
    )
    .unwrap();
    assert!(cfg.bind_addr.ends_with(":1238"));
    assert_eq!(cfg.bind_addr, "[::1]:1238");
}

#[test]
fn rejects_invalid_bind_address() {
    let err = ServerConfig::load(
        CONFIG_DIR,
        &RawServerConfig {
            bind_address: "not-an-address".into(),
            wikis: vec![raw_wiki("rlhf")],
        },
        Err("invalid socket address".into()),
        &vec![found()],
    )
    .err()
    .unwrap();
    assert!(matches!(err, ConfigError::InvalidBindAddress(..)));
    assert_eq!(
        choose_bind_address("nowhere:1", Ok(vec![])).unwrap_err(),
        ConfigError::InvalidBindAddress("nowhere:1".into(), "no addresses found".into())
    );
}

#[test]
fn rejects_empty_agent_command() {
    let mut raw = raw_wiki("rlhf");
    raw.agent_command = vec![];

    let err = refused(raw);
    assert!(matches!(err, ConfigError::AgentCommandEmpty(name) if name == "rlhf"));
}

#[test]
fn rejects_agent_command_without_prompt_placeholder() {
    let mut raw = raw_wiki("rlhf");
    raw.agent_command = vec!["echo".into(), "hello".into()];

    let err = refused(raw);
    assert!(matches!(err, ConfigError::AgentCommandMissingPrompt(name) if name == "rlhf"));
}

#[test]
fn acp_runner_accepts_command_without_prompt_placeholder() {
    let mut raw = raw_wiki("rlhf");
    raw.runner = RunnerType::Acp;
    raw.agent_command = vec!["agent-acp".into()];

    let cfg = load_one(raw);
    assert_eq!(cfg.runner, RunnerType::Acp);
}

#[test]
fn acp_runner_rejects_command_with_prompt_placeholder() {
    let mut raw = raw_wiki("rlhf");
    raw.runner = RunnerType::Acp;
    raw.agent_command = vec!["agent-acp".into(), "$PROMPT".into()];

    let err = refused(raw);
    assert!(matches!(err, ConfigError::AgentCommandUnexpectedPrompt(name) if name == "rlhf"));
}

#[test]
fn valid_names_are_taken_even_by_refused_wikis() {
    let mut seen: Vec<String> = vec!["other".into()];
    let mut raw = raw_wiki("rlhf");
    raw.description = "  ".into();
    assert_eq!(
        normalize_wiki_config(CONFIG_DIR, &raw, &found(), &mut seen).unwrap_err(),
        ConfigError::WikiDescriptionEmpty("rlhf".into())
    );
    assert_eq!(seen, ["other", "rlhf"]);
    assert_eq!(
        normalize_wiki_config(CONFIG_DIR, &raw_wiki("rlhf"), &found(), &mut seen).unwrap_err(),
        ConfigError::DuplicateWikiName("rlhf".into())
    );
    assert_eq!(seen, ["other", "rlhf"]);

    let accepted = normalize_wiki_config(CONFIG_DIR, &raw_wiki("ml"), &found(), &mut seen);
    assert_eq!(accepted.unwrap().name, "ml");
    assert_eq!(seen, ["other", "rlhf", "ml"]);

    assert_eq!(
        normalize_wiki_config(CONFIG_DIR, &raw_wiki("-ml"), &found(), &mut seen).unwrap_err(),
        ConfigError::InvalidWikiName("-ml".into())
    );
    assert_eq!(seen, ["other", "rlhf", "ml"]);
}

#[test]
fn defaults_are_the_documented_ones() {
    assert_eq!(default_completed_task_ttl_secs(), 900);
    assert_eq!(default_bind_address(), "127.0.0.1:1238");
    let wiki = load_one(raw_wiki("rlhf"));
    assert_eq!(wiki.completed_task_ttl, Duration::from_secs(900));
    assert_eq!(
        wiki.agent_timeout,
        Duration::from_secs(default_agent_timeout_secs())
    );
}

#[test]
fn loads_absolute_prompt_templates_as_they_are() {
    let mut raw = raw_wiki("rlhf");
    raw.prompt_template = "/etc/prompt.md".into();
    assert_eq!(
        wiki_places(CONFIG_DIR, &raw).prompt_template,
        "/etc/prompt.md"
    );
    raw.prompt_template = "prompts/a.md".into();
    assert_eq!(
        wiki_places(CONFIG_DIR, &raw).prompt_template,
        "/srv/wikidesk/prompts/a.md"
    );
}
