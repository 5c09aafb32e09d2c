//! Research in a wiki's repository, step by step.

use wikidesk::config::{AppConfig, GitSyncConfig, VcsWorkflow};
use wikidesk::duration::Duration;
use wikidesk::research_task::jj::command::{
    bookmark_track_args, command_line, command_result, commit_ids, display_args, JjCall,
};
use wikidesk::research_task::jj::workspace::{
    data_root, is_wikidesk_workspace, workspace_data_root, workspace_root, OwnedWorkspace,
    ProgramDirs,
};
use wikidesk::research_task::jj::{
    merge_message, remote_heads_revset, remote_sync_message, Error as JjError,
};
use wikidesk::research_task::published::PublishedWikiRepo;
use wikidesk::research_task::steps::{Action, Lock, Log, Reply, Stepped};
use wikidesk::research_task::{question_title, Error, Executor};
use wikidesk::runner::{RunnerError, RunnerType};

const REPO: &str = "/srv/wiki-rlhf";

fn config(workflow: VcsWorkflow) -> AppConfig {
    AppConfig {
        name: "rlhf".into(),
        wiki_repo: REPO.into(),
        description: "Test wiki.".into(),
        runner: RunnerType::Generic,
        agent_command: vec!["echo".into(), "$PROMPT".into()],
        prompt_template_content: "Research: {question}".into(),
        vcs_workflow: workflow,
        research_concurrency: 1,
        git_sync: match workflow {
            VcsWorkflow::Jj => Some(GitSyncConfig {
                remote: "origin".into(),
                interval: Duration::from_secs(60),
                retry_max_elapsed: Duration::from_secs(120),
                retry_initial_delay: Duration::from_secs(2),
                retry_max_delay: Duration::from_secs(10),
                ssh_command: Some("ssh -i key".into()),
            }),
            VcsWorkflow::Unversioned => None,
        },
        mcp_instructions: "Test instructions.".into(),
        research_tool_description: "Test research tool.".into(),
        completed_task_ttl: Duration::from_secs(900),
        agent_timeout: Duration::from_secs(5),
    }
}

/// A repository and an agent that do as they are told, and remember it.
struct World {
    main: String,
    /// What the published workspace stands on.
    published: String,
    /// What `main` becomes when the remote is fetched, and the heads that are then found.
    fetched: Option<(String, Vec<String>)>,
    dirty: bool,
    research_changes: bool,
    research_parent: String,
    conflicts: Vec<&'static str>,
    answers: Vec<Option<&'static str>>,
    fail_rebase: bool,
    trace: Vec<String>,
}

impl World {
    fn new() -> Self {
        World {
            main: "m1".into(),
            published: "m1".into(),
            fetched: None,
            dirty: false,
            research_changes: true,
            research_parent: "m1".into(),
            conflicts: vec![],
            answers: vec![Some("the answer")],
            fail_rebase: false,
            trace: vec![],
        }
    }

    fn jj(&mut self, repo: &str, call: JjCall) -> Reply {
        let text = |text: &str| Reply::Text(text.to_string());
        let published = repo == REPO;
        match call {
            JjCall::WorkspaceNames => {
                text("default\nwikidesk-research-old\nmine\nwikidesk-remote-sync-3\n")
            }
            JjCall::ForgetWorkspace { name } => {
                self.trace.push(format!("forget {name}"));
                text("")
            }
            JjCall::Snapshot => text(""),
            JjCall::DiffSummary => {
                let changed = if published {
                    self.dirty
                } else {
                    self.research_changes
                };
                text(if changed { "M a.md\n" } else { "" })
            }
            JjCall::UnresolvedConflicts => match self.conflicts.is_empty() {
                true => text(""),
                false => text(self.conflicts.remove(0)),
            },
            JjCall::Describe { message } => {
                self.trace.push(format!("describe {message:?}"));
                text("")
            }
            JjCall::SetMain { rev } => {
                self.trace.push(format!("main -> {rev}"));
                self.main = if rev == "@" { "r1".into() } else { rev };
                text("")
            }
            JjCall::CommitIds { rev } => match rev.as_str() {
                "main" => text(&format!("{}\n", self.main)),
                "@" => text("r1\n"),
                "@-" if published => text(&format!("{}\n", self.published)),
                "@-" => text(&format!("{}\n", self.research_parent)),
                "heads(main | main@origin)" => match &self.fetched {
                    Some((_, heads)) => text(&heads.join("\n")),
                    None => text(&self.main.clone()),
                },
                other => panic!("unexpected revision {other}"),
            },
            JjCall::RebaseOnMain => {
                self.trace.push("rebase".into());
                if self.fail_rebase {
                    self.fail_rebase = false;
                    Reply::Failed(JjError::JjCommand {
                        repo: repo.to_string(),
                        args: "rebase".into(),
                        stderr: "no".into(),
                    })
                } else {
                    self.published = self.main.clone();
                    text("")
                }
            }
            JjCall::GitFetch { remote, .. } => {
                self.trace.push(format!("fetch {remote}"));
                if let Some((main, _)) = &self.fetched {
                    self.main = main.clone();
                }
                text("")
            }
            JjCall::TrackMain { remote } => {
                self.trace.push(format!("track {remote}"));
                text("")
            }
            JjCall::GitPushMain { remote, .. } => {
                self.trace.push(format!("push {remote} {}", self.main));
                text("")
            }
            JjCall::AddFromMain { name, path } => {
                self.trace.push(format!("add {name} at {path}"));
                text("")
            }
            JjCall::AddMerge {
                name, revs, path, ..
            } => {
                self.trace
                    .push(format!("add {name} at {path} of {}", revs.join("+")));
                text("")
            }
        }
    }

    fn perform(&mut self, action: Action) -> Reply {
        match action {
            Action::Jj { repo, call } => self.jj(&repo, call),
            Action::Agent { prompt, dir } => {
                let line = prompt.lines().next().unwrap_or("").to_string();
                self.trace.push(format!("agent in {dir}: {line}"));
                match self.answers.remove(0) {
                    Some(answer) => Reply::Text(answer.to_string()),
                    None => Reply::Nothing,
                }
            }
            Action::CreateDir { .. } => Reply::Nothing,
            Action::RemoveDir { path } => {
                self.trace.push(format!("remove {path}"));
                Reply::Nothing
            }
            Action::Acquire(lock) => {
                if lock == Lock::Integration {
                    self.trace.push("integration begins".into());
                }
                Reply::Nothing
            }
            Action::Release(lock) => {
                if lock == Lock::Integration {
                    self.trace.push("integration ends".into());
                }
                Reply::Nothing
            }
        }
    }

    fn run<T>(&mut self, step: impl Fn(&mut Log) -> Stepped<T>) -> T {
        let mut replies: Vec<Reply> = vec![];
        loop {
            let outcome = step(&mut Log::new(&replies));
            match outcome {
                Ok(result) => return result,
                Err(action) => {
                    let reply = self.perform(action);
                    replies.push(reply);
                }
            }
        }
    }

    fn research(&mut self, workflow: VcsWorkflow) -> Result<String, Error> {
        let executor = Executor::new(&config(workflow), "/run/.workspaces");
        self.run(|log| executor.execute("t1", "Why?\nmore", log))
    }

    fn sync(&mut self) -> Result<(), Error> {
        let executor = Executor::new(&config(VcsWorkflow::Jj), "/run/.workspaces");
        self.run(|log| executor.sync_remote_once("s1", log))
    }

    fn did(&self, what: &str) -> bool {
        self.trace.iter().any(|entry| entry == what)
    }
}

#[test]
fn question_title_compacts_first_non_empty_line() {
    assert_eq!(
        question_title("\n  What   is\tRLHF?  \nextra"),
        "What is RLHF?"
    );
}

#[test]
fn question_titles_are_cut_after_eighty_characters() {
    let long = "ä".repeat(81);
    let title = question_title(&long);
    assert_eq!(title, format!("{}…", "ä".repeat(80)));
    assert_eq!(question_title(&"b".repeat(80)), "b".repeat(80));
    assert_eq!(question_title(" \n\t"), "");
}

#[test]
fn merge_message_includes_resolution_notes_when_present() {
    assert_eq!(
        merge_message("task-1", Some("resolved file conflicts")),
        "wikidesk merge: task-1\n\nResolution:\nresolved file conflicts"
    );
}

#[test]
fn merge_messages_are_short_without_notes() {
    assert_eq!(merge_message("task-1", None), "wikidesk merge: task-1");
    assert_eq!(
        remote_sync_message("origin", None),
        "wikidesk remote sync: origin/main"
    );
}

#[test]
fn remote_sync_message_includes_resolution_notes_when_present() {
    assert_eq!(
        remote_sync_message("origin", Some("merged upstream wiki edits")),
        "wikidesk remote sync: origin/main\n\nResolution:\nmerged upstream wiki edits"
    );
}

#[test]
fn remote_heads_revset_compares_local_and_remote_main() {
    assert_eq!(remote_heads_revset("origin"), "heads(main | main@origin)");
}

#[test]
fn bookmark_track_uses_remote_bookmark_syntax() {
    assert_eq!(
        bookmark_track_args("origin"),
        ["bookmark", "track", "main@origin"]
    );
}

#[test]
fn wikidesk_workspace_prefix_includes_remote_sync() {
    assert!(is_wikidesk_workspace("wikidesk-remote-sync-run-1"));
    assert!(!is_wikidesk_workspace("other-remote-sync-run-1"));
}

#[test]
fn workspace_root_uses_per_user_wikidesk_directory() {
    let root = workspace_data_root("/tmp");
    assert_eq!(
        workspace_root(&root, "/published/wiki-rlhf"),
        format!("{root}/wiki-rlhf-workspaces")
    );
    assert!(root.contains("wikidesk"));
    assert!(root.ends_with("/.workspaces"));
}

#[test]
fn workspaces_lie_in_the_runtime_directory_first() {
    let dirs = |runtime: Option<&str>| {
        Some(ProgramDirs {
            runtime: runtime.map(|path| path.to_string()),
            cache: "/home/a/.cache/wikidesk".into(),
        })
    };
    assert_eq!(
        data_root(dirs(Some("/run/user/1/wikidesk")), "/tmp"),
        "/run/user/1/wikidesk/.workspaces"
    );
    assert_eq!(
        data_root(dirs(None), "/tmp"),
        "/home/a/.cache/wikidesk/.workspaces"
    );
    assert_eq!(data_root(None, "/tmp"), "/tmp/wikidesk/.workspaces");
}

#[test]
fn workspaces_are_named_after_their_task() {
    let workspace = OwnedWorkspace::research("/run/w", "t1");
    assert_eq!(workspace.name, "wikidesk-research-t1");
    assert_eq!(workspace.path, "/run/w/research-t1");
    assert_eq!(OwnedWorkspace::merge("/run/w", "t1").path, "/run/w/merge-t1");
    let sync = OwnedWorkspace::remote_sync("/run/w", "s1");
    assert_eq!(sync.name, "wikidesk-remote-sync-s1");
    assert!(is_wikidesk_workspace(&sync.name));
}

#[test]
fn plain_published_repo_guard_exposes_paths() {
    let published = PublishedWikiRepo::new("/tmp/wiki".to_string(), VcsWorkflow::Unversioned);
    let mut world = World::new();
    world.run(|log| published.prepare(log)).unwrap();
    assert_eq!(published.wiki_dir(), "/tmp/wiki/wiki");
    assert!(world.trace.is_empty());
}

#[test]
fn plain_wikis_are_researched_in_place() {
    let mut world = World::new();
    assert_eq!(
        world.research(VcsWorkflow::Unversioned),
        Ok("the answer".to_string())
    );
    assert_eq!(world.trace, ["agent in /srv/wiki-rlhf: Research: Why?"]);
    let mut silent = World::new();
    silent.answers = vec![None];
    assert_eq!(
        silent.research(VcsWorkflow::Unversioned),
        Err(Error::AgentNoOutput)
    );
}

#[test]
fn research_is_published_as_a_fast_forward() {
    let mut world = World::new();
    assert_eq!(world.research(VcsWorkflow::Jj), Ok("the answer".to_string()));
    assert!(world.did(
        "add wikidesk-research-t1 at /run/.workspaces/wiki-rlhf-workspaces/research-t1"
    ));
    assert!(world.did("describe \"wikidesk research: Why?\\n\\nTask: t1\\n\\nWhy?\\nmore\""));
    assert!(world.did("forget wikidesk-research-t1"));
    assert_eq!(world.main, "r1");
    assert_eq!(world.published, "r1");
    let begins = world.trace.iter().position(|e| e == "integration begins");
    let moved = world.trace.iter().position(|e| e.starts_with("main -> "));
    let ends = world.trace.iter().position(|e| e == "integration ends");
    assert!(begins < moved && moved < ends);
}

#[test]
fn research_without_changes_leaves_main() {
    let mut world = World::new();
    world.research_changes = false;
    assert_eq!(world.research(VcsWorkflow::Jj), Ok("the answer".to_string()));
    assert_eq!(world.main, "m1");
    assert!(!world.trace.iter().any(|e| e.starts_with("main -> ")));
    assert!(world.did("forget wikidesk-research-t1"));
}

#[test]
fn research_beside_a_moved_main_is_merged() {
    let mut world = World::new();
    world.research_parent = "m0".into();
    world.conflicts = vec!["a.md 2-sided conflict\n", ""];
    world.answers = vec![Some("the answer"), Some("kept both")];
    assert_eq!(world.research(VcsWorkflow::Jj), Ok("the answer".to_string()));
    assert!(world.did(
        "add wikidesk-merge-t1 at /run/.workspaces/wiki-rlhf-workspaces/merge-t1 of main+r1"
    ));
    assert!(world.did("describe \"wikidesk merge: t1\\n\\nResolution:\\nkept both\""));
    assert!(world.did("forget wikidesk-merge-t1"));
    assert!(world.did("forget wikidesk-research-t1"));
}

#[test]
fn conflicts_that_remain_fail_the_task() {
    let mut world = World::new();
    world.research_parent = "m0".into();
    world.conflicts = vec!["a.md conflict\n", "a.md conflict\n"];
    world.answers = vec![Some("the answer"), Some("gave up")];
    assert!(matches!(
        world.research(VcsWorkflow::Jj),
        Err(Error::Jj(JjError::UnresolvedConflicts { .. }))
    ));
    assert_eq!(world.main, "m1");
    assert!(world.did("forget wikidesk-merge-t1"));
    assert!(world.did("integration ends"));
}

#[test]
fn dirty_published_workspaces_refuse_research() {
    let mut world = World::new();
    world.dirty = true;
    assert!(matches!(
        world.research(VcsWorkflow::Jj),
        Err(Error::Jj(JjError::PublishedDirty { .. }))
    ));
    assert!(!world.trace.iter().any(|e| e.starts_with("agent")));
}

#[test]
fn failed_publication_moves_main_back() {
    let mut world = World::new();
    world.fail_rebase = true;
    assert!(world.research(VcsWorkflow::Jj).is_err());
    assert_eq!(world.main, "m1");
    assert!(world.did("main -> m1"));
}

#[test]
fn remote_changes_are_taken_over() {
    let mut world = World::new();
    world.fetched = Some(("m1".into(), vec!["m2".into()]));
    assert_eq!(world.sync(), Ok(()));
    assert!(world.did("main -> m2"));
    assert!(world.did("push origin m2"));
}

#[test]
fn diverged_remotes_are_merged_and_pushed() {
    let mut world = World::new();
    world.fetched = Some(("m1".into(), vec!["m1".into(), "o1".into()]));
    assert_eq!(world.sync(), Ok(()));
    assert!(world.did(
        "add wikidesk-remote-sync-s1 at /run/.workspaces/wiki-rlhf-workspaces/remote-sync-s1 of m1+o1"
    ));
    assert!(world.did("forget wikidesk-remote-sync-s1"));
    assert_eq!(world.trace.last().map(|e| e.as_str()), Some("integration ends"));
    assert!(world.did("push origin r1"));
}

#[test]
fn starts_forget_the_workspaces_of_earlier_runs() {
    let executor = Executor::new(&config(VcsWorkflow::Jj), "/run/.workspaces");
    let mut world = World::new();
    world
        .run(|log| executor.prepare_startup(true, log))
        .unwrap();
    assert!(world.did("forget wikidesk-research-old"));
    assert!(world.did("forget wikidesk-remote-sync-3"));
    assert!(!world.did("forget mine"));
    assert!(!world.did("forget default"));
    assert!(world.did("remove /run/.workspaces/wiki-rlhf-workspaces"));

    let mut other = World::new();
    assert_eq!(
        other.run(|log| executor.prepare_startup(false, log)),
        Err(Error::Jj(JjError::NotJjWorkspace(REPO.into())))
    );
}

#[test]
fn jj_output_is_read_line_by_line() {
    assert_eq!(
        commit_ids(" a \n\n b\r\n".into(), "reading"),
        Ok(vec!["a".to_string(), "b".to_string()])
    );
    let err = commit_ids("\n".into(), "reading heads").unwrap_err();
    assert_eq!(
        err.message(),
        "unexpected jj output while reading heads: \"\\n\""
    );
}

#[test]
fn jj_failures_say_what_was_called() {
    let call = JjCall::CommitIds { rev: "main".into() };
    let line = command_line(REPO, &call);
    assert_eq!(line[..5], ["--no-pager", "--color", "never", "-R", REPO]);
    assert_eq!(
        command_result(REPO, &call, true, &b"abc\n".to_vec(), &vec![]),
        Ok("abc\n".to_string())
    );
    let err = command_result(REPO, &call, false, &vec![], &b" no such rev \n".to_vec()).unwrap_err();
    match &err {
        JjError::JjCommand { repo, args, stderr } => {
            assert_eq!(repo, REPO);
            assert!(args.contains("main"));
            assert_eq!(stderr, " no such rev \n");
        }
        other => panic!("unexpected {other:?}"),
    }
    assert!(err.is_retryable_remote_sync());
    assert!(!Error::AgentNoOutput.is_retryable_remote_sync());
    assert!(Error::Jj(err).is_retryable_remote_sync());
    assert_eq!(display_args(&vec!["a".into(), "b c".into()]), "a b c");
}

#[test]
fn remote_calls_use_the_ssh_command() {
    let call = JjCall::GitFetch {
        remote: "origin".into(),
        ssh_command: Some("ssh -i key".into()),
    };
    assert_eq!(call.ssh_command(), Some("ssh -i key".to_string()));
    assert_eq!(JjCall::<String, Vec<String>>::Snapshot.ssh_command(), None);
}

#[test]
fn prompts_hold_the_question_where_the_template_has_a_place() {
    let mut plain = config(VcsWorkflow::Unversioned);
    let executor = Executor::new(&plain, "/run");
    assert_eq!(executor.build_prompt("a {question}"), "Research: a {question}");
    plain.prompt_template_content = "{question} or {question}?".into();
    assert_eq!(Executor::new(&plain, "/run").build_prompt("x"), "x or x?");
    plain.prompt_template_content = "no place".into();
    assert_eq!(Executor::new(&plain, "/run").build_prompt("x"), "no place");
}

#[test]
fn workspaces_of_tasks_are_their_own() {
    let a = OwnedWorkspace::research("/run/w", "a");
    let b = OwnedWorkspace::research("/run/w", "b");
    assert_ne!(a.name, b.name);
    assert_ne!(a.path, b.path);
}

#[test]
fn silent_agents_fail_the_task() {
    let mut world = World::new();
    world.answers = vec![None];
    assert_eq!(
        world.research(VcsWorkflow::Jj),
        Err(Error::Jj(JjError::AgentNoOutput))
    );
    assert_eq!(world.main, "m1");
    assert!(world.did("forget wikidesk-research-t1"));
}

#[test]
fn failures_of_steps_fail_the_task() {
    let failures = || {
        vec![
            JjError::CreateDir {
                path: "/run".into(),
                reason: "denied".into(),
            },
            JjError::RemoveDir {
                path: "/run".into(),
                reason: "busy".into(),
            },
            JjError::Spawn("no jj".into()),
            JjError::Runner(RunnerError::Timeout { secs: 5 }),
        ]
    };
    let messages: Vec<String> = failures().iter().map(|e| e.message()).collect();
    assert_eq!(
        messages,
        [
            "failed to create directory '/run'",
            "failed to remove directory '/run'",
            "failed to spawn jj",
            "agent timed out after 5s",
        ]
    );
    let executor = Executor::new(&config(VcsWorkflow::Jj), "/run/.workspaces");
    for failure in failures() {
        let message = failure.message();
        // The first call of `jj` fails.
        let replies = vec![
            Reply::Nothing,
            Reply::Failed(failure),
            Reply::Nothing,
        ];
        let outcome = executor.execute("t1", "Why?", &mut Log::new(&replies));
        assert_eq!(outcome.unwrap().unwrap_err().message(), message);
    }
    assert_eq!(
        JjError::NotJjWorkspace("/srv/w".to_string()).message(),
        "wiki repo '/srv/w' is not a jj workspace"
    );
    assert_eq!(
        JjError::PublishedDirty {
            repo: "/srv/w".to_string(),
            summary: "M a.md".to_string(),
        }
        .message(),
        "published wiki workspace '/srv/w' has local edits; commit, move, or discard them first\nM a.md"
    );
    assert_eq!(
        JjError::UnresolvedConflicts {
            files: "a.md".to_string(),
        }
        .message(),
        "merge conflicts remain after resolver\na.md"
    );
}
