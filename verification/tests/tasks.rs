//! Tasks, their results, and the interfaces that offer them.

use wikidesk::api;
use wikidesk::api::ApiError;
use wikidesk::config::{AppConfig, GitSyncConfig, VcsWorkflow};
use wikidesk::duration::Duration;
use wikidesk::names::LocalPathError;
use wikidesk::queue::{AppState, QueueFullError, TaskQueue, TaskStatus, CAPACITY};
use wikidesk::remote_sync::{after_failure, first_delay, RemoteSync, Retry};
use wikidesk::research_task;
use wikidesk::runner::RunnerType;
use wikidesk::server;
use wikidesk::server::McpError;
use wikidesk::surface::{report_poll, Poll, ResearchSurface, SurfaceError};
use wikidesk::sync::exchange::ReadFile;
use wikidesk::sync::tree::{Entry, Listing};
use wikidesk::sync::WikiSyncError;
use wikidesk::wiki_instance::{reaper_interval, Wait, WikiInstance};

fn at(secs: u64) -> Duration {
    Duration::from_secs(secs)
}

fn done(answer: &str) -> TaskStatus {
    TaskStatus::Done {
        answer: answer.into(),
    }
}

fn failed(error: &str) -> TaskStatus {
    TaskStatus::Failed {
        error: error.into(),
    }
}

fn app_config(agent_command: Vec<String>) -> AppConfig {
    AppConfig {
        name: "test".into(),
        wiki_repo: "/tmp/nonexistent".into(),
        description: "Test wiki.".into(),
        runner: RunnerType::Generic,
        agent_command,
        prompt_template_content: "{question}".into(),
        vcs_workflow: VcsWorkflow::Unversioned,
        research_concurrency: 1,
        git_sync: None,
        mcp_instructions: "Test instructions.".into(),
        research_tool_description: "Test research tool.".into(),
        completed_task_ttl: at(900),
        agent_timeout: at(5),
    }
}

fn instance() -> WikiInstance {
    WikiInstance::new(
        app_config(vec!["echo".into(), "$PROMPT".into()]),
        "/tmp/data",
    )
}

fn found() -> Option<Listing> {
    Some(Listing::Entries(vec![Entry::Dir {
        name: "concepts".into(),
        listing: Listing::Entries(vec![Entry::File {
            name: "RLHF.md".into(),
        }]),
    }]))
}

#[test]
fn queue_enqueue_returns_unique_ids() {
    let mut queue = TaskQueue::new();
    let id1 = queue.enqueue("question 1".into()).unwrap();
    let id2 = queue.enqueue("question 2".into()).unwrap();
    assert_ne!(id1, id2);
    assert_eq!(id1.len(), 36);
    assert_eq!(id1.as_bytes()[8], b'-');
}

#[test]
fn queue_enqueued_task_starts_as_queued() {
    let mut queue = TaskQueue::new();
    let id = queue.enqueue("question".into()).unwrap();
    assert_eq!(queue.get_status(&id), Some(TaskStatus::Queued));

    let mut state = AppState::new(app_config(vec![]));
    let id = state.enqueue("question".into()).unwrap();
    let task = state.get_task(&id).unwrap();
    assert_eq!(task.status, TaskStatus::Queued);
    assert_eq!(task.question, "question");
}

#[test]
fn get_task_status_returns_none_for_unknown_id() {
    let queue = TaskQueue::new();
    assert!(queue.get_status("nonexistent").is_none());
}

#[test]
fn get_task_returns_none_for_unknown_id() {
    let state = AppState::new(app_config(vec![]));
    assert!(state.get_task("nonexistent").is_none());
}

#[test]
fn queue_complete_task_sets_done_with_result() {
    let mut queue = TaskQueue::new();
    let id = queue.enqueue("q".into()).unwrap();
    queue.start(&id);
    queue.finish(&id, done("the answer"), at(1));
    assert_eq!(queue.get_status(&id), Some(done("the answer")));

    let mut state = AppState::new(app_config(vec![]));
    let id = state.enqueue("q".into()).unwrap();
    state.start_task(&id);
    state.finish_task(&id, done("the answer"), at(1));
    assert_eq!(state.get_task(&id).unwrap().status, done("the answer"));
}

#[test]
fn queue_fail_task_sets_failed_with_error() {
    let mut queue = TaskQueue::new();
    let id = queue.enqueue("q".into()).unwrap();
    queue.start(&id);
    queue.finish(&id, failed("agent crashed"), at(1));
    assert_eq!(queue.get_status(&id), Some(failed("agent crashed")));

    let mut state = AppState::new(app_config(vec![]));
    let id = state.enqueue("q".into()).unwrap();
    state.start_task(&id);
    state.finish_task(&id, failed("agent crashed"), at(1));
    assert_eq!(
        state.get_task_status(&id),
        Some(failed("agent crashed"))
    );
}

#[test]
fn queue_sweep_removes_completed_tasks_after_ttl() {
    let mut queue = TaskQueue::new();
    let id = queue.enqueue("q".into()).unwrap();
    queue.start(&id);
    queue.finish(&id, done("done"), at(1));
    queue.sweep_completed(at(1), at(0));
    assert!(queue.get_status(&id).is_none());

    let mut state = AppState::new(app_config(vec![]));
    let id = state.enqueue("q".into()).unwrap();
    state.start_task(&id);
    state.finish_task(&id, done("done"), at(1));
    state.sweep_completed(at(1), at(0));
    assert!(state.get_task(&id).is_none());
}

#[test]
fn queue_sweep_preserves_active_tasks() {
    let mut queue = TaskQueue::new();
    let queued_id = queue.enqueue("queued".into()).unwrap();
    let running_id = queue.enqueue("running".into()).unwrap();
    queue.start(&running_id);

    queue.sweep_completed(at(100), at(0));

    assert!(queue.get_status(&queued_id).is_some());
    assert!(queue.get_status(&running_id).is_some());
}

#[test]
fn queue_wait_for_result_receives_notification() {
    let mut queue = TaskQueue::new();
    let id = queue.enqueue("q".into()).unwrap();
    queue.start(&id);
    assert!(!queue.get_status(&id).unwrap().is_terminal());

    queue.finish(&id, done("result"), at(1));

    let status = queue.get_status(&id).unwrap();
    assert!(status.is_terminal());
    assert_eq!(status, done("result"));
}

#[test]
fn wiki_instance_wait_for_result_receives_notification() {
    let mut state = instance();
    let id = state.enqueue("q".into()).unwrap();
    assert_eq!(state.begin_task(&id), Some("q".to_string()));
    assert_eq!(state.wait_for_result(&id), Wait::GoesOn);

    assert!(!state.conclude_task(&id, Ok("result".into()), at(1)));

    assert_eq!(state.wait_for_result(&id), Wait::Over(Some(done("result"))));
    assert_eq!(state.wait_for_result("nonexistent"), Wait::Over(None));
}

#[test]
fn completed_tasks_stay_until_their_time_is_over() {
    let mut queue = TaskQueue::new();
    let id = queue.enqueue_as("a".into(), "q".into()).unwrap();
    queue.finish(&id, done("x"), at(10));
    queue.sweep_completed(at(109), at(100));
    assert!(queue.get_status("a").is_some());
    queue.sweep_completed(at(110), at(100));
    assert!(queue.get_status("a").is_none());
}

#[test]
fn tasks_come_in_the_order_of_their_questions() {
    let mut queue = TaskQueue::new();
    queue.enqueue_as("a".into(), "first".into()).unwrap();
    queue.enqueue_as("b".into(), "second".into()).unwrap();
    assert_eq!(queue.next_pending(), Some("a".to_string()));
    assert_eq!(queue.start("a"), Some("first".to_string()));
    assert_eq!(queue.next_pending(), Some("b".to_string()));
    assert_eq!(queue.next_pending(), None);
    assert_eq!(queue.start("nonexistent"), None);
}

#[test]
fn full_queues_refuse_questions() {
    let mut queue = TaskQueue::new();
    let mut state = AppState::new(app_config(vec![]));
    for i in 0..CAPACITY {
        queue.enqueue_as(format!("{i}"), "q".into()).unwrap();
        state.enqueue_as(format!("{i}"), "q".into()).unwrap();
    }
    let full = queue.enqueue_as("x".into(), "q".into()).unwrap_err();
    assert_eq!(full.message(), "research queue is full");
    // The one remembers the refused question, the other does not.
    assert_eq!(queue.get_status("x"), Some(TaskStatus::Queued));
    assert!(state.enqueue_as("x".into(), "q".into()).is_err());
    assert!(state.get_task("x").is_none());
    // A task that is taken makes room.
    queue.next_pending();
    assert!(queue.enqueue_as("y".into(), "q".into()).is_ok());
}

#[test]
fn sweeps_come_four_times_in_a_task_s_time_but_not_too_often() {
    assert_eq!(reaper_interval(at(900)), at(225));
    assert_eq!(reaper_interval(at(10)), at(15));
    assert_eq!(reaper_interval(at(61)), Duration::from_millis(15250));
}

#[test]
fn answered_tasks_ask_for_a_synchronisation() {
    let mut config = app_config(vec!["echo".into(), "$PROMPT".into()]);
    config.vcs_workflow = VcsWorkflow::Jj;
    config.git_sync = Some(sync_config());
    let mut state = WikiInstance::new(config, "/tmp/data");
    let id = state.enqueue("q".into()).unwrap();
    state.begin_task(&id);
    assert!(state.conclude_task(&id, Ok("answer".into()), at(1)));
    let id = state.enqueue("q".into()).unwrap();
    state.begin_task(&id);
    assert!(!state.conclude_task(&id, Err(research_task::Error::AgentNoOutput), at(2)));
    assert_eq!(
        state.get_task_status(&id),
        Some(failed("agent produced no output"))
    );
}

fn sync_config() -> GitSyncConfig {
    GitSyncConfig {
        remote: "origin".into(),
        interval: at(60),
        retry_max_elapsed: Duration::from_millis(100),
        retry_initial_delay: Duration::from_millis(1),
        retry_max_delay: Duration::from_millis(1),
        ssh_command: None,
    }
}

#[test]
fn run_with_retry_retries_until_success() {
    let remote = RemoteSync::new(Some(sync_config()));
    assert!(remote.is_enabled());
    let sync = remote.config.as_ref().unwrap();
    let mut attempts = 0;
    let mut elapsed: u64 = 0;
    let mut delay = first_delay(sync);
    loop {
        attempts += 1;
        let outcome = if attempts < 3 { Err("transient") } else { Ok(()) };
        if outcome.is_ok() {
            break;
        }
        match after_failure(sync, delay, true, Duration::from_millis(elapsed)) {
            Retry::After { sleep, next_delay } => {
                assert_eq!(sleep, Duration::from_millis(1));
                elapsed += 1;
                delay = next_delay;
            }
            Retry::GiveUp => panic!("gave up"),
        }
    }

    assert_eq!(attempts, 3);
}

#[test]
fn waits_double_up_to_their_limit_and_the_time_left() {
    let mut sync = sync_config();
    sync.retry_max_elapsed = at(100);
    sync.retry_initial_delay = at(2);
    sync.retry_max_delay = at(5);
    assert_eq!(first_delay(&sync), at(2));
    assert_eq!(
        after_failure(&sync, at(2), true, at(0)),
        Retry::After {
            sleep: at(2),
            next_delay: at(4)
        }
    );
    assert_eq!(
        after_failure(&sync, at(4), true, at(98)),
        Retry::After {
            sleep: at(2),
            next_delay: at(5)
        }
    );
    assert_eq!(after_failure(&sync, at(5), true, at(100)), Retry::GiveUp);
    assert_eq!(after_failure(&sync, at(2), false, at(0)), Retry::GiveUp);
    assert!(!RemoteSync::new(None).request());
}

#[test]
fn poll_result_does_not_validate_local_path_until_done() {
    let mut surface = ResearchSurface::new(instance());
    let id = surface.submit_research("question".into()).unwrap();

    let poll = surface.poll_result(&id, Some("../bad".into())).unwrap();
    let result = report_poll(poll, Ok(()), "/tmp/repo/wiki", &found()).unwrap();

    assert_eq!(result, Some(TaskStatus::Queued));

    surface.state.begin_task(&id);
    surface.state.conclude_task(&id, Ok("x".into()), at(1));
    assert_eq!(
        surface.poll_result(&id, Some("../bad".into())).unwrap_err(),
        SurfaceError::InvalidLocalPath(LocalPathError::DotComponent("../bad".into()))
    );
}

#[test]
fn poll_result_delivers_completed_answer() {
    let mut surface = ResearchSurface::new(instance());
    let id = surface.submit_research("question".into()).unwrap();
    surface.state.begin_task(&id);
    surface
        .state
        .conclude_task(&id, Ok("See [[RLHF]].".into()), at(1));

    let poll = surface.poll_result(&id, Some("wiki-local".into())).unwrap();
    let result = report_poll(poll, Ok(()), "/tmp/repo/wiki", &found()).unwrap();

    assert_eq!(
        result,
        Some(done("See [RLHF](wiki-local/concepts/RLHF.md)."))
    );
}

#[test]
fn polls_report_what_keeps_the_wiki_from_being_read() {
    let poll = Poll::Deliver {
        answer: "x".into(),
        local_path: "wiki".into(),
    };
    assert_eq!(
        report_poll(
            poll,
            Err(research_task::Error::AgentNoOutput),
            "/tmp/repo/wiki",
            &None
        )
        .unwrap_err(),
        SurfaceError::ResearchTask(research_task::Error::AgentNoOutput)
    );
    let known: Poll = Poll::Known(None);
    assert_eq!(
        report_poll(
            known,
            Err(research_task::Error::AgentNoOutput),
            "/tmp/repo/wiki",
            &None
        ),
        Ok(None)
    );
}

#[test]
fn questions_with_refused_paths_become_no_tasks() {
    let mut surface = ResearchSurface::new(instance());
    assert_eq!(
        surface.research("q".into(), Some("".into())).unwrap_err(),
        SurfaceError::InvalidLocalPath(LocalPathError::Empty)
    );
    assert_eq!(surface.state.next_pending(), None);

    let accepted = surface.research("q".into(), None).unwrap();
    assert_eq!(accepted.local_path, "wiki-test");
    assert_eq!(surface.state.next_pending(), Some(accepted.task_id));
}

#[test]
fn delivery_waits_for_the_published_wiki_first() {
    let deliver = |prepared, status| {
        wikidesk::surface::deliver_answer(prepared, status, "/tmp/repo/wiki", &found(), "wiki")
    };
    assert_eq!(
        deliver(Err(research_task::Error::AgentNoOutput), None).unwrap_err(),
        SurfaceError::ResearchTask(research_task::Error::AgentNoOutput)
    );
    assert_eq!(
        deliver(Ok(()), None).unwrap_err().message(),
        "task disappeared"
    );
    assert_eq!(
        deliver(Ok(()), Some(TaskStatus::Queued))
            .unwrap_err()
            .message(),
        "unexpected task state"
    );
    assert_eq!(
        deliver(Ok(()), Some(failed("boom"))).unwrap_err().message(),
        "research failed: boom"
    );
    assert_eq!(
        deliver(Ok(()), Some(done("[[RLHF]]"))).unwrap(),
        "[RLHF](wiki/concepts/RLHF.md)"
    );
}

#[test]
fn http_refusals_have_their_status() {
    let busy = ApiError::from_queue_full(QueueFullError);
    assert_eq!(busy.status(), 503);
    assert_eq!(busy.message(), "server busy");
    let bad = ApiError::from_surface(SurfaceError::InvalidLocalPath(LocalPathError::Empty));
    assert_eq!(bad.status(), 400);
    assert_eq!(
        bad.message(),
        "invalid local_path: local_path must not be empty"
    );
    let reply = api::research_reply(Err(SurfaceError::ResearchFailed("boom".into())));
    let internal = reply.unwrap_err();
    assert_eq!(internal.status(), 500);
    assert_eq!(internal.message(), "boom");
    assert_eq!(
        ApiError::from_surface(SurfaceError::RewriteJoin("x".into())).message(),
        "wikilink rewrite task failed"
    );
    assert_eq!(
        api::research_reply(Ok("answer".into())).unwrap().answer,
        "answer"
    );
}

#[test]
fn sync_requests_are_answered_or_refused() {
    let files = || {
        Ok(vec![ReadFile {
            path: "a.md".into(),
            read: Ok(b"a".to_vec()),
        }])
    };
    let reply = api::sync_reply(Ok(()), files(), &vec![]).unwrap();
    assert_eq!(reply.upserts.len(), 1);
    assert_eq!(
        api::sync_reply(
            Err(research_task::Error::AgentNoOutput),
            files(),
            &vec![]
        )
        .unwrap_err(),
        ApiError::Internal("agent produced no output".into())
    );
    let unreadable = Err(WikiSyncError::ParentDir("..".into()));
    assert_eq!(
        api::sync_reply(Ok(()), unreadable, &vec![])
            .unwrap_err()
            .status(),
        500
    );
}

#[test]
fn mcp_calls_are_answered_or_refused() {
    assert_eq!(
        server::research_reply(Err(QueueFullError)).unwrap_err(),
        McpError::Internal("research queue is full".into())
    );
    assert_eq!(server::research_reply(Ok("id".into())).unwrap(), "id");
    assert_eq!(
        server::get_result_reply("x", Ok(None)).unwrap_err(),
        McpError::ResourceNotFound("unknown task_id 'x'".into())
    );
    assert_eq!(
        server::get_result_reply("x", Ok(Some(failed("boom")))).unwrap_err(),
        McpError::Internal("research failed: boom".into())
    );
    assert_eq!(
        server::get_result_reply("x", Ok(Some(TaskStatus::Running))).unwrap(),
        TaskStatus::Running
    );
    assert_eq!(
        server::get_result_reply(
            "x",
            Err(SurfaceError::InvalidLocalPath(LocalPathError::Empty))
        )
        .unwrap_err(),
        McpError::InvalidParams("invalid local_path: local_path must not be empty".into())
    );
    assert_eq!(
        server::get_result_reply("x", Err(SurfaceError::MissingTask)).unwrap_err(),
        McpError::Internal("task disappeared".into())
    );
    assert_eq!(
        server::research_tool_description("Base.", &app_config(vec![])),
        "Base.\n\nTest research tool."
    );
}

#[test]
fn sweeping_again_changes_nothing() {
    let mut queue = TaskQueue::new();
    queue.enqueue_as("a".into(), "q".into()).unwrap();
    queue.enqueue_as("b".into(), "q".into()).unwrap();
    queue.finish("a", done("x"), at(1));
    queue.finish("b", done("y"), at(50));
    queue.sweep_completed(at(60), at(20));
    assert!(queue.get_status("a").is_none());
    assert!(queue.get_status("b").is_some());
    queue.sweep_completed(at(60), at(20));
    assert_eq!(queue.get_status("b"), Some(done("y")));
    // What is gone is not brought back by the end of its run.
    queue.finish("a", done("late"), at(61));
    assert!(queue.get_status("a").is_none());
}
