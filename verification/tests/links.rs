//! Wiki links in answers, and their delivery.

use wikidesk::agent::{agent_arguments, answer_of_text, run_agent, AgentEnd, AgentError};
use wikidesk::config::{AppConfig, VcsWorkflow};
use wikidesk::delivery::{deliver_answer, render_wikilinks, DeliveryError};
use wikidesk::duration::Duration;
use wikidesk::queue::TaskStatus;
use wikidesk::rewrite::{rewrite_wikilinks, LinkTarget, WikiLink, WikiLinkIndex, WikiLinkRenderer};
use wikidesk::runner::RunnerType;
use wikidesk::sync::tree::{Entry, Listing};

fn file(name: &str) -> Entry {
    Entry::File { name: name.into() }
}

fn dir(name: &str, entries: Vec<Entry>) -> Entry {
    Entry::Dir {
        name: name.into(),
        listing: Listing::Entries(entries),
    }
}

fn wiki() -> Option<Listing> {
    Some(Listing::Entries(vec![
        dir("concepts", vec![file("RLHF.md"), file("DPO.md")]),
        dir("topics", vec![file("alignment.md")]),
    ]))
}

fn rewritten(input: &str) -> String {
    rewrite_wikilinks(input, "/srv/wiki", &wiki(), "wiki")
}

#[test]
fn rewrite_rewrites_known_wikilinks() {
    assert_eq!(
        rewritten("See [[RLHF]] and [[DPO]] for details."),
        "See [RLHF](wiki/concepts/RLHF.md) and [DPO](wiki/concepts/DPO.md) for details."
    );
}

#[test]
fn rewrite_rewrites_unknown_wikilinks_to_empty_href() {
    assert_eq!(
        rewritten("See [[NonExistent]] for more."),
        "See [NonExistent]() for more."
    );
}

#[test]
fn rewrite_preserves_text_without_wikilinks() {
    assert_eq!(rewritten("No links here."), "No links here.");
}

#[test]
fn rewrite_rewrites_nested_directory_links() {
    assert_eq!(
        rewritten("Read [[alignment]] for background."),
        "Read [alignment](wiki/topics/alignment.md) for background."
    );
}

#[test]
fn rewrite_rewrites_pipe_wikilink_with_display_text() {
    assert_eq!(
        rewritten("See [[RLHF|reinforcement learning from human feedback]]."),
        "See [reinforcement learning from human feedback](wiki/concepts/RLHF.md)."
    );
}

#[test]
fn rewrite_pipe_wikilink_unknown_page_produces_dead_link() {
    assert_eq!(
        rewritten("See [[missing|some description]]."),
        "See [some description]()."
    );
}

#[test]
fn rewrite_duplicate_stems_leave_wikilink_unresolved() {
    let found = Some(Listing::Entries(vec![
        dir("a", vec![file("overview.md")]),
        dir("b", vec![file("overview.md")]),
    ]));
    assert_eq!(
        rewrite_wikilinks("See [[overview]].", "/srv/wiki", &found, "wiki"),
        "See [overview]()."
    );
}

#[test]
fn rewrite_case_insensitive_matching() {
    assert_eq!(
        rewritten("See [[rlhf]] and [[dpo]] and [[Alignment]]."),
        "See [rlhf](wiki/concepts/RLHF.md) and [dpo](wiki/concepts/DPO.md) and [Alignment](wiki/topics/alignment.md)."
    );
}

#[test]
fn rewrite_handles_missing_wiki_dir_gracefully() {
    assert_eq!(
        rewrite_wikilinks("See [[RLHF]].", "/srv/wiki", &None, "wiki"),
        "See [[RLHF]]."
    );
}

#[test]
fn custom_link_prefix() {
    assert_eq!(
        rewrite_wikilinks(
            "See [[RLHF]] and [[alignment]].",
            "/srv/wiki",
            &wiki(),
            "/home/user/notes"
        ),
        "See [RLHF](/home/user/notes/concepts/RLHF.md) and [alignment](/home/user/notes/topics/alignment.md)."
    );
}

#[test]
fn renderer_reuses_page_map_across_answers() {
    let renderer = WikiLinkRenderer::from_wiki_dir("/srv/wiki", &wiki()).unwrap();

    assert_eq!(
        renderer.render_markdown_links("[[RLHF]]", "wiki"),
        "[RLHF](wiki/concepts/RLHF.md)"
    );
    assert_eq!(
        renderer.render_markdown_links("[[DPO]]", "wiki"),
        "[DPO](wiki/concepts/DPO.md)"
    );
}

#[test]
fn missing_directories_have_no_renderer() {
    assert_eq!(
        WikiLinkRenderer::from_wiki_dir("/srv/wiki", &None).err(),
        Some("wiki directory '/srv/wiki' not found".to_string())
    );
}

#[test]
fn odd_brackets_are_read_as_the_pattern_says() {
    // An empty link is none, and a link ends at the first pair of closing brackets.
    assert_eq!(rewritten("[[]] and [[RLHF]"), "[[]] and [[RLHF]");
    assert_eq!(rewritten("[[[RLHF]]]"), "[[RLHF]()]");
    assert_eq!(rewritten("[[a\nb]]"), "[a\nb]()");
    assert_eq!(rewritten("[[RLHF|a|b]]"), "[a|b](wiki/concepts/RLHF.md)");
    assert_eq!(rewritten("[[DPO]][[DPO]]"), "[DPO](wiki/concepts/DPO.md)[DPO](wiki/concepts/DPO.md)");
}

#[test]
fn links_are_parsed_at_the_first_bar() {
    let link = WikiLink::parse("page|the text");
    assert_eq!(link.page, "page");
    assert_eq!(link.display, "the text");
    let plain = WikiLink::parse("page");
    assert_eq!(plain.page, "page");
    assert_eq!(plain.display, "page");
}

#[test]
fn index_tells_single_pages_from_several() {
    let index = WikiLinkIndex::new()
        .with_page("größe".into(), "a/Größe.md".into())
        .with_page("b".into(), "x/b.md".into())
        .with_page("b".into(), "y/b.md".into());
    assert_eq!(
        index.resolve("GRÖSSE".replace("SS", "ß").as_str()),
        LinkTarget::Resolved("a/Größe.md".into())
    );
    assert_eq!(index.resolve("B"), LinkTarget::Ambiguous);
    assert_eq!(index.lookup("B"), LinkTarget::Missing);
}

#[test]
fn delivery_rewrites_successful_answer() {
    let found = Some(Listing::Entries(vec![dir(
        "concepts",
        vec![file("RLHF.md")],
    )]));
    let answer = deliver_answer(
        Some(TaskStatus::Done {
            answer: "See [[RLHF]].".into(),
        }),
        "/tmp/repo",
        &found,
        "wiki",
    )
    .unwrap();

    assert_eq!(answer, "See [RLHF](wiki/concepts/RLHF.md).");
    assert_eq!(
        render_wikilinks("[[RLHF]]", "/tmp/repo", &found, "w"),
        "[RLHF](w/concepts/RLHF.md)"
    );
}

#[test]
fn delivery_reports_failed_research() {
    let err = deliver_answer(
        Some(TaskStatus::Failed {
            error: "agent failed".into(),
        }),
        "/tmp/missing",
        &None,
        "wiki",
    )
    .unwrap_err();

    assert_eq!(err.message(), "research failed: agent failed");
    assert!(matches!(err, DeliveryError::ResearchFailed(e) if e == "agent failed"));
}

#[test]
fn delivery_rejects_non_terminal_status() {
    let err = deliver_answer(Some(TaskStatus::Running), "/tmp/missing", &None, "wiki").unwrap_err();

    assert!(matches!(err, DeliveryError::UnexpectedState));
}

#[test]
fn delivery_reports_missing_task() {
    let err = deliver_answer(None, "/tmp/missing", &None, "wiki").unwrap_err();

    assert!(matches!(err, DeliveryError::MissingTask));
}

fn config() -> AppConfig {
    AppConfig {
        name: "test".into(),
        wiki_repo: "/tmp/repo".into(),
        description: "Test wiki.".into(),
        runner: RunnerType::Generic,
        agent_command: vec!["echo".into(), "$PROMPT".into()],
        prompt_template_content: "Research: {question}".into(),
        vcs_workflow: VcsWorkflow::Unversioned,
        research_concurrency: 1,
        git_sync: None,
        mcp_instructions: "Test instructions.".into(),
        research_tool_description: "Test research tool.".into(),
        completed_task_ttl: Duration::from_secs(900),
        agent_timeout: Duration::from_secs(5),
    }
}

#[test]
fn agents_are_asked_with_the_prompt() {
    assert_eq!(
        agent_arguments(&config(), "why?"),
        ["echo", "Research: why?"]
    );
}

#[test]
fn agent_runs_give_answers_with_links() {
    let end = AgentEnd::Ended {
        success: true,
        status: "exit status: 0".into(),
        stdout: b"See [[DPO]] \xff.".to_vec(),
        stderr: vec![],
    };
    assert_eq!(
        run_agent(&config(), end, &wiki()).unwrap(),
        "See [DPO](wiki/concepts/DPO.md) \u{fffd}."
    );
}

#[test]
fn agent_texts_are_taken_as_they_are() {
    let end = AgentEnd::Ended {
        success: true,
        status: "exit status: 0".to_string(),
        stdout: " [[alignment|x]]\n".to_string(),
        stderr: "noise".to_string(),
    };
    assert_eq!(
        answer_of_text(&config(), end, &wiki()).unwrap(),
        " [x](wiki/topics/alignment.md)\n"
    );
}

#[test]
fn failed_agent_runs_say_why() {
    let lost = run_agent(
        &config(),
        AgentEnd::Lost("No such file or directory (os error 2)".into()),
        &wiki(),
    );
    assert_eq!(
        lost.unwrap_err().message(),
        "No such file or directory (os error 2)"
    );
    assert_eq!(
        run_agent(&config(), AgentEnd::TimedOut, &wiki())
            .unwrap_err()
            .message(),
        "agent timed out after 5s"
    );
    let end = AgentEnd::Ended {
        success: false,
        status: "exit status: 2".into(),
        stdout: b"ignored".to_vec(),
        stderr: b"  no key\n".to_vec(),
    };
    let err = run_agent(&config(), end, &wiki()).unwrap_err();
    assert_eq!(
        err,
        AgentError::Exited {
            status: "exit status: 2".into(),
            stderr: "no key".into(),
        }
    );
    assert_eq!(err.message(), "agent exited with exit status: 2: no key");
}
