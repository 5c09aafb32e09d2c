//! What agents write, and what becomes of it.

use wikidesk::duration::Duration;
use wikidesk::runner::acp::{
    handle_session_update, AcpOp, AcpRunner, SessionEnd, SessionUpdate,
};
use wikidesk::runner::generic::{GenericRunner, Waited};
use wikidesk::runner::process::{ensure_success, substitute_prompt, BoundedLineBuffer};
use wikidesk::runner::stream_json::{
    parse_stream_json, stream_line, Delta, ErrorDetails, ErrorEvent, Event, Exit,
    StreamJsonError, StreamJsonParser, StreamLine, SystemEvent,
};
use wikidesk::runner::{ConfiguredAgentRunner, FailureKind, RunnerError, RunnerType};

const TIMEOUT: u64 = 5;

fn timeout() -> Duration {
    Duration::from_secs(TIMEOUT)
}

fn ended(code: i32, stdout: &str) -> Waited<Vec<u8>> {
    Waited::Ended {
        exit: Exit::Code(Some(code)),
        stdout: stdout.as_bytes().to_vec(),
    }
}

fn text_delta(text: &str) -> StreamLine {
    StreamLine::Event(Event::Stream {
        delta: Delta::TextDelta { text: text.into() },
    })
}

fn result(text: Option<&str>) -> StreamLine {
    StreamLine::Event(Event::Result {
        result: text.map(|text| text.to_string()),
    })
}

fn ok() -> Exit {
    Exit::Code(Some(0))
}

#[test]
fn generic_runner_captures_stdout() {
    let result = GenericRunner
        .outcome(ended(0, "hello world\n"), timeout())
        .unwrap()
        .unwrap();
    assert_eq!(result.trim(), "hello world");
}

#[test]
fn generic_runner_substitutes_prompt() {
    let args = substitute_prompt(&vec!["echo".into(), "$PROMPT".into()], "the prompt");
    assert_eq!(args, ["echo", "the prompt"]);
    let runner = ConfiguredAgentRunner::new(
        RunnerType::Generic,
        vec!["echo".into(), "$PROMPT".into(), "x$PROMPT".into()],
        timeout(),
    );
    assert_eq!(
        runner.arguments("the prompt"),
        ["echo", "the prompt", "x$PROMPT"]
    );
}

#[test]
fn generic_runner_reports_nonzero_exit() {
    match GenericRunner.outcome(ended(42, ""), timeout()) {
        Err(RunnerError::Exited { exit_code }) => assert_eq!(exit_code, 42),
        other => panic!("expected Exited, got {other:?}"),
    }
}

#[test]
fn generic_runner_empty_stdout_returns_none() {
    assert_eq!(GenericRunner.outcome(ended(0, ""), timeout()).unwrap(), None);
}

#[test]
fn generic_runner_timeout() {
    let result = GenericRunner.outcome(Waited::TimedOut, Duration::from_millis(100));
    assert!(matches!(result, Err(RunnerError::Timeout { .. })));
    let message = GenericRunner
        .outcome(Waited::TimedOut, Duration::from_millis(2900))
        .unwrap_err()
        .message();
    assert_eq!(message, "agent timed out after 2s");
}

#[test]
fn output_that_is_no_text_is_mended() {
    let waited = Waited::Ended {
        exit: ok(),
        stdout: vec![b'a', 0xff, b'b'],
    };
    assert_eq!(
        GenericRunner.outcome(waited, timeout()).unwrap(),
        Some("a\u{fffd}b".to_string())
    );
}

#[test]
fn agents_without_an_exit_code_failed() {
    assert_eq!(
        ensure_success(None).unwrap_err(),
        RunnerError::Exited { exit_code: -1 }
    );
    assert_eq!(ensure_success(Some(0)), Ok(()));
    assert_eq!(
        ensure_success(Some(-7)).unwrap_err().message(),
        "process exited with code -7"
    );
    let lost: Waited<Vec<u8>> = Waited::Ended {
        exit: Exit::Lost("interrupted".into()),
        stdout: vec![],
    };
    assert_eq!(
        GenericRunner.outcome(lost, timeout()).unwrap_err(),
        RunnerError::Io {
            op: "waiting for child".into(),
            source: "interrupted".into(),
        }
    );
}

#[test]
fn stream_json_runner_parses_result_event() {
    let answer = parse_stream_json(vec![result(Some("the answer"))], ok())
        .unwrap()
        .unwrap();
    assert_eq!(answer, "the answer");
}

#[test]
fn stream_json_runner_accumulates_text_deltas() {
    let answer = parse_stream_json(
        vec![
            StreamLine::Empty,
            text_delta("hello "),
            text_delta("world"),
        ],
        ok(),
    )
    .unwrap()
    .unwrap();
    assert_eq!(answer, "hello world");
}

#[test]
fn stream_json_runner_prefers_result_over_accumulated() {
    let answer = parse_stream_json(
        vec![text_delta("partial"), result(Some("final answer"))],
        ok(),
    )
    .unwrap()
    .unwrap();
    assert_eq!(answer, "final answer");
}

#[test]
fn stream_json_runner_fails_on_invalid_json() {
    let result = parse_stream_json(vec![StreamLine::Invalid("not json".into())], ok());
    assert!(matches!(
        result,
        Err(RunnerError::Other {
            kind: FailureKind::Framing,
            ..
        })
    ));
}

#[test]
fn stream_json_runner_returns_none_on_empty_stream() {
    assert_eq!(parse_stream_json(vec![], ok()).unwrap(), None);
}

#[test]
fn events_that_say_nothing_change_nothing() {
    let lines = vec![
        StreamLine::Event(Event::Unknown),
        StreamLine::Event(Event::System(SystemEvent::Other)),
        StreamLine::Event(Event::System(SystemEvent::ApiRetry {
            attempt: Some(1),
            error: None,
        })),
        StreamLine::Event(Event::Stream {
            delta: Delta::Other,
        }),
        text_delta("x"),
    ];
    assert_eq!(parse_stream_json(lines, ok()), Ok(Some("x".to_string())));
}

#[test]
fn empty_lines_are_passed_over() {
    assert_eq!(stream_line("", Err("no value".into())), StreamLine::Empty);
    assert_eq!(
        stream_line(" ", Err("no value".into())),
        StreamLine::Invalid("no value".into())
    );
    assert_eq!(
        stream_line("{}", Ok(Event::Unknown)),
        StreamLine::Event(Event::Unknown)
    );
}

#[test]
fn first_failures_decide() {
    let error = |message: Option<&str>, inner: Option<&str>| {
        StreamLine::Event(Event::Error(ErrorEvent {
            error: inner.map(|inner| ErrorDetails {
                message: Some(inner.to_string()),
            }),
            message: message.map(|message| message.to_string()),
        }))
    };
    let reported = parse_stream_json(
        vec![
            text_delta("x"),
            error(None, Some("overloaded")),
            StreamLine::Invalid("later".into()),
        ],
        ok(),
    );
    assert_eq!(
        reported.unwrap_err(),
        RunnerError::Other {
            kind: FailureKind::Protocol,
            source: "agent reported error: overloaded".into(),
        }
    );
    assert_eq!(
        parse_stream_json(vec![text_delta("x")], Exit::Code(Some(3))).unwrap_err(),
        RunnerError::Exited { exit_code: 3 }
    );
    let mut parser = StreamJsonParser::new();
    assert!(parser.read(text_delta("x")).is_ok());
    assert!(parser.read(StreamLine::Unreadable("gone".into())).is_err());
}

#[test]
fn reported_errors_have_a_message() {
    let event = |error: Option<Option<&str>>, message: Option<&str>| ErrorEvent {
        error: error.map(|inner| ErrorDetails {
            message: inner.map(|inner| inner.to_string()),
        }),
        message: message.map(|message| message.to_string()),
    };
    assert_eq!(event(Some(Some("inner")), Some("outer")).message(), "inner");
    assert_eq!(event(Some(None), Some("outer")).message(), "outer");
    assert_eq!(event(None, Some("outer")).message(), "outer");
    assert_eq!(
        StreamJsonError::Agent("x".to_string()).message(),
        "agent reported error: x"
    );
}

#[test]
fn failures_are_named_by_their_kind() {
    assert_eq!(FailureKind::Framing.message(), "framing");
    let other = RunnerError::Other {
        kind: FailureKind::Protocol,
        source: "x".into(),
    };
    assert_eq!(other.message(), "protocol failure");
    assert_eq!(
        RunnerError::Spawn("x".to_string()).message(),
        "failed to spawn subprocess"
    );
    assert!(RunnerType::StreamJson.requires_prompt_placeholder());
    assert!(!RunnerType::Acp.requires_prompt_placeholder());
}

#[test]
fn sessions_collect_what_the_agent_says() {
    let updates = vec![
        SessionUpdate::AgentMessageChunk {
            text: Some("a".into()),
        },
        SessionUpdate::ToolCall,
        SessionUpdate::AgentMessageChunk { text: None },
        SessionUpdate::Plan,
        SessionUpdate::AgentMessageChunk {
            text: Some("b".into()),
        },
        SessionUpdate::Other,
    ];
    let mut answer = String::new();
    for update in updates {
        handle_session_update(&mut answer, update);
    }
    assert_eq!(answer, "ab");
    handle_session_update(&mut answer, SessionUpdate::ToolCallUpdate);
    assert_eq!(answer, "ab");
}

#[test]
fn sessions_end_with_an_answer_or_a_failure() {
    let outcome = |end, answer: &str| AcpRunner.outcome(end, answer.to_string(), timeout());
    assert_eq!(
        outcome(SessionEnd::Completed, "4").unwrap(),
        Some("4".to_string())
    );
    assert_eq!(outcome(SessionEnd::Completed, "").unwrap(), None);
    assert_eq!(
        outcome(SessionEnd::TimedOut, "4").unwrap_err(),
        RunnerError::Timeout { secs: TIMEOUT }
    );
    assert_eq!(
        outcome(
            SessionEnd::Failed {
                operation: AcpOp::NewSession,
                source: "refused".into(),
            },
            ""
        )
        .unwrap_err(),
        RunnerError::Other {
            kind: FailureKind::Protocol,
            source: "ACP new_session failed: refused".into(),
        }
    );
}

#[test]
fn sessions_go_through_their_steps() {
    let mut steps = vec![AcpOp::Connect];
    while let Some(next) = steps[steps.len() - 1].next() {
        steps.push(next);
    }
    assert_eq!(
        steps,
        [
            AcpOp::Connect,
            AcpOp::Initialize,
            AcpOp::NewSession,
            AcpOp::Prompt
        ]
    );
}

#[test]
fn bounded_line_buffer_drops_oldest_when_over_cap() {
    let mut buf = BoundedLineBuffer::new(10);
    buf.push_line("aaaa\n".into()); // 5 bytes, total 5
    buf.push_line("bbbb\n".into()); // 5 bytes, total 10
    buf.push_line("cccc\n".into()); // 5 bytes, total 15 -> drops "aaaa\n", total 10
    let rendered = buf.render();
    assert!(rendered.contains("1 earlier lines omitted"));
    assert!(rendered.contains("bbbb\ncccc\n"));
    assert!(!rendered.contains("aaaa"));
}

#[test]
fn bounded_line_buffer_keeps_single_oversized_line() {
    let mut buf = BoundedLineBuffer::new(10);
    buf.push_line("xxxxxxxxxxxxxxxx\n".into()); // 17 bytes, over cap but only line
    let rendered = buf.render();
    assert!(!rendered.contains("omitted"));
    assert!(rendered.contains("xxxxxxxxxxxxxxxx"));
}

#[test]
fn bounded_line_buffer_counts_bytes() {
    let mut buf = BoundedLineBuffer::new(3);
    buf.push_line("é".into());
    buf.push_line("é".into());
    assert_eq!(buf.render(), "... (1 earlier lines omitted)\né");
}

#[test]
fn bounded_line_buffer_shows_the_longest_tail_of_all_lines() {
    let mut buf = BoundedLineBuffer::new(6);
    for line in ["aaaa", "bbb", "cc", "d", "eee"] {
        buf.push_line(line.into());
    }
    assert_eq!(buf.render(), "... (2 earlier lines omitted)\nccdeee");
    buf.push_line("ffffffff".into());
    assert_eq!(buf.render(), "... (5 earlier lines omitted)\nffffffff");
    buf.push_line("g".into());
    assert_eq!(buf.render(), "... (6 earlier lines omitted)\ng");
}
