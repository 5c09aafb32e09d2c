//! Agents that report their work as a stream of JSON events, one on a line.

use vstd::prelude::*;

use crate::runner::process;
use crate::runner::{FailureKind, RunnerError};
use crate::views;

verus! {

/// An event of the stream.
#[derive(Debug, PartialEq, Eq)]
pub enum Event<S = String> {
    /// A piece of the answer, or of something else.
    Stream { delta: Delta<S> },
    System(SystemEvent<S>),
    Result { result: Option<S> },
    Error(ErrorEvent<S>),
    Unknown,
}

/// A piece of what the agent writes.
#[derive(Debug, PartialEq, Eq)]
pub enum Delta<S = String> {
    TextDelta { text: S },
    Other,
}

/// A report about the agent's own work.
#[derive(Debug, PartialEq, Eq)]
pub enum SystemEvent<S = String> {
    ApiRetry { attempt: Option<u64>, error: Option<S> },
    Other,
}

/// The agent's report of a failure.
#[derive(Debug, PartialEq, Eq)]
pub struct ErrorEvent<S = String> {
    pub error: Option<ErrorDetails<S>>,
    pub message: Option<S>,
}

/// The details of a failure.
#[derive(Debug, PartialEq, Eq)]
pub struct ErrorDetails<S = String> {
    pub message: Option<S>,
}

impl DeepView for Delta<String> {
    type V = Delta<Seq<char>>;

    open spec fn deep_view(&self) -> Delta<Seq<char>> {
        match self {
            Delta::TextDelta { text } => Delta::TextDelta { text: text@ },
            Delta::Other => Delta::Other,
        }
    }
}

impl DeepView for SystemEvent<String> {
    type V = SystemEvent<Seq<char>>;

    open spec fn deep_view(&self) -> SystemEvent<Seq<char>> {
        match self {
            SystemEvent::ApiRetry { attempt, error } => SystemEvent::ApiRetry {
                attempt: *attempt,
                error: error.deep_view(),
            },
            SystemEvent::Other => SystemEvent::Other,
        }
    }
}

impl DeepView for ErrorDetails<String> {
    type V = ErrorDetails<Seq<char>>;

    open spec fn deep_view(&self) -> ErrorDetails<Seq<char>> {
        ErrorDetails { message: self.message.deep_view() }
    }
}

impl DeepView for ErrorEvent<String> {
    type V = ErrorEvent<Seq<char>>;

    open spec fn deep_view(&self) -> ErrorEvent<Seq<char>> {
        ErrorEvent { error: self.error.deep_view(), message: self.message.deep_view() }
    }
}

impl DeepView for Event<String> {
    type V = Event<Seq<char>>;

    open spec fn deep_view(&self) -> Event<Seq<char>> {
        match self {
            Event::Stream { delta } => Event::Stream { delta: delta.deep_view() },
            Event::System(event) => Event::System(event.deep_view()),
            Event::Result { result } => Event::Result { result: result.deep_view() },
            Event::Error(event) => Event::Error(event.deep_view()),
            Event::Unknown => Event::Unknown,
        }
    }
}

impl ErrorEvent<Seq<char>> {
    /// What the agent says about the failure: in its details, else in the event itself.
    pub open spec fn told(self) -> Seq<char> {
        let detail = match self.error {
            Some(details) => details.message,
            None => None,
        };
        match (detail, self.message) {
            (Some(message), _) => message,
            (None, Some(message)) => message,
            (None, None) => "unknown error"@,
        }
    }
}

impl ErrorEvent {
    /// What the agent says about the failure.
    pub fn message(&self) -> (res: String)
        ensures
            res@ == self.deep_view().told(),
    {
        match &self.error {
            Some(details) => match &details.message {
                Some(message) => return message.clone(),
                None => {},
            },
            None => {},
        }
        match &self.message {
            Some(message) => message.clone(),
            None => "unknown error".to_string(),
        }
    }
}

/// What is wrong with a stream.
#[derive(Debug, PartialEq, Eq)]
pub enum StreamJsonError<S = String> {
    InvalidJson(S),
    Agent(S),
}

impl StreamJsonError<Seq<char>> {
    /// What the error says.
    pub open spec fn says(self) -> Seq<char> {
        match self {
            StreamJsonError::InvalidJson(_) => "invalid JSON in stream"@,
            StreamJsonError::Agent(message) => "agent reported error: "@ + message,
        }
    }

    /// The failure of the run: a line that is no event breaks the framing, an error that the agent
    /// reports is one of the protocol.
    pub open spec fn failure(self) -> RunnerError<Seq<char>> {
        RunnerError::Other {
            kind: match self {
                StreamJsonError::InvalidJson(_) => FailureKind::Framing,
                StreamJsonError::Agent(_) => FailureKind::Protocol,
            },
            source: self.says(),
        }
    }
}

impl DeepView for StreamJsonError<String> {
    type V = StreamJsonError<Seq<char>>;

    open spec fn deep_view(&self) -> StreamJsonError<Seq<char>> {
        match self {
            StreamJsonError::InvalidJson(reason) => StreamJsonError::InvalidJson(reason@),
            StreamJsonError::Agent(message) => StreamJsonError::Agent(message@),
        }
    }
}

impl StreamJsonError {
    /// The message of the error.
    pub fn message(&self) -> (res: String)
        ensures
            res@ == self.deep_view().says(),
    {
        match self {
            StreamJsonError::InvalidJson(_) => "invalid JSON in stream".to_string(),
            StreamJsonError::Agent(message) => "agent reported error: ".to_string().concat(
                message.as_str(),
            ),
        }
    }

    /// The failure of the run.
    pub fn into_failure(self) -> (res: RunnerError)
        ensures
            res.deep_view() == self.deep_view().failure(),
    {
        let source = self.message();
        match self {
            StreamJsonError::InvalidJson(_) => RunnerError::Other {
                kind: FailureKind::Framing,
                source,
            },
            StreamJsonError::Agent(_) => RunnerError::Other { kind: FailureKind::Protocol, source },
        }
    }
}

/// A line of the stream as it was read.
#[derive(Debug, PartialEq, Eq)]
pub enum StreamLine<S = String> {
    Empty,
    Event(Event<S>),
    /// A line that is no event, with the reason.
    Invalid(S),
    /// A line that could not be read, with the reason.
    Unreadable(S),
}

impl DeepView for StreamLine<String> {
    type V = StreamLine<Seq<char>>;

    open spec fn deep_view(&self) -> StreamLine<Seq<char>> {
        match self {
            StreamLine::Empty => StreamLine::Empty,
            StreamLine::Event(event) => StreamLine::Event(event.deep_view()),
            StreamLine::Invalid(reason) => StreamLine::Invalid(reason@),
            StreamLine::Unreadable(reason) => StreamLine::Unreadable(reason@),
        }
    }
}

/// A line of the stream that could be read: nothing where it is empty, else its event, or the reason
/// why it is none.
pub open spec fn line_of(
    text: Seq<char>,
    event: Result<Event<Seq<char>>, Seq<char>>,
) -> StreamLine<Seq<char>> {
    if text.len() == 0 {
        StreamLine::Empty
    } else {
        match event {
            Ok(event) => StreamLine::Event(event),
            Err(reason) => StreamLine::Invalid(reason),
        }
    }
}

/// A line of the stream that could be read, given what its JSON stands for.
pub fn stream_line(text: &str, event: Result<Event, String>) -> (res: StreamLine)
    ensures
        res.deep_view() == line_of(text@, views::outcome(event)),
{
    if text.is_empty() {
        StreamLine::Empty
    } else {
        match event {
            Ok(event) => StreamLine::Event(event),
            Err(reason) => StreamLine::Invalid(reason),
        }
    }
}

/// The failure that a line brings, where it brings one.
pub open spec fn line_failure(line: StreamLine<Seq<char>>) -> Option<RunnerError<Seq<char>>> {
    match line {
        StreamLine::Event(Event::Error(event)) => Some(
            StreamJsonError::Agent(event.told()).failure(),
        ),
        StreamLine::Invalid(reason) => Some(StreamJsonError::InvalidJson(reason).failure()),
        StreamLine::Unreadable(source) => Some(
            RunnerError::Io { op: "reading stream-json line"@, source },
        ),
        _ => None,
    }
}

/// The first failure among the lines.
pub open spec fn first_failure(lines: Seq<StreamLine<Seq<char>>>) -> Option<RunnerError<Seq<char>>>
    decreases lines.len(),
{
    if lines.len() == 0 {
        None
    } else {
        match line_failure(lines[0]) {
            Some(failure) => Some(failure),
            None => first_failure(lines.drop_first()),
        }
    }
}

/// The text that the agent wrote piece by piece.
pub open spec fn written(lines: Seq<StreamLine<Seq<char>>>) -> Seq<char>
    decreases lines.len(),
{
    if lines.len() == 0 {
        Seq::empty()
    } else {
        let before = written(lines.drop_last());
        match lines.last() {
            StreamLine::Event(Event::Stream { delta: Delta::TextDelta { text } }) => before + text,
            _ => before,
        }
    }
}

/// The last result that the agent gave.
pub open spec fn final_result(lines: Seq<StreamLine<Seq<char>>>) -> Option<Seq<char>>
    decreases lines.len(),
{
    if lines.len() == 0 {
        None
    } else {
        match lines.last() {
            StreamLine::Event(Event::Result { result: Some(result) }) => Some(result),
            _ => final_result(lines.drop_last()),
        }
    }
}

/// The answer: the agent's result, else what it wrote, if anything.
pub open spec fn stream_answer(lines: Seq<StreamLine<Seq<char>>>) -> Option<Seq<char>> {
    match final_result(lines) {
        Some(result) => Some(result),
        None => if written(lines).len() > 0 {
            Some(written(lines))
        } else {
            None
        },
    }
}

/// How the agent's process ended: with an exit code if it has one, or it could not be waited for.
#[derive(Debug, PartialEq, Eq)]
pub enum Exit<S = String> {
    Code(Option<i32>),
    Lost(S),
}

impl DeepView for Exit<String> {
    type V = Exit<Seq<char>>;

    open spec fn deep_view(&self) -> Exit<Seq<char>> {
        match self {
            Exit::Code(code) => Exit::Code(*code),
            Exit::Lost(reason) => Exit::Lost(reason@),
        }
    }
}

/// Whether the agent's process ended well.
pub open spec fn ended(exit: Exit<Seq<char>>) -> Result<(), RunnerError<Seq<char>>> {
    match exit {
        Exit::Code(code) => process::exit_check(code),
        Exit::Lost(source) => Err(RunnerError::Io { op: "waiting for child"@, source }),
    }
}

/// Whether the agent's process ended well.
pub fn check_exit(exit: Exit) -> (res: Result<(), RunnerError>)
    ensures
        views::outcome(res) == ended(exit.deep_view()),
{
    match exit {
        Exit::Code(code) => process::ensure_success(code),
        Exit::Lost(source) => Err(
            RunnerError::Io { op: "waiting for child".to_string(), source },
        ),
    }
}

/// The outcome of a run: the first failure in the stream, else a failure of the process, else the
/// answer.
pub open spec fn stream_outcome(lines: Seq<StreamLine<Seq<char>>>, exit: Exit<Seq<char>>) -> Result<
    Option<Seq<char>>,
    RunnerError<Seq<char>>,
> {
    match first_failure(lines) {
        Some(failure) => Err(failure),
        None => match ended(exit) {
            Ok(u) => Ok(stream_answer(lines)),
            Err(e) => Err(e),
        },
    }
}

/// What has been read of a stream. Its view is the lines so far, none of which is a failure.
pub struct StreamJsonParser {
    accumulated_text: String,
    final_result: Option<String>,
    lines: Ghost<Seq<StreamLine<Seq<char>>>>,
}

impl View for StreamJsonParser {
    type V = Seq<StreamLine<Seq<char>>>;

    closed spec fn view(&self) -> Seq<StreamLine<Seq<char>>> {
        self.lines@
    }
}

impl StreamJsonParser {
    /// Whether the parser holds what its lines say.
    pub closed spec fn wf(self) -> bool {
        &&& self.accumulated_text@ == written(self.lines@)
        &&& self.final_result.deep_view() == final_result(self.lines@)
        &&& first_failure(self.lines@) is None
    }

    /// The start of a stream.
    pub fn new() -> (res: Self)
        ensures
            res.wf(),
            res@ == Seq::<StreamLine<Seq<char>>>::empty(),
    {
        StreamJsonParser {
            accumulated_text: String::new(),
            final_result: None,
            lines: Ghost(Seq::empty()),
        }
    }

    /// Reads a line. A failure ends the run, and the line is not taken in.
    pub fn read(&mut self, line: StreamLine) -> (res: Result<(), RunnerError>)
        requires
            old(self).wf(),
        ensures
            final(self).wf(),
            match line_failure(line.deep_view()) {
                Some(failure) => views::outcome(res) == Err::<(), _>(failure) && final(self)@ == old(
                    self,
                )@,
                None => res is Ok && final(self)@ == old(self)@.push(line.deep_view()),
            },
    {
        let ghost before = self.lines@;
        let ghost seen = line.deep_view();
        match line {
            StreamLine::Empty => {},
            StreamLine::Invalid(reason) => {
                return Err(StreamJsonError::InvalidJson(reason).into_failure());
            },
            StreamLine::Unreadable(source) => {
                return Err(
                    RunnerError::Io { op: "reading stream-json line".to_string(), source },
                );
            },
            StreamLine::Event(event) => match event {
                Event::Stream { delta } => match delta {
                    Delta::TextDelta { text } => {
                        self.accumulated_text.append(text.as_str());
                    },
                    Delta::Other => {},
                },
                Event::System(_) => {},
                Event::Result { result } => match result {
                    Some(result) => {
                        self.final_result = Some(result);
                    },
                    None => {},
                },
                Event::Error(event) => {
                    return Err(StreamJsonError::Agent(event.message()).into_failure());
                },
                Event::Unknown => {},
            },
        }
        self.lines = Ghost(before.push(seen));
        proof {
            assert(before.push(seen).drop_last() =~= before);
            lemma_failure_push(before, seen);
        }
        Ok(())
    }

    /// The outcome of the run, once the stream has ended and the process with it.
    pub fn finish(self, exit: Exit) -> (res: Result<Option<String>, RunnerError>)
        requires
            self.wf(),
        ensures
            views::outcome(res) == stream_outcome(self@, exit.deep_view()),
    {
        match check_exit(exit) {
            Ok(()) => {},
            Err(e) => return Err(e),
        }
        match self.final_result {
            Some(result) => Ok(Some(result)),
            None => if self.accumulated_text.as_str().is_empty() {
                Ok(None)
            } else {
                Ok(Some(self.accumulated_text))
            },
        }
    }
}

proof fn lemma_failure_push(lines: Seq<StreamLine<Seq<char>>>, line: StreamLine<Seq<char>>)
    ensures
        first_failure(lines) is None ==> first_failure(lines.push(line)) == line_failure(line),
    decreases lines.len(),
{
    reveal_with_fuel(first_failure, 2);
    if lines.len() > 0 {
        assert(lines.push(line)[0] == lines[0]);
        assert(lines.push(line).drop_first() =~= lines.drop_first().push(line));
        lemma_failure_push(lines.drop_first(), line);
    } else {
        assert(lines.push(line)[0] == line);
        assert(lines.push(line).drop_first() =~= Seq::empty());
    }
}

/// What follows a failure in the stream does not change the outcome.
pub proof fn first_failure_decides(
    lines: Seq<StreamLine<Seq<char>>>,
    more: Seq<StreamLine<Seq<char>>>,
    exit: Exit<Seq<char>>,
    other: Exit<Seq<char>>,
)
    requires
        first_failure(lines) is Some,
    ensures
        stream_outcome(lines + more, exit) == stream_outcome(lines, other),
    decreases lines.len(),
{
    if lines.len() > 0 {
        assert((lines + more)[0] == lines[0]);
        assert((lines + more).drop_first() =~= lines.drop_first() + more);
        if line_failure(lines[0]) is None {
            first_failure_decides(lines.drop_first(), more, exit, other);
        }
    }
}

/// The outcome of a run whose lines have all been read.
pub fn parse_stream_json(lines: Vec<StreamLine>, exit: Exit) -> (res: Result<
    Option<String>,
    RunnerError,
>)
    ensures
        views::outcome(res) == stream_outcome(lines.deep_view(), exit.deep_view()),
{
    let ghost all = lines.deep_view();
    let mut rest = lines;
    let ghost mut taken: int = 0;
    let mut parser = StreamJsonParser::new();
    assert(all.take(0) =~= Seq::empty());
    while rest.len() > 0
        invariant
            parser.wf(),
            0 <= taken <= all.len(),
            parser@ == all.take(taken),
            rest.deep_view() == all.skip(taken),
            all == lines.deep_view(),
        decreases rest@.len(),
    {
        assert(rest.deep_view()[0] == rest@[0].deep_view());
        let ghost before = rest.deep_view();
        let line = rest.remove(0);
        let ghost seen = line.deep_view();
        assert(before.len() > 0 && before[0] == seen);
        assert(seen == all[taken]);
        assert(rest.deep_view() =~= before.drop_first());
        assert(all.take(taken + 1) =~= all.take(taken).push(seen));
        match parser.read(line) {
            Ok(()) => {},
            Err(e) => {
                proof {
                    lemma_parsed_clean(parser);
                    lemma_failure_push(all.take(taken), seen);
                    first_failure_decides(
                        all.take(taken + 1),
                        all.skip(taken + 1),
                        exit.deep_view(),
                        exit.deep_view(),
                    );
                    assert(all.take(taken + 1) + all.skip(taken + 1) =~= all);
                }
                return Err(e);
            },
        }
        proof {
            taken = taken + 1;
            assert(all.skip(taken) =~= before.drop_first());
        }
    }
    assert(all.take(taken) =~= all);
    parser.finish(exit)
}

proof fn lemma_parsed_clean(parser: StreamJsonParser)
    requires
        parser.wf(),
    ensures
        first_failure(parser@) is None,
{
}

/// The runner of agents that report a stream of JSON events.
#[derive(Debug, Clone, Copy, PartialEq, Eq, Structural)]
pub struct StreamJsonRunner;

/// Whether a line brings a text of the answer's pieces.
pub open spec fn is_piece(line: StreamLine<Seq<char>>) -> bool {
    line matches StreamLine::Event(Event::Stream { delta: _ })
}

proof fn lemma_no_failure(lines: Seq<StreamLine<Seq<char>>>)
    requires
        forall|k: int| 0 <= k < lines.len() ==> line_failure(#[trigger] lines[k]) is None,
    ensures
        first_failure(lines) is None,
    decreases lines.len(),
{
    if lines.len() > 0 {
        lemma_no_failure(lines.drop_first());
    }
}

proof fn lemma_final_result(lines: Seq<StreamLine<Seq<char>>>, i: int, result: Seq<char>)
    requires
        0 <= i < lines.len(),
        lines[i] == StreamLine::Event(Event::Result { result: Some(result) }),
        forall|k: int|
            i < k < lines.len() ==> !(#[trigger] lines[k] matches StreamLine::Event(
                Event::Result { result: Some(_) },
            )),
    ensures
        final_result(lines) == Some(result),
    decreases lines.len(),
{
    if i < lines.len() - 1 {
        assert(lines[lines.len() - 1] == lines.last());
        lemma_final_result(lines.drop_last(), i, result);
    }
}

proof fn lemma_no_result(lines: Seq<StreamLine<Seq<char>>>)
    requires
        forall|k: int|
            0 <= k < lines.len() ==> !(#[trigger] lines[k] matches StreamLine::Event(
                Event::Result { result: Some(_) },
            )),
    ensures
        final_result(lines) is None,
    decreases lines.len(),
{
    if lines.len() > 0 {
        assert(lines[lines.len() - 1] == lines.last());
        lemma_no_result(lines.drop_last());
    }
}

/// Which lines end a run: the agent's reports of an error, and lines that are no events or could
/// not be read. Pieces of text, results, reports about the agent's work, unknown events and empty
/// lines do not.
pub proof fn only_errors_fail_a_run(
    delta: Delta<Seq<char>>,
    system: SystemEvent<Seq<char>>,
    result: Option<Seq<char>>,
    error: ErrorEvent<Seq<char>>,
    reason: Seq<char>,
)
    ensures
        line_failure(StreamLine::Empty) is None,
        line_failure(StreamLine::Event(Event::Stream { delta })) is None,
        line_failure(StreamLine::Event(Event::System(system))) is None,
        line_failure(StreamLine::Event(Event::Result { result })) is None,
        line_failure(StreamLine::Event(Event::Unknown)) is None,
        line_failure(StreamLine::Event(Event::Error(error))) == Some(
            RunnerError::Other {
                kind: FailureKind::Protocol,
                source: "agent reported error: "@ + error.told(),
            },
        ),
        line_failure(StreamLine::Invalid(reason)) == Some(
            RunnerError::Other { kind: FailureKind::Framing, source: "invalid JSON in stream"@ },
        ),
        line_failure(StreamLine::Unreadable(reason)) == Some(
            RunnerError::Io { op: "reading stream-json line"@, source: reason },
        ),
{
}

/// What an agent says of an error stands in the details of its report, else in the report itself.
pub proof fn errors_are_told_in_detail(
    message: Seq<char>,
    other: Option<Seq<char>>,
    details: Option<ErrorDetails<Seq<char>>>,
)
    requires
        details matches Some(d) ==> d.message is None,
    ensures
        (ErrorEvent { error: Some(ErrorDetails { message: Some(message) }), message: other }).told()
            == message,
        (ErrorEvent { error: details, message: Some(message) }).told() == message,
        (ErrorEvent { error: details, message: None }).told() == "unknown error"@,
{
}

/// The result that an agent gives last is its answer, whatever else it wrote: two streams that
/// differ in the pieces of text alone have the same outcome.
pub proof fn last_result_is_the_answer(
    lines: Seq<StreamLine<Seq<char>>>,
    others: Seq<StreamLine<Seq<char>>>,
    i: int,
    result: Seq<char>,
)
    requires
        0 <= i < lines.len(),
        forall|k: int| 0 <= k < lines.len() ==> line_failure(#[trigger] lines[k]) is None,
        lines[i] == StreamLine::Event(Event::Result { result: Some(result) }),
        forall|k: int|
            i < k < lines.len() ==> !(#[trigger] lines[k] matches StreamLine::Event(
                Event::Result { result: Some(_) },
            )),
        others.len() == lines.len(),
        forall|k: int|
            0 <= k < lines.len() ==> (#[trigger] others[k] == lines[k] || is_piece(others[k])
                && is_piece(lines[k])),
    ensures
        stream_outcome(lines, Exit::Code(Some(0))) == Ok::<_, RunnerError<Seq<char>>>(Some(result)),
        stream_outcome(others, Exit::Code(Some(0))) == Ok::<_, RunnerError<Seq<char>>>(Some(result)),
{
    assert forall|k: int| 0 <= k < others.len() implies line_failure(#[trigger] others[k]) is None by {
        assert(line_failure(lines[k]) is None);
    }
    assert forall|k: int| i < k < others.len() implies !(#[trigger] others[k] matches StreamLine::Event(
        Event::Result { result: Some(_) },
    )) by {
        assert(others[k] == lines[k] || is_piece(others[k]));
    }
    assert(others[i] == lines[i]);
    lemma_no_failure(lines);
    lemma_no_failure(others);
    lemma_final_result(lines, i, result);
    lemma_final_result(others, i, result);
}

/// Without a result the answer is what the agent wrote, all its pieces in their order; an agent that
/// wrote nothing either gave no answer.
pub proof fn pieces_are_the_answer(
    lines: Seq<StreamLine<Seq<char>>>,
    line: StreamLine<Seq<char>>,
    piece: Seq<char>,
)
    requires
        forall|k: int| 0 <= k < lines.len() ==> line_failure(#[trigger] lines[k]) is None,
        forall|k: int|
            0 <= k < lines.len() ==> !(#[trigger] lines[k] matches StreamLine::Event(
                Event::Result { result: Some(_) },
            )),
        line_failure(line) is None,
        !(line matches StreamLine::Event(Event::Result { result: Some(_) })),
        !(line matches StreamLine::Event(Event::Stream { delta: Delta::TextDelta { text: _ } })),
    ensures
        written(Seq::empty()) == Seq::<char>::empty(),
        written(
            lines.push(
                StreamLine::Event(Event::Stream { delta: Delta::TextDelta { text: piece } }),
            ),
        ) == written(lines) + piece,
        written(lines.push(line)) == written(lines),
        stream_outcome(lines, Exit::Code(Some(0))) == Ok::<_, RunnerError<Seq<char>>>(
            if written(lines) == Seq::<char>::empty() {
                None
            } else {
                Some(written(lines))
            },
        ),
{
    let more = StreamLine::Event(Event::Stream { delta: Delta::TextDelta { text: piece } });
    assert(lines.push(more).drop_last() =~= lines);
    assert(lines.push(line).drop_last() =~= lines);
    lemma_no_failure(lines);
    lemma_no_result(lines);
    if written(lines).len() == 0 {
        assert(written(lines) =~= Seq::empty());
    }
}

/// A run whose stream is sound fails where its process ended with anything but the code zero.
pub proof fn failed_processes_fail_the_run(
    lines: Seq<StreamLine<Seq<char>>>,
    code: Option<i32>,
    reason: Seq<char>,
)
    requires
        forall|k: int| 0 <= k < lines.len() ==> line_failure(#[trigger] lines[k]) is None,
        code != Some(0i32),
    ensures
        stream_outcome(lines, Exit::Code(code)) is Err,
        stream_outcome(lines, Exit::Lost(reason)) == Err::<Option<Seq<char>>, _>(
            RunnerError::Io { op: "waiting for child"@, source: reason },
        ),
{
    lemma_no_failure(lines);
}

/// An empty line is no event; any other is what its JSON stands for.
pub proof fn lines_are_their_events(
    text: Seq<char>,
    event: Event<Seq<char>>,
    reason: Seq<char>,
    parsed: Result<Event<Seq<char>>, Seq<char>>,
)
    requires
        text.len() > 0,
    ensures
        line_of(Seq::empty(), parsed) is Empty,
        line_of(text, Ok(event)) == StreamLine::Event(event),
        line_of(text, Err(reason)) == StreamLine::<Seq<char>>::Invalid(reason),
{
}

} // verus!
