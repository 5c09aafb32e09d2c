//! The agent process: its arguments, its exit, and the tail of its error output.

use std::collections::VecDeque;

use vstd::prelude::*;

use crate::config::PROMPT_PLACEHOLDER;
use crate::runner::RunnerError;
use crate::text;
use crate::views;

verus! {

/// `command` with the prompt in place of each placeholder.
pub open spec fn with_prompt(command: Seq<Seq<char>>, prompt: Seq<char>) -> Seq<Seq<char>> {
    command.map_values(|a: Seq<char>| if a == PROMPT_PLACEHOLDER@ { prompt } else { a })
}

/// The arguments of an agent process.
pub fn substitute_prompt(command: &Vec<String>, prompt: &str) -> (res: Vec<String>)
    ensures
        res.deep_view() == with_prompt(command.deep_view(), prompt@),
{
    let mut out: Vec<String> = Vec::new();
    let n: usize = command.len();
    let mut i: usize = 0;
    while i < n
        invariant
            n == command@.len(),
            i <= n,
            out@.len() == i,
            out.deep_view() =~= with_prompt(command.deep_view(), prompt@).take(i as int),
        decreases n - i,
    {
        let ghost before = out;
        if text::same(command[i].as_str(), PROMPT_PLACEHOLDER) {
            out.push(prompt.to_string());
        } else {
            out.push(command[i].clone());
        }
        assert(out.deep_view() =~= before.deep_view().push(
            with_prompt(command.deep_view(), prompt@)[i as int],
        ));
        i = i + 1;
    }
    assert(with_prompt(command.deep_view(), prompt@).take(n as int) =~= with_prompt(
        command.deep_view(),
        prompt@,
    ));
    out
}

/// How a process ended: with an exit code, or without one where a signal ended it.
pub open spec fn exit_check(exit_code: Option<i32>) -> Result<(), RunnerError<Seq<char>>> {
    match exit_code {
        Some(code) => if code == 0 {
            Ok(())
        } else {
            Err(RunnerError::Exited { exit_code: code })
        },
        None => Err(RunnerError::Exited { exit_code: (-1) as i32 }),
    }
}

/// Accepts an exit with code zero and nothing else.
pub fn ensure_success(exit_code: Option<i32>) -> (res: Result<(), RunnerError>)
    ensures
        views::outcome(res) == exit_check(exit_code),
{
    match exit_code {
        Some(code) => if code == 0 {
            Ok(())
        } else {
            Err(RunnerError::Exited { exit_code: code })
        },
        None => Err(RunnerError::Exited { exit_code: -1 }),
    }
}

/// How much of an agent's error output is kept, in bytes.
pub const STDERR_MAX_BYTES: usize = 16384;

/// The number of bytes of a text in UTF-8.
pub open spec fn byte_len(s: Seq<char>) -> nat {
    vstd::utf8::encode_utf8(s).len()
}

/// The number of bytes of all lines together.
pub open spec fn total_len(lines: Seq<Seq<char>>) -> nat
    decreases lines.len(),
{
    if lines.len() == 0 {
        0
    } else {
        byte_len(lines[0]) + total_len(lines.drop_first())
    }
}

/// The lines that are kept of `lines`: the oldest go until the rest fits, but the last stays.
pub open spec fn keep(lines: Seq<Seq<char>>, max_bytes: nat) -> Seq<Seq<char>>
    decreases lines.len(),
{
    if lines.len() > 1 && total_len(lines) > max_bytes {
        keep(lines.drop_first(), max_bytes)
    } else {
        lines
    }
}

/// What the buffer holds.
pub struct Kept {
    pub lines: Seq<Seq<char>>,
    pub dropped: nat,
}

/// What the buffer holds after one line more: the oldest lines go until the rest fits the limit, but
/// the new line stays.
pub open spec fn with_line(kept: Kept, line: Seq<char>, max_bytes: nat) -> Kept {
    let lines = keep(kept.lines.push(line), max_bytes);
    Kept { lines, dropped: (kept.dropped + kept.lines.len() + 1 - lines.len()) as nat }
}

/// What a new buffer holds after lines were added one by one.
pub open spec fn after_lines(lines: Seq<Seq<char>>, max_bytes: nat) -> Kept
    decreases lines.len(),
{
    if lines.len() == 0 {
        Kept { lines: Seq::empty(), dropped: 0 }
    } else {
        with_line(after_lines(lines.drop_last(), max_bytes), lines.last(), max_bytes)
    }
}

/// The most recent lines of an output, bounded by their total size.
pub struct BoundedLineBuffer {
    lines: VecDeque<String>,
    total_bytes: usize,
    dropped_lines: usize,
    max_bytes: usize,
}

impl View for BoundedLineBuffer {
    type V = Kept;

    closed spec fn view(&self) -> Kept {
        Kept { lines: self.lines.deep_view(), dropped: self.dropped_lines as nat }
    }
}

impl BoundedLineBuffer {
    /// The limit the buffer was made with.
    pub closed spec fn limit(&self) -> nat {
        self.max_bytes as nat
    }

    /// The byte count is that of the lines held, and more than the limit only for a single line.
    pub closed spec fn wf(&self) -> bool {
        &&& self.total_bytes == total_len(self.lines.deep_view())
        &&& self.lines@.len() > 1 ==> self.total_bytes <= self.max_bytes
    }

    /// An empty buffer.
    pub fn new(max_bytes: usize) -> (res: Self)
        ensures
            res.wf(),
            res.limit() == max_bytes,
            res@ == after_lines(Seq::empty(), max_bytes as nat),
    {
        let res = Self { lines: VecDeque::new(), total_bytes: 0, dropped_lines: 0, max_bytes };
        assert(res.lines.deep_view() =~= Seq::<Seq<char>>::empty());
        res
    }

    /// Adds a line; the oldest lines go until the rest fits the limit, but the new line stays.
    pub fn push_line(&mut self, line: String)
        requires
            old(self).wf(),
            total_len(old(self)@.lines) + byte_len(line@) <= usize::MAX,
            with_line(old(self)@, line@, old(self).limit()).dropped <= usize::MAX,
        ensures
            final(self).wf(),
            final(self).limit() == old(self).limit(),
            final(self)@ == with_line(old(self)@, line@, old(self).limit()),
    {
        let ghost before = self.lines.deep_view();
        proof {
            lemma_total_push(before, line@);
        }
        self.total_bytes = self.total_bytes + line.as_str().len();
        self.lines.push_back(line);
        let ghost full = before.push(line@);
        assert(self.lines.deep_view() =~= full);
        let ghost limit = self.max_bytes;
        let ghost most = with_line(old(self)@, line@, limit as nat).dropped;
        proof {
            kept_lines_are_the_longest_tail(full, limit as nat);
        }
        while self.total_bytes > self.max_bytes && self.lines.len() > 1
            invariant
                self.total_bytes == total_len(self.lines.deep_view()),
                self.max_bytes == limit,
                limit == old(self).max_bytes,
                keep(full, limit as nat) == keep(self.lines.deep_view(), limit as nat),
                full == before.push(line@),
                before == old(self)@.lines,
                self.dropped_lines == old(self)@.dropped + full.len() - self.lines@.len(),
                0 < self.lines@.len() <= full.len(),
                most == old(self)@.dropped + full.len() - keep(full, limit as nat).len(),
                most <= usize::MAX,
            decreases self.lines@.len(),
        {
            let ghost cur = self.lines.deep_view();
            proof {
                kept_lines_are_the_longest_tail(cur.drop_first(), limit as nat);
            }
            let dropped = self.lines.pop_front().unwrap();
            assert(self.lines.deep_view() =~= cur.drop_first());
            assert(dropped@ == cur[0]);
            self.total_bytes = self.total_bytes - dropped.as_str().len();
            self.dropped_lines = self.dropped_lines + 1;
        }
    }

    /// The text kept, after a note on how many lines were left out.
    pub fn render(&self) -> (res: String)
        ensures
            res@ == rendering(self@),
    {
        let mut out = String::new();
        if self.dropped_lines > 0 {
            out = "... (".to_string().concat(text::decimal_text(self.dropped_lines as u64).as_str()).concat(
                " earlier lines omitted)\n",
            );
        }
        let ghost head = out@;
        let ghost lines = self.lines.deep_view();
        let n: usize = self.lines.len();
        let mut i: usize = 0;
        assert(lines.take(0) =~= Seq::<Seq<char>>::empty());
        assert(head + concat_all(lines.take(0)) =~= head);
        while i < n
            invariant
                n == self.lines@.len(),
                lines == self.lines.deep_view(),
                i <= n,
                out@ == head + concat_all(lines.take(i as int)),
            decreases n - i,
        {
            out.append(self.lines[i].as_str());
            assert(lines.take(i + 1).drop_last() =~= lines.take(i as int));
            assert(lines.take(i + 1).last() == self.lines@[i as int]@);
            assert(out@ =~= head + concat_all(lines.take(i + 1)));
            i = i + 1;
        }
        assert(lines.take(n as int) =~= lines);
        out
    }
}

/// The lines one after another.
pub open spec fn concat_all(lines: Seq<Seq<char>>) -> Seq<char>
    decreases lines.len(),
{
    if lines.len() == 0 {
        Seq::empty()
    } else {
        concat_all(lines.drop_last()) + lines.last()
    }
}

/// What the buffer shows: the lines kept, after a note where some were left out.
pub open spec fn rendering(kept: Kept) -> Seq<char> {
    (if kept.dropped > 0 {
        "... ("@ + text::decimal(kept.dropped) + " earlier lines omitted)\n"@
    } else {
        Seq::<char>::empty()
    }) + concat_all(kept.lines)
}

proof fn lemma_total_push(lines: Seq<Seq<char>>, line: Seq<char>)
    ensures
        total_len(lines.push(line)) == total_len(lines) + byte_len(line),
    decreases lines.len(),
{
    reveal_with_fuel(total_len, 2);
    if lines.len() == 0 {
        assert(lines.push(line).drop_first() =~= Seq::<Seq<char>>::empty());
        assert(lines.push(line)[0] == line);
    } else {
        assert(lines.push(line)[0] == lines[0]);
        assert(lines.push(line).drop_first() =~= lines.drop_first().push(line));
        lemma_total_push(lines.drop_first(), line);
    }
}

/// Cutting before a line is added changes nothing: what is kept in the end is the same.
pub proof fn earlier_cuts_change_nothing(lines: Seq<Seq<char>>, line: Seq<char>, max_bytes: nat)
    ensures
        keep(keep(lines, max_bytes).push(line), max_bytes) == keep(lines.push(line), max_bytes),
    decreases lines.len(),
{
    if lines.len() > 1 && total_len(lines) > max_bytes {
        lemma_total_push(lines, line);
        assert(lines.push(line).drop_first() =~= lines.drop_first().push(line));
        earlier_cuts_change_nothing(lines.drop_first(), line, max_bytes);
    }
}

/// Whatever lines were added to a new buffer, it holds the longest run of lines at the end that fits
/// the limit, and the newest line in any case; it shows these lines, after a note on how many went
/// before them.
pub proof fn buffer_shows_the_longest_tail(lines: Seq<Seq<char>>, max_bytes: nat)
    requires
        lines.len() > 0,
    ensures
        ({
            let kept = after_lines(lines, max_bytes);
            let k = kept.dropped as int;
            &&& 0 <= k < lines.len()
            &&& kept.lines == lines.skip(k)
            &&& k == lines.len() - 1 || total_len(lines.skip(k)) <= max_bytes
            &&& forall|j: int| 0 <= j < k ==> total_len(#[trigger] lines.skip(j)) > max_bytes
            &&& rendering(kept) == (if k > 0 {
                "... ("@ + text::decimal(k as nat) + " earlier lines omitted)\n"@
            } else {
                Seq::<char>::empty()
            }) + concat_all(lines.skip(k))
        }),
{
    lemma_after_lines(lines, max_bytes);
    kept_lines_are_the_longest_tail(lines, max_bytes);
    let k = after_lines(lines, max_bytes).dropped as int;
    assert forall|j: int| 0 <= j < k implies total_len(#[trigger] lines.skip(j)) > max_bytes by {
        lemma_total_skip(lines, j, k - 1);
    }
}

/// A buffer takes lines as long as their bytes and their number can be counted: after lines whose
/// counts fit the machine's integers together with one line more, that line can be added.
pub proof fn buffers_take_what_can_be_counted(
    lines: Seq<Seq<char>>,
    line: Seq<char>,
    max_bytes: nat,
)
    requires
        total_len(lines.push(line)) <= usize::MAX,
        lines.len() <= usize::MAX,
    ensures
        total_len(after_lines(lines, max_bytes).lines) + byte_len(line) <= usize::MAX,
        with_line(after_lines(lines, max_bytes), line, max_bytes).dropped <= usize::MAX,
        with_line(after_lines(lines, max_bytes), line, max_bytes) == after_lines(
            lines.push(line),
            max_bytes,
        ),
{
    lemma_total_push(lines, line);
    assert(lines.push(line).drop_last() =~= lines);
    buffer_shows_the_longest_tail(lines.push(line), max_bytes);
    if lines.len() > 0 {
        buffer_shows_the_longest_tail(lines, max_bytes);
        let k = after_lines(lines, max_bytes).dropped as int;
        lemma_total_skip(lines, 0, k);
        assert(lines.skip(0) =~= lines);
    }
}

proof fn lemma_after_lines(lines: Seq<Seq<char>>, max_bytes: nat)
    ensures
        after_lines(lines, max_bytes).lines == keep(lines, max_bytes),
        after_lines(lines, max_bytes).dropped == lines.len() - keep(lines, max_bytes).len(),
    decreases lines.len(),
{
    if lines.len() > 0 {
        let before = lines.drop_last();
        lemma_after_lines(before, max_bytes);
        earlier_cuts_change_nothing(before, lines.last(), max_bytes);
        assert(before.push(lines.last()) =~= lines);
        kept_lines_are_the_longest_tail(lines, max_bytes);
        kept_lines_are_the_longest_tail(keep(before, max_bytes).push(lines.last()), max_bytes);
    }
}

proof fn lemma_total_skip(lines: Seq<Seq<char>>, i: int, j: int)
    requires
        0 <= i <= j <= lines.len(),
    ensures
        total_len(lines.skip(i)) >= total_len(lines.skip(j)),
    decreases j - i,
{
    if i < j {
        lemma_total_skip(lines, i + 1, j);
        assert(lines.skip(i).drop_first() =~= lines.skip(i + 1));
    }
}

/// What is kept is a run of lines at the end: it fits the limit or is a single line, and one line
/// more would not fit.
pub proof fn kept_lines_are_the_longest_tail(lines: Seq<Seq<char>>, max_bytes: nat)
    requires
        lines.len() > 0,
    ensures
        ({
            let kept = keep(lines, max_bytes);
            let cut = lines.len() - kept.len();
            &&& 0 <= cut < lines.len()
            &&& kept == lines.skip(cut)
            &&& kept.len() == 1 || total_len(kept) <= max_bytes
            &&& cut > 0 ==> total_len(lines.skip(cut - 1)) > max_bytes
        }),
    decreases lines.len(),
{
    if lines.len() > 1 && total_len(lines) > max_bytes {
        let rest = lines.drop_first();
        kept_lines_are_the_longest_tail(rest, max_bytes);
        let cut = rest.len() - keep(rest, max_bytes).len();
        assert(rest.skip(cut) =~= lines.skip(cut + 1));
        if cut > 0 {
            assert(rest.skip(cut - 1) =~= lines.skip(cut));
        } else {
            assert(lines.skip(0) =~= lines);
        }
    } else {
        assert(lines.skip(0) =~= lines);
    }
}

/// The prompt stands where the command has its placeholder, in every such place; every other
/// argument stays as it is, also one that only holds the placeholder.
pub proof fn prompts_take_their_place(command: Seq<Seq<char>>, prompt: Seq<char>, i: int)
    requires
        0 <= i < command.len(),
    ensures
        with_prompt(command, prompt).len() == command.len(),
        command[i] == "$PROMPT"@ ==> with_prompt(command, prompt)[i] == prompt,
        command[i] != "$PROMPT"@ ==> with_prompt(command, prompt)[i] == command[i],
{
}

/// A process succeeded exactly where it ended with the code zero.
pub proof fn success_is_the_code_zero(code: i32)
    ensures
        exit_check(Some(0)) == Ok::<(), RunnerError<Seq<char>>>(()),
        code != 0 ==> exit_check(Some(code)) == Err::<(), _>(
            RunnerError::<Seq<char>>::Exited { exit_code: code },
        ),
        exit_check(None) == Err::<(), _>(
            RunnerError::<Seq<char>>::Exited { exit_code: (-1) as i32 },
        ),
        STDERR_MAX_BYTES == 16 * 1024,
{
}

/// What a buffer shows: where nothing was left out its lines one after another, else a note on how
/// many lines were left out before them.
pub proof fn buffers_show_their_lines(lines: Seq<Seq<char>>, line: Seq<char>, dropped: nat)
    ensures
        rendering(Kept { lines: Seq::empty(), dropped: 0 }) == Seq::<char>::empty(),
        rendering(Kept { lines: lines.push(line), dropped }) == rendering(Kept { lines, dropped })
            + line,
        dropped > 0 ==> rendering(Kept { lines: Seq::empty(), dropped }) == "... ("@
            + text::decimal(dropped) + " earlier lines omitted)\n"@,
{
    assert(lines.push(line).drop_last() =~= lines);
    let head = rendering(Kept { lines: Seq::empty(), dropped });
    assert(rendering(Kept { lines: Seq::empty(), dropped: 0 }) =~= Seq::empty());
    assert(rendering(Kept { lines: lines.push(line), dropped }) =~= rendering(
        Kept { lines, dropped },
    ) + line);
    if dropped > 0 {
        assert(head =~= "... ("@ + text::decimal(dropped) + " earlier lines omitted)\n"@);
    }
}

} // verus!
