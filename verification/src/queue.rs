//! The research tasks of a wiki: those that wait, those that run, and those that are done.

use std::collections::VecDeque;

use vstd::prelude::*;

use crate::config::AppConfig;
use crate::duration::Duration;
use crate::text;

verus! {

/// A task was refused because too many are waiting.
#[derive(Debug, Clone, Copy, PartialEq, Eq, Structural)]
pub struct QueueFullError;

impl QueueFullError {
    /// The message of the refusal.
    pub fn message(&self) -> (res: String)
        ensures
            res@ == "research queue is full"@,
    {
        "research queue is full".to_string()
    }
}

/// Where a task stands.
#[derive(Debug, PartialEq, Eq)]
pub enum TaskStatus<S = String> {
    Queued,
    Running,
    Done { answer: S },
    Failed { error: S },
}

impl DeepView for TaskStatus<String> {
    type V = TaskStatus<Seq<char>>;

    open spec fn deep_view(&self) -> TaskStatus<Seq<char>> {
        match self {
            TaskStatus::Queued => TaskStatus::Queued,
            TaskStatus::Running => TaskStatus::Running,
            TaskStatus::Done { answer } => TaskStatus::Done { answer: answer@ },
            TaskStatus::Failed { error } => TaskStatus::Failed { error: error@ },
        }
    }
}

impl Clone for TaskStatus<String> {
    fn clone(&self) -> (res: Self)
        ensures
            res == *self,
    {
        match self {
            TaskStatus::Queued => TaskStatus::Queued,
            TaskStatus::Running => TaskStatus::Running,
            TaskStatus::Done { answer } => TaskStatus::Done { answer: answer.clone() },
            TaskStatus::Failed { error } => TaskStatus::Failed { error: error.clone() },
        }
    }
}

/// Whether a task with this status is over.
pub open spec fn over<S>(status: TaskStatus<S>) -> bool {
    status is Done || status is Failed
}

impl TaskStatus {
    /// Whether a task with this status is over.
    pub fn is_terminal(&self) -> (res: bool)
        ensures
            res == over(*self),
    {
        match self {
            TaskStatus::Done { .. } | TaskStatus::Failed { .. } => true,
            TaskStatus::Queued | TaskStatus::Running => false,
        }
    }
}

/// A task. The time of its completion is counted from when the server started.
#[derive(Debug, PartialEq, Eq)]
pub struct Task<S = String> {
    pub question: S,
    pub status: TaskStatus<S>,
    pub completed_at: Option<Duration>,
}

impl DeepView for Task<String> {
    type V = Task<Seq<char>>;

    open spec fn deep_view(&self) -> Task<Seq<char>> {
        Task {
            question: self.question@,
            status: self.status.deep_view(),
            completed_at: self.completed_at,
        }
    }
}

/// The tasks by their ids, and the ids of those that wait, in their order.
pub struct Tasks {
    pub table: Map<Seq<char>, Task<Seq<char>>>,
    pub pending: Seq<Seq<char>>,
}

/// With a new task in the table.
pub open spec fn recorded(tasks: Tasks, id: Seq<char>, question: Seq<char>) -> Tasks {
    Tasks {
        table: tasks.table.insert(
            id,
            Task { question, status: TaskStatus::Queued, completed_at: None },
        ),
        ..tasks
    }
}

/// With a task that waits.
pub open spec fn waiting(tasks: Tasks, id: Seq<char>) -> Tasks {
    Tasks { pending: tasks.pending.push(id), ..tasks }
}

/// What comes of a question: its task waits and its id is given, where there is room; the task is
/// recorded in any case.
pub open spec fn asked(tasks: Tasks, id: Seq<char>, question: Seq<char>) -> (
    Option<Seq<char>>,
    Tasks,
) {
    if tasks.pending.len() < CAPACITY {
        (Some(id), waiting(recorded(tasks, id, question), id))
    } else {
        (None, recorded(tasks, id, question))
    }
}

/// What comes of a question that is recorded only where there is room.
pub open spec fn asked_if_room(tasks: Tasks, id: Seq<char>, question: Seq<char>) -> (
    Option<Seq<char>>,
    Tasks,
) {
    if tasks.pending.len() < CAPACITY {
        (Some(id), recorded(waiting(tasks, id), id, question))
    } else {
        (None, tasks)
    }
}

/// The id that an accepted question was given.
pub open spec fn given(res: Result<String, QueueFullError>) -> Option<Seq<char>> {
    match res {
        Ok(id) => Some(id@),
        Err(_) => None,
    }
}

/// The task that has waited longest, and what is left without it waiting.
pub open spec fn taken(tasks: Tasks) -> (Option<Seq<char>>, Tasks) {
    if tasks.pending.len() > 0 {
        (Some(tasks.pending[0]), Tasks { pending: tasks.pending.drop_first(), ..tasks })
    } else {
        (None, tasks)
    }
}

/// The task with an id, if there is one.
pub open spec fn task_in(tasks: Tasks, id: Seq<char>) -> Option<Task<Seq<char>>> {
    if tasks.table.contains_key(id) {
        Some(tasks.table[id])
    } else {
        None
    }
}

/// Where the task with an id stands, if there is one.
pub open spec fn status_in(tasks: Tasks, id: Seq<char>) -> Option<TaskStatus<Seq<char>>> {
    match task_in(tasks, id) {
        Some(task) => Some(task.status),
        None => None,
    }
}

/// The question of the task with an id, if there is one.
pub open spec fn question_in(tasks: Tasks, id: Seq<char>) -> Option<Seq<char>> {
    match task_in(tasks, id) {
        Some(task) => Some(task.question),
        None => None,
    }
}

/// With a task started, if there is one with the id.
pub open spec fn started(tasks: Tasks, id: Seq<char>) -> Tasks {
    if tasks.table.contains_key(id) {
        Tasks {
            table: tasks.table.insert(
                id,
                Task { status: TaskStatus::Running, ..tasks.table[id] },
            ),
            ..tasks
        }
    } else {
        tasks
    }
}

/// With a task completed, if there is one with the id.
pub open spec fn finished(
    tasks: Tasks,
    id: Seq<char>,
    status: TaskStatus<Seq<char>>,
    now: Duration,
) -> Tasks {
    if tasks.table.contains_key(id) {
        Tasks {
            table: tasks.table.insert(
                id,
                Task { status, completed_at: Some(now), ..tasks.table[id] },
            ),
            ..tasks
        }
    } else {
        tasks
    }
}

/// Whether a task is kept: it is not completed, or was so less than a span ago.
pub open spec fn kept<S>(task: Task<S>, now: Duration, ttl: Duration) -> bool {
    match task.completed_at {
        Some(completed) => if now@ >= completed@ {
            now@ - completed@ < ttl@
        } else {
            0 < ttl@
        },
        None => true,
    }
}

/// Without the tasks that were completed too long ago.
pub open spec fn swept(tasks: Tasks, now: Duration, ttl: Duration) -> Tasks {
    Tasks {
        table: tasks.table.restrict(
            Set::new(|id: Seq<char>| tasks.table.contains_key(id) && kept(tasks.table[id], now, ttl)),
        ),
        ..tasks
    }
}

struct Row {
    id: String,
    task: Task,
}

spec fn has_id(rows: Seq<Row>, id: Seq<char>) -> bool {
    exists|i: int| 0 <= i < rows.len() && (#[trigger] rows[i]).id@ == id
}

spec fn index_of(rows: Seq<Row>, id: Seq<char>) -> int {
    choose|i: int| 0 <= i < rows.len() && (#[trigger] rows[i]).id@ == id
}

spec fn unique(rows: Seq<Row>) -> bool {
    forall|i: int, j: int|
        0 <= i < j < rows.len() ==> (#[trigger] rows[i]).id@ != (#[trigger] rows[j]).id@
}

spec fn table_of(rows: Seq<Row>) -> Map<Seq<char>, Task<Seq<char>>> {
    Map::new(
        |id: Seq<char>| has_id(rows, id),
        |id: Seq<char>| rows[index_of(rows, id)].task.deep_view(),
    )
}

proof fn lemma_row(rows: Seq<Row>, i: int)
    requires
        unique(rows),
        0 <= i < rows.len(),
    ensures
        table_of(rows).contains_key(rows[i].id@),
        table_of(rows)[rows[i].id@] == rows[i].task.deep_view(),
{
    let k = index_of(rows, rows[i].id@);
    assert(has_id(rows, rows[i].id@));
    if k < i {
        assert(rows[k].id@ != rows[i].id@);
    } else if i < k {
        assert(rows[i].id@ != rows[k].id@);
    }
}

proof fn lemma_row_of(rows: Seq<Row>, id: Seq<char>) -> (i: int)
    requires
        table_of(rows).contains_key(id),
    ensures
        0 <= i < rows.len(),
        rows[i].id@ == id,
{
    index_of(rows, id)
}

proof fn lemma_push(rows: Seq<Row>, row: Row)
    requires
        unique(rows),
        !has_id(rows, row.id@),
    ensures
        unique(rows.push(row)),
        table_of(rows.push(row)) == table_of(rows).insert(row.id@, row.task.deep_view()),
{
    let after = rows.push(row);
    assert forall|i: int, j: int| 0 <= i < j < after.len() implies (#[trigger] after[i]).id@ != (
    #[trigger] after[j]).id@ by {
        assert(after[i] == rows[i]);
        if j < rows.len() {
            assert(after[j] == rows[j]);
        } else {
            assert(rows[i].id@ != row.id@);
        }
    }
    assert forall|id: Seq<char>| #[trigger]
        table_of(after).contains_key(id) == table_of(rows).insert(
            row.id@,
            row.task.deep_view(),
        ).contains_key(id) by {
        if has_id(after, id) {
            let i = lemma_row_of(after, id);
            if i < rows.len() {
                assert(rows[i].id@ == id);
            }
        }
        if has_id(rows, id) {
            let i = lemma_row_of(rows, id);
            assert(after[i].id@ == id);
        }
        assert(after[rows.len() as int].id@ == row.id@);
    }
    assert forall|id: Seq<char>| #[trigger] table_of(after).contains_key(id) implies table_of(
        after,
    )[id] == table_of(rows).insert(row.id@, row.task.deep_view())[id] by {
        let i = lemma_row_of(after, id);
        lemma_row(after, i);
        if i < rows.len() {
            assert(after[i] == rows[i]);
            lemma_row(rows, i);
            assert(rows[i].id@ != row.id@);
        }
    }
    assert(table_of(after) =~= table_of(rows).insert(row.id@, row.task.deep_view()));
}

proof fn lemma_update(rows: Seq<Row>, k: int, row: Row)
    requires
        unique(rows),
        0 <= k < rows.len(),
        row.id@ == rows[k].id@,
    ensures
        unique(rows.update(k, row)),
        table_of(rows.update(k, row)) == table_of(rows).insert(row.id@, row.task.deep_view()),
{
    let after = rows.update(k, row);
    assert forall|i: int, j: int| 0 <= i < j < after.len() implies (#[trigger] after[i]).id@ != (
    #[trigger] after[j]).id@ by {
        assert(rows[i].id@ != rows[j].id@);
    }
    assert forall|id: Seq<char>| #[trigger]
        table_of(after).contains_key(id) == table_of(rows).insert(
            row.id@,
            row.task.deep_view(),
        ).contains_key(id) by {
        if has_id(after, id) {
            let i = lemma_row_of(after, id);
            assert(rows[i].id@ == id);
        }
        if has_id(rows, id) {
            let i = lemma_row_of(rows, id);
            assert(after[i].id@ == id);
        }
        assert(after[k].id@ == row.id@);
    }
    assert forall|id: Seq<char>| #[trigger] table_of(after).contains_key(id) implies table_of(
        after,
    )[id] == table_of(rows).insert(row.id@, row.task.deep_view())[id] by {
        let i = lemma_row_of(after, id);
        lemma_row(after, i);
        lemma_row(rows, i);
        if i < k {
            assert(rows[i].id@ != rows[k].id@);
        } else if k < i {
            assert(rows[k].id@ != rows[i].id@);
        }
    }
    assert(table_of(after) =~= table_of(rows).insert(row.id@, row.task.deep_view()));
}

/// The research tasks of a wiki.
pub struct TaskQueue {
    rows: Vec<Row>,
    pending: VecDeque<String>,
}

/// How many tasks may wait.
pub const CAPACITY: usize = 128;

impl View for TaskQueue {
    type V = Tasks;

    closed spec fn view(&self) -> Tasks {
        Tasks {
            table: table_of(self.rows@),
            pending: self.pending@.map_values(|id: String| id@),
        }
    }
}

/// A fresh random id, from `Uuid::new_v4` of the crate `uuid`, as it is written: 36 characters,
/// hyphens at the places of the groups and lower-case hexadecimal digits elsewhere. That two ids
/// differ is only likely, and left unsaid.
#[verifier::external_body]
pub(crate) fn new_id() -> (res: String)
    ensures
        is_uuid(res@),
{
    uuid::Uuid::new_v4().to_string()
}

/// Whether a text has the form of a UUID.
pub open spec fn is_uuid(id: Seq<char>) -> bool {
    &&& id.len() == 36
    &&& forall|i: int|
        0 <= i < 36 ==> if i == 8 || i == 13 || i == 18 || i == 23 {
            #[trigger] id[i] == '-'
        } else {
            '0' <= id[i] <= '9' || 'a' <= id[i] <= 'f'
        }
}

impl TaskQueue {
    /// Whether no two tasks have the same id, and no more wait than may.
    pub closed spec fn wf(self) -> bool {
        unique(self.rows@) && self.pending@.len() <= CAPACITY
    }

    /// The queue of no tasks.
    pub fn new() -> (res: Self)
        ensures
            res.wf(),
            res@ == (Tasks { table: Map::empty(), pending: Seq::empty() }),
    {
        let res = TaskQueue { rows: Vec::new(), pending: VecDeque::new() };
        proof {
            assert(res@.table =~= Map::empty());
            assert(res@.pending =~= Seq::empty());
        }
        res
    }

    fn find(&self, id: &str) -> (res: Option<usize>)
        ensures
            match res {
                Some(i) => i < self.rows@.len() && self.rows@[i as int].id@ == id@,
                None => !has_id(self.rows@, id@),
            },
    {
        let n: usize = self.rows.len();
        let mut i: usize = 0;
        while i < n
            invariant
                n == self.rows@.len(),
                i <= n,
                forall|k: int| 0 <= k < i ==> (#[trigger] self.rows@[k]).id@ != id@,
            decreases n - i,
        {
            if text::same(self.rows[i].id.as_str(), id) {
                return Some(i);
            }
            i = i + 1;
        }
        None
    }

    fn put(&mut self, id: &str, task: Task)
        requires
            old(self).wf(),
        ensures
            final(self).wf(),
            final(self)@ == (Tasks {
                table: old(self)@.table.insert(id@, task.deep_view()),
                ..old(self)@
            }),
    {
        let ghost rows = self.rows@;
        let row = Row { id: id.to_string(), task };
        match self.find(id) {
            Some(i) => {
                proof {
                    lemma_update(rows, i as int, row);
                }
                self.rows.set(i, row);
            },
            None => {
                proof {
                    lemma_push(rows, row);
                }
                self.rows.push(row);
            },
        }
    }

    fn has_room(&self) -> (res: bool)
        ensures
            res == (self@.pending.len() < CAPACITY),
    {
        self.pending.len() < CAPACITY
    }

    fn append_pending(&mut self, id: &str)
        requires
            old(self).wf(),
            old(self)@.pending.len() < CAPACITY,
        ensures
            final(self).wf(),
            final(self)@ == waiting(old(self)@, id@),
    {
        let ghost before = self.pending@;
        let id = id.to_string();
        let ghost shown = id@;
        self.pending.push_back(id);
        proof {
            assert(self@.pending =~= before.map_values(|id: String| id@).push(shown));
        }
    }

    /// Records a task and lets it wait. Where too many wait, the task is recorded but refused.
    pub fn enqueue_as(&mut self, id: String, question: String) -> (res: Result<
        String,
        QueueFullError,
    >)
        requires
            old(self).wf(),
        ensures
            final(self).wf(),
            ({
                let after = recorded(old(self)@, id@, question@);
                if old(self)@.pending.len() < CAPACITY {
                    res matches Ok(given) && given@ == id@ && final(self)@ == waiting(after, id@)
                } else {
                    res is Err && final(self)@ == after
                }
            }),
            (given(res), final(self)@) == asked(old(self)@, id@, question@),
    {
        self.put(
            id.as_str(),
            Task { question, status: TaskStatus::Queued, completed_at: None },
        );
        if self.has_room() {
            self.append_pending(id.as_str());
            Ok(id)
        } else {
            Err(QueueFullError)
        }
    }

    /// Records a task under a fresh id and lets it wait.
    pub fn enqueue(&mut self, question: String) -> (res: Result<String, QueueFullError>)
        requires
            old(self).wf(),
        ensures
            final(self).wf(),
            res is Ok <==> old(self)@.pending.len() < CAPACITY,
            exists|id: Seq<char>| #[trigger]
                is_uuid(id) && (match res {
                    Ok(given) => given@ == id && final(self)@ == waiting(
                        recorded(old(self)@, id, question@),
                        id,
                    ),
                    Err(_) => final(self)@ == recorded(old(self)@, id, question@),
                }),
    {
        let id = new_id();
        assert(is_uuid(id@));
        self.enqueue_as(id, question)
    }

    /// The next task that waits.
    pub fn next_pending(&mut self) -> (res: Option<String>)
        requires
            old(self).wf(),
        ensures
            final(self).wf(),
            match res {
                Some(id) => old(self)@.pending.len() > 0 && id@ == old(self)@.pending[0]
                    && final(self)@ == (Tasks {
                    pending: old(self)@.pending.drop_first(),
                    ..old(self)@
                }),
                None => old(self)@.pending.len() == 0 && final(self)@ == old(self)@,
            },
            (res.deep_view(), final(self)@) == taken(old(self)@),
    {
        let ghost before = self.pending@;
        let res = self.pending.pop_front();
        proof {
            if before.len() > 0 {
                assert(self@.pending =~= before.map_values(|id: String| id@).drop_first());
            }
        }
        res
    }

    /// A task.
    pub fn get_task(&self, id: &str) -> (res: Option<Task>)
        requires
            self.wf(),
        ensures
            match res {
                Some(task) => self@.table.contains_key(id@) && task.deep_view()
                    == self@.table[id@],
                None => !self@.table.contains_key(id@),
            },
            res.deep_view() == task_in(self@, id@),
    {
        match self.find(id) {
            Some(i) => {
                proof {
                    lemma_row(self.rows@, i as int);
                }
                Some(
                    Task {
                        question: self.rows[i].task.question.clone(),
                        status: self.rows[i].task.status.clone(),
                        completed_at: self.rows[i].task.completed_at,
                    },
                )
            },
            None => None,
        }
    }

    /// Where a task stands.
    pub fn get_status(&self, id: &str) -> (res: Option<TaskStatus>)
        requires
            self.wf(),
        ensures
            match res {
                Some(status) => self@.table.contains_key(id@) && status.deep_view()
                    == self@.table[id@].status,
                None => !self@.table.contains_key(id@),
            },
            res.deep_view() == status_in(self@, id@),
    {
        match self.find(id) {
            Some(i) => {
                proof {
                    lemma_row(self.rows@, i as int);
                }
                Some(self.rows[i].task.status.clone())
            },
            None => None,
        }
    }

    /// Starts a task, and gives its question.
    pub fn start(&mut self, id: &str) -> (res: Option<String>)
        requires
            old(self).wf(),
        ensures
            final(self).wf(),
            final(self)@ == started(old(self)@, id@),
            match res {
                Some(question) => old(self)@.table.contains_key(id@) && question@ == old(
                    self,
                )@.table[id@].question,
                None => !old(self)@.table.contains_key(id@),
            },
            res.deep_view() == question_in(old(self)@, id@),
    {
        match self.find(id) {
            Some(i) => {
                proof {
                    lemma_row(self.rows@, i as int);
                }
                let question = self.rows[i].task.question.clone();
                let completed_at = self.rows[i].task.completed_at;
                let shown = question.clone();
                self.put(id, Task { question, status: TaskStatus::Running, completed_at });
                Some(shown)
            },
            None => None,
        }
    }

    /// Completes a task.
    pub fn finish(&mut self, id: &str, status: TaskStatus, now: Duration)
        requires
            old(self).wf(),
        ensures
            final(self).wf(),
            final(self)@ == finished(old(self)@, id@, status.deep_view(), now),
    {
        match self.find(id) {
            Some(i) => {
                proof {
                    lemma_row(self.rows@, i as int);
                }
                let question = self.rows[i].task.question.clone();
                self.put(id, Task { question, status, completed_at: Some(now) });
            },
            None => {},
        }
    }

    /// Forgets the tasks that were completed too long ago.
    pub fn sweep_completed(&mut self, now: Duration, ttl: Duration)
        requires
            old(self).wf(),
        ensures
            final(self).wf(),
            final(self)@ == swept(old(self)@, now, ttl),
    {
        let ghost all = self.rows@;
        let ghost before = self@;
        let mut rest: Vec<Row> = Vec::new();
        let mut i: usize = 0;
        let n: usize = self.rows.len();
        assert(table_of(rest@) =~= Map::empty());
        while i < n
            invariant
                n == self.rows@.len(),
                i <= n,
                *self == *old(self),
                self.rows@ == all,
                unique(all),
                unique(rest@),
                forall|k: int|
                    0 <= k < rest@.len() ==> exists|l: int|
                        0 <= l < i && (#[trigger] rest@[k]).id@ == all[l].id@
                            && rest@[k].task.deep_view() == all[l].task.deep_view() && kept(
                            all[l].task,
                            now,
                            ttl,
                        ),
                forall|l: int|
                    0 <= l < i && kept((#[trigger] all[l]).task, now, ttl) ==> has_id(
                        rest@,
                        all[l].id@,
                    ),
            decreases n - i,
        {
            let keep = match self.rows[i].task.completed_at {
                Some(completed) => now.saturating_sub(&completed).is_shorter(&ttl),
                None => true,
            };
            let ghost earlier = rest@;
            if keep {
                let row = Row {
                    id: self.rows[i].id.clone(),
                    task: Task {
                        question: self.rows[i].task.question.clone(),
                        status: self.rows[i].task.status.clone(),
                        completed_at: self.rows[i].task.completed_at,
                    },
                };
                proof {
                    if has_id(earlier, row.id@) {
                        let k = index_of(earlier, row.id@);
                        let l = choose|l: int|
                            0 <= l < i && earlier[k].id@ == all[l].id@
                                && earlier[k].task.deep_view() == all[l].task.deep_view() && kept(
                                all[l].task,
                                now,
                                ttl,
                            );
                        assert(all[l].id@ != all[i as int].id@);
                    }
                    lemma_push(earlier, row);
                    assert forall|k: int| 0 <= k < earlier.push(row).len() implies exists|l: int|
                        0 <= l < i + 1 && (#[trigger] earlier.push(row)[k]).id@ == all[l].id@
                            && earlier.push(row)[k].task.deep_view() == all[l].task.deep_view()
                            && kept(all[l].task, now, ttl) by {
                        if k < earlier.len() {
                            assert(earlier.push(row)[k] == earlier[k]);
                        } else {
                            assert(all[i as int].id@ == row.id@);
                        }
                    }
                    assert forall|l: int|
                        0 <= l < i + 1 && kept((#[trigger] all[l]).task, now, ttl) implies has_id(
                        earlier.push(row),
                        all[l].id@,
                    ) by {
                        if l < i {
                            let k = index_of(earlier, all[l].id@);
                            assert(earlier.push(row)[k].id@ == all[l].id@);
                        } else {
                            assert(earlier.push(row)[earlier.len() as int].id@ == all[l].id@);
                        }
                    }
                }
                rest.push(row);
            }
            i = i + 1;
        }
        self.rows = rest;
        proof {
            let meant = swept(before, now, ttl).table;
            assert forall|id: Seq<char>| #[trigger]
                table_of(rest@).contains_key(id) == meant.contains_key(id) by {
                if has_id(rest@, id) {
                    let k = lemma_row_of(rest@, id);
                    let l = choose|l: int|
                        0 <= l < n && rest@[k].id@ == all[l].id@ && rest@[k].task.deep_view()
                            == all[l].task.deep_view() && kept(all[l].task, now, ttl);
                    lemma_row(all, l);
                    assert(all[l].id@ == id);
                }
                if meant.contains_key(id) {
                    let l = lemma_row_of(all, id);
                    lemma_row(all, l);
                    assert(kept(all[l].task, now, ttl));
                }
            }
            assert forall|id: Seq<char>| #[trigger] table_of(rest@).contains_key(id) implies table_of(
                rest@,
            )[id] == meant[id] by {
                let k = lemma_row_of(rest@, id);
                lemma_row(rest@, k);
                let l = choose|l: int|
                    0 <= l < n && rest@[k].id@ == all[l].id@ && rest@[k].task.deep_view()
                        == all[l].task.deep_view() && kept(all[l].task, now, ttl);
                lemma_row(all, l);
            }
            assert(table_of(rest@) =~= meant);
        }
    }
}

/// A task that was recorded stands as queued, once started as running, and once finished as what it
/// ended with; its question stays, and other tasks are left alone.
pub proof fn task_goes_through_its_states(
    tasks: Tasks,
    id: Seq<char>,
    question: Seq<char>,
    status: TaskStatus<Seq<char>>,
    now: Duration,
    other: Seq<char>,
)
    requires
        other != id,
    ensures
        ({
            let queued = recorded(tasks, id, question);
            let running = started(queued, id);
            let done = finished(running, id, status, now);
            &&& queued.table[id].status == TaskStatus::<Seq<char>>::Queued
            &&& running.table[id].status == TaskStatus::<Seq<char>>::Running
            &&& done.table[id].status == status
            &&& running.table[id].question == question
            &&& done.table[id].question == question
            &&& done.table[id].completed_at == Some(now)
            &&& done.table.contains_key(other) == tasks.table.contains_key(other)
            &&& done.table[other] == tasks.table[other]
            &&& done.pending == tasks.pending
        }),
{
}

/// A task that is not completed is never swept away.
pub proof fn unfinished_tasks_stay(tasks: Tasks, id: Seq<char>, now: Duration, ttl: Duration)
    requires
        tasks.table.contains_key(id),
        tasks.table[id].completed_at is None,
    ensures
        swept(tasks, now, ttl).table.contains_key(id),
        swept(tasks, now, ttl).table[id] == tasks.table[id],
{
}

/// A completed task can be read until its time has run out, and not from then on.
pub proof fn completed_tasks_stay_for_their_time(
    tasks: Tasks,
    id: Seq<char>,
    status: TaskStatus<Seq<char>>,
    completed: Duration,
    now: Duration,
    ttl: Duration,
)
    requires
        tasks.table.contains_key(id),
        now@ >= completed@,
    ensures
        swept(finished(tasks, id, status, completed), now, ttl).table.contains_key(id) <==> now@
            - completed@ < ttl@,
        now@ - completed@ < ttl@ ==> swept(
            finished(tasks, id, status, completed),
            now,
            ttl,
        ).table[id].status == status,
{
}

/// Sweeping twice is the same as sweeping at the later time.
pub proof fn sweeping_again_removes_no_more(tasks: Tasks, now: Duration, later: Duration, ttl: Duration)
    requires
        now@ <= later@,
        forall|id: Seq<char>|
            tasks.table.contains_key(id) ==> ((#[trigger] tasks.table[id]).completed_at matches Some(
                completed,
            ) ==> completed@ <= now@),
    ensures
        swept(swept(tasks, now, ttl), later, ttl).table == swept(tasks, later, ttl).table,
{
    assert forall|id: Seq<char>| #[trigger]
        swept(swept(tasks, now, ttl), later, ttl).table.contains_key(id) == swept(
            tasks,
            later,
            ttl,
        ).table.contains_key(id) by {}
    assert(swept(swept(tasks, now, ttl), later, ttl).table =~= swept(tasks, later, ttl).table);
}

/// The state of a server for one wiki: its configuration and its tasks.
pub struct AppState {
    pub config: AppConfig,
    pub queue: TaskQueue,
}

impl View for AppState {
    type V = Tasks;

    open spec fn view(&self) -> Tasks {
        self.queue@
    }
}

impl AppState {
    /// Whether the tasks are in order.
    pub open spec fn wf(self) -> bool {
        self.queue.wf()
    }

    /// The state at the start: no tasks.
    pub fn new(config: AppConfig) -> (res: Self)
        ensures
            res.wf(),
            res.config == config,
            res@ == (Tasks { table: Map::empty(), pending: Seq::empty() }),
    {
        AppState { config, queue: TaskQueue::new() }
    }

    /// Lets a task wait and records it. Where too many wait, nothing is recorded.
    pub fn enqueue_as(&mut self, id: String, question: String) -> (res: Result<
        String,
        QueueFullError,
    >)
        requires
            old(self).wf(),
        ensures
            final(self).wf(),
            final(self).config == old(self).config,
            if old(self)@.pending.len() < CAPACITY {
                res matches Ok(given) && given@ == id@ && final(self)@ == recorded(
                    waiting(old(self)@, id@),
                    id@,
                    question@,
                )
            } else {
                res is Err && final(self)@ == old(self)@
            },
            (given(res), final(self)@) == asked_if_room(old(self)@, id@, question@),
    {
        if !self.queue.has_room() {
            return Err(QueueFullError);
        }
        self.queue.enqueue_as(id, question)
    }

    /// Lets a task with a fresh id wait and records it. Where too many wait, nothing is recorded.
    pub fn enqueue(&mut self, question: String) -> (res: Result<String, QueueFullError>)
        requires
            old(self).wf(),
        ensures
            final(self).wf(),
            final(self).config == old(self).config,
            match res {
                Ok(id) => {
                    &&& old(self)@.pending.len() < CAPACITY
                    &&& is_uuid(id@)
                    &&& final(self)@ == recorded(waiting(old(self)@, id@), id@, question@)
                },
                Err(_) => old(self)@.pending.len() >= CAPACITY && final(self)@ == old(self)@,
            },
    {
        self.enqueue_as(new_id(), question)
    }

    /// A task.
    pub fn get_task(&self, id: &str) -> (res: Option<Task>)
        requires
            self.wf(),
        ensures
            match res {
                Some(task) => self@.table.contains_key(id@) && task.deep_view()
                    == self@.table[id@],
                None => !self@.table.contains_key(id@),
            },
            res.deep_view() == task_in(self@, id@),
    {
        self.queue.get_task(id)
    }

    /// Where a task stands.
    pub fn get_task_status(&self, id: &str) -> (res: Option<TaskStatus>)
        requires
            self.wf(),
        ensures
            match res {
                Some(status) => self@.table.contains_key(id@) && status.deep_view()
                    == self@.table[id@].status,
                None => !self@.table.contains_key(id@),
            },
            res.deep_view() == status_in(self@, id@),
    {
        self.queue.get_status(id)
    }

    /// Starts a task, and gives its question.
    pub fn start_task(&mut self, id: &str) -> (res: Option<String>)
        requires
            old(self).wf(),
        ensures
            final(self).wf(),
            final(self).config == old(self).config,
            final(self)@ == started(old(self)@, id@),
            match res {
                Some(question) => old(self)@.table.contains_key(id@) && question@ == old(
                    self,
                )@.table[id@].question,
                None => !old(self)@.table.contains_key(id@),
            },
            res.deep_view() == question_in(old(self)@, id@),
    {
        self.queue.start(id)
    }

    /// Completes a task.
    pub fn finish_task(&mut self, id: &str, status: TaskStatus, now: Duration)
        requires
            old(self).wf(),
        ensures
            final(self).wf(),
            final(self).config == old(self).config,
            final(self)@ == finished(old(self)@, id@, status.deep_view(), now),
    {
        self.queue.finish(id, status, now)
    }

    /// Forgets the tasks that were completed too long ago.
    pub fn sweep_completed(&mut self, now: Duration, ttl: Duration)
        requires
            old(self).wf(),
        ensures
            final(self).wf(),
            final(self).config == old(self).config,
            final(self)@ == swept(old(self)@, now, ttl),
    {
        self.queue.sweep_completed(now, ttl)
    }

    /// The next task that waits.
    pub fn next_pending(&mut self) -> (res: Option<String>)
        requires
            old(self).wf(),
        ensures
            final(self).wf(),
            final(self).config == old(self).config,
            match res {
                Some(id) => old(self)@.pending.len() > 0 && id@ == old(self)@.pending[0]
                    && final(self)@ == (Tasks {
                    pending: old(self)@.pending.drop_first(),
                    ..old(self)@
                }),
                None => old(self)@.pending.len() == 0 && final(self)@ == old(self)@,
            },
            (res.deep_view(), final(self)@) == taken(old(self)@),
    {
        self.queue.next_pending()
    }
}

/// Tasks are taken in the order in which they were asked for: the first that waits is taken, and a
/// question that is asked stands behind all others.
pub proof fn tasks_are_taken_in_their_order(
    tasks: Tasks,
    id: Seq<char>,
    question: Seq<char>,
    first: Seq<char>,
    rest: Seq<Seq<char>>,
)
    ensures
        tasks.pending.len() < 128 ==> ({
            let (given, after) = asked(tasks, id, question);
            &&& given == Some(id)
            &&& after.pending == tasks.pending + seq![id]
            &&& after.table.contains_key(id)
            &&& after.table[id] == (Task {
                question,
                status: TaskStatus::Queued,
                completed_at: None,
            })
            &&& after.table.remove(id) == tasks.table.remove(id)
        }),
        tasks.pending == seq![first] + rest ==> taken(tasks) == (
            Some(first),
            Tasks { table: tasks.table, pending: rest },
        ),
        tasks.pending == Seq::<Seq<char>>::empty() ==> taken(tasks) == (
            None::<Seq<char>>,
            tasks,
        ),
{
    if tasks.pending == seq![first] + rest {
        assert(tasks.pending.drop_first() =~= rest);
    }
    let after = asked(tasks, id, question).1;
    assert(tasks.pending.push(id) =~= tasks.pending + seq![id]);
    assert(after.table.remove(id) =~= tasks.table.remove(id));
}

/// Where as many tasks wait as may, a question is refused and waits for nothing. A queue that
/// records first has recorded it, a server that takes questions only where there is room has not.
pub proof fn full_queues_refuse(tasks: Tasks, id: Seq<char>, question: Seq<char>)
    requires
        tasks.pending.len() >= 128,
    ensures
        asked(tasks, id, question).0 is None,
        asked(tasks, id, question).1.pending == tasks.pending,
        asked(tasks, id, question).1.table[id].question == question,
        asked_if_room(tasks, id, question) == (None::<Seq<char>>, tasks),
{
}

/// A server that takes a question has it wait as a queue does.
pub proof fn servers_ask_their_queue(tasks: Tasks, id: Seq<char>, question: Seq<char>)
    requires
        tasks.pending.len() < 128,
    ensures
        asked_if_room(tasks, id, question) == asked(tasks, id, question),
{
}

/// A task is over once it is done or has failed, and not before.
pub proof fn tasks_end_with_a_result(answer: Seq<char>, error: Seq<char>)
    ensures
        over(TaskStatus::Done { answer }),
        over(TaskStatus::Failed { error }),
        !over(TaskStatus::<Seq<char>>::Queued),
        !over(TaskStatus::<Seq<char>>::Running),
{
}

/// A sweep takes away only tasks that were completed as long ago as tasks are kept, and changes
/// nothing else: what stays is as it was, and whoever waits still waits. A task whose completion
/// lies ahead of the clock counts as completed just now.
pub proof fn sweeps_take_old_tasks_alone(tasks: Tasks, id: Seq<char>, now: Duration, ttl: Duration)
    ensures
        swept(tasks, now, ttl).pending == tasks.pending,
        swept(tasks, now, ttl).table.contains_key(id) ==> tasks.table.contains_key(id) && swept(
            tasks,
            now,
            ttl,
        ).table[id] == tasks.table[id],
        tasks.table.contains_key(id) && !swept(tasks, now, ttl).table.contains_key(id) ==> (
        tasks.table[id].completed_at matches Some(completed) && now@ >= completed@ + ttl@ || ttl@
            == 0),
        tasks.table.contains_key(id) && (tasks.table[id].completed_at matches Some(completed)
            && completed@ + ttl@ <= now@) ==> !swept(tasks, now, ttl).table.contains_key(id),
{
}

/// A task that is not there is neither started nor completed; what is read of a task is what was
/// recorded of it.
pub proof fn unknown_tasks_change_nothing(
    tasks: Tasks,
    id: Seq<char>,
    status: TaskStatus<Seq<char>>,
    now: Duration,
)
    ensures
        task_in(tasks, id) is Some <==> tasks.table.contains_key(id),
        tasks.table.contains_key(id) ==> {
            &&& task_in(tasks, id) == Some(tasks.table[id])
            &&& status_in(tasks, id) == Some(tasks.table[id].status)
            &&& question_in(tasks, id) == Some(tasks.table[id].question)
        },
        !tasks.table.contains_key(id) ==> {
            &&& status_in(tasks, id) is None
            &&& question_in(tasks, id) is None
            &&& started(tasks, id) == tasks
            &&& finished(tasks, id, status, now) == tasks
        },
{
}

/// The id of a task is written in five groups of hexadecimal digits in lower case, with a hyphen
/// between them.
pub proof fn ids_are_written_in_groups(
    a: Seq<char>,
    b: Seq<char>,
    c: Seq<char>,
    d: Seq<char>,
    e: Seq<char>,
)
    requires
        a.len() == 8 && b.len() == 4 && c.len() == 4 && d.len() == 4 && e.len() == 12,
        forall|x: char|
            #[trigger] (a + b + c + d + e).contains(x) ==> '0' <= x <= '9' || 'a' <= x <= 'f',
    ensures
        is_uuid(a + seq!['-'] + b + seq!['-'] + c + seq!['-'] + d + seq!['-'] + e),
{
    let digits = a + b + c + d + e;
    let id = a + seq!['-'] + b + seq!['-'] + c + seq!['-'] + d + seq!['-'] + e;
    assert forall|i: int| 0 <= i < 36 implies if i == 8 || i == 13 || i == 18 || i == 23 {
        #[trigger] id[i] == '-'
    } else {
        '0' <= id[i] <= '9' || 'a' <= id[i] <= 'f'
    } by {
        let before: int = if i < 8 {
            0
        } else if i < 13 {
            1
        } else if i < 18 {
            2
        } else if i < 23 {
            3
        } else {
            4
        };
        if !(i == 8 || i == 13 || i == 18 || i == 23) {
            assert(id[i] == digits[i - before]);
            assert(digits.contains(digits[i - before]));
        }
    }
}

/// Where a task stands is seen as it is.
pub proof fn statuses_are_seen_as_they_are(answer: String, error: String)
    ensures
        TaskStatus::<String>::Queued.deep_view() == TaskStatus::<Seq<char>>::Queued,
        TaskStatus::<String>::Running.deep_view() == TaskStatus::<Seq<char>>::Running,
        (TaskStatus::Done { answer }).deep_view() == (TaskStatus::Done { answer: answer@ }),
        (TaskStatus::Failed { error }).deep_view() == (TaskStatus::Failed { error: error@ }),
{
}

} // verus!
