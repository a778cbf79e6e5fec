//! The multi-task command line: how its jobs are planned from the command
//! line and how the progress of tasks that run side by side is summarised.

use vstd::prelude::*;

use crate::cli::{file_stem, stem_of};
use crate::native::callbacks::text_view;
use crate::text::{append_str, chars_of, decimal, join2, join3, lemma_views_push, owned, push_char, u64_text, views};

verus! {

/// The number of tasks that may run at once when no limit is asked.
pub const UNBOUNDED_TASKS: usize = 1024;

/// The number of tasks that may run at once: the asked concurrency, or
/// `UNBOUNDED_TASKS` when it is 0 (no limit).
pub fn concurrency_limit(concurrency: usize) -> (r: usize)
    ensures
        r == if concurrency == 0 { UNBOUNDED_TASKS } else { concurrency },
        r > 0,
{
    if concurrency == 0 {
        UNBOUNDED_TASKS
    } else {
        concurrency
    }
}

/// The shortest interval, in milliseconds, between two dashboard prints.
pub const MIN_REFRESH_MILLIS: u64 = 50;

/// The interval between two dashboard prints: the one asked, but never
/// below `MIN_REFRESH_MILLIS`.
pub fn refresh_millis(requested: u64) -> (r: u64)
    ensures
        r == if requested < MIN_REFRESH_MILLIS { MIN_REFRESH_MILLIS } else { requested },
{
    if requested < MIN_REFRESH_MILLIS {
        MIN_REFRESH_MILLIS
    } else {
        requested
    }
}

/// The exit status of a command: 1 when a task failed, 0 when all succeeded.
pub fn exit_status(results: &Vec<Result<(), String>>) -> (r: i32)
    ensures
        r == if exists|k: int| 0 <= k < results@.len() && (#[trigger] results@[k]) is Err { 1i32 } else { 0i32 },
{
    let mut i: usize = 0;
    while i < results.len()
        invariant
            i <= results.len(),
            forall|k: int| 0 <= k < i ==> !((#[trigger] results@[k]) is Err),
        decreases results.len() - i,
    {
        if results[i].is_err() {
            return 1;
        }
        i = i + 1;
    }
    0
}

/// One archive to create and the inputs that go into it.
#[derive(Debug)]
pub struct CompressJob {
    /// The files and directories packed.
    pub inputs: Vec<String>,
    /// The archive written.
    pub output: String,
}

/// The refusal of outputs and inputs that cannot be paired.
pub open spec fn unpaired_text() -> Seq<char> {
    "When multiple --out are provided, number of inputs must match."@
}

/// Splits a compress command into jobs: with one output, every input goes
/// into it; with several, each output takes the input at its position, and
/// the counts must match.
pub fn plan_compress_jobs(outputs: &Vec<String>, inputs: &Vec<String>) -> (r: Result<Vec<CompressJob>, String>)
    ensures
        outputs.len() == 1 ==> (r matches Ok(jobs) && jobs@.len() == 1 && views(jobs@[0].inputs@) == views(inputs@)
            && jobs@[0].output@ == outputs@[0]@),
        outputs.len() != 1 && outputs.len() != inputs.len() ==> (r matches Err(m) && m@ == unpaired_text()),
        outputs.len() != 1 && outputs.len() == inputs.len() ==> (r matches Ok(jobs) && jobs@.len() == inputs.len()
            && forall|k: int|
            0 <= k < inputs.len() ==> {
                &&& (#[trigger] jobs@[k]).inputs@.len() == 1
                &&& jobs@[k].inputs@[0]@ == inputs@[k]@
                &&& jobs@[k].output@ == outputs@[k]@
            }),
{
    if outputs.len() == 1 {
        let mut all: Vec<String> = Vec::new();
        let mut i: usize = 0;
        while i < inputs.len()
            invariant
                i <= inputs.len(),
                views(all@) == views(inputs@).take(i as int),
            decreases inputs.len() - i,
        {
            let ghost before = all@;
            all.push(inputs[i].clone());
            proof {
                lemma_views_push(before, all@.last());
                assert(views(inputs@).take(i + 1) =~= views(inputs@).take(i as int).push(inputs@[i as int]@));
            }
            i = i + 1;
        }
        assert(views(inputs@).take(inputs.len() as int) == views(inputs@));
        let mut jobs: Vec<CompressJob> = Vec::new();
        jobs.push(CompressJob { inputs: all, output: outputs[0].clone() });
        return Ok(jobs);
    }
    if outputs.len() != inputs.len() {
        return Err(owned("When multiple --out are provided, number of inputs must match."));
    }
    let mut jobs: Vec<CompressJob> = Vec::new();
    let mut i: usize = 0;
    while i < inputs.len()
        invariant
            i <= inputs.len(),
            outputs.len() == inputs.len(),
            jobs@.len() == i,
            forall|k: int|
                0 <= k < i ==> {
                    &&& (#[trigger] jobs@[k]).inputs@.len() == 1
                    &&& jobs@[k].inputs@[0]@ == inputs@[k]@
                    &&& jobs@[k].output@ == outputs@[k]@
                },
        decreases inputs.len() - i,
    {
        let mut one: Vec<String> = Vec::new();
        one.push(inputs[i].clone());
        jobs.push(CompressJob { inputs: one, output: outputs[i].clone() });
        i = i + 1;
    }
    Ok(jobs)
}

/// The directory, under the common destination, that one archive of an
/// extract command is extracted into: its file stem, or a name made from
/// the task's number when the path has no file name.
pub open spec fn subdirectory_name(file_name: Option<Seq<char>>, task_id: u64) -> Seq<char> {
    match file_name {
        Some(n) => file_stem(n),
        None => "archive-"@ + decimal(task_id as nat),
    }
}

/// The subdirectory of one archive of an extract command, given the final
/// file name of its path.
pub fn extract_subdirectory(file_name: Option<&str>, task_id: u64) -> (r: String)
    ensures
        r@ == subdirectory_name(
            match file_name {
                Some(n) => Some(n@),
                None => None,
            },
            task_id,
        ),
{
    match file_name {
        Some(n) => stem_of(n),
        None => {
            let number = u64_text(task_id);
            join2("archive-", number.as_str())
        },
    }
}

/// What one task has reported so far.
#[derive(Debug)]
pub struct TaskSnapshot {
    /// The task's number.
    pub id: u64,
    /// What the task does.
    pub kind: String,
    /// What the task works on.
    pub title: String,
    /// The backend it runs on, once chosen.
    pub backend: Option<String>,
    /// The phase it is in.
    pub phase: Option<String>,
    /// The entry it works on.
    pub current_entry: Option<String>,
    /// The bytes processed.
    pub processed: u64,
    /// The bytes expected, when known.
    pub total: Option<u64>,
    /// Whether it has finished.
    pub finished: bool,
    /// Whether it was cancelled.
    pub cancelled: bool,
    /// Why it failed.
    pub error: Option<String>,
    /// Its warnings and notes, oldest first.
    pub warnings: Vec<String>,
}

/// A task's report as plain values.
pub struct TaskModel {
    pub id: u64,
    pub kind: Seq<char>,
    pub title: Seq<char>,
    pub backend: Option<Seq<char>>,
    pub phase: Option<Seq<char>>,
    pub current_entry: Option<Seq<char>>,
    pub processed: u64,
    pub total: Option<u64>,
    pub finished: bool,
    pub cancelled: bool,
    pub error: Option<Seq<char>>,
    pub warnings: Seq<Seq<char>>,
}

impl View for TaskSnapshot {
    type V = TaskModel;

    open spec fn view(&self) -> TaskModel {
        TaskModel {
            id: self.id,
            kind: self.kind@,
            title: self.title@,
            backend: text_view(self.backend),
            phase: text_view(self.phase),
            current_entry: text_view(self.current_entry),
            processed: self.processed,
            total: self.total,
            finished: self.finished,
            cancelled: self.cancelled,
            error: text_view(self.error),
            warnings: views(self.warnings@),
        }
    }
}

/// A task that has reported nothing but its start.
pub open spec fn fresh_task(id: u64, kind: Seq<char>, title: Seq<char>) -> TaskModel {
    TaskModel {
        id,
        kind,
        title,
        backend: None,
        phase: None,
        current_entry: None,
        processed: 0,
        total: None,
        finished: false,
        cancelled: false,
        error: None,
        warnings: Seq::empty(),
    }
}

impl TaskSnapshot {
    /// A task that has reported nothing but its start.
    pub fn new(id: u64, kind: String, title: String) -> (r: TaskSnapshot)
        ensures
            r@ == fresh_task(id, kind@, title@),
    {
        let r = TaskSnapshot {
            id,
            kind,
            title,
            backend: None,
            phase: None,
            current_entry: None,
            processed: 0,
            total: None,
            finished: false,
            cancelled: false,
            error: None,
            warnings: Vec::new(),
        };
        assert(views(r.warnings@) =~= Seq::<Seq<char>>::empty());
        r
    }
}

/// What a running task reports.
#[derive(Debug)]
pub enum TaskEvent {
    /// The task started.
    Started { task_id: u64, kind: String, title: String },
    /// The backend that runs it was chosen.
    BackendSelected { task_id: u64, backend: String },
    /// It entered a phase.
    PhaseChanged { task_id: u64, phase: String },
    /// It began an entry.
    EntryStarted { task_id: u64, path: String, processed: u64, total: Option<u64> },
    /// It progressed within an entry.
    EntryProgress { task_id: u64, path: String, processed: u64, total: Option<u64> },
    /// It finished an entry.
    EntryFinished { task_id: u64, path: String },
    /// It warned.
    Warning { task_id: u64, message: String },
    /// It noted something.
    Note { task_id: u64, message: String },
    /// It finished.
    Finished { task_id: u64 },
    /// It was cancelled.
    Cancelled { task_id: u64 },
    /// It failed.
    Failed { task_id: u64, message: String },
}

/// The task an event belongs to.
pub open spec fn event_task(e: TaskEvent) -> u64 {
    match e {
        TaskEvent::Started { task_id, .. } => task_id,
        TaskEvent::BackendSelected { task_id, .. } => task_id,
        TaskEvent::PhaseChanged { task_id, .. } => task_id,
        TaskEvent::EntryStarted { task_id, .. } => task_id,
        TaskEvent::EntryProgress { task_id, .. } => task_id,
        TaskEvent::EntryFinished { task_id, .. } => task_id,
        TaskEvent::Warning { task_id, .. } => task_id,
        TaskEvent::Note { task_id, .. } => task_id,
        TaskEvent::Finished { task_id } => task_id,
        TaskEvent::Cancelled { task_id } => task_id,
        TaskEvent::Failed { task_id, .. } => task_id,
    }
}

/// The kind and title a task gets when an event is the first of it seen:
/// those of its start, or "-".
pub open spec fn event_labels(e: TaskEvent) -> (Seq<char>, Seq<char>) {
    match e {
        TaskEvent::Started { kind, title, .. } => (kind@, title@),
        _ => ("-"@, "-"@),
    }
}

/// What an event changes in its task's report.
pub open spec fn changed(m: TaskModel, e: TaskEvent) -> TaskModel {
    match e {
        TaskEvent::Started { .. } => m,
        TaskEvent::BackendSelected { backend, .. } => TaskModel { backend: Some(backend@), ..m },
        TaskEvent::PhaseChanged { phase, .. } => TaskModel { phase: Some(phase@), ..m },
        TaskEvent::EntryStarted { path, processed, total, .. } => TaskModel {
            current_entry: Some(path@),
            processed,
            total,
            ..m
        },
        TaskEvent::EntryProgress { path, processed, total, .. } => TaskModel {
            current_entry: Some(path@),
            processed,
            total: match total {
                Some(t) => Some(t),
                None => m.total,
            },
            ..m
        },
        TaskEvent::EntryFinished { path, .. } => TaskModel { current_entry: Some(path@), ..m },
        TaskEvent::Warning { message, .. } => TaskModel { warnings: m.warnings.push(message@), ..m },
        TaskEvent::Note { message, .. } => TaskModel { warnings: m.warnings.push(message@), ..m },
        TaskEvent::Finished { .. } => TaskModel { finished: true, ..m },
        TaskEvent::Cancelled { .. } => TaskModel { cancelled: true, ..m },
        TaskEvent::Failed { message, .. } => TaskModel { error: Some(message@), ..m },
    }
}

/// Tasks ordered by strictly increasing number.
pub open spec fn sorted_ids(s: Seq<TaskModel>) -> bool {
    forall|i: int, j: int| 0 <= i < j < s.len() ==> s[i].id < s[j].id
}

/// The position of task `id` in tasks ordered by number: the number of
/// tasks before it.
pub open spec fn key_position(s: Seq<TaskModel>, id: u64) -> int
    decreases s.len(),
{
    if s.len() == 0 {
        0
    } else if s.last().id < id {
        s.len() as int
    } else {
        key_position(s.drop_last(), id)
    }
}

proof fn lemma_key_position(s: Seq<TaskModel>, id: u64, i: int)
    requires
        sorted_ids(s),
        0 <= i <= s.len(),
        forall|k: int| 0 <= k < i ==> (#[trigger] s[k]).id < id,
        i == s.len() || s[i].id >= id,
    ensures
        key_position(s, id) == i,
    decreases s.len(),
{
    if s.len() > 0 {
        if s.last().id < id {
            if i < s.len() {
                assert(s[i].id <= s.last().id);
            }
        } else {
            lemma_key_position(s.drop_last(), id, i);
        }
    }
}

/// The tasks once task `id` is known, made from `kind` and `title` when it
/// was not.
pub open spec fn with_task(s: Seq<TaskModel>, id: u64, kind: Seq<char>, title: Seq<char>) -> Seq<TaskModel> {
    let p = key_position(s, id);
    if p < s.len() && s[p].id == id {
        s
    } else {
        s.insert(p, fresh_task(id, kind, title))
    }
}

/// The tasks after an event.
pub open spec fn after_event(s: Seq<TaskModel>, e: TaskEvent) -> Seq<TaskModel> {
    let id = event_task(e);
    let t = with_task(s, id, event_labels(e).0, event_labels(e).1);
    let p = key_position(s, id);
    t.update(p, changed(t[p], e))
}

/// An event touches its own task only: every other task keeps its report,
/// and the event's task is known afterwards.
pub proof fn law_events_touch_their_task_only(s: Seq<TaskModel>, e: TaskEvent)
    requires
        sorted_ids(s),
    ensures
        forall|k: int| 0 <= k < s.len() && s[k].id != event_task(e) ==> after_event(s, e).contains(#[trigger] s[k]),
        exists|j: int| 0 <= j < after_event(s, e).len() && (#[trigger] after_event(s, e)[j]).id == event_task(e),
{
    let id = event_task(e);
    let t = with_task(s, id, event_labels(e).0, event_labels(e).1);
    let p = key_position(s, id);
    let a = after_event(s, e);
    let found = p < s.len() && s[p].id == id;
    lemma_key_position_bounds(s, id);
    assert forall|k: int| 0 <= k < s.len() && s[k].id != event_task(e) implies a.contains(#[trigger] s[k]) by {
        if found {
            assert(k != p);
            assert(a[k] == s[k]);
        } else if k < p {
            assert(a[k] == s[k]);
        } else {
            assert(a[k + 1] == s[k]);
        }
    }
    assert(a[p].id == id);
}

proof fn lemma_key_position_bounds(s: Seq<TaskModel>, id: u64)
    ensures
        0 <= key_position(s, id) <= s.len(),
    decreases s.len(),
{
    if s.len() > 0 && s.last().id >= id {
        lemma_key_position_bounds(s.drop_last(), id);
    }
}

/// The reports of the tasks of a command, by task number.
pub struct TaskDashboard {
    tasks: Vec<TaskSnapshot>,
}

/// The reports held in `v`, in order.
pub open spec fn models(v: Seq<TaskSnapshot>) -> Seq<TaskModel> {
    v.map_values(|t: TaskSnapshot| t@)
}

impl View for TaskDashboard {
    type V = Seq<TaskModel>;

    closed spec fn view(&self) -> Seq<TaskModel> {
        models(self.tasks@)
    }
}

/// The position of task `id` among `tasks`.
fn position(tasks: &Vec<TaskSnapshot>, id: u64) -> (p: usize)
    requires
        sorted_ids(models(tasks@)),
    ensures
        p == key_position(models(tasks@), id),
        p <= tasks@.len(),
        forall|k: int| 0 <= k < p ==> (#[trigger] models(tasks@)[k]).id < id,
        p < tasks@.len() ==> models(tasks@)[p as int].id >= id,
{
    let ghost s = models(tasks@);
    let mut i: usize = 0;
    while i < tasks.len() && tasks[i].id < id
        invariant
            i <= tasks.len(),
            s == models(tasks@),
            s.len() == tasks@.len(),
            forall|k: int| 0 <= k < s.len() ==> (#[trigger] s[k]) == tasks@[k]@,
            forall|k: int| 0 <= k < i ==> (#[trigger] s[k]).id < id,
        decreases tasks.len() - i,
    {
        i = i + 1;
    }
    proof {
        lemma_key_position(s, id, i as int);
    }
    i
}

/// Makes task `id` known among `tasks`, from `kind` and `title` when it was
/// not, and returns its position.
fn ensure_task(tasks: &mut Vec<TaskSnapshot>, id: u64, kind: String, title: String) -> (p: usize)
    requires
        sorted_ids(models(old(tasks)@)),
    ensures
        models(final(tasks)@) == with_task(models(old(tasks)@), id, kind@, title@),
        p == key_position(models(old(tasks)@), id),
        p < final(tasks)@.len(),
        models(final(tasks)@)[p as int].id == id,
        sorted_ids(models(final(tasks)@)),
{
    let p = position(tasks, id);
    if p < tasks.len() && tasks[p].id == id {
        return p;
    }
    tasks.insert(p, TaskSnapshot::new(id, kind, title));
    proof {
        assert(models(tasks@) =~= with_task(models(old(tasks)@), id, kind@, title@));
    }
    p
}

impl TaskDashboard {
    /// Tasks are kept in strictly increasing task number.
    #[verifier::type_invariant]
    spec fn ordered(self) -> bool {
        sorted_ids(models(self.tasks@))
    }

    /// No task yet.
    pub fn new() -> (r: TaskDashboard)
        ensures
            r@ == Seq::<TaskModel>::empty(),
    {
        let r = TaskDashboard { tasks: Vec::new() };
        assert(r@ =~= Seq::<TaskModel>::empty());
        r
    }

    /// The number of tasks known.
    pub fn len(&self) -> (r: usize)
        ensures
            r == self@.len(),
    {
        self.tasks.len()
    }

    /// The report of the task at `index`, in task order.
    pub fn task(&self, index: usize) -> (r: &TaskSnapshot)
        requires
            index < self@.len(),
        ensures
            r@ == self@[index as int],
    {
        &self.tasks[index]
    }

    /// Applies what a task reported.
    pub fn apply(&mut self, event: TaskEvent)
        ensures
            final(self)@ == after_event(old(self)@, event),
            sorted_ids(final(self)@),
    {
        proof {
            use_type_invariant(&*self);
        }
        let ghost e = event;
        let mut tasks: Vec<TaskSnapshot> = Vec::new();
        std::mem::swap(&mut tasks, &mut self.tasks);
        let id = event.task_id();
        let (kind, title) = event.first_labels();
        let p = ensure_task(&mut tasks, id, kind, title);
        let ghost known = models(tasks@);
        let mut t = tasks.remove(p);
        assert(t@ == known[p as int]);
        t.record(event);
        tasks.insert(p, t);
        proof {
            assert(changed(known[p as int], e).id == known[p as int].id);
            assert(models(tasks@) =~= after_event(old(self)@, e));
        }
        self.tasks = tasks;
    }
}

impl TaskEvent {
    /// The task the event belongs to.
    pub fn task_id(&self) -> (r: u64)
        ensures
            r == event_task(*self),
    {
        match self {
            TaskEvent::Started { task_id, .. } => *task_id,
            TaskEvent::BackendSelected { task_id, .. } => *task_id,
            TaskEvent::PhaseChanged { task_id, .. } => *task_id,
            TaskEvent::EntryStarted { task_id, .. } => *task_id,
            TaskEvent::EntryProgress { task_id, .. } => *task_id,
            TaskEvent::EntryFinished { task_id, .. } => *task_id,
            TaskEvent::Warning { task_id, .. } => *task_id,
            TaskEvent::Note { task_id, .. } => *task_id,
            TaskEvent::Finished { task_id } => *task_id,
            TaskEvent::Cancelled { task_id } => *task_id,
            TaskEvent::Failed { task_id, .. } => *task_id,
        }
    }

    fn first_labels(&self) -> (r: (String, String))
        ensures
            r.0@ == event_labels(*self).0,
            r.1@ == event_labels(*self).1,
    {
        match self {
            TaskEvent::Started { kind, title, .. } => (kind.clone(), title.clone()),
            _ => (owned("-"), owned("-")),
        }
    }
}

impl TaskSnapshot {
    /// Records what the task reported.
    pub fn record(&mut self, event: TaskEvent)
        ensures
            final(self)@ == changed(old(self)@, event),
    {
        match event {
            TaskEvent::Started { .. } => {},
            TaskEvent::BackendSelected { backend, .. } => {
                self.backend = Some(backend);
            },
            TaskEvent::PhaseChanged { phase, .. } => {
                self.phase = Some(phase);
            },
            TaskEvent::EntryStarted { path, processed, total, .. } => {
                self.current_entry = Some(path);
                self.processed = processed;
                self.total = total;
            },
            TaskEvent::EntryProgress { path, processed, total, .. } => {
                self.current_entry = Some(path);
                self.processed = processed;
                if total.is_some() {
                    self.total = total;
                }
            },
            TaskEvent::EntryFinished { path, .. } => {
                self.current_entry = Some(path);
            },
            TaskEvent::Warning { message, .. } => {
                let ghost ws = self.warnings@;
                self.warnings.push(message);
                proof {
                    lemma_views_push(ws, message);
                }
            },
            TaskEvent::Note { message, .. } => {
                let ghost ws = self.warnings@;
                self.warnings.push(message);
                proof {
                    lemma_views_push(ws, message);
                }
            },
            TaskEvent::Finished { .. } => {
                self.finished = true;
            },
            TaskEvent::Cancelled { .. } => {
                self.cancelled = true;
            },
            TaskEvent::Failed { message, .. } => {
                self.error = Some(message);
            },
        }
    }
}

/// The localized texts of the dashboard.
#[derive(Debug)]
pub struct DashboardText {
    /// The status of a task still running.
    pub running: String,
    /// The status of a finished task.
    pub finished: String,
    /// The status of a failed task.
    pub failed: String,
    /// The status of a cancelled task.
    pub cancelled: String,
    /// The text before the message of a warning line.
    pub warning_before: String,
    /// The text after the message of a warning line.
    pub warning_after: String,
    /// The text before the message of an error line.
    pub error_before: String,
    /// The text after the message of an error line.
    pub error_after: String,
}

/// The number of warnings shown for one task.
pub const SHOWN_WARNINGS: usize = 3;

/// A decimal number right-aligned in three columns.
pub open spec fn pad3(d: Seq<char>) -> Seq<char> {
    if d.len() < 3 {
        Seq::new((3 - d.len()) as nat, |i: int| ' ') + d
    } else {
        d
    }
}

/// The start of every line of a task.
pub open spec fn line_tag(id: u64) -> Seq<char> {
    "[#"@ + pad3(decimal(id as nat)) + "] "@
}

/// A value, or "-" when there is none.
pub open spec fn or_dash(v: Option<Seq<char>>) -> Seq<char> {
    match v {
        Some(t) => t,
        None => "-"@,
    }
}

/// The bytes processed, and those expected when known.
pub open spec fn progress_text(processed: u64, total: Option<u64>) -> Seq<char> {
    match total {
        Some(t) => decimal(processed as nat) + "/"@ + decimal(t as nat),
        None => decimal(processed as nat),
    }
}

/// The status of a task: cancelled before failed before finished, and
/// running otherwise.
pub open spec fn status_text(m: TaskModel, text: DashboardText) -> Seq<char> {
    if m.cancelled {
        text.cancelled@
    } else if m.error is Some {
        text.failed@
    } else if m.finished {
        text.finished@
    } else {
        text.running@
    }
}

/// The first line of a task.
pub open spec fn head_line(m: TaskModel, text: DashboardText) -> Seq<char> {
    line_tag(m.id) + status_text(m, text) + " | "@ + m.kind + " | "@ + m.title + " | phase="@ + or_dash(m.phase)
        + " | backend="@ + or_dash(m.backend) + " | "@ + progress_text(m.processed, m.total) + " | "@ + or_dash(
        m.current_entry,
    ) + "\n"@
}

/// The line of one warning.
pub open spec fn warning_line(id: u64, message: Seq<char>, text: DashboardText) -> Seq<char> {
    line_tag(id) + text.warning_before@ + message + text.warning_after@ + "\n"@
}

/// The lines of the given warnings, in order.
pub open spec fn warning_lines(id: u64, ws: Seq<Seq<char>>, text: DashboardText) -> Seq<char>
    decreases ws.len(),
{
    if ws.len() == 0 {
        Seq::empty()
    } else {
        warning_lines(id, ws.drop_last(), text) + warning_line(id, ws.last(), text)
    }
}

/// The line that counts the warnings not shown.
pub open spec fn hidden_line(id: u64, hidden: nat, text: DashboardText) -> Seq<char> {
    line_tag(id) + text.warning_before@ + "\u{2026}"@ + text.warning_after@ + " (+"@ + decimal(hidden) + ")\n"@
}

/// The lines of one task: its first line, its first three warnings, the
/// count of the others, and its error.
pub open spec fn task_lines(m: TaskModel, text: DashboardText) -> Seq<char> {
    let shown = if m.warnings.len() > 3 { 3 } else { m.warnings.len() as int };
    head_line(m, text) + warning_lines(m.id, m.warnings.take(shown), text) + (if m.warnings.len() > 3 {
        hidden_line(m.id, (m.warnings.len() - 3) as nat, text)
    } else {
        Seq::empty()
    }) + match m.error {
        Some(e) => line_tag(m.id) + text.error_before@ + e + text.error_after@ + "\n"@,
        None => Seq::empty(),
    }
}

/// The lines of the given tasks, in order.
pub open spec fn tasks_lines(s: Seq<TaskModel>, text: DashboardText) -> Seq<char>
    decreases s.len(),
{
    if s.len() == 0 {
        Seq::empty()
    } else {
        tasks_lines(s.drop_last(), text) + task_lines(s.last(), text)
    }
}

/// The summary of all tasks: a separator line, then each task by number.
pub open spec fn dashboard_text(s: Seq<TaskModel>, text: DashboardText) -> Seq<char> {
    "----\n"@ + tasks_lines(s, text)
}

fn line_tag_of(id: u64) -> (r: String)
    ensures
        r@ == line_tag(id),
{
    let digits = u64_text(id);
    let n = chars_of(digits.as_str()).len();
    let mut r = owned("[#");
    let mut i: usize = n;
    while i < 3
        invariant
            n <= i <= 3 || (n > 3 && i == n),
            n == decimal(id as nat).len(),
            r@ == "[#"@ + Seq::new((i - n) as nat, |k: int| ' '),
        decreases 3 - i,
    {
        let ghost before = r@;
        push_char(&mut r, ' ');
        i = i + 1;
        proof {
            assert(r@ =~= "[#"@ + Seq::new((i - n) as nat, |k: int| ' '));
        }
    }
    proof {
        if n < 3 {
            assert(i == 3);
        } else {
            assert(Seq::new((i - n) as nat, |k: int| ' ') =~= Seq::<char>::empty());
        }
    }
    append_str(&mut r, digits.as_str());
    append_str(&mut r, "] ");
    proof {
        assert(r@ =~= line_tag(id));
    }
    r
}

fn text_or_dash(v: &Option<String>) -> (r: &str)
    ensures
        r@ == or_dash(text_view(*v)),
{
    match v {
        Some(t) => t.as_str(),
        None => "-",
    }
}

impl TaskSnapshot {
    /// The status shown for the task.
    pub fn status<'a>(&self, text: &'a DashboardText) -> (r: &'a str)
        ensures
            r@ == status_text(self@, *text),
    {
        if self.cancelled {
            text.cancelled.as_str()
        } else if self.error.is_some() {
            text.failed.as_str()
        } else if self.finished {
            text.finished.as_str()
        } else {
            text.running.as_str()
        }
    }

    /// The progress shown for the task.
    pub fn progress(&self) -> (r: String)
        ensures
            r@ == progress_text(self.processed, self.total),
    {
        let done = u64_text(self.processed);
        match self.total {
            Some(t) => {
                let all = u64_text(t);
                join3(done.as_str(), "/", all.as_str())
            },
            None => done,
        }
    }

    fn head(&self, text: &DashboardText) -> (r: String)
        ensures
            r@ == head_line(self@, *text),
    {
        let mut r = line_tag_of(self.id);
        append_str(&mut r, self.status(text));
        append_str(&mut r, " | ");
        append_str(&mut r, self.kind.as_str());
        append_str(&mut r, " | ");
        append_str(&mut r, self.title.as_str());
        append_str(&mut r, " | phase=");
        append_str(&mut r, text_or_dash(&self.phase));
        append_str(&mut r, " | backend=");
        append_str(&mut r, text_or_dash(&self.backend));
        append_str(&mut r, " | ");
        let progress = self.progress();
        append_str(&mut r, progress.as_str());
        append_str(&mut r, " | ");
        append_str(&mut r, text_or_dash(&self.current_entry));
        append_str(&mut r, "\n");
        proof {
            assert(r@ =~= head_line(self@, *text));
        }
        r
    }

    /// The lines of the task.
    pub fn lines(&self, text: &DashboardText) -> (r: String)
        ensures
            r@ == task_lines(self@, *text),
    {
        let mut r = self.head(text);
        let ghost ws = self@.warnings;
        let tag = line_tag_of(self.id);
        let count = self.warnings.len();
        let shown = if count > SHOWN_WARNINGS { SHOWN_WARNINGS } else { count };
        let ghost start = r@;
        let mut i: usize = 0;
        while i < shown
            invariant
                i <= shown,
                shown <= count,
                count == self.warnings@.len(),
                ws == views(self.warnings@),
                tag@ == line_tag(self.id),
                r@ == start + warning_lines(self.id, ws.take(i as int), *text),
            decreases shown - i,
        {
            let ghost before = r@;
            append_str(&mut r, tag.as_str());
            append_str(&mut r, text.warning_before.as_str());
            append_str(&mut r, self.warnings[i].as_str());
            append_str(&mut r, text.warning_after.as_str());
            append_str(&mut r, "\n");
            proof {
                assert(ws.take(i + 1).drop_last() =~= ws.take(i as int));
                assert(ws.take(i + 1).last() == ws[i as int]);
                assert(r@ =~= before + warning_line(self.id, ws[i as int], *text));
            }
            i = i + 1;
        }
        if count > SHOWN_WARNINGS {
            let hidden = u64_text((count - SHOWN_WARNINGS) as u64);
            append_str(&mut r, tag.as_str());
            append_str(&mut r, text.warning_before.as_str());
            append_str(&mut r, "\u{2026}");
            append_str(&mut r, text.warning_after.as_str());
            append_str(&mut r, " (+");
            append_str(&mut r, hidden.as_str());
            append_str(&mut r, ")\n");
        }
        let ghost mid = r@;
        match &self.error {
            Some(e) => {
                append_str(&mut r, tag.as_str());
                append_str(&mut r, text.error_before.as_str());
                append_str(&mut r, e.as_str());
                append_str(&mut r, text.error_after.as_str());
                append_str(&mut r, "\n");
            },
            None => {},
        }
        proof {
            assert(r@ =~= task_lines(self@, *text));
        }
        r
    }
}

impl TaskDashboard {
    /// The summary of all tasks: a separator line, then the lines of each
    /// task by increasing number.
    pub fn render_compact(&self, text: &DashboardText) -> (r: String)
        ensures
            r@ == dashboard_text(self@, *text),
    {
        let mut r = owned("----\n");
        let mut i: usize = 0;
        while i < self.tasks.len()
            invariant
                i <= self.tasks.len(),
                self@.len() == self.tasks@.len(),
                forall|k: int| 0 <= k < self@.len() ==> (#[trigger] self@[k]) == self.tasks@[k]@,
                r@ == "----\n"@ + tasks_lines(self@.take(i as int), *text),
            decreases self.tasks.len() - i,
        {
            let ghost before = r@;
            let lines = self.tasks[i].lines(text);
            append_str(&mut r, lines.as_str());
            proof {
                assert(self@.take(i + 1).drop_last() =~= self@.take(i as int));
                assert(self@.take(i + 1).last() == self@[i as int]);
            }
            i = i + 1;
        }
        proof {
            assert(self@.take(self@.len() as int) =~= self@);
        }
        r
    }
}

} // verus!
