//! The scheduler: which job runs next, whether the queue is being worked
//! on, and the commands that run one job in a detached session on the remote
//! machine.

use vstd::prelude::*;
use crate::db::JobStore;
use crate::lines::{split, split_chars, trim, trim_chars};
use crate::numbers::{
    decimal, lemma_decimal_len, lemma_decimal_tells_apart, parse_i32, parse_i32_spec,
    power_of_ten, push_signed_decimal, signed_decimal,
};
use crate::queue_spec::{pos, queued};
use crate::state::{copy_job, job_views, Job, JobStatus, JobView};
use crate::text::{chars_of, push_all, push_str, string_of, views};

verus! {

// ---------------------------------------------------------------------------
// The state of the queue
// ---------------------------------------------------------------------------

/// Whether the queue is being worked on.
#[derive(Debug, Clone, Copy, PartialEq, Eq, Structural)]
pub enum QueueState {
    /// Nothing is going on.
    Idle,
    /// Jobs are taken from the queue one after the other.
    Running,
    /// The job at work, if any, goes on; no further job starts.
    Paused,
}

/// What the queue can be told, or find out for itself.
#[derive(Debug, Clone, Copy, PartialEq, Eq, Structural)]
pub enum QueueCommand {
    Start,
    Stop,
    Pause,
    Resume,
    /// The queue has run empty.
    Drained,
}

/// A command that the queue cannot follow in its state.
#[derive(Debug, Clone, Copy, PartialEq, Eq, Structural)]
pub struct QueueStateError {
    pub state: QueueState,
    pub command: QueueCommand,
}

/// The state that a command leads to: starting an idle queue and resuming a
/// paused one make it run, stopping a running queue or finding it empty makes
/// it idle, pausing a running queue makes it paused. Every other command is
/// refused.
pub open spec fn next_state(state: QueueState, command: QueueCommand) -> Option<QueueState> {
    match (state, command) {
        (QueueState::Idle, QueueCommand::Start) => Some(QueueState::Running),
        (QueueState::Running, QueueCommand::Stop) => Some(QueueState::Idle),
        (QueueState::Running, QueueCommand::Drained) => Some(QueueState::Idle),
        (QueueState::Running, QueueCommand::Pause) => Some(QueueState::Paused),
        (QueueState::Paused, QueueCommand::Resume) => Some(QueueState::Running),
        _ => None,
    }
}

impl QueueState {
    /// The name of the state.
    pub open spec fn name(self) -> Seq<char> {
        match self {
            QueueState::Idle => "idle"@,
            QueueState::Running => "running"@,
            QueueState::Paused => "paused"@,
        }
    }

    /// The name of the state.
    pub fn as_str(&self) -> (s: &'static str)
        ensures
            s@ == self.name(),
    {
        match self {
            QueueState::Idle => "idle",
            QueueState::Running => "running",
            QueueState::Paused => "paused",
        }
    }

    /// The state that a command leads to, or the refusal of the command.
    pub fn transition(self, command: QueueCommand) -> (r: Result<QueueState, QueueStateError>)
        ensures
            match next_state(self, command) {
                Some(next) => r == Ok::<QueueState, QueueStateError>(next),
                None => r == Err::<QueueState, QueueStateError>(
                    QueueStateError { state: self, command },
                ),
            },
    {
        match self {
            QueueState::Idle => match command {
                QueueCommand::Start => Ok(QueueState::Running),
                _ => Err(QueueStateError { state: self, command }),
            },
            QueueState::Running => match command {
                QueueCommand::Stop => Ok(QueueState::Idle),
                QueueCommand::Drained => Ok(QueueState::Idle),
                QueueCommand::Pause => Ok(QueueState::Paused),
                _ => Err(QueueStateError { state: self, command }),
            },
            QueueState::Paused => match command {
                QueueCommand::Resume => Ok(QueueState::Running),
                _ => Err(QueueStateError { state: self, command }),
            },
        }
    }
}

impl QueueStateError {
    /// The message of the refusal.
    pub open spec fn text(self) -> Seq<char> {
        match (self.state, self.command) {
            (QueueState::Running, QueueCommand::Start) => "Queue already processing"@,
            (QueueState::Paused, QueueCommand::Start) => "Queue is paused"@,
            (_, QueueCommand::Pause) => "Queue is not running"@,
            (_, QueueCommand::Resume) => "Queue is not paused"@,
            _ => "Queue is not processing"@,
        }
    }

    /// The message of the refusal.
    pub fn message(&self) -> (s: String)
        ensures
            s@ == self.text(),
    {
        match self.command {
            QueueCommand::Start => match self.state {
                QueueState::Running => "Queue already processing".to_owned(),
                QueueState::Paused => "Queue is paused".to_owned(),
                _ => "Queue is not processing".to_owned(),
            },
            QueueCommand::Pause => "Queue is not running".to_owned(),
            QueueCommand::Resume => "Queue is not paused".to_owned(),
            _ => "Queue is not processing".to_owned(),
        }
    }
}

/// The scheduler's view of itself: whether the queue is being worked on, and
/// on which job.
#[derive(Debug, Clone, Copy, PartialEq, Eq, Structural)]
pub struct QueueManager {
    state: QueueState,
    current_job_id: Option<i64>,
}

/// What the loop of the scheduler does next.
#[derive(Debug, Clone)]
pub enum LoopStep {
    /// The queue is not running: the loop ends.
    Halt,
    /// The queue has run empty: it is idle now, and the loop ends.
    Done,
    /// This job runs next.
    Run(Job),
}

impl QueueManager {
    /// The state of the queue.
    pub closed spec fn state(self) -> QueueState {
        self.state
    }

    /// The job at work.
    pub closed spec fn current(self) -> Option<i64> {
        self.current_job_id
    }

    /// A scheduler at rest.
    pub fn new() -> (manager: QueueManager)
        ensures
            manager.state() == QueueState::Idle,
            manager.current() == None::<i64>,
    {
        QueueManager { state: QueueState::Idle, current_job_id: None }
    }

    fn apply(&mut self, command: QueueCommand) -> (r: Result<(), QueueStateError>)
        ensures
            final(self).current() == old(self).current(),
            match next_state(old(self).state(), command) {
                Some(next) => r is Ok && final(self).state() == next,
                None => r == Err::<(), QueueStateError>(
                    QueueStateError { state: old(self).state(), command },
                ) && final(self).state() == old(self).state(),
            },
    {
        match self.state.transition(command) {
            Ok(next) => {
                self.state = next;
                Ok(())
            },
            Err(e) => Err(e),
        }
    }

    /// Starts to work on the queue. Refused unless the queue is idle.
    pub fn start_processing(&mut self) -> (r: Result<(), QueueStateError>)
        ensures
            final(self).current() == old(self).current(),
            match next_state(old(self).state(), QueueCommand::Start) {
                Some(next) => r is Ok && final(self).state() == next,
                None => r == Err::<(), QueueStateError>(
                    QueueStateError { state: old(self).state(), command: QueueCommand::Start },
                ) && final(self).state() == old(self).state(),
            },
    {
        self.apply(QueueCommand::Start)
    }

    /// Stops working on the queue once the job at work is over. Refused
    /// unless the queue is running.
    pub fn stop_processing(&mut self) -> (r: Result<(), QueueStateError>)
        ensures
            final(self).current() == old(self).current(),
            match next_state(old(self).state(), QueueCommand::Stop) {
                Some(next) => r is Ok && final(self).state() == next,
                None => r == Err::<(), QueueStateError>(
                    QueueStateError { state: old(self).state(), command: QueueCommand::Stop },
                ) && final(self).state() == old(self).state(),
            },
    {
        self.apply(QueueCommand::Stop)
    }

    /// Lets the job at work go on and starts no further one. Refused unless
    /// the queue is running.
    pub fn pause_processing(&mut self) -> (r: Result<(), QueueStateError>)
        ensures
            final(self).current() == old(self).current(),
            match next_state(old(self).state(), QueueCommand::Pause) {
                Some(next) => r is Ok && final(self).state() == next,
                None => r == Err::<(), QueueStateError>(
                    QueueStateError { state: old(self).state(), command: QueueCommand::Pause },
                ) && final(self).state() == old(self).state(),
            },
    {
        self.apply(QueueCommand::Pause)
    }

    /// Goes on with the queue. Refused unless the queue is paused.
    pub fn resume_processing(&mut self) -> (r: Result<(), QueueStateError>)
        ensures
            final(self).current() == old(self).current(),
            match next_state(old(self).state(), QueueCommand::Resume) {
                Some(next) => r is Ok && final(self).state() == next,
                None => r == Err::<(), QueueStateError>(
                    QueueStateError { state: old(self).state(), command: QueueCommand::Resume },
                ) && final(self).state() == old(self).state(),
            },
    {
        self.apply(QueueCommand::Resume)
    }

    /// Whether the queue is running.
    pub fn is_processing(&self) -> (b: bool)
        ensures
            b == (self.state() == QueueState::Running),
    {
        self.state == QueueState::Running
    }

    /// The state of the queue.
    pub fn get_state(&self) -> (state: QueueState)
        ensures
            state == self.state(),
    {
        self.state
    }

    /// The job at work.
    pub fn current_job(&self) -> (id: Option<i64>)
        ensures
            id == self.current(),
    {
        self.current_job_id
    }

    /// What the loop does at the top of an iteration. A queue that is not
    /// running halts the loop, whatever waits. A running queue takes the
    /// job that runs next and makes it the job at work; with no job pending
    /// it becomes idle.
    pub fn next_step(&mut self, store: &JobStore) -> (step: LoopStep)
        requires
            store.wf(),
        ensures
            old(self).state() != QueueState::Running ==> step is Halt && *final(self) == *old(
                self,
            ),
            old(self).state() == QueueState::Running && next_job(store@) is None ==> step is Done
                && final(self).state() == QueueState::Idle && final(self).current() == old(
                self,
            ).current(),
            old(self).state() == QueueState::Running && next_job(store@) is Some ==> step is Run
                && step->Run_0@ == next_job(store@)->0 && final(self).state()
                == QueueState::Running && final(self).current() == Some(next_job(store@)->0.id),
    {
        if self.state != QueueState::Running {
            return LoopStep::Halt;
        }
        match select_next_job(store) {
            None => {
                self.state = QueueState::Idle;
                LoopStep::Done
            },
            Some(job) => {
                self.current_job_id = Some(job.id);
                LoopStep::Run(job)
            },
        }
    }

    /// The job at work is over, however it ended: no job is at work.
    pub fn job_finished(&mut self)
        ensures
            final(self).state() == old(self).state(),
            final(self).current() == None::<i64>,
    {
        self.current_job_id = None;
    }
}

// ---------------------------------------------------------------------------
// The next job
// ---------------------------------------------------------------------------

/// Whether the job `a` is taken before the job `b`: a job that was queued
/// without a position before a job of the queue, and of two jobs of the
/// queue the one with the lesser position.
pub open spec fn ahead(a: JobView, b: JobView) -> bool {
    match (a.queue_position, b.queue_position) {
        (None, Some(_)) => true,
        (Some(p), Some(q)) => p < q,
        _ => false,
    }
}

/// The pending job that is taken first among the first `upto` rows: one
/// that no other pending job is ahead of, and of several such the one that
/// stands first in the table.
pub open spec fn first_pending(rows: Seq<JobView>, upto: int) -> Option<JobView>
    decreases upto,
{
    if upto <= 0 || upto > rows.len() {
        None
    } else {
        let rest = first_pending(rows, upto - 1);
        let r = rows[upto - 1];
        if r.status == JobStatus::Pending && (rest is None || ahead(r, rest->0)) {
            Some(r)
        } else {
            rest
        }
    }
}

/// The job that runs next. Pending jobs without a position, queued one by
/// one by name, run first, in the order of the table. Then the jobs of the
/// queue run, from the front.
pub open spec fn next_job(rows: Seq<JobView>) -> Option<JobView> {
    first_pending(rows, rows.len() as int)
}

/// The job that is taken first is a pending job of the table, and no pending
/// job is ahead of it; there is one whenever a job is pending.
pub proof fn lemma_next_job(rows: Seq<JobView>, upto: int)
    requires
        0 <= upto <= rows.len(),
    ensures
        first_pending(rows, upto) is Some ==> exists|i: int|
            0 <= i < upto && rows[i] == first_pending(rows, upto)->0 && (#[trigger] rows[i]).status
                == JobStatus::Pending,
        forall|i: int|
            0 <= i < upto && (#[trigger] rows[i]).status == JobStatus::Pending ==> first_pending(
                rows,
                upto,
            ) is Some && !ahead(rows[i], first_pending(rows, upto)->0),
    decreases upto,
{
    if upto > 0 {
        lemma_next_job(rows, upto - 1);
        let rest = first_pending(rows, upto - 1);
        if first_pending(rows, upto) is Some {
            if first_pending(rows, upto) == rest {
                let i = choose|i: int|
                    0 <= i < upto - 1 && rows[i] == rest->0 && (#[trigger] rows[i]).status
                        == JobStatus::Pending;
                assert(0 <= i < upto && rows[i] == first_pending(rows, upto)->0 && rows[i].status
                    == JobStatus::Pending);
            } else {
                assert(rows[upto - 1].status == JobStatus::Pending);
            }
        }
    }
}

/// The queue goes idle only when nothing is left to do: a job runs next
/// whenever a job of the table is pending, and a pending job without a
/// position runs before every job of the queue.
pub proof fn lemma_next_is_pending(rows: Seq<JobView>)
    ensures
        next_job(rows) is Some == (exists|i: int|
            0 <= i < rows.len() && (#[trigger] rows[i]).status == JobStatus::Pending),
        next_job(rows) is Some ==> next_job(rows)->0.status == JobStatus::Pending,
        (exists|i: int|
            0 <= i < rows.len() && (#[trigger] rows[i]).status == JobStatus::Pending
                && rows[i].queue_position is None) ==> next_job(rows) is Some && next_job(
            rows,
        )->0.queue_position is None,
{
    lemma_next_job(rows, rows.len() as int);
    if next_job(rows) is Some {
        let i = choose|i: int|
            0 <= i < rows.len() && rows[i] == next_job(rows)->0 && (#[trigger] rows[i]).status
                == JobStatus::Pending;
        assert(rows[i].status == JobStatus::Pending);
    }
    if exists|i: int|
        0 <= i < rows.len() && (#[trigger] rows[i]).status == JobStatus::Pending
            && rows[i].queue_position is None {
        let i = choose|i: int|
            0 <= i < rows.len() && (#[trigger] rows[i]).status == JobStatus::Pending
                && rows[i].queue_position is None;
        assert(!ahead(rows[i], next_job(rows)->0));
    }
}

/// While every pending job stands in the queue, the job that runs next is
/// the first of the queue, and there is one whenever the queue is not empty.
pub proof fn lemma_next_is_first(rows: Seq<JobView>)
    requires
        crate::queue_spec::positions_dense(rows),
        forall|i: int|
            0 <= i < rows.len() && (#[trigger] rows[i]).status == JobStatus::Pending
                ==> rows[i].queue_position is Some,
    ensures
        next_job(rows) is Some == (crate::queue_spec::queue_len(rows) > 0),
        next_job(rows) is Some ==> next_job(rows)->0.id == crate::queue_order::queue_ids(rows)[0]
            && pos(next_job(rows)->0) == 1,
{
    lemma_next_job(rows, rows.len() as int);
    if crate::queue_spec::queue_len(rows) > 0 {
        crate::queue_order::lemma_holder_exists(rows, 1);
        let h = crate::queue_order::holder(rows, 1);
        assert(queued(rows[h]));
        assert(rows[h].status == JobStatus::Pending);
        let i = choose|i: int|
            0 <= i < rows.len() && rows[i] == next_job(rows)->0 && (#[trigger] rows[i]).status
                == JobStatus::Pending;
        assert(queued(rows[i]));
        crate::queue_order::lemma_holder(rows, i);
    } else {
        if next_job(rows) is Some {
            let i = choose|i: int|
                0 <= i < rows.len() && rows[i] == next_job(rows)->0 && (#[trigger] rows[i]).status
                    == JobStatus::Pending;
            assert(queued(rows[i]));
        }
    }
}

/// The job that runs next, if a job is pending.
pub fn select_next_job(store: &JobStore) -> (job: Option<Job>)
    ensures
        match (job, next_job(store@)) {
            (Some(j), Some(r)) => j@ == r,
            (None, None) => true,
            _ => false,
        },
{
    let rows = store.rows();
    let ghost all = job_views(rows@);
    let mut best: Option<usize> = None;
    let mut i: usize = 0;
    while i < rows.len()
        invariant
            i <= rows.len(),
            all == job_views(rows@),
            best is Some == first_pending(all, i as int) is Some,
            best is Some ==> best->0 < i && all[best->0 as int] == first_pending(all, i as int)->0,
        decreases rows.len() - i,
    {
        assert(all[i as int] == rows[i as int]@);
        if rows[i].status == JobStatus::Pending {
            let better = match best {
                None => true,
                Some(b) => {
                    assert(all[b as int] == rows[b as int]@);
                    match (rows[i].queue_position, rows[b].queue_position) {
                        (None, Some(_)) => true,
                        (Some(p), Some(q)) => p < q,
                        _ => false,
                    }
                },
            };
            if better {
                best = Some(i);
            }
        }
        i += 1;
    }
    match best {
        None => None,
        Some(b) => {
            assert(all[b as int] == rows[b as int]@);
            Some(copy_job(&rows[b]))
        },
    }
}

// ---------------------------------------------------------------------------
// The status row of the remote machine
// ---------------------------------------------------------------------------

/// What a status row says: the status, the exit code where the row holds one
/// that is a signed 32-bit number, and the time of completion where the row
/// holds one. The row is white space, then fields with `|` between them, then
/// white space; a row whose first field is empty says nothing.
pub open spec fn status_row(output: Seq<char>) -> Option<(Seq<char>, Option<i32>, Option<Seq<char>>)> {
    let fields = split(trim(output), '|');
    if fields[0].len() == 0 {
        None
    } else {
        Some(
            (
                fields[0],
                if fields.len() >= 2 && fields[1].len() > 0 {
                    parse_i32_spec(fields[1])
                } else {
                    None
                },
                if fields.len() >= 3 && fields[2].len() > 0 {
                    Some(fields[2])
                } else {
                    None
                },
            ),
        )
    }
}

/// The plain values of a status row that was read.
pub open spec fn row_view(row: Option<(String, Option<i32>, Option<String>)>) -> Option<
    (Seq<char>, Option<i32>, Option<Seq<char>>),
> {
    match row {
        None => None,
        Some((status, code, at)) => Some((status@, code, crate::state::opt_view(at))),
    }
}

/// Reads a status row as the remote status table prints it:
/// `status|exit_code|completed_at`.
pub fn parse_sql_output(output: &str) -> (row: Option<(String, Option<i32>, Option<String>)>)
    ensures
        row_view(row) == status_row(output@),
{
    let text = chars_of(output);
    let trimmed = trim_chars(&text);
    let fields = split_chars(&trimmed, '|');
    proof {
        assert(views(fields@).len() == fields.len());
        assert forall|i: int| 0 <= i < fields.len() implies views(fields@)[i] == (
        #[trigger] fields@[i])@ by {}
    }
    if fields[0].len() == 0 {
        return None;
    }
    let status = string_of(&fields[0]);
    let code = if fields.len() >= 2 && fields[1].len() > 0 {
        parse_i32(&fields[1])
    } else {
        None
    };
    let at = if fields.len() >= 3 && fields[2].len() > 0 {
        Some(string_of(&fields[2]))
    } else {
        None
    };
    Some((status, code, at))
}

// ---------------------------------------------------------------------------
// Session names
// ---------------------------------------------------------------------------

/// An error of the `whoami` crate.
#[verifier::external_type_specification]
#[verifier::external_body]
pub struct ExWhoamiError(whoami::Error);

/// The name of the user who runs the program: `whoami::username()`. Nothing
/// is claimed of the result: it is what the operating system says.
#[verifier::external_body]
fn os_username() -> (name: Result<String, whoami::Error>) {
    whoami::username()
}

/// The first `n` characters of `s`; all of `s` when it has no more.
pub open spec fn first_chars(s: Seq<char>, n: int) -> Seq<char> {
    if s.len() > n {
        s.take(n)
    } else {
        s
    }
}

/// The name of the session of a job: `solverpilot_`, the user, `_` and the
/// first eight characters of the id.
pub open spec fn session_name(user: Seq<char>, job_id: i64) -> Seq<char> {
    "solverpilot_"@ + user + "_"@ + first_chars(signed_decimal(job_id as int), 8)
}

/// The name of the session in which the user runs the job.
pub fn session_name_for(user: &str, job_id: i64) -> (name: String)
    ensures
        name@ == session_name(user@, job_id),
{
    let mut id: Vec<char> = Vec::new();
    push_signed_decimal(&mut id, job_id);
    if id.len() > 8 {
        id.truncate(8);
    }
    let mut v = chars_of("solverpilot_");
    push_str(&mut v, user);
    push_str(&mut v, "_");
    push_all(&mut v, &id);
    proof {
        assert(v@ =~= session_name(user@, job_id));
    }
    string_of(&v)
}

/// No two jobs of a user share a session: while the ids have no more than
/// eight digits, jobs with different ids get different names.
pub proof fn lemma_session_names_differ(user: Seq<char>, a: i64, b: i64)
    requires
        0 <= a < 100_000_000,
        0 <= b < 100_000_000,
        a != b,
    ensures
        session_name(user, a) != session_name(user, b),
{
    assert(power_of_ten(8) == 100_000_000) by {
        reveal_with_fuel(power_of_ten, 9);
    }
    lemma_decimal_len(a as nat, 8);
    lemma_decimal_len(b as nat, 8);
    let head = "solverpilot_"@ + user + "_"@;
    let da = decimal(a as nat);
    let db = decimal(b as nat);
    assert(session_name(user, a) == head + da);
    assert(session_name(user, b) == head + db);
    if head + da == head + db {
        assert((head + da).skip(head.len() as int) =~= da);
        assert((head + db).skip(head.len() as int) =~= db);
        lemma_decimal_tells_apart(a as nat, b as nat);
    }
}

/// The name of the session in which the current user runs the job. Where the
/// operating system does not tell who the user is, the user is `unknown`.
pub fn generate_session_name(job_id: i64) -> (name: String)
    ensures
        exists|user: Seq<char>| name@ == #[trigger] session_name(user, job_id),
{
    match os_username() {
        Ok(user) => session_name_for(user.as_str(), job_id),
        Err(_) => session_name_for("unknown", job_id),
    }
}

// ---------------------------------------------------------------------------
// Commands
// ---------------------------------------------------------------------------

/// The command that runs a benchmark under the job wrapper.
pub open spec fn wrapper_command_text(job_id: i64, benchmark_name: Seq<char>) -> Seq<char> {
    "~/.solverpilot/bin/job_wrapper.sh "@ + signed_decimal(job_id as int) + " python3 "@
        + benchmark_name
}

/// The command that runs a benchmark under the job wrapper.
pub fn wrapper_command(job_id: i64, benchmark_name: &str) -> (command: String)
    ensures
        command@ == wrapper_command_text(job_id, benchmark_name@),
{
    let mut v = chars_of("~/.solverpilot/bin/job_wrapper.sh ");
    push_signed_decimal(&mut v, job_id);
    push_str(&mut v, " python3 ");
    push_str(&mut v, benchmark_name);
    proof {
        assert(v@ =~= wrapper_command_text(job_id, benchmark_name@));
    }
    string_of(&v)
}

/// The command that succeeds if the session exists.
pub fn session_check_command(session: &str) -> (command: String)
    ensures
        command@ == "tmux has-session -t "@ + session@ + " 2>/dev/null"@,
{
    crate::text::concat3("tmux has-session -t ", session, " 2>/dev/null")
}

/// The command that ends the session by force.
pub fn session_kill_command(session: &str) -> (command: String)
    ensures
        command@ == "tmux kill-session -t "@ + session@,
{
    crate::text::concat2("tmux kill-session -t ", session)
}

/// The command that starts a detached session which runs `inner`.
pub fn session_create_command(session: &str, inner: &str) -> (command: String)
    ensures
        command@ == "tmux new-session -d -s "@ + session@ + " \""@ + inner@ + "\""@,
{
    let mut v = chars_of("tmux new-session -d -s ");
    push_str(&mut v, session);
    push_str(&mut v, " \"");
    push_str(&mut v, inner);
    push_str(&mut v, "\"");
    proof {
        assert(v@ =~= "tmux new-session -d -s "@ + session@ + " \""@ + inner@ + "\""@);
    }
    string_of(&v)
}

/// The note left in the log of a job that tells in which session it runs.
pub fn session_note(session: &str) -> (note: String)
    ensures
        note@ == "tmux_session: "@ + session@,
{
    crate::text::concat2("tmux_session: ", session)
}

/// The command that prints the status row of a job.
pub open spec fn status_query_text(job_id: i64) -> Seq<char> {
    "sqlite3 ~/.solverpilot-server/server.db \"SELECT status, exit_code, completed_at FROM jobs WHERE id = "@
        + signed_decimal(job_id as int) + "\""@
}

/// The command that prints the status row of a job.
pub fn status_query_command(job_id: i64) -> (command: String)
    ensures
        command@ == status_query_text(job_id),
{
    let mut v = chars_of(
        "sqlite3 ~/.solverpilot-server/server.db \"SELECT status, exit_code, completed_at FROM jobs WHERE id = ",
    );
    push_signed_decimal(&mut v, job_id);
    push_str(&mut v, "\"");
    proof {
        assert(v@ =~= status_query_text(job_id));
    }
    string_of(&v)
}

/// Where a project goes on the remote machine.
pub open spec fn remote_destination_text(user: Seq<char>, host: Seq<char>, project: Seq<char>) -> Seq<
    char,
> {
    user + "@"@ + host + ":~/solverpilot-projects/"@ + project
}

/// Where a project goes on the remote machine.
pub fn remote_destination(user: &str, host: &str, project: &str) -> (dest: String)
    ensures
        dest@ == remote_destination_text(user@, host@, project@),
{
    let mut v = chars_of(user);
    push_str(&mut v, "@");
    push_str(&mut v, host);
    push_str(&mut v, ":~/solverpilot-projects/");
    push_str(&mut v, project);
    proof {
        assert(v@ =~= remote_destination_text(user@, host@, project@));
    }
    string_of(&v)
}

/// The name of a project, taken from the path of its directory.
pub fn project_name_of(project_path: &str) -> (r: Result<String, String>)
    ensures
        match (r, crate::paths::last_name(project_path@)) {
            (Ok(name), Some(n)) => name@ == n,
            (Err(e), None) => e@ == "Invalid project path"@,
            _ => false,
        },
{
    match crate::paths::file_name(project_path) {
        Some(name) => Ok(name),
        None => Err("Invalid project path".to_owned()),
    }
}

} // verus!
