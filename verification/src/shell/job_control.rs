//! The table of background processes, and the reading of what the operating
//! system reports of children.

use crate::sys;
use crate::sys::{
    exit_status_of, is_continued, is_core_dumped, is_exited, is_signaled, is_stopped,
    stop_signal_of, term_signal_of, ECHILD, EINTR, SIGCONT, SIGTERM, WCONTINUED, WNOHANG,
    WUNTRACED,
};
use crate::text::{
    decimal, decimal_string, i32_to_string, option_text, parse_usize, texts, unsigned_of,
};
use vstd::prelude::*;

verus! {

/// The state of one process of the table.
#[derive(Debug, Clone, Copy, PartialEq, Eq, Structural)]
pub enum ProcessState {
    /// The process runs.
    Running,
    /// The process was stopped and can be continued.
    Stopped,
    /// The process exited by itself, with this code.
    Exited(i32),
    /// This signal ended the process.
    Signaled(i32),
    /// No process: the slot is free to be used again.
    Empty,
}

impl ProcessState {
    /// The process has ended and waits to be cleared from the table.
    pub open spec fn is_terminal(self) -> bool {
        self is Exited || self is Signaled
    }

    /// The process is alive: it runs or is stopped.
    pub open spec fn is_live(self) -> bool {
        self is Running || self is Stopped
    }
}

/// One slot of the table.
#[derive(Debug)]
pub struct BackgroundProcess {
    /// The process id, which for a job is also its process group.
    pub pid: u32,
    /// Whether the process is spared the hangup signal when the session ends.
    pub ignore_sighup: bool,
    /// What the process is doing.
    pub state: ProcessState,
    /// The command as the user wrote it.
    pub name: String,
}

/// What a wait status tells of a child.
#[derive(Debug, Clone, Copy, PartialEq, Eq, Structural)]
pub enum WaitEvent {
    /// The child exited by itself, with this code.
    Exited(u8),
    /// A signal ended the child.
    Signaled { signal: u8, core_dumped: bool },
    /// A signal stopped the child.
    Stopped(u8),
    /// The child was continued.
    Continued,
}

/// What one call of wait amounts to.
#[derive(Debug, Clone, Copy, PartialEq, Eq, Structural)]
pub enum Reaped {
    /// A signal interrupted the call: it is to be made again.
    Retry,
    /// There is no child left to wait for: the job was reaped already.
    Gone,
    /// The call failed with this error number.
    Failed(i32),
    /// Nothing has changed since the last call.
    Unchanged,
    /// The child changed state.
    Event(WaitEvent),
    /// The child changed state in a way that the status does not name.
    Unknown,
}

/// What the shell asks of the operating system on behalf of a job.
#[derive(Debug, Clone, Copy, PartialEq, Eq, Structural)]
pub enum Action {
    /// Make this process group the owner of the terminal.
    GrantTerminal { pgid: u32 },
    /// Send a signal to a process.
    Kill { pid: u32, signal: i32 },
    /// Send a signal to every process of a group.
    KillGroup { pgid: u32, signal: i32 },
    /// Block until this process changes state.
    Wait { pid: u32 },
}

/// Why a job could not be selected.
#[derive(Debug, Clone, Copy, PartialEq, Eq, Structural)]
pub enum JobError {
    /// No job was named and none in the table is eligible.
    NoJobs,
    /// The slot of this number is outside the table, free, or holds a process
    /// that has ended.
    NoSuchJob(usize),
    /// The job of this number runs already.
    AlreadyRunning(usize),
}

/// The event that a wait status encodes, if it encodes one.
pub open spec fn decoded(status: i32) -> Option<WaitEvent> {
    if is_exited(status) {
        Some(WaitEvent::Exited(exit_status_of(status) as u8))
    } else if is_signaled(status) {
        Some(
            WaitEvent::Signaled {
                signal: term_signal_of(status) as u8,
                core_dumped: is_core_dumped(status),
            },
        )
    } else if is_stopped(status) {
        Some(WaitEvent::Stopped(stop_signal_of(status) as u8))
    } else if is_continued(status) {
        Some(WaitEvent::Continued)
    } else {
        None
    }
}

/// Reads a wait status.
pub fn decode_status(status: i32) -> (r: Option<WaitEvent>)
    ensures
        r == decoded(status),
{
    if sys::wifexited(status) {
        Some(WaitEvent::Exited(sys::wexitstatus(status) as u8))
    } else if sys::wifsignaled(status) {
        Some(
            WaitEvent::Signaled {
                signal: sys::wtermsig(status) as u8,
                core_dumped: sys::wcoredump(status),
            },
        )
    } else if sys::wifstopped(status) {
        Some(WaitEvent::Stopped(sys::wstopsig(status) as u8))
    } else if sys::wifcontinued(status) {
        Some(WaitEvent::Continued)
    } else {
        None
    }
}

/// What a call of wait amounts to, from what it returned (the process that
/// changed, or an error number) and the status it filled in.
pub open spec fn reaped(result: Result<i32, i32>, status: i32) -> Reaped {
    match result {
        Err(errno) => if errno == EINTR {
            Reaped::Retry
        } else if errno == ECHILD {
            Reaped::Gone
        } else {
            Reaped::Failed(errno)
        },
        Ok(pid) => if pid == 0 {
            Reaped::Unchanged
        } else {
            match decoded(status) {
                Some(event) => Reaped::Event(event),
                None => Reaped::Unknown,
            }
        },
    }
}

/// Reads the outcome of one call of wait.
pub fn reap(result: Result<i32, i32>, status: i32) -> (r: Reaped)
    ensures
        r == reaped(result, status),
{
    match result {
        Err(errno) => {
            if errno == EINTR {
                Reaped::Retry
            } else if errno == ECHILD {
                Reaped::Gone
            } else {
                Reaped::Failed(errno)
            }
        },
        Ok(pid) => {
            if pid == 0 {
                Reaped::Unchanged
            } else {
                match decode_status(status) {
                    Some(event) => Reaped::Event(event),
                    None => Reaped::Unknown,
                }
            }
        },
    }
}

/// What the wait for a foreground job does after one call of wait.
#[derive(Debug, Clone, Copy, PartialEq, Eq, Structural)]
pub enum WaitStep {
    /// Call wait again.
    Again,
    /// The wait is over: this became of the job.
    Done(WaitEvent),
    /// The wait failed with this error number.
    Failed(i32),
}

/// What the wait for a foreground job does after one call of wait: it waits
/// on after an interruption, after a call that told of no change or of none
/// that the status names, and after a continue; a child that is gone counts as
/// one that exited with status zero; an exit, a fatal signal or a stop ends
/// the wait; any other error fails it.
pub open spec fn wait_step(outcome: Reaped) -> WaitStep {
    match outcome {
        Reaped::Retry => WaitStep::Again,
        Reaped::Unchanged => WaitStep::Again,
        Reaped::Unknown => WaitStep::Again,
        Reaped::Gone => WaitStep::Done(WaitEvent::Exited(0)),
        Reaped::Failed(errno) => WaitStep::Failed(errno),
        Reaped::Event(WaitEvent::Continued) => WaitStep::Again,
        Reaped::Event(event) => WaitStep::Done(event),
    }
}

/// Decides what the wait for a foreground job does after one call of wait.
pub fn foreground_step(outcome: Reaped) -> (r: WaitStep)
    ensures
        r == wait_step(outcome),
{
    match outcome {
        Reaped::Retry => WaitStep::Again,
        Reaped::Unchanged => WaitStep::Again,
        Reaped::Unknown => WaitStep::Again,
        Reaped::Gone => WaitStep::Done(WaitEvent::Exited(0)),
        Reaped::Failed(errno) => WaitStep::Failed(errno),
        Reaped::Event(WaitEvent::Continued) => WaitStep::Again,
        Reaped::Event(event) => WaitStep::Done(event),
    }
}

/// The state of a process after an event: a free slot stays free, an exit or
/// a fatal signal ends the process, a stop stops it, a continue makes it run.
pub open spec fn next_state(state: ProcessState, event: WaitEvent) -> ProcessState {
    if state is Empty {
        ProcessState::Empty
    } else {
        match event {
            WaitEvent::Exited(code) => ProcessState::Exited(code as i32),
            WaitEvent::Signaled { signal, .. } => ProcessState::Signaled(signal as i32),
            WaitEvent::Stopped(_) => ProcessState::Stopped,
            WaitEvent::Continued => ProcessState::Running,
        }
    }
}

/// The exit status that the shell reports for a child after an event: the
/// exit code of a child that exited, `128` plus the signal for one that a
/// signal ended or stopped, zero for one that was continued.
pub open spec fn status_of(event: WaitEvent) -> int {
    match event {
        WaitEvent::Exited(code) => code as int,
        WaitEvent::Signaled { signal, .. } => 128 + signal,
        WaitEvent::Stopped(signal) => 128 + signal,
        WaitEvent::Continued => 0,
    }
}

/// Computes the state of a process after an event.
pub fn transition(state: ProcessState, event: WaitEvent) -> (r: ProcessState)
    ensures
        r == next_state(state, event),
{
    match state {
        ProcessState::Empty => ProcessState::Empty,
        _ => match event {
            WaitEvent::Exited(code) => ProcessState::Exited(code as i32),
            WaitEvent::Signaled { signal, .. } => ProcessState::Signaled(signal as i32),
            WaitEvent::Stopped(_) => ProcessState::Stopped,
            WaitEvent::Continued => ProcessState::Running,
        },
    }
}

/// The exit status that the shell reports for a child after an event.
pub fn exit_status(event: WaitEvent) -> (r: i32)
    ensures
        r == status_of(event),
{
    match event {
        WaitEvent::Exited(code) => code as i32,
        WaitEvent::Signaled { signal, .. } => 128 + signal as i32,
        WaitEvent::Stopped(signal) => 128 + signal as i32,
        WaitEvent::Continued => 0,
    }
}

/// The options of the wait for a job. Every wait reports stops. The wait for
/// a foreground job blocks; the poll of a background job reports continues
/// too and returns at once where nothing has changed.
pub fn wait_options(foreground: bool) -> (r: i32)
    ensures
        r == if foreground {
            WUNTRACED
        } else {
            WUNTRACED | WCONTINUED | WNOHANG
        },
{
    if foreground {
        WUNTRACED
    } else {
        WUNTRACED | WCONTINUED | WNOHANG
    }
}

/// The place of the first free slot, or the number of slots when none is free.
pub open spec fn first_empty(slots: Seq<BackgroundProcess>) -> int
    decreases slots.len(),
{
    if slots.len() == 0 || slots[0].state is Empty {
        0
    } else {
        1 + first_empty(slots.drop_first())
    }
}

/// `first_empty` is the least place that holds a free slot.
pub proof fn lemma_first_empty(slots: Seq<BackgroundProcess>)
    ensures
        0 <= first_empty(slots) <= slots.len(),
        first_empty(slots) < slots.len() ==> slots[first_empty(slots)].state is Empty,
        forall|j: int| 0 <= j < first_empty(slots) ==> !((#[trigger] slots[j]).state is Empty),
    decreases slots.len(),
{
    if slots.len() != 0 && !(slots[0].state is Empty) {
        let rest = slots.drop_first();
        lemma_first_empty(rest);
        assert forall|j: int| 0 <= j < first_empty(slots) implies !((#[trigger] slots[j]).state
            is Empty) by {
            if j > 0 {
                assert(slots[j] == rest[j - 1]);
            }
        }
    }
}

proof fn lemma_first_empty_is(slots: Seq<BackgroundProcess>, i: int)
    requires
        0 <= i <= slots.len(),
        forall|j: int| 0 <= j < i ==> !((#[trigger] slots[j]).state is Empty),
        i < slots.len() ==> slots[i].state is Empty,
    ensures
        first_empty(slots) == i,
{
    lemma_first_empty(slots);
    let p = first_empty(slots);
    if p < i {
        assert(slots[p].state is Empty);
    }
}

/// The slots after a process is put in the background: it takes the first
/// free slot, or a new slot at the end when none is free. No other slot
/// changes.
pub open spec fn with_process(slots: Seq<BackgroundProcess>, process: BackgroundProcess) -> Seq<
    BackgroundProcess,
> {
    let id = first_empty(slots);
    if id < slots.len() {
        slots.update(id, process)
    } else {
        slots.push(process)
    }
}

/// A job number is given out again only once its slot is free, and putting a
/// process into the table leaves every other slot as it was: the slot that
/// the process takes was free or is new, and the processes that were in the
/// table keep their numbers.
pub proof fn lemma_only_free_slots_are_reused(
    slots: Seq<BackgroundProcess>,
    process: BackgroundProcess,
)
    ensures
        first_empty(slots) < slots.len() ==> slots[first_empty(slots)].state is Empty,
        with_process(slots, process)[first_empty(slots)] == process,
        forall|j: int|
            0 <= j < slots.len() && j != first_empty(slots) ==> #[trigger] with_process(
                slots,
                process,
            )[j] == slots[j],
{
    lemma_first_empty(slots);
}

/// The slots after the state of the process in slot `id` is set; a number
/// outside the table changes nothing.
pub open spec fn with_state(slots: Seq<BackgroundProcess>, id: int, state: ProcessState) -> Seq<
    BackgroundProcess,
> {
    if 0 <= id < slots.len() {
        slots.update(
            id,
            BackgroundProcess {
                pid: slots[id].pid,
                ignore_sighup: slots[id].ignore_sighup,
                state,
                name: slots[id].name,
            },
        )
    } else {
        slots
    }
}

/// The line that tells the user how the process of job `id` ended.
pub open spec fn notification(id: int, pid: u32, state: ProcessState) -> Seq<char> {
    let head = "ion: (["@ + decimal(id) + "] "@ + decimal(pid as int) + ") "@;
    match state {
        ProcessState::Exited(code) => head + "exited with "@ + decimal(code as int),
        ProcessState::Signaled(signal) => head + "terminated by signal "@ + decimal(signal as int),
        _ => head,
    }
}

/// The process ids of the slots that hold a process, in slot order.
pub open spec fn occupied_pids(slots: Seq<BackgroundProcess>) -> Seq<u32>
    decreases slots.len(),
{
    if slots.len() == 0 {
        Seq::empty()
    } else if slots.last().state is Empty {
        occupied_pids(slots.drop_last())
    } else {
        occupied_pids(slots.drop_last()).push(slots.last().pid)
    }
}

/// Whether a job in this state can be meant by a command that names no job:
/// a command that brings a job to the foreground means a job that is alive, a
/// command that lets a job run in the background means a stopped one.
pub open spec fn eligible(state: ProcessState, foreground: bool) -> bool {
    if foreground {
        state.is_live()
    } else {
        state is Stopped
    }
}

/// The job that was put in the background last among those that are
/// eligible, where `order` lists the job numbers in the order in which the
/// jobs were put in the background.
pub open spec fn latest_eligible(
    order: Seq<usize>,
    slots: Seq<BackgroundProcess>,
    foreground: bool,
) -> Option<usize>
    decreases order.len(),
{
    if order.len() == 0 {
        None
    } else {
        let n = order.last();
        if n < slots.len() && eligible(slots[n as int].state, foreground) {
            Some(n)
        } else {
            latest_eligible(order.drop_last(), slots, foreground)
        }
    }
}

/// The order without a job number.
pub open spec fn without(order: Seq<usize>, id: usize) -> Seq<usize>
    decreases order.len(),
{
    if order.len() == 0 {
        Seq::empty()
    } else if order.last() == id {
        without(order.drop_last(), id)
    } else {
        without(order.drop_last(), id).push(order.last())
    }
}

/// The order after job `id` was put in the background: it is the latest, and
/// stands in the order once.
pub open spec fn put_last(order: Seq<usize>, id: usize) -> Seq<usize> {
    without(order, id).push(id)
}

/// The job that a command means: the one it names, or else the eligible job
/// that was put in the background last.
pub open spec fn chosen(
    id: Option<usize>,
    order: Seq<usize>,
    slots: Seq<BackgroundProcess>,
    foreground: bool,
) -> Option<usize> {
    match id {
        Some(n) => Some(n),
        None => latest_eligible(order, slots, foreground),
    }
}

/// The job that a command without a job number means is eligible, and no
/// eligible job was put in the background after it.
pub proof fn lemma_latest_eligible(
    order: Seq<usize>,
    slots: Seq<BackgroundProcess>,
    foreground: bool,
)
    ensures
        latest_eligible(order, slots, foreground) matches Some(n) ==> {
            &&& n < slots.len()
            &&& eligible(slots[n as int].state, foreground)
            &&& exists|i: int|
                0 <= i < order.len() && #[trigger] order[i] == n && forall|k: int|
                    i < k < order.len() ==> !((#[trigger] order[k]) < slots.len() && eligible(
                        slots[order[k] as int].state,
                        foreground,
                    ))
        },
        latest_eligible(order, slots, foreground) is None ==> forall|k: int|
            0 <= k < order.len() ==> !((#[trigger] order[k]) < slots.len() && eligible(
                slots[order[k] as int].state,
                foreground,
            )),
    decreases order.len(),
{
    if order.len() > 0 {
        let n = order.last();
        let front = order.drop_last();
        if n < slots.len() && eligible(slots[n as int].state, foreground) {
            assert(order[order.len() - 1] == n);
        } else {
            lemma_latest_eligible(front, slots, foreground);
            match latest_eligible(front, slots, foreground) {
                Some(m) => {
                    let i = choose|i: int|
                        0 <= i < front.len() && #[trigger] front[i] == m && forall|k: int|
                            i < k < front.len() ==> !((#[trigger] front[k]) < slots.len()
                                && eligible(slots[front[k] as int].state, foreground));
                    assert(order[i] == m);
                    assert forall|k: int| i < k < order.len() implies !((#[trigger] order[k])
                        < slots.len() && eligible(slots[order[k] as int].state, foreground)) by {
                        if k < front.len() {
                            assert(front[k] == order[k]);
                        }
                    }
                },
                None => {
                    assert forall|k: int| 0 <= k < order.len() implies !((#[trigger] order[k])
                        < slots.len() && eligible(slots[order[k] as int].state, foreground)) by {
                        if k < front.len() {
                            assert(front[k] == order[k]);
                        }
                    }
                },
            }
        }
    }
}

/// What is to be sent to the processes of the table when the session ends: a
/// termination signal to each, in slot order.
pub open spec fn termination_signals(slots: Seq<BackgroundProcess>) -> Seq<Action> {
    occupied_pids(slots).map_values(|pid: u32| Action::Kill { pid, signal: SIGTERM })
}

/// What letting a job run in the background amounts to: a continue for the
/// process group of a stopped job; a refusal for a job that runs already, for
/// one that is not in the table, and where no job is meant at all.
pub open spec fn resumed(slots: Seq<BackgroundProcess>, job: Option<usize>) -> Result<
    Action,
    JobError,
> {
    match job {
        None => Err(JobError::NoJobs),
        Some(n) => if n < slots.len() && slots[n as int].state is Stopped {
            Ok(Action::KillGroup { pgid: slots[n as int].pid, signal: SIGCONT })
        } else if n < slots.len() && slots[n as int].state is Running {
            Err(JobError::AlreadyRunning(n))
        } else {
            Err(JobError::NoSuchJob(n))
        },
    }
}

/// The slots after a job is let run in the background: a stopped job is
/// marked as running, nothing else changes.
pub open spec fn after_resume(slots: Seq<BackgroundProcess>, job: Option<usize>) -> Seq<
    BackgroundProcess,
> {
    match job {
        Some(n) => if n < slots.len() && slots[n as int].state is Stopped {
            with_state(slots, n as int, ProcessState::Running)
        } else {
            slots
        },
        None => slots,
    }
}

/// The slots after a job is brought to the foreground: a job that is alive is
/// marked as running, nothing else changes.
pub open spec fn after_foreground(slots: Seq<BackgroundProcess>, job: Option<usize>) -> Seq<
    BackgroundProcess,
> {
    match job {
        Some(n) => if n < slots.len() && slots[n as int].state.is_live() {
            with_state(slots, n as int, ProcessState::Running)
        } else {
            slots
        },
        None => slots,
    }
}

/// What running a launched job in the foreground asks for, in order: the
/// terminal goes to the process group of the job, every member is waited for,
/// and the terminal goes back to the process group of the shell.
pub open spec fn foreground_actions(job_pgid: u32, members: Seq<u32>, shell_pgid: u32) -> Seq<
    Action,
> {
    seq![Action::GrantTerminal { pgid: job_pgid }] + members.map_values(
        |pid: u32| Action::Wait { pid },
    ) + seq![Action::GrantTerminal { pgid: shell_pgid }]
}

/// What bringing a background job to the foreground asks for, in order: the
/// terminal goes to the job, the job is continued and waited for, and the
/// terminal goes back to the shell.
pub open spec fn resumed_in_foreground(pid: u32, shell_pgid: u32) -> Seq<Action> {
    seq![
        Action::GrantTerminal { pgid: pid },
        Action::KillGroup { pgid: pid, signal: SIGCONT },
        Action::Wait { pid },
        Action::GrantTerminal { pgid: shell_pgid },
    ]
}

/// What bringing a job to the foreground amounts to: the actions for a job
/// that is alive; a refusal for a job that is not in the table or has ended,
/// and where no job is meant at all.
pub open spec fn brought(slots: Seq<BackgroundProcess>, job: Option<usize>, shell_pgid: u32) -> Result<
    Seq<Action>,
    JobError,
> {
    match job {
        None => Err(JobError::NoJobs),
        Some(n) => if n < slots.len() && slots[n as int].state.is_live() {
            Ok(resumed_in_foreground(slots[n as int].pid, shell_pgid))
        } else {
            Err(JobError::NoSuchJob(n))
        },
    }
}

/// The view of what bringing a job to the foreground returned.
pub open spec fn brought_view(r: Result<Vec<Action>, JobError>) -> Result<Seq<Action>, JobError> {
    match r {
        Ok(actions) => Ok(actions@),
        Err(e) => Err(e),
    }
}

/// The owner of the terminal after a run of actions, where `granted[i]` tells
/// whether the operating system carried out action `i`: a grant that was
/// carried out makes its process group the owner, everything else leaves the
/// owner as it was.
pub open spec fn owner_after(actions: Seq<Action>, granted: Seq<bool>, owner: u32) -> u32
    decreases actions.len(),
{
    if actions.len() == 0 {
        owner
    } else {
        let before = owner_after(actions.drop_last(), granted, owner);
        match actions.last() {
            Action::GrantTerminal { pgid } => if actions.len() <= granted.len()
                && granted[actions.len() - 1] {
                pgid
            } else {
                before
            },
            _ => before,
        }
    }
}

/// Lists what running a launched job in the foreground asks for.
pub fn foreground(job_pgid: u32, members: &Vec<u32>, shell_pgid: u32) -> (r: Vec<Action>)
    ensures
        r@ == foreground_actions(job_pgid, members@, shell_pgid),
{
    let mut actions: Vec<Action> = Vec::new();
    actions.push(Action::GrantTerminal { pgid: job_pgid });
    let mut i: usize = 0;
    while i < members.len()
        invariant
            i <= members.len(),
            actions@ =~= seq![Action::GrantTerminal { pgid: job_pgid }] + members@.take(
                i as int,
            ).map_values(|pid: u32| Action::Wait { pid }),
        decreases members.len() - i,
    {
        actions.push(Action::Wait { pid: members[i] });
        i += 1;
    }
    assert(members@.take(i as int) =~= members@);
    actions.push(Action::GrantTerminal { pgid: shell_pgid });
    actions
}

/// After a foreground job the terminal is back with the shell, whatever
/// became of the job and whether or not the terminal could be handed to it:
/// where the last action, which hands the terminal back, was carried out, the
/// owner is the process group of the shell. So where the shell owned the
/// terminal before the job, the owner after equals the owner before.
pub proof fn lemma_terminal_returns_to_shell(
    job_pgid: u32,
    members: Seq<u32>,
    shell_pgid: u32,
    granted: Seq<bool>,
    owner: u32,
)
    requires
        granted.len() == members.len() + 2,
        granted.last(),
    ensures
        owner_after(foreground_actions(job_pgid, members, shell_pgid), granted, owner)
            == shell_pgid,
        owner == shell_pgid ==> owner_after(
            foreground_actions(job_pgid, members, shell_pgid),
            granted,
            owner,
        ) == owner,
{
}

/// After a job was brought to the foreground the terminal is back with the
/// shell, whatever became of the job: the list of actions is the same for
/// every outcome of the wait, and it ends with the grant to the shell. So the
/// owner is the process group of the shell where that last grant was carried
/// out, and the owner is what it was where neither grant was carried out.
/// Where the shell owned the terminal before, the owner after equals the owner
/// before in both cases.
pub proof fn lemma_terminal_returns_after_fg(
    slots: Seq<BackgroundProcess>,
    order: Seq<usize>,
    id: Option<usize>,
    shell_pgid: u32,
    granted: Seq<bool>,
    owner: u32,
)
    requires
        brought(slots, chosen(id, order, slots, true), shell_pgid) is Ok,
        granted.len() == 4,
    ensures
        ({
            let actions = brought(slots, chosen(id, order, slots, true), shell_pgid)->Ok_0;
            &&& actions.len() == 4
            &&& actions.last() == Action::GrantTerminal { pgid: shell_pgid }
            &&& granted[3] ==> owner_after(actions, granted, owner) == shell_pgid
            &&& !granted[0] && !granted[3] ==> owner_after(actions, granted, owner) == owner
            &&& owner == shell_pgid && (granted[3] || !granted[0]) ==> owner_after(
                actions,
                granted,
                owner,
            ) == owner
        }),
{
    let actions = brought(slots, chosen(id, order, slots, true), shell_pgid)->Ok_0;
    reveal_with_fuel(owner_after, 5);
    let a3 = actions.drop_last();
    let a2 = a3.drop_last();
    let a1 = a2.drop_last();
    assert(a1.drop_last() =~= Seq::<Action>::empty());
}

/// A command that lets a job run in the background and names none resumes the
/// stopped job that was put in the background last: a continue signal goes to
/// the process group of that job, the job is marked as running and keeps its
/// slot, every other slot stays as it was, and the owner of the terminal does
/// not change.
pub proof fn lemma_bg_resumes_latest_stopped(
    slots: Seq<BackgroundProcess>,
    order: Seq<usize>,
    j: usize,
    granted: Seq<bool>,
    owner: u32,
)
    requires
        latest_eligible(order, slots, false) == Some(j),
    ensures
        j < slots.len(),
        slots[j as int].state is Stopped,
        resumed(slots, chosen(None, order, slots, false)) == Ok::<Action, JobError>(
            Action::KillGroup { pgid: slots[j as int].pid, signal: SIGCONT },
        ),
        ({
            let after = after_resume(slots, chosen(None, order, slots, false));
            &&& after.len() == slots.len()
            &&& after[j as int].state == ProcessState::Running
            &&& after[j as int].pid == slots[j as int].pid
            &&& after[j as int].name == slots[j as int].name
            &&& forall|k: int| 0 <= k < slots.len() && k != j ==> #[trigger] after[k] == slots[k]
        }),
        owner_after(
            seq![Action::KillGroup { pgid: slots[j as int].pid, signal: SIGCONT }],
            granted,
            owner,
        ) == owner,
{
    lemma_latest_eligible(order, slots, false);
    reveal_with_fuel(owner_after, 2);
    let actions = seq![Action::KillGroup { pgid: slots[j as int].pid, signal: SIGCONT }];
    assert(actions.drop_last() =~= Seq::<Action>::empty());
}

/// The name of a state as the list of jobs shows it.
pub open spec fn state_name(state: ProcessState) -> Seq<char> {
    match state {
        ProcessState::Running => "Running"@,
        ProcessState::Stopped => "Stopped"@,
        ProcessState::Exited(_) => "Exited"@,
        ProcessState::Signaled(_) => "Signaled"@,
        ProcessState::Empty => "Empty"@,
    }
}

/// The line that the list of jobs shows for the process in slot `id`: the
/// job number in brackets, the process id, the state and, behind a tab, the
/// command.
pub open spec fn job_line(id: int, process: BackgroundProcess) -> Seq<char> {
    "["@ + decimal(id) + "] "@ + decimal(process.pid as int) + " "@ + state_name(process.state)
        + "\t"@ + process.name@
}

/// The list of jobs: a line for every slot that holds a process, in slot
/// order.
pub open spec fn job_lines(slots: Seq<BackgroundProcess>) -> Seq<Seq<char>>
    decreases slots.len(),
{
    if slots.len() == 0 {
        Seq::empty()
    } else if slots.last().state is Empty {
        job_lines(slots.drop_last())
    } else {
        job_lines(slots.drop_last()).push(job_line(slots.len() - 1, slots.last()))
    }
}

/// The job that an argument of a job command names: the number that it
/// writes; an argument that writes no number is answered with a complaint
/// that names the command.
pub open spec fn named_job(command: Seq<char>, arg: Seq<char>) -> Result<nat, Seq<char>> {
    match unsigned_of(arg, usize::MAX as nat) {
        Some(n) => Ok(n),
        None => Err("ion: "@ + command + ": "@ + arg + " is not a valid job number"@),
    }
}

/// Reads an argument of a job command as a job number.
pub fn job_number(command: &str, arg: &str) -> (r: Result<usize, String>)
    ensures
        r matches Ok(n) ==> named_job(command@, arg@) == Ok::<nat, Seq<char>>(n as nat),
        r matches Err(why) ==> named_job(command@, arg@) == Err::<nat, Seq<char>>(why@),
{
    match parse_usize(arg) {
        Some(n) => Ok(n),
        None => {
            let mut line = String::new();
            line.append("ion: ");
            line.append(command);
            line.append(": ");
            line.append(arg);
            line.append(" is not a valid job number");
            assert(line@ =~= "ion: "@ + command@ + ": "@ + arg@ + " is not a valid job number"@);
            Err(line)
        },
    }
}

/// What a command that was refused a job tells the user.
pub open spec fn refusal(command: Seq<char>, error: JobError) -> Seq<char> {
    let head = "ion: "@ + command + ": "@;
    match error {
        JobError::NoJobs => head + "no jobs are running in the background"@,
        JobError::NoSuchJob(n) => head + "job "@ + decimal(n as int) + " does not exist"@,
        JobError::AlreadyRunning(n) => head + "job "@ + decimal(n as int) + " is already running"@,
    }
}

/// Writes what a command that was refused a job tells the user.
pub fn refusal_message(command: &str, error: JobError) -> (r: String)
    ensures
        r@ == refusal(command@, error),
{
    let mut line = String::new();
    line.append("ion: ");
    line.append(command);
    line.append(": ");
    assert(line@ =~= "ion: "@ + command@ + ": "@);
    match error {
        JobError::NoJobs => {
            line.append("no jobs are running in the background");
        },
        JobError::NoSuchJob(n) => {
            line.append("job ");
            line.append(decimal_string(false, n as u128).as_str());
            line.append(" does not exist");
            assert(line@ =~= "ion: "@ + command@ + ": "@ + "job "@ + decimal(n as int)
                + " does not exist"@);
        },
        JobError::AlreadyRunning(n) => {
            line.append("job ");
            line.append(decimal_string(false, n as u128).as_str());
            line.append(" is already running");
            assert(line@ =~= "ion: "@ + command@ + ": "@ + "job "@ + decimal(n as int)
                + " is already running"@);
        },
    }
    line
}

/// The slots after the outcome of a wait for the process in slot `id` was
/// taken in: a process that is gone, or that an event has ended, leaves its
/// slot free; any other event sets the state; a wait that told nothing changes
/// nothing.
pub open spec fn after_wait(slots: Seq<BackgroundProcess>, id: int, outcome: Reaped) -> Seq<
    BackgroundProcess,
> {
    match outcome {
        Reaped::Gone => with_state(slots, id, ProcessState::Empty),
        Reaped::Event(event) => {
            let current = if 0 <= id < slots.len() {
                slots[id].state
            } else {
                ProcessState::Empty
            };
            let next = next_state(current, event);
            if next.is_terminal() {
                with_state(slots, id, ProcessState::Empty)
            } else {
                with_state(slots, id, next)
            }
        },
        _ => slots,
    }
}

/// The line that the user is shown after the outcome of a wait for the
/// process in slot `id`: one where an event has ended the process, none
/// otherwise.
pub open spec fn wait_notice(slots: Seq<BackgroundProcess>, id: int, outcome: Reaped) -> Option<
    Seq<char>,
> {
    match outcome {
        Reaped::Event(event) => if 0 <= id < slots.len() && next_state(
            slots[id].state,
            event,
        ).is_terminal() {
            Some(notification(id, slots[id].pid, next_state(slots[id].state, event)))
        } else {
            None
        },
        _ => None,
    }
}

/// The background processes of a session: a list of slots, indexed by job
/// number. A slot whose process was cleared stays in the list as a free slot,
/// so the numbers of the other jobs never change.
#[derive(Debug)]
pub struct JobTable {
    /// The slots, indexed by job number.
    pub slots: Vec<BackgroundProcess>,
    /// The job numbers in the order in which the jobs were put in the
    /// background, the latest last.
    pub order: Vec<usize>,
}

impl JobTable {
    /// An empty table.
    pub fn new() -> (r: JobTable)
        ensures
            r.slots@.len() == 0,
            r.order@.len() == 0,
    {
        JobTable { slots: Vec::new(), order: Vec::new() }
    }

    /// Notes that job `id` was put in the background just now.
    fn put_last(&mut self, id: usize)
        ensures
            final(self).order@ == put_last(old(self).order@, id),
            final(self).slots@ == old(self).slots@,
    {
        let mut kept: Vec<usize> = Vec::new();
        let mut i: usize = 0;
        assert(self.order@.take(0) =~= Seq::<usize>::empty());
        while i < self.order.len()
            invariant
                i <= self.order.len(),
                self.order@ == old(self).order@,
                self.slots@ == old(self).slots@,
                kept@ == without(self.order@.take(i as int), id),
            decreases self.order.len() - i,
        {
            proof {
                assert(self.order@.take(i + 1).drop_last() =~= self.order@.take(i as int));
                assert(self.order@.take(i + 1).last() == self.order@[i as int]);
            }
            if self.order[i] != id {
                kept.push(self.order[i]);
            }
            i += 1;
        }
        assert(self.order@.take(i as int) =~= self.order@);
        kept.push(id);
        self.order = kept;
    }

    /// The eligible job that was put in the background last: the job that a
    /// command means that names none.
    pub fn latest(&self, foreground: bool) -> (r: Option<usize>)
        ensures
            r == latest_eligible(self.order@, self.slots@, foreground),
    {
        let mut i: usize = self.order.len();
        assert(self.order@.take(i as int) =~= self.order@);
        while i > 0
            invariant
                i <= self.order.len(),
                latest_eligible(self.order@, self.slots@, foreground) == latest_eligible(
                    self.order@.take(i as int),
                    self.slots@,
                    foreground,
                ),
            decreases i,
        {
            let n = self.order[i - 1];
            proof {
                assert(self.order@.take(i as int).last() == n);
                assert(self.order@.take(i as int).drop_last() =~= self.order@.take(i - 1));
            }
            if n < self.slots.len() {
                let found = match self.slots[n].state {
                    ProcessState::Stopped => true,
                    ProcessState::Running => foreground,
                    _ => false,
                };
                if found {
                    return Some(n);
                }
            }
            i -= 1;
        }
        None
    }

    /// The state of the process in slot `id`; a number outside the table is a
    /// free slot.
    pub open spec fn spec_state(&self, id: int) -> ProcessState {
        if 0 <= id < self.slots@.len() {
            self.slots@[id].state
        } else {
            ProcessState::Empty
        }
    }

    /// The state of the process in slot `id`.
    pub fn state(&self, id: usize) -> (r: ProcessState)
        ensures
            r == self.spec_state(id as int),
    {
        if id < self.slots.len() {
            self.slots[id].state
        } else {
            ProcessState::Empty
        }
    }

    /// Puts a process into the table and returns its job number: the first
    /// free slot is used again, and only when none is free does the table grow.
    pub fn add_to_background(&mut self, pid: u32, state: ProcessState, name: String) -> (id: usize)
        ensures
            id == first_empty(old(self).slots@),
            final(self).slots@ == with_process(
                old(self).slots@,
                BackgroundProcess { pid, ignore_sighup: false, state, name },
            ),
            final(self).order@ == put_last(old(self).order@, id),
    {
        let mut i: usize = 0;
        while i < self.slots.len()
            invariant
                i <= self.slots.len(),
                self.slots@ == old(self).slots@,
                self.order@ == old(self).order@,
                forall|j: int| 0 <= j < i ==> !((#[trigger] self.slots@[j]).state is Empty),
            decreases self.slots.len() - i,
        {
            match self.slots[i].state {
                ProcessState::Empty => {
                    proof {
                        lemma_first_empty_is(self.slots@, i as int);
                    }
                    self.slots.set(i, BackgroundProcess { pid, ignore_sighup: false, state, name });
                    self.put_last(i);
                    return i;
                },
                _ => {},
            }
            i += 1;
        }
        proof {
            lemma_first_empty_is(self.slots@, i as int);
        }
        self.slots.push(BackgroundProcess { pid, ignore_sighup: false, state, name });
        self.put_last(i);
        i
    }

    fn set_state(&mut self, id: usize, state: ProcessState)
        requires
            id < old(self).slots@.len(),
        ensures
            final(self).slots@ == with_state(old(self).slots@, id as int, state),
            final(self).order@ == old(self).order@,
    {
        let pid = self.slots[id].pid;
        let ignore_sighup = self.slots[id].ignore_sighup;
        let name = self.slots[id].name.clone();
        self.slots.set(id, BackgroundProcess { pid, ignore_sighup, state, name });
    }

    /// Records what the operating system reported of the process in slot `id`.
    /// A free slot and a number outside the table take no event.
    pub fn observe(&mut self, id: usize, event: WaitEvent)
        ensures
            final(self).slots@ == with_state(
                old(self).slots@,
                id as int,
                next_state(old(self).spec_state(id as int), event),
            ),
            final(self).order@ == old(self).order@,
    {
        if id < self.slots.len() {
            let next = transition(self.slots[id].state, event);
            self.set_state(id, next);
        }
    }

    /// Clears the slot of a process that has ended and returns the line that
    /// tells the user of it. A slot whose process has not ended is left alone.
    pub fn collect(&mut self, id: usize) -> (r: Option<String>)
        ensures
            old(self).spec_state(id as int).is_terminal() ==> {
                &&& r matches Some(line)
                &&& line@ == notification(
                    id as int,
                    old(self).slots@[id as int].pid,
                    old(self).spec_state(id as int),
                )
                &&& final(self).slots@ == with_state(
                    old(self).slots@,
                    id as int,
                    ProcessState::Empty,
                )
            },
            !old(self).spec_state(id as int).is_terminal() ==> r is None && final(self).slots@
                == old(self).slots@,
            final(self).order@ == old(self).order@,
    {
        if id >= self.slots.len() {
            return None;
        }
        let state = self.slots[id].state;
        let pid = self.slots[id].pid;
        let mut line = String::new();
        line.append("ion: ([");
        line.append(decimal_string(false, id as u128).as_str());
        line.append("] ");
        line.append(decimal_string(false, pid as u128).as_str());
        line.append(") ");
        proof {
            assert(line@ =~= "ion: (["@ + decimal(id as int) + "] "@ + decimal(pid as int) + ") "@);
        }
        match state {
            ProcessState::Exited(code) => {
                line.append("exited with ");
                line.append(i32_to_string(code).as_str());
                self.set_state(id, ProcessState::Empty);
                Some(line)
            },
            ProcessState::Signaled(signal) => {
                line.append("terminated by signal ");
                line.append(i32_to_string(signal).as_str());
                self.set_state(id, ProcessState::Empty);
                Some(line)
            },
            _ => None,
        }
    }

    /// Lets a stopped job run in the background: the job named, or else the
    /// stopped job that was put in the background last. Returns the signal to
    /// send: a continue to the process group of the job. The terminal is not
    /// touched.
    pub fn bg(&mut self, id: Option<usize>) -> (r: Result<Action, JobError>)
        ensures
            r == resumed(
                old(self).slots@,
                chosen(id, old(self).order@, old(self).slots@, false),
            ),
            final(self).slots@ == after_resume(
                old(self).slots@,
                chosen(id, old(self).order@, old(self).slots@, false),
            ),
            final(self).order@ == old(self).order@,
    {
        let n = match id {
            Some(n) => n,
            None => match self.latest(false) {
                Some(n) => n,
                None => return Err(JobError::NoJobs),
            },
        };
        match self.state(n) {
            ProcessState::Stopped => {
                let pid = self.slots[n].pid;
                self.set_state(n, ProcessState::Running);
                Ok(Action::KillGroup { pgid: pid, signal: SIGCONT })
            },
            ProcessState::Running => Err(JobError::AlreadyRunning(n)),
            _ => Err(JobError::NoSuchJob(n)),
        }
    }

    /// Brings a job to the foreground: the job named, or else the job that was
    /// put in the background last among those that are alive. The job must be
    /// alive. It is marked as running, and what is returned is to be carried
    /// out in order: the terminal goes to the job, the job is continued and
    /// waited for, and the terminal goes back to the shell, whose process group
    /// is `shell_pgid`.
    pub fn fg(&mut self, id: Option<usize>, shell_pgid: u32) -> (r: Result<Vec<Action>, JobError>)
        ensures
            final(self).order@ == old(self).order@,
            brought_view(r) == brought(
                old(self).slots@,
                chosen(id, old(self).order@, old(self).slots@, true),
                shell_pgid,
            ),
            final(self).slots@ == after_foreground(
                old(self).slots@,
                chosen(id, old(self).order@, old(self).slots@, true),
            ),
    {
        let n = match id {
            Some(n) => n,
            None => match self.latest(true) {
                Some(n) => n,
                None => return Err(JobError::NoJobs),
            },
        };
        match self.state(n) {
            ProcessState::Stopped | ProcessState::Running => {
                let pid = self.slots[n].pid;
                self.set_state(n, ProcessState::Running);
                let mut actions: Vec<Action> = Vec::new();
                actions.push(Action::GrantTerminal { pgid: pid });
                actions.push(Action::KillGroup { pgid: pid, signal: SIGCONT });
                actions.push(Action::Wait { pid });
                actions.push(Action::GrantTerminal { pgid: shell_pgid });
                assert(actions@ =~= resumed_in_foreground(pid, shell_pgid));
                Ok(actions)
            },
            _ => Err(JobError::NoSuchJob(n)),
        }
    }

    /// Removes a job from the table without sending it any signal, so that
    /// the end of the session no longer ends it.
    pub fn disown(&mut self, id: usize) -> (r: Result<(), JobError>)
        ensures
            final(self).order@ == old(self).order@,
            old(self).spec_state(id as int) is Empty ==> r == Err::<(), JobError>(
                JobError::NoSuchJob(id),
            ) && final(self).slots@ == old(self).slots@,
            !(old(self).spec_state(id as int) is Empty) ==> r is Ok && final(self).slots@
                == with_state(old(self).slots@, id as int, ProcessState::Empty),
    {
        match self.state(id) {
            ProcessState::Empty => Err(JobError::NoSuchJob(id)),
            _ => {
                self.set_state(id, ProcessState::Empty);
                Ok(())
            },
        }
    }

    /// Takes in the outcome of a wait for the process in slot `id`: records
    /// the event, and where the process has ended clears its slot and returns
    /// the line that tells the user of it.
    pub fn settle(&mut self, id: usize, outcome: Reaped) -> (r: Option<String>)
        ensures
            final(self).slots@ == after_wait(old(self).slots@, id as int, outcome),
            option_text(r) == wait_notice(
                old(self).slots@,
                id as int,
                outcome,
            ),
            final(self).order@ == old(self).order@,
    {
        match outcome {
            Reaped::Gone => {
                if id < self.slots.len() {
                    self.set_state(id, ProcessState::Empty);
                }
                None
            },
            Reaped::Event(event) => {
                self.observe(id, event);
                let ghost recorded = self.slots@;
                let line = self.collect(id);
                proof {
                    if id < old(self).slots@.len() {
                        let next = next_state(old(self).slots@[id as int].state, event);
                        assert(recorded[id as int].state == next);
                        assert(recorded[id as int].pid == old(self).slots@[id as int].pid);
                        if next.is_terminal() {
                            assert(with_state(recorded, id as int, ProcessState::Empty) =~= with_state(
                                old(self).slots@,
                                id as int,
                                ProcessState::Empty,
                            ));
                        }
                    }
                }
                line
            },
            _ => None,
        }
    }

    /// Keeps a foreground job that was stopped: it goes into the table as a
    /// stopped job, without being waited for any further, and its number is
    /// returned. A job that was not stopped is not kept.
    pub fn suspended(&mut self, pgid: u32, command: String, event: WaitEvent) -> (r: Option<usize>)
        ensures
            event is Stopped ==> {
                &&& r == Some(first_empty(old(self).slots@) as usize)
                &&& final(self).slots@ == with_process(
                    old(self).slots@,
                    BackgroundProcess {
                        pid: pgid,
                        ignore_sighup: false,
                        state: ProcessState::Stopped,
                        name: command,
                    },
                )
                &&& final(self).order@ == put_last(
                    old(self).order@,
                    first_empty(old(self).slots@) as usize,
                )
            },
            !(event is Stopped) ==> r is None && *final(self) == *old(self),
    {
        match event {
            WaitEvent::Stopped(_) => {
                proof {
                    lemma_first_empty(self.slots@);
                }
                Some(self.add_to_background(pgid, ProcessState::Stopped, command))
            },
            _ => None,
        }
    }

    /// Lists the jobs: a line for every slot that holds a process.
    pub fn jobs(&self) -> (r: Vec<String>)
        ensures
            texts(r@) == job_lines(self.slots@),
    {
        let mut out: Vec<String> = Vec::new();
        let mut i: usize = 0;
        assert(self.slots@.take(0) =~= Seq::<BackgroundProcess>::empty());
        assert(texts(out@) =~= Seq::<Seq<char>>::empty());
        while i < self.slots.len()
            invariant
                i <= self.slots.len(),
                texts(out@) == job_lines(self.slots@.take(i as int)),
            decreases self.slots.len() - i,
        {
            let process = &self.slots[i];
            proof {
                assert(self.slots@.take(i + 1).drop_last() =~= self.slots@.take(i as int));
                assert(self.slots@.take(i + 1).last() == *process);
            }
            let name: &str = match process.state {
                ProcessState::Running => "Running",
                ProcessState::Stopped => "Stopped",
                ProcessState::Exited(_) => "Exited",
                ProcessState::Signaled(_) => "Signaled",
                ProcessState::Empty => "Empty",
            };
            match process.state {
                ProcessState::Empty => {},
                _ => {
                    let mut line = String::new();
                    line.append("[");
                    line.append(decimal_string(false, i as u128).as_str());
                    line.append("] ");
                    line.append(decimal_string(false, process.pid as u128).as_str());
                    line.append(" ");
                    line.append(name);
                    line.append("\t");
                    line.append(process.name.as_str());
                    proof {
                        assert(line@ =~= job_line(i as int, *process));
                        assert(texts(out@.push(line)) =~= texts(
                            out@,
                        ).push(line@));
                    }
                    out.push(line);
                },
            }
            i += 1;
        }
        assert(self.slots@.take(i as int) =~= self.slots@);
        out
    }

    /// The processes that are sent a termination signal when the session
    /// ends: every process of the table, in slot order; free slots have none.
    pub fn exit_signals(&self) -> (r: Vec<Action>)
        ensures
            r@ == termination_signals(self.slots@),
    {
        let mut out: Vec<Action> = Vec::new();
        let mut i: usize = 0;
        assert(self.slots@.take(0) =~= Seq::<BackgroundProcess>::empty());
        while i < self.slots.len()
            invariant
                i <= self.slots.len(),
                out@ =~= termination_signals(self.slots@.take(i as int)),
            decreases self.slots.len() - i,
        {
            proof {
                assert(self.slots@.take(i + 1).drop_last() =~= self.slots@.take(i as int));
                assert(self.slots@.take(i + 1).last() == self.slots@[i as int]);
            }
            match self.slots[i].state {
                ProcessState::Empty => {},
                _ => {
                    out.push(Action::Kill { pid: self.slots[i].pid, signal: SIGTERM });
                },
            }
            i += 1;
        }
        assert(self.slots@.take(i as int) =~= self.slots@);
        out
    }
}

} // verus!
