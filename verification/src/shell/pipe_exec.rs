//! Pipelines: how the stages of a job are wired to each other, which process
//! group they join, and which pipe ends each process holds once all are
//! launched.

use crate::shell::job_control::{foreground, foreground_actions, Action};
use crate::sys::launch::{child_setup, parent_cleanup, FdOp};
use vstd::prelude::*;

verus! {

/// The two ends of a pipe, as descriptors of the shell.
#[derive(Debug, Clone, Copy, PartialEq, Eq, Structural)]
pub struct Pipe {
    pub read: i32,
    pub write: i32,
}

/// The descriptors that a stage is launched with; a stream without a
/// descriptor is inherited from the shell.
#[derive(Debug, Clone, Copy, PartialEq, Eq, Structural)]
pub struct Streams {
    pub stdin: Option<i32>,
    pub stdout: Option<i32>,
}

/// The number of pipes that connect a number of stages: one less, and none
/// for no stage at all.
pub open spec fn pipes_for(stages: nat) -> nat {
    if stages == 0 {
        0
    } else {
        (stages - 1) as nat
    }
}

/// The streams of stage `i` of the pipeline that `pipes` connect: it reads
/// from the pipe before it and writes to the pipe behind it; the first stage
/// reads, and the last stage writes, what the shell does.
pub open spec fn streams_of(pipes: Seq<Pipe>, i: int) -> Streams {
    Streams {
        stdin: if 0 < i <= pipes.len() {
            Some(pipes[i - 1].read)
        } else {
            None
        },
        stdout: if 0 <= i < pipes.len() {
            Some(pipes[i].write)
        } else {
            None
        },
    }
}

/// Tells how many pipes connect a number of stages.
pub fn pipes_needed(stages: usize) -> (r: usize)
    ensures
        r == pipes_for(stages as nat),
{
    if stages == 0 {
        0
    } else {
        stages - 1
    }
}

/// Wires the stages of a pipeline, first to last, to the pipes between them.
pub fn connect(pipes: &Vec<Pipe>) -> (r: Vec<Streams>)
    requires
        pipes.len() < usize::MAX,
    ensures
        r@.len() == pipes@.len() + 1,
        pipes_for(r@.len()) == pipes@.len(),
        forall|i: int| 0 <= i < r@.len() ==> r@[i] == streams_of(pipes@, i),
{
    let mut out: Vec<Streams> = Vec::new();
    let mut i: usize = 0;
    while i <= pipes.len()
        invariant
            i <= pipes.len() + 1,
            pipes.len() < usize::MAX,
            out@.len() == i,
            forall|j: int| 0 <= j < i ==> out@[j] == streams_of(pipes@, j),
        decreases pipes.len() + 1 - i,
    {
        let stdin = if i > 0 {
            Some(pipes[i - 1].read)
        } else {
            None
        };
        let stdout = if i < pipes.len() {
            Some(pipes[i].write)
        } else {
            None
        };
        out.push(Streams { stdin, stdout });
        i += 1;
    }
    out
}

/// The process and the group that a stage names when it sets its process
/// group before its program starts. Each names itself, as process zero. The
/// first stage founds a group of its own, which group zero stands for; every
/// later stage joins the group of the first.
pub fn stage_group(first: Option<u32>) -> (r: (u32, u32))
    ensures
        r == match first {
            None => (0u32, 0u32),
            Some(pgid) => (0u32, pgid),
        },
{
    match first {
        None => (0, 0),
        Some(pgid) => (0, pgid),
    }
}

/// A launched pipeline.
#[derive(Debug)]
pub struct Job {
    /// The process group of all its members: the process id of the first.
    pub pgid: u32,
    /// Its members in the order of the stages.
    pub members: Vec<u32>,
    /// The command as the user wrote it.
    pub command: String,
    /// Whether the job owns the terminal while it runs.
    pub foreground: bool,
}

impl Job {
    /// Every job has a member, and its group is that of the first.
    pub open spec fn wf(&self) -> bool {
        self.members@.len() > 0 && self.pgid == self.members@[0]
    }

    /// The job of the processes that were launched for the stages of a
    /// pipeline; none where nothing was launched.
    pub fn new(members: Vec<u32>, command: String, foreground: bool) -> (r: Option<Job>)
        ensures
            members@.len() == 0 ==> r is None,
            members@.len() > 0 ==> (r matches Some(job) && job.wf() && job.members == members
                && job.command == command && job.foreground == foreground),
    {
        if members.len() == 0 {
            None
        } else {
            let pgid = members[0];
            Some(Job { pgid, members, command, foreground })
        }
    }

    /// What running the job in the foreground asks for: the terminal goes to
    /// the job once, after all stages are launched, every member is waited
    /// for, and the terminal goes back to the shell.
    pub fn run_in_foreground(&self, shell_pgid: u32) -> (r: Vec<Action>)
        ensures
            r@ == foreground_actions(self.pgid, self.members@, shell_pgid),
    {
        foreground(self.pgid, &self.members, shell_pgid)
    }
}

/// What a process holds under a descriptor: an end of one of the pipes of the
/// pipeline, which the new image of a program keeps or does not keep.
pub struct Held {
    pub pipe: int,
    pub writes: bool,
    pub close_on_exec: bool,
}

/// The descriptors of the shell once it has made the pipes: both ends of each
/// pipe, none of which a new image keeps.
pub open spec fn opened(pipes: Seq<Pipe>) -> Map<int, Held>
    decreases pipes.len(),
{
    if pipes.len() == 0 {
        Map::empty()
    } else {
        let k = pipes.len() - 1;
        opened(pipes.drop_last()).insert(
            pipes[k].read as int,
            Held { pipe: k, writes: false, close_on_exec: true },
        ).insert(pipes[k].write as int, Held { pipe: k, writes: true, close_on_exec: true })
    }
}

/// The descriptors of a process after one step: a copy holds what the
/// given descriptor holds and is kept by a new image; a closed descriptor holds
/// nothing. A step on a descriptor that holds nothing fails and changes
/// nothing.
pub open spec fn after_op(table: Map<int, Held>, op: FdOp) -> Map<int, Held> {
    match op {
        FdOp::Dup2 { from, to } => if table.dom().contains(from as int) {
            table.insert(
                to as int,
                Held {
                    pipe: table[from as int].pipe,
                    writes: table[from as int].writes,
                    close_on_exec: false,
                },
            )
        } else {
            table
        },
        FdOp::Close(fd) => table.remove(fd as int),
    }
}

/// The descriptors of a process after the steps, taken in order.
pub open spec fn after_ops(table: Map<int, Held>, ops: Seq<FdOp>) -> Map<int, Held>
    decreases ops.len(),
{
    if ops.len() == 0 {
        table
    } else {
        after_op(after_ops(table, ops.drop_last()), ops.last())
    }
}

/// The descriptors that a new image keeps.
pub open spec fn after_exec(table: Map<int, Held>) -> Map<int, Held> {
    table.restrict(Set::new(|fd: int| table.dom().contains(fd) && !table[fd].close_on_exec))
}

/// The descriptors of the shell after it has launched the first `k` stages:
/// after each fork it closes what it handed to the child.
pub open spec fn shell_after(pipes: Seq<Pipe>, k: nat) -> Map<int, Held>
    decreases k,
{
    if k == 0 {
        opened(pipes)
    } else {
        let streams = streams_of(pipes, k - 1);
        after_ops(
            shell_after(pipes, (k - 1) as nat),
            parent_cleanup(streams.stdin, streams.stdout, None),
        )
    }
}

/// The descriptors of stage `i` once its program runs: the child starts with
/// those that the shell had at the fork, puts its streams in place, and its
/// new image keeps what is to be kept.
pub open spec fn stage_holds(pipes: Seq<Pipe>, i: nat) -> Map<int, Held> {
    let streams = streams_of(pipes, i as int);
    after_exec(after_ops(shell_after(pipes, i), child_setup(streams.stdin, streams.stdout, None)))
}

/// The descriptors of the pipes are such as the operating system hands out
/// while the standard streams are open: all different, none a standard slot.
pub open spec fn fresh(pipes: Seq<Pipe>) -> bool {
    &&& forall|j: int| 0 <= j < pipes.len() ==> (#[trigger] pipes[j]).read > 2 && pipes[j].write > 2
    &&& forall|j: int| 0 <= j < pipes.len() ==> (#[trigger] pipes[j]).read != pipes[j].write
    &&& forall|j: int, k: int|
        0 <= j < k < pipes.len() ==> {
            &&& (#[trigger] pipes[j]).read != (#[trigger] pipes[k]).read
            &&& pipes[j].read != pipes[k].write
            &&& pipes[j].write != pipes[k].read
            &&& pipes[j].write != pipes[k].write
        }
}

/// What the shell holds after `k` launches: the read ends from pipe `k - 1`
/// on and the write ends from pipe `k` on, each under its own descriptor.
spec fn remaining(pipes: Seq<Pipe>, k: int) -> Map<int, Held> {
    Map::new(
        |fd: int|
            exists|j: int|
                0 <= j < pipes.len() && ((j >= k - 1 && fd == (#[trigger] pipes[j]).read) || (j >= k
                    && fd == pipes[j].write)),
        |fd: int|
            {
                let j = choose|j: int|
                    0 <= j < pipes.len() && ((j >= k - 1 && fd == (#[trigger] pipes[j]).read) || (j
                        >= k && fd == pipes[j].write));
                Held { pipe: j, writes: fd == pipes[j].write, close_on_exec: true }
            },
    )
}

proof fn lemma_opened(pipes: Seq<Pipe>)
    requires
        fresh(pipes),
    ensures
        opened(pipes) =~= remaining(pipes, 0),
    decreases pipes.len(),
{
    if pipes.len() > 0 {
        let k = pipes.len() - 1;
        let front = pipes.drop_last();
        assert forall|j: int| 0 <= j < front.len() implies front[j] == pipes[j] by {}
        assert(fresh(front)) by {
            assert forall|j: int| 0 <= j < front.len() implies (#[trigger] front[j]).read > 2
                && front[j].write > 2 && front[j].read != front[j].write by {
                assert(front[j] == pipes[j]);
            }
            assert forall|a: int, b: int| 0 <= a < b < front.len() implies {
                &&& (#[trigger] front[a]).read != (#[trigger] front[b]).read
                &&& front[a].read != front[b].write
                &&& front[a].write != front[b].read
                &&& front[a].write != front[b].write
            } by {
                assert(front[a] == pipes[a]);
                assert(front[b] == pipes[b]);
            }
        }
        lemma_opened(front);
        let built = opened(pipes);
        let wanted = remaining(pipes, 0);
        assert forall|fd: int| built.dom().contains(fd) <==> wanted.dom().contains(fd) by {
            if built.dom().contains(fd) {
                if fd == pipes[k].read || fd == pipes[k].write {
                    assert(0 <= k < pipes.len() && (fd == pipes[k].read || fd == pipes[k].write));
                } else {
                    assert(remaining(front, 0).dom().contains(fd));
                    let j = choose|j: int|
                        0 <= j < front.len() && ((j >= 0 - 1 && fd == (#[trigger] front[j]).read)
                            || (j >= 0 && fd == front[j].write));
                    assert(front[j] == pipes[j]);
                }
            }
            if wanted.dom().contains(fd) {
                let j = choose|j: int|
                    0 <= j < pipes.len() && ((j >= 0 - 1 && fd == (#[trigger] pipes[j]).read) || (j
                        >= 0 && fd == pipes[j].write));
                if j < k {
                    assert(front[j] == pipes[j]);
                    assert(remaining(front, 0).dom().contains(fd));
                }
            }
        }
        assert forall|fd: int| built.dom().contains(fd) implies built[fd] == wanted[fd] by {
            lemma_remaining_value(pipes, 0, fd);
            if fd == pipes[k].read || fd == pipes[k].write {
            } else {
                lemma_remaining_value(front, 0, fd);
                let j = wanted[fd].pipe;
                let i = remaining(front, 0)[fd].pipe;
                assert(front[i] == pipes[i]);
            }
        }
    } else {
        assert(opened(pipes) =~= remaining(pipes, 0));
    }
}

/// Under a descriptor that the shell still holds lies the end that the
/// descriptor was made for.
proof fn lemma_remaining_value(pipes: Seq<Pipe>, k: int, fd: int)
    requires
        fresh(pipes),
        remaining(pipes, k).dom().contains(fd),
    ensures
        0 <= remaining(pipes, k)[fd].pipe < pipes.len(),
        remaining(pipes, k)[fd].close_on_exec,
        remaining(pipes, k)[fd].writes ==> fd == pipes[remaining(pipes, k)[fd].pipe].write
            && remaining(pipes, k)[fd].pipe >= k,
        !remaining(pipes, k)[fd].writes ==> fd == pipes[remaining(pipes, k)[fd].pipe].read
            && remaining(pipes, k)[fd].pipe >= k - 1,
        forall|j: int|
            0 <= j < pipes.len() && (fd == (#[trigger] pipes[j]).read || fd == pipes[j].write)
                ==> j == remaining(pipes, k)[fd].pipe,
{
    let j = remaining(pipes, k)[fd].pipe;
    assert(0 <= j < pipes.len() && ((j >= k - 1 && fd == pipes[j].read) || (j >= k && fd
        == pipes[j].write)));
    assert forall|i: int|
        0 <= i < pipes.len() && (fd == (#[trigger] pipes[i]).read || fd == pipes[i].write) implies i
        == j by {
        if i < j {
            assert(pipes[i].read != pipes[j].read);
        } else if j < i {
            assert(pipes[j].read != pipes[i].read);
        }
    }
}

proof fn lemma_shell_after(pipes: Seq<Pipe>, k: nat)
    requires
        fresh(pipes),
        k <= pipes.len() + 1,
    ensures
        shell_after(pipes, k) =~= remaining(pipes, k as int),
    decreases k,
{
    if k == 0 {
        lemma_opened(pipes);
    } else {
        lemma_shell_after(pipes, (k - 1) as nat);
        let before = remaining(pipes, k - 1);
        let streams = streams_of(pipes, k - 1);
        let ops = parent_cleanup(streams.stdin, streams.stdout, None);
        let after = after_ops(before, ops);
        let wanted = remaining(pipes, k as int);
        reveal_with_fuel(after_ops, 3);
        // What is closed: the read end of pipe k - 2 and the write end of pipe k - 1.
        let closes_read = 0 < k - 1 <= pipes.len();
        let closes_write = k - 1 < pipes.len();
        if closes_read && closes_write {
            assert(ops =~= seq![FdOp::Close(pipes[k - 2].read), FdOp::Close(pipes[k - 1].write)]);
            assert(ops.drop_last() =~= seq![FdOp::Close(pipes[k - 2].read)]);
            assert(ops.drop_last().drop_last() =~= Seq::<FdOp>::empty());
            assert(after == before.remove(pipes[k - 2].read as int).remove(
                pipes[k - 1].write as int,
            ));
        } else if closes_read {
            assert(ops =~= seq![FdOp::Close(pipes[k - 2].read)]);
            assert(ops.drop_last() =~= Seq::<FdOp>::empty());
            assert(after == before.remove(pipes[k - 2].read as int));
        } else if closes_write {
            assert(ops =~= seq![FdOp::Close(pipes[k - 1].write)]);
            assert(ops.drop_last() =~= Seq::<FdOp>::empty());
            assert(after == before.remove(pipes[k - 1].write as int));
        } else {
            assert(ops =~= Seq::<FdOp>::empty());
            assert(after == before);
        }
        assert forall|fd: int| after.dom().contains(fd) <==> wanted.dom().contains(fd) by {
            if after.dom().contains(fd) {
                lemma_remaining_value(pipes, k - 1, fd);
                let j = before[fd].pipe;
                assert(0 <= j < pipes.len() && ((j >= k - 1 && fd == pipes[j].read) || (j >= k
                    && fd == pipes[j].write)));
            }
            if wanted.dom().contains(fd) {
                lemma_remaining_value(pipes, k as int, fd);
                let j = wanted[fd].pipe;
                assert(0 <= j < pipes.len() && ((j >= k - 2 && fd == pipes[j].read) || (j >= k - 1
                    && fd == pipes[j].write)));
                assert(before.dom().contains(fd));
                if closes_read {
                    assert(fd != pipes[k - 2].read) by {
                        if fd == pipes[k - 2].read {
                            assert(pipes[k - 2].read != pipes[k - 2].write);
                        }
                    }
                }
                if closes_write {
                    assert(fd != pipes[k - 1].write) by {
                        if fd == pipes[k - 1].write {
                            assert(pipes[k - 1].read != pipes[k - 1].write);
                        }
                    }
                }
            }
        }
        assert forall|fd: int| after.dom().contains(fd) implies after[fd] == wanted[fd] by {
            lemma_remaining_value(pipes, k - 1, fd);
            lemma_remaining_value(pipes, k as int, fd);
        }
        assert(after =~= wanted);
    }
}

/// Once a pipeline is launched, every process holds the pipe ends that it
/// uses and no other. For the pipeline of `pipes.len() + 1` stages that the
/// pipes connect:
/// - stage `i` holds, as its standard input, the read end of the pipe before
///   it, where there is one; as its standard output, the write end of the pipe
///   behind it, where there is one; and no descriptor of any pipe besides;
/// - the shell, after the last launch, holds no descriptor of any pipe.
pub proof fn lemma_no_stray_pipe_ends(pipes: Seq<Pipe>, i: nat)
    requires
        fresh(pipes),
        i <= pipes.len(),
    ensures
        shell_after(pipes, pipes.len() + 1) =~= Map::<int, Held>::empty(),
        forall|fd: int| stage_holds(pipes, i).dom().contains(fd) ==> fd == 0 || fd == 1,
        stage_holds(pipes, i).dom().contains(0) <==> i > 0,
        stage_holds(pipes, i).dom().contains(1) <==> i < pipes.len(),
        i > 0 ==> stage_holds(pipes, i)[0].pipe == i - 1 && !stage_holds(pipes, i)[0].writes,
        i < pipes.len() ==> stage_holds(pipes, i)[1].pipe == i && stage_holds(pipes, i)[1].writes,
{
    lemma_shell_after(pipes, pipes.len() + 1);
    assert(remaining(pipes, pipes.len() as int + 1) =~= Map::<int, Held>::empty());
    lemma_shell_after(pipes, i);
    let start = remaining(pipes, i as int);
    let streams = streams_of(pipes, i as int);
    let ops = child_setup(streams.stdin, streams.stdout, None);
    let set_up = after_ops(start, ops);
    let kept = stage_holds(pipes, i);
    reveal_with_fuel(after_ops, 5);
    assert forall|fd: int| start.dom().contains(fd) implies fd > 2 && start[fd].close_on_exec by {
        lemma_remaining_value(pipes, i as int, fd);
    }
    if i > 0 {
        let r = pipes[i - 1].read;
        assert(start.dom().contains(r as int)) by {
            assert(0 <= i - 1 < pipes.len() && i - 1 >= i - 1 && r == pipes[i - 1].read);
        }
        lemma_remaining_value(pipes, i as int, r as int);
    }
    if i < pipes.len() {
        let w = pipes[i as int].write;
        assert(start.dom().contains(w as int)) by {
            assert(0 <= i < pipes.len() && i >= i && w == pipes[i as int].write);
        }
        lemma_remaining_value(pipes, i as int, w as int);
    }
    if i > 0 && i < pipes.len() {
        let r = pipes[i - 1].read;
        let w = pipes[i as int].write;
        assert(ops =~= seq![
            FdOp::Dup2 { from: r, to: 0 },
            FdOp::Close(r),
            FdOp::Dup2 { from: w, to: 1 },
            FdOp::Close(w),
        ]);
        let o3 = ops.drop_last();
        let o2 = o3.drop_last();
        let o1 = o2.drop_last();
        assert(o3 =~= seq![FdOp::Dup2 { from: r, to: 0 }, FdOp::Close(r), FdOp::Dup2 { from: w, to: 1 }]);
        assert(o2 =~= seq![FdOp::Dup2 { from: r, to: 0 }, FdOp::Close(r)]);
        assert(o1 =~= seq![FdOp::Dup2 { from: r, to: 0 }]);
        assert(o1.drop_last() =~= Seq::<FdOp>::empty());
        assert(r != w) by {
            assert(pipes[i - 1].read != pipes[i as int].write);
        }
    } else if i > 0 {
        let r = pipes[i - 1].read;
        assert(ops =~= seq![FdOp::Dup2 { from: r, to: 0 }, FdOp::Close(r)]);
        let o1 = ops.drop_last();
        assert(o1 =~= seq![FdOp::Dup2 { from: r, to: 0 }]);
        assert(o1.drop_last() =~= Seq::<FdOp>::empty());
    } else if i < pipes.len() {
        let w = pipes[i as int].write;
        assert(ops =~= seq![FdOp::Dup2 { from: w, to: 1 }, FdOp::Close(w)]);
        let o1 = ops.drop_last();
        assert(o1 =~= seq![FdOp::Dup2 { from: w, to: 1 }]);
        assert(o1.drop_last() =~= Seq::<FdOp>::empty());
    } else {
        assert(ops =~= Seq::<FdOp>::empty());
    }
}

} // verus!
