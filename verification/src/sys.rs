//! The boundary to the operating system: the numbers it speaks in, its typed
//! errors, and the reading of wait statuses.

pub mod launch;
pub mod signals;
pub mod variables;

use vstd::prelude::*;

verus! {

/// What separates the directories of the executable search list.
pub const PATH_SEPARATOR: char = ';';

/// The path of the sink that swallows what is written to it.
pub const NULL_PATH: &'static str = "null:";

/// The flag that makes a new descriptor one that a new image does not keep.
pub const O_CLOEXEC: usize = 0x0100_0000;

/// The terminal was closed.
pub const SIGHUP: i32 = 1;

/// The user interrupted the foreground job.
pub const SIGINT: i32 = 2;

/// The process is asked to end.
pub const SIGTERM: i32 = 15;

/// A stopped process is to go on.
pub const SIGCONT: i32 = 18;

/// The process is stopped; it cannot refuse.
pub const SIGSTOP: i32 = 19;

/// The user stopped the foreground job.
pub const SIGTSTP: i32 = 20;

/// The process wrote to a pipe that nobody reads.
pub const SIGPIPE: i32 = 13;

/// The wait also reports children that were stopped.
pub const WUNTRACED: i32 = 0x02;

/// The wait returns at once where no child has changed.
pub const WNOHANG: i32 = 0x01;

/// The wait also reports children that were continued.
pub const WCONTINUED: i32 = 0x08;

/// The descriptor of the standard input.
pub const STDIN_FILENO: i32 = 0;

/// The descriptor of the standard output.
pub const STDOUT_FILENO: i32 = 1;

/// The descriptor of the standard error.
pub const STDERR_FILENO: i32 = 2;

/// No such file or directory.
pub const ENOENT: i32 = 2;

/// The call was interrupted by a signal.
pub const EINTR: i32 = 4;

/// No child processes.
pub const ECHILD: i32 = 10;

/// Permission denied.
pub const EACCES: i32 = 13;

/// The error of the system-call layer: a bare error number.
#[verifier::external_type_specification]
pub struct ExSyscallError(syscall::Error);

/// What `syscall::Error::text` returns for an error number: its entry in the
/// layer's table of messages.
pub uninterp spec fn error_text(errno: int) -> Seq<char>;

/// `syscall::Error::text` looks the error number up in a fixed table of
/// messages, so the message is a function of the number alone.
pub assume_specification[ syscall::Error::text ](e: &syscall::Error) -> (r: &'static str)
    ensures
        r@ == error_text(e.errno as int),
;

/// `syscall::wifstopped`: the low byte of the status is `0x7f`.
pub assume_specification[ syscall::wifstopped ](status: usize) -> (r: bool)
    ensures
        r == ((status & 0xff) == 0x7f),
;

/// `syscall::wstopsig`: the second byte of the status.
pub assume_specification[ syscall::wstopsig ](status: usize) -> (r: usize)
    ensures
        r == (status >> 8) & 0xff,
;

/// `syscall::wifcontinued`: the status is exactly `0xffff`.
pub assume_specification[ syscall::wifcontinued ](status: usize) -> (r: bool)
    ensures
        r == (status == 0xffff),
;

/// `syscall::wifsignaled`: the low seven bits of the status, plus one and read
/// as a signed byte, are at least two.
pub assume_specification[ syscall::wifsignaled ](status: usize) -> (r: bool)
    ensures
        r == ((((status & 0x7f) + 1) as i8) >= 2),
;

/// `syscall::wtermsig`: the low seven bits of the status.
pub assume_specification[ syscall::wtermsig ](status: usize) -> (r: usize)
    ensures
        r == status & 0x7f,
;

/// `syscall::wifexited`: the low seven bits of the status are zero.
pub assume_specification[ syscall::wifexited ](status: usize) -> (r: bool)
    ensures
        r == ((status & 0x7f) == 0),
;

/// `syscall::wexitstatus`: the second byte of the status.
pub assume_specification[ syscall::wexitstatus ](status: usize) -> (r: usize)
    ensures
        r == (status >> 8) & 0xff,
;

/// `syscall::wcoredump`: bit seven of the status is set.
pub assume_specification[ syscall::wcoredump ](status: usize) -> (r: bool)
    ensures
        r == ((status & 0x80) != 0),
;

/// A failure of the operating system, carrying its error number.
#[derive(Debug, Clone, Copy, PartialEq, Eq, Structural)]
pub struct OsError {
    pub errno: i32,
}

impl OsError {
    /// The message that belongs to the error number.
    pub fn description(&self) -> (r: &'static str)
        ensures
            r@ == error_text(self.errno as int),
    {
        strerror(self.errno)
    }
}

/// Turns a result of the system-call layer into one with a typed error.
pub fn cvt(result: Result<usize, syscall::Error>) -> (r: Result<usize, OsError>)
    ensures
        result matches Ok(n) ==> r == Ok::<usize, OsError>(n),
        result matches Err(e) ==> r == Err::<usize, OsError>(OsError { errno: e.errno }),
{
    match result {
        Ok(n) => Ok(n),
        Err(err) => Err(OsError { errno: err.errno }),
    }
}

/// What a wait amounts to in the numbers that the shell works with: the
/// process that changed state, or the error number; and the status that was
/// filled in. Both are cut down to thirty-two bits.
pub fn wait_result(result: Result<usize, syscall::Error>, stat: usize) -> (r: (
    Result<i32, i32>,
    i32,
))
    ensures
        result matches Ok(pid) ==> r.0 == Ok::<i32, i32>(pid as i32),
        result matches Err(e) ==> r.0 == Err::<i32, i32>(e.errno),
        r.1 == stat as i32,
{
    let status = #[verifier::truncate]
    (stat as i32);
    match result {
        Ok(pid) => (Ok(#[verifier::truncate] (pid as i32)), status),
        Err(error) => (Err(error.errno), status),
    }
}

/// The message that belongs to an error number.
pub fn strerror(errno: i32) -> (r: &'static str)
    ensures
        r@ == error_text(errno as int),
{
    let e = syscall::Error { errno };
    e.text()
}

/// The exit code that a wait status carries: its second byte.
pub open spec fn exit_status_of(status: i32) -> i32 {
    (status >> 8) & 0xff
}

/// The signal that a wait status carries as the cause of termination: its low
/// seven bits.
pub open spec fn term_signal_of(status: i32) -> i32 {
    status & 0x7f
}

/// The signal that a wait status carries as the cause of a stop: its second
/// byte.
pub open spec fn stop_signal_of(status: i32) -> i32 {
    (status >> 8) & 0xff
}

/// The status tells of a child that exited by itself.
pub open spec fn is_exited(status: i32) -> bool {
    status & 0x7f == 0
}

/// The status tells of a child that a signal ended.
pub open spec fn is_signaled(status: i32) -> bool {
    status & 0x7f != 0 && status & 0x7f != 0x7f
}

/// The status tells of a child that was stopped.
pub open spec fn is_stopped(status: i32) -> bool {
    status & 0xff == 0x7f
}

/// The status tells of a child that was continued.
pub open spec fn is_continued(status: i32) -> bool {
    status == 0xffff
}

/// The status tells of a child that dumped core.
pub open spec fn is_core_dumped(status: i32) -> bool {
    status & 0x80 != 0
}

/// The status as the system-call layer takes it: its bits, without a sign.
fn widen(status: i32) -> (wide: usize)
    ensures
        wide == (status as u32) as usize,
{
    (#[verifier::truncate] (status as u32)) as usize
}

/// The exit code of a child that exited.
pub fn wexitstatus(status: i32) -> (r: i32)
    ensures
        r == exit_status_of(status),
        0 <= r <= 0xff,
{
    let wide = widen(status);
    let code = syscall::wexitstatus(wide);
    assert(((wide >> 8) & 0xff) as i32 == (status >> 8) & 0xff && (wide >> 8) & 0xff <= 0xff)
        by (bit_vector)
        requires
            wide == (status as u32) as usize,
    ;
    code as i32
}

/// The signal that ended a child.
pub fn wtermsig(status: i32) -> (r: i32)
    ensures
        r == term_signal_of(status),
        0 <= r <= 0x7f,
{
    let wide = widen(status);
    let signal = syscall::wtermsig(wide);
    assert((wide & 0x7f) as i32 == status & 0x7f && wide & 0x7f <= 0x7f) by (bit_vector)
        requires
            wide == (status as u32) as usize,
    ;
    signal as i32
}

/// The signal that stopped a child.
pub fn wstopsig(status: i32) -> (r: i32)
    ensures
        r == stop_signal_of(status),
        0 <= r <= 0xff,
{
    let wide = widen(status);
    let signal = syscall::wstopsig(wide);
    assert(((wide >> 8) & 0xff) as i32 == (status >> 8) & 0xff && (wide >> 8) & 0xff <= 0xff)
        by (bit_vector)
        requires
            wide == (status as u32) as usize,
    ;
    signal as i32
}

/// Whether the child was continued.
pub fn wifcontinued(status: i32) -> (r: bool)
    ensures
        r == is_continued(status),
{
    let wide = widen(status);
    assert((wide == 0xffff) == (status == 0xffff)) by (bit_vector)
        requires
            wide == (status as u32) as usize,
    ;
    syscall::wifcontinued(wide)
}

/// Whether a signal ended the child.
pub fn wifsignaled(status: i32) -> (r: bool)
    ensures
        r == is_signaled(status),
{
    let wide = widen(status);
    assert(((((wide & 0x7f) + 1) as i8) >= 2) == ((status & 0x7f) != 0 && (status & 0x7f) != 0x7f))
        by (bit_vector)
        requires
            wide == (status as u32) as usize,
    ;
    syscall::wifsignaled(wide)
}

/// Whether the child was stopped.
pub fn wifstopped(status: i32) -> (r: bool)
    ensures
        r == is_stopped(status),
{
    let wide = widen(status);
    assert(((wide & 0xff) == 0x7f) == (status & 0xff == 0x7f)) by (bit_vector)
        requires
            wide == (status as u32) as usize,
    ;
    syscall::wifstopped(wide)
}

/// Whether the child dumped core.
pub fn wcoredump(status: i32) -> (r: bool)
    ensures
        r == is_core_dumped(status),
{
    let wide = widen(status);
    assert(((wide & 0x80) != 0) == (status & 0x80 != 0)) by (bit_vector)
        requires
            wide == (status as u32) as usize,
    ;
    syscall::wcoredump(wide)
}

/// Whether the child exited by itself.
pub fn wifexited(status: i32) -> (r: bool)
    ensures
        r == is_exited(status),
{
    let wide = widen(status);
    assert(((wide & 0x7f) == 0) == (status & 0x7f == 0)) by (bit_vector)
        requires
            wide == (status as u32) as usize,
    ;
    syscall::wifexited(wide)
}

} // verus!
