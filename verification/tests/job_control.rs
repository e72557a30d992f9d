use ion_shell::shell::job_control::{
    decode_status, exit_status, foreground, foreground_step, job_number, reap, refusal_message,
    transition, wait_options, Action, JobError, JobTable, ProcessState, Reaped, WaitEvent,
    WaitStep,
};
use ion_shell::sys;

#[test]
fn wait_status_readers_agree_with_system_layer() {
    let statuses = [0i32, 0x0100, 0x2a00, 0xff00, 0x0009, 0x008b, 0x137f, 0x147f, 0xffff, 0x7f, 0x00ff, 0x1234, -1, i32::MIN, i32::MAX, 0x10000, 0x1_0100];
    for status in statuses {
        let wide = status as usize;
        assert_eq!(sys::wifexited(status), syscall::wifexited(wide), "{:#x}", status);
        assert_eq!(sys::wifsignaled(status), syscall::wifsignaled(wide), "{:#x}", status);
        assert_eq!(sys::wifstopped(status), syscall::wifstopped(wide), "{:#x}", status);
        assert_eq!(sys::wifcontinued(status), syscall::wifcontinued(wide), "{:#x}", status);
        assert_eq!(sys::wcoredump(status), syscall::wcoredump(wide), "{:#x}", status);
        assert_eq!(sys::wexitstatus(status), syscall::wexitstatus(wide) as i32, "{:#x}", status);
        assert_eq!(sys::wtermsig(status), syscall::wtermsig(wide) as i32, "{:#x}", status);
        assert_eq!(sys::wstopsig(status), syscall::wstopsig(wide) as i32, "{:#x}", status);
    }
}

#[test]
fn wait_status_readers_exact_values() {
    assert!(sys::wifexited(0x2a00));
    assert_eq!(sys::wexitstatus(0x2a00), 42);
    assert!(sys::wifsignaled(0x008b));
    assert_eq!(sys::wtermsig(0x008b), 11);
    assert!(sys::wcoredump(0x008b));
    assert!(!sys::wcoredump(0x000b));
    assert!(sys::wifstopped(0x147f));
    assert_eq!(sys::wstopsig(0x147f), 20);
    assert!(sys::wifcontinued(0xffff));
    assert!(!sys::wifcontinued(0xfffe));
    assert!(!sys::wifexited(0x147f));
    assert!(!sys::wifsignaled(0x147f));
    assert!(!sys::wifsignaled(0));
}

#[test]
fn system_constants_agree_with_system_layer() {
    assert_eq!(sys::SIGHUP as usize, syscall::SIGHUP);
    assert_eq!(sys::SIGINT as usize, syscall::SIGINT);
    assert_eq!(sys::SIGTERM as usize, syscall::SIGTERM);
    assert_eq!(sys::SIGCONT as usize, syscall::SIGCONT);
    assert_eq!(sys::SIGSTOP as usize, syscall::SIGSTOP);
    assert_eq!(sys::SIGTSTP as usize, syscall::SIGTSTP);
    assert_eq!(sys::SIGPIPE as usize, syscall::SIGPIPE);
    assert_eq!(sys::O_CLOEXEC, syscall::O_CLOEXEC);
    assert_eq!(sys::WNOHANG as usize, syscall::WaitFlags::WNOHANG.bits());
    assert_eq!(sys::WUNTRACED as usize, syscall::WaitFlags::WUNTRACED.bits());
    assert_eq!(sys::WCONTINUED as usize, syscall::WaitFlags::WCONTINUED.bits());
    assert_eq!(sys::ENOENT, syscall::ENOENT);
    assert_eq!(sys::EINTR, syscall::EINTR);
    assert_eq!(sys::ECHILD, syscall::ECHILD);
    assert_eq!(sys::EACCES, syscall::EACCES);
}

#[test]
fn strerror_reads_the_message_table() {
    assert_eq!(sys::strerror(0), "Success");
    assert_eq!(sys::strerror(2), "No such file or directory");
    assert_eq!(sys::strerror(13), "Permission denied");
    assert_eq!(sys::strerror(131), "State not recoverable");
    assert_eq!(sys::strerror(132), "Unknown Error");
    assert_eq!(sys::strerror(-1), "Unknown Error");
    assert_eq!(sys::OsError { errno: 4 }.description(), "Interrupted system call");
}

#[test]
fn cvt_keeps_values_and_error_numbers() {
    assert_eq!(sys::cvt(Ok(7)), Ok(7));
    assert_eq!(sys::cvt(Err(syscall::Error::new(syscall::EPERM))), Err(sys::OsError { errno: 1 }));
    assert_eq!(sys::cvt(syscall::getpid()), Err(sys::OsError { errno: syscall::ENOSYS }));
}

#[test]
fn stubs_of_this_platform() {
    sys::signals::block();
    sys::signals::unblock();
    assert_eq!(sys::variables::get_user_home("root"), None);
    assert_eq!(sys::variables::get_user_home(""), None);
}

#[test]
fn decode_status_names_the_event() {
    assert_eq!(decode_status(0), Some(WaitEvent::Exited(0)));
    assert_eq!(decode_status(0x0300), Some(WaitEvent::Exited(3)));
    assert_eq!(decode_status(0x000f), Some(WaitEvent::Signaled { signal: 15, core_dumped: false }));
    assert_eq!(decode_status(0x0086), Some(WaitEvent::Signaled { signal: 6, core_dumped: true }));
    assert_eq!(decode_status(0x137f), Some(WaitEvent::Stopped(19)));
    assert_eq!(decode_status(0xffff), Some(WaitEvent::Continued));
    assert_eq!(decode_status(0x12ff), None);
}

#[test]
fn reap_tolerates_interruption_and_missing_children() {
    assert_eq!(reap(Err(sys::EINTR), 0), Reaped::Retry);
    assert_eq!(reap(Err(sys::ECHILD), 0), Reaped::Gone);
    assert_eq!(reap(Err(22), 0), Reaped::Failed(22));
    assert_eq!(reap(Ok(0), 0x0100), Reaped::Unchanged);
    assert_eq!(reap(Ok(77), 0x0100), Reaped::Event(WaitEvent::Exited(1)));
    assert_eq!(reap(Ok(77), 0x12ff), Reaped::Unknown);
}

#[test]
fn exit_status_follows_the_signal_convention() {
    assert_eq!(exit_status(WaitEvent::Exited(0)), 0);
    assert_eq!(exit_status(WaitEvent::Exited(42)), 42);
    assert_eq!(exit_status(WaitEvent::Signaled { signal: 9, core_dumped: false }), 137);
    assert_eq!(exit_status(WaitEvent::Stopped(20)), 148);
    assert_eq!(exit_status(WaitEvent::Continued), 0);
}

#[test]
fn transition_follows_the_state_machine() {
    assert_eq!(transition(ProcessState::Running, WaitEvent::Stopped(20)), ProcessState::Stopped);
    assert_eq!(transition(ProcessState::Stopped, WaitEvent::Continued), ProcessState::Running);
    assert_eq!(transition(ProcessState::Running, WaitEvent::Exited(3)), ProcessState::Exited(3));
    assert_eq!(
        transition(ProcessState::Stopped, WaitEvent::Signaled { signal: 9, core_dumped: false }),
        ProcessState::Signaled(9)
    );
    assert_eq!(transition(ProcessState::Empty, WaitEvent::Exited(3)), ProcessState::Empty);
    assert_eq!(transition(ProcessState::Empty, WaitEvent::Continued), ProcessState::Empty);
}

#[test]
fn background_job_life_cycle() {
    let mut table = JobTable::new();
    let id = table.add_to_background(4242, ProcessState::Running, "sleep 100".to_string());
    assert_eq!(id, 0);
    assert_eq!(table.state(id), ProcessState::Running);
    assert_eq!(table.order, vec![0]);
    assert_eq!(table.latest(true), Some(0));

    table.observe(id, decode_status(0x147f).unwrap());
    assert_eq!(table.state(id), ProcessState::Stopped);
    assert_eq!(table.collect(id), None);

    assert_eq!(table.bg(None), Ok(Action::KillGroup { pgid: 4242, signal: sys::SIGCONT }));
    assert_eq!(table.state(id), ProcessState::Running);
    assert_eq!(table.bg(None), Err(JobError::NoJobs));
    assert_eq!(table.bg(Some(0)), Err(JobError::AlreadyRunning(0)));

    match reap(Ok(4242), 0) {
        Reaped::Event(event) => table.observe(id, event),
        other => panic!("unexpected {:?}", other),
    }
    assert_eq!(table.state(id), ProcessState::Exited(0));
    assert_eq!(table.collect(id), Some("ion: ([0] 4242) exited with 0".to_string()));
    assert_eq!(table.state(id), ProcessState::Empty);
    assert_eq!(table.collect(id), None);

    let again = table.add_to_background(4243, ProcessState::Running, "sleep 1".to_string());
    assert_eq!(again, 0);
    assert_eq!(table.slots.len(), 1);
    assert_eq!(table.slots[0].pid, 4243);
}

#[test]
fn job_numbers_are_reused_only_when_free() {
    let mut table = JobTable::new();
    assert_eq!(table.add_to_background(10, ProcessState::Running, "a".to_string()), 0);
    assert_eq!(table.add_to_background(11, ProcessState::Stopped, "b".to_string()), 1);
    assert_eq!(table.add_to_background(12, ProcessState::Running, "c".to_string()), 2);
    assert_eq!(table.disown(1), Ok(()));
    assert_eq!(table.disown(1), Err(JobError::NoSuchJob(1)));
    assert_eq!(table.disown(9), Err(JobError::NoSuchJob(9)));
    assert_eq!(table.state(1), ProcessState::Empty);
    assert_eq!(table.slots[0].pid, 10);
    assert_eq!(table.slots[2].pid, 12);
    assert_eq!(table.add_to_background(13, ProcessState::Running, "d".to_string()), 1);
    assert_eq!(table.add_to_background(14, ProcessState::Running, "e".to_string()), 3);
    assert_eq!(table.order, vec![0, 2, 1, 3]);
    assert_eq!(table.latest(true), Some(3));
    assert_eq!(table.slots.iter().map(|p| p.pid).collect::<Vec<u32>>(), vec![10, 13, 12, 14]);
}

#[test]
fn signaled_job_is_reported_and_cleared() {
    let mut table = JobTable::new();
    let id = table.add_to_background(77, ProcessState::Running, "x".to_string());
    table.observe(id, WaitEvent::Signaled { signal: 9, core_dumped: false });
    assert_eq!(table.state(id), ProcessState::Signaled(9));
    assert_eq!(table.collect(id), Some("ion: ([0] 77) terminated by signal 9".to_string()));
    assert_eq!(table.state(id), ProcessState::Empty);
    table.observe(id, WaitEvent::Continued);
    assert_eq!(table.state(id), ProcessState::Empty);
    table.observe(5, WaitEvent::Continued);
    assert_eq!(table.slots.len(), 1);
}

#[test]
fn bg_and_fg_select_jobs() {
    let mut table = JobTable::new();
    assert_eq!(table.bg(None), Err(JobError::NoJobs));
    assert_eq!(table.fg(None, 1), Err(JobError::NoJobs));
    table.add_to_background(10, ProcessState::Stopped, "a".to_string());
    table.add_to_background(11, ProcessState::Stopped, "b".to_string());
    assert_eq!(table.bg(Some(5)), Err(JobError::NoSuchJob(5)));
    assert_eq!(table.bg(Some(0)), Ok(Action::KillGroup { pgid: 10, signal: sys::SIGCONT }));
    assert_eq!(
        table.fg(None, 1),
        Ok(vec![
            Action::GrantTerminal { pgid: 11 },
            Action::KillGroup { pgid: 11, signal: sys::SIGCONT },
            Action::Wait { pid: 11 },
            Action::GrantTerminal { pgid: 1 },
        ])
    );
    assert_eq!(table.state(1), ProcessState::Running);
    table.observe(1, WaitEvent::Exited(0));
    assert_eq!(table.fg(Some(1), 1), Err(JobError::NoSuchJob(1)));
}

#[test]
fn foreground_hands_terminal_over_and_back() {
    assert_eq!(
        foreground(50, &vec![50, 51, 52], 7),
        vec![
            Action::GrantTerminal { pgid: 50 },
            Action::Wait { pid: 50 },
            Action::Wait { pid: 51 },
            Action::Wait { pid: 52 },
            Action::GrantTerminal { pgid: 7 },
        ]
    );
    assert_eq!(foreground(50, &vec![], 7), vec![Action::GrantTerminal { pgid: 50 }, Action::GrantTerminal { pgid: 7 }]);
}

#[test]
fn exit_signals_reach_every_occupied_slot() {
    let mut table = JobTable::new();
    table.add_to_background(10, ProcessState::Running, "a".to_string());
    table.add_to_background(11, ProcessState::Stopped, "b".to_string());
    table.add_to_background(12, ProcessState::Running, "c".to_string());
    table.disown(1).unwrap();
    table.observe(2, WaitEvent::Exited(1));
    assert_eq!(
        table.exit_signals(),
        vec![Action::Kill { pid: 10, signal: sys::SIGTERM }, Action::Kill { pid: 12, signal: sys::SIGTERM }]
    );
    assert_eq!(JobTable::new().exit_signals(), vec![]);
}

#[test]
fn jobs_lists_occupied_slots() {
    let mut table = JobTable::new();
    table.add_to_background(4242, ProcessState::Running, "sleep 100".to_string());
    table.add_to_background(4300, ProcessState::Stopped, "vi".to_string());
    table.add_to_background(4400, ProcessState::Running, "make".to_string());
    table.disown(2).unwrap();
    assert_eq!(table.jobs(), vec!["[0] 4242 Running\tsleep 100".to_string(), "[1] 4300 Stopped\tvi".to_string()]);
    assert_eq!(JobTable::new().jobs(), Vec::<String>::new());
}

#[test]
fn refusals_name_the_command_and_the_job() {
    assert_eq!(refusal_message("bg", JobError::NoJobs), "ion: bg: no jobs are running in the background");
    assert_eq!(refusal_message("bg", JobError::NoSuchJob(3)), "ion: bg: job 3 does not exist");
    assert_eq!(refusal_message("fg", JobError::AlreadyRunning(12)), "ion: fg: job 12 is already running");
}

#[test]
fn wait_options_block_only_in_foreground() {
    assert_eq!(wait_options(true), 0x02);
    assert_eq!(wait_options(false), 0x02 | 0x08 | 0x01);
}

#[test]
fn settle_records_events_and_clears_ended_jobs() {
    let mut table = JobTable::new();
    let id = table.add_to_background(900, ProcessState::Running, "job".to_string());
    assert_eq!(table.settle(id, Reaped::Retry), None);
    assert_eq!(table.settle(id, Reaped::Unchanged), None);
    assert_eq!(table.settle(id, Reaped::Failed(5)), None);
    assert_eq!(table.state(id), ProcessState::Running);
    assert_eq!(table.settle(id, Reaped::Event(WaitEvent::Stopped(19))), None);
    assert_eq!(table.state(id), ProcessState::Stopped);
    assert_eq!(table.settle(id, Reaped::Event(WaitEvent::Continued)), None);
    assert_eq!(table.state(id), ProcessState::Running);
    assert_eq!(
        table.settle(id, Reaped::Event(WaitEvent::Exited(2))),
        Some("ion: ([0] 900) exited with 2".to_string())
    );
    assert_eq!(table.state(id), ProcessState::Empty);
    let id = table.add_to_background(901, ProcessState::Running, "job".to_string());
    assert_eq!(table.settle(id, Reaped::Gone), None);
    assert_eq!(table.state(id), ProcessState::Empty);
    assert_eq!(table.settle(7, Reaped::Gone), None);
    assert_eq!(table.settle(7, Reaped::Event(WaitEvent::Exited(0))), None);
    assert_eq!(table.slots.len(), 1);
}

#[test]
fn stopped_foreground_job_is_kept_in_the_table() {
    let mut table = JobTable::new();
    assert_eq!(table.suspended(700, "vi".to_string(), WaitEvent::Exited(0)), None);
    assert_eq!(table.suspended(700, "vi".to_string(), WaitEvent::Continued), None);
    assert_eq!(table.slots.len(), 0);
    assert_eq!(table.suspended(700, "vi".to_string(), WaitEvent::Stopped(20)), Some(0));
    assert_eq!(table.state(0), ProcessState::Stopped);
    assert_eq!(table.slots[0].pid, 700);
    assert_eq!(table.slots[0].name, "vi");
    assert_eq!(table.order, vec![0]);
    assert_eq!(table.latest(false), Some(0));
}

#[test]
fn job_arguments_are_numbers() {
    assert_eq!(job_number("bg", "3"), Ok(3));
    assert_eq!(job_number("bg", "+3"), Ok(3));
    assert_eq!(job_number("fg", "x"), Err("ion: fg: x is not a valid job number".to_string()));
    assert_eq!(job_number("bg", "-1"), Err("ion: bg: -1 is not a valid job number".to_string()));
    assert_eq!(job_number("bg", ""), Err("ion: bg:  is not a valid job number".to_string()));
}

#[test]
fn wait_result_keeps_pid_error_and_status() {
    assert_eq!(sys::wait_result(Ok(4242), 0x2a00), (Ok(4242), 0x2a00));
    assert_eq!(sys::wait_result(Ok(0), 0), (Ok(0), 0));
    assert_eq!(sys::wait_result(Err(syscall::Error::new(syscall::ECHILD)), 7), (Err(10), 7));
    assert_eq!(sys::wait_result(Ok(usize::MAX), usize::MAX), (Ok(-1), -1));
}

#[test]
fn unqualified_bg_and_fg_pick_the_latest_eligible_job() {
    let mut table = JobTable::new();
    table.add_to_background(10, ProcessState::Stopped, "a".to_string());
    table.add_to_background(11, ProcessState::Running, "b".to_string());
    assert_eq!(table.latest(false), Some(0));
    assert_eq!(table.latest(true), Some(1));
    assert_eq!(table.bg(None), Ok(Action::KillGroup { pgid: 10, signal: sys::SIGCONT }));
    assert_eq!(table.state(0), ProcessState::Running);
    assert_eq!(table.state(1), ProcessState::Running);
    assert_eq!(table.slots[0].pid, 10);
    assert_eq!(table.bg(None), Err(JobError::NoJobs));

    table.observe(1, WaitEvent::Exited(0));
    assert_eq!(table.latest(true), Some(0));
    assert_eq!(
        table.fg(None, 1),
        Ok(vec![
            Action::GrantTerminal { pgid: 10 },
            Action::KillGroup { pgid: 10, signal: sys::SIGCONT },
            Action::Wait { pid: 10 },
            Action::GrantTerminal { pgid: 1 },
        ])
    );
    table.collect(1);
    table.disown(0).unwrap();
    assert_eq!(table.latest(true), None);
    assert_eq!(table.fg(None, 1), Err(JobError::NoJobs));
}

#[test]
fn a_reused_slot_counts_as_the_latest_job() {
    let mut table = JobTable::new();
    table.add_to_background(10, ProcessState::Stopped, "a".to_string());
    table.add_to_background(11, ProcessState::Stopped, "b".to_string());
    table.disown(0).unwrap();
    assert_eq!(table.latest(false), Some(1));
    assert_eq!(table.add_to_background(12, ProcessState::Stopped, "c".to_string()), 0);
    assert_eq!(table.order, vec![1, 0]);
    assert_eq!(table.latest(false), Some(0));
    assert_eq!(table.bg(None), Ok(Action::KillGroup { pgid: 12, signal: sys::SIGCONT }));
    assert_eq!(table.latest(false), Some(1));
}

#[test]
fn foreground_wait_goes_on_until_the_job_ends_or_stops() {
    assert_eq!(foreground_step(Reaped::Retry), WaitStep::Again);
    assert_eq!(foreground_step(Reaped::Unchanged), WaitStep::Again);
    assert_eq!(foreground_step(Reaped::Unknown), WaitStep::Again);
    assert_eq!(foreground_step(Reaped::Event(WaitEvent::Continued)), WaitStep::Again);
    assert_eq!(foreground_step(Reaped::Gone), WaitStep::Done(WaitEvent::Exited(0)));
    assert_eq!(foreground_step(Reaped::Failed(22)), WaitStep::Failed(22));
    assert_eq!(foreground_step(Reaped::Event(WaitEvent::Exited(3))), WaitStep::Done(WaitEvent::Exited(3)));
    assert_eq!(foreground_step(Reaped::Event(WaitEvent::Stopped(20))), WaitStep::Done(WaitEvent::Stopped(20)));
    assert_eq!(
        foreground_step(Reaped::Event(WaitEvent::Signaled { signal: 9, core_dumped: true })),
        WaitStep::Done(WaitEvent::Signaled { signal: 9, core_dumped: true })
    );
}
