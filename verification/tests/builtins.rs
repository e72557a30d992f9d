use ion_shell::builtins::commands::{
    arguments_line, builtin_drop_arrays, builtin_isatty, builtin_suspend, isatty_status, TtyStep,
};
use ion_shell::builtins::help::{
    check_help, check_long_help, first_step, help_policy, HelpPolicy, Step,
};
use ion_shell::builtins::matches::{builtin_matches, report, search};
use ion_shell::builtins::report::{complete, Completion, Outcome};
use ion_shell::builtins::{Builtin, BuiltinMap, BAD_ARG, FAILURE, SUCCESS};
use ion_shell::shell::job_control::{Action, ProcessState};
use ion_shell::shell::{Environment, Shell};
use ion_shell::sys;
use ion_shell::value::Value;

fn strs(items: &[&str]) -> Vec<String> {
    items.iter().map(|x| x.to_string()).collect()
}

fn parts(outcome: Outcome) -> (i32, bool, Option<String>) {
    (outcome.status, outcome.show_help, outcome.error)
}

fn shell() -> Shell {
    Shell::new(Environment { home: None, pwd: None }, 321)
}

#[test]
fn builtin_names_are_sorted_and_complete() {
    let map = BuiltinMap::standard();
    let keys = map.keys();
    assert_eq!(keys.len(), 40);
    let mut sorted = keys.clone();
    sorted.sort();
    sorted.dedup();
    assert_eq!(&sorted, keys);
    assert_eq!(keys[0], "alias");
    assert_eq!(keys[39], "which");
}

#[test]
fn builtin_lookup_finds_every_name() {
    let map = BuiltinMap::standard();
    for name in map.keys().clone() {
        assert!(map.contains_key(name), "{}", name);
        assert!(map.get(name).is_some(), "{}", name);
        assert!(map.get_help(name).is_some(), "{}", name);
    }
    assert_eq!(map.get("cd"), Some(Builtin::Cd));
    assert_eq!(map.get("alias"), Some(Builtin::Alias));
    assert_eq!(map.get("which"), Some(Builtin::Which));
    assert_eq!(map.get("ends-with"), Some(Builtin::EndsWith));
    assert_eq!(map.get("starts-with"), Some(Builtin::StartsWith));
    assert_eq!(map.get("set"), Some(Builtin::SetOptions));
    assert_eq!(map.get("exists"), Some(Builtin::Exists));
    assert_eq!(map.get("exit"), Some(Builtin::Exit));
    assert_eq!(map.get_help("cd"), Some("Change the current directory\n    cd <path>"));
    assert_eq!(map.get_help("true"), Some("Do nothing, successfully"));
    assert_eq!(
        map.get_help("disown"),
        Some("Disowning a process removes that process from the shell's background process table.")
    );
}

#[test]
fn builtin_lookup_misses_other_names() {
    let map = BuiltinMap::standard();
    for name in ["", "a", "aliases", "ls", "zzz", "CD", "cd ", "exi", "whic", "whichx", "\u{0}"] {
        assert!(!map.contains_key(name), "{:?}", name);
        assert_eq!(map.get(name), None);
        assert_eq!(map.get_help(name), None);
    }
}

#[test]
fn check_help_sees_flags_anywhere() {
    assert!(check_help(&strs(&["cd", "-h"])));
    assert!(check_help(&strs(&["cd", "x", "--help"])));
    assert!(check_help(&strs(&["--help"])));
    assert!(!check_help(&strs(&["cd", "-help", "--h", "h"])));
    assert!(!check_help(&strs(&[])));
    assert!(check_long_help(&strs(&["disown", "--help"])));
    assert!(!check_long_help(&strs(&["disown", "-h"])));
}

#[test]
fn first_step_follows_the_policy() {
    assert_eq!(help_policy(Builtin::Cd), HelpPolicy::Shows);
    assert_eq!(help_policy(Builtin::True), HelpPolicy::ShowsAndRuns);
    assert_eq!(help_policy(Builtin::Jobs), HelpPolicy::ShowsAndRuns);
    assert_eq!(help_policy(Builtin::Disown), HelpPolicy::ShowsOnLongFlag);
    assert_eq!(help_policy(Builtin::Test), HelpPolicy::Ignores);
    assert_eq!(help_policy(Builtin::Calc), HelpPolicy::Ignores);
    assert_eq!(help_policy(Builtin::Bool), HelpPolicy::Ignores);
    assert_eq!(first_step(Builtin::Cd, &strs(&["cd", "-h"])), Step::ShowHelp);
    assert_eq!(first_step(Builtin::Cd, &strs(&["cd", "/"])), Step::Run);
    assert_eq!(first_step(Builtin::True, &strs(&["true", "--help"])), Step::ShowHelpAndRun);
    assert_eq!(first_step(Builtin::True, &strs(&["true"])), Step::Run);
    assert_eq!(first_step(Builtin::Disown, &strs(&["disown", "-h"])), Step::Run);
    assert_eq!(first_step(Builtin::Disown, &strs(&["disown", "--help"])), Step::ShowHelp);
    assert_eq!(first_step(Builtin::Test, &strs(&["test", "-h"])), Step::Run);
}

#[test]
fn help_command_describes_or_lists() {
    let sh = shell();
    assert_eq!(sh.builtin_help(&strs(&["help", "echo"])), "Display a line of text\n");
    assert_eq!(
        sh.builtin_help(&strs(&["help", "nope"])),
        "Command helper not found [run 'help']...\n"
    );
    let listing = sh.builtin_help(&strs(&["help"]));
    assert!(listing.starts_with("alias\nbg\nbool\ncalc\ncd\ncontains\n"));
    assert!(listing.ends_with("unalias\nwait\nwhich\n"));
    assert_eq!(listing.lines().count(), 40);
}

#[test]
fn complete_maps_results_to_statuses() {
    assert_eq!(parts(complete(Builtin::Status, Completion::Done(Ok(())))), (SUCCESS, false, None));
    assert_eq!(
        parts(complete(Builtin::Status, Completion::Done(Err("bad\n".to_string())))),
        (FAILURE, false, Some("bad\n".to_string()))
    );
    assert_eq!(
        parts(complete(Builtin::Cd, Completion::Done(Err("no such dir".to_string())))),
        (FAILURE, false, Some("no such dir\n".to_string()))
    );
    assert_eq!(
        parts(complete(Builtin::Exec, Completion::Done(Err("not found".to_string())))),
        (FAILURE, false, Some("ion: exec: not found\n".to_string()))
    );
    assert_eq!(parts(complete(Builtin::Test, Completion::Answered(Ok(true)))), (SUCCESS, false, None));
    assert_eq!(parts(complete(Builtin::Test, Completion::Answered(Ok(false)))), (FAILURE, false, None));
    assert_eq!(
        parts(complete(Builtin::Exists, Completion::Answered(Err("why".to_string())))),
        (FAILURE, false, Some("why\n".to_string()))
    );
    assert_eq!(parts(complete(Builtin::Which, Completion::Settled(Ok(7)))), (7, false, None));
    assert_eq!(parts(complete(Builtin::Which, Completion::Settled(Err(())))), (FAILURE, false, None));
    assert_eq!(
        parts(complete(Builtin::Eval, Completion::Settled(Err(())))),
        (FAILURE, false, Some("ion: supplied eval expression was not terminated\n".to_string()))
    );
}

#[test]
fn matches_reports_match_and_mismatch() {
    assert_eq!(parts(builtin_matches(&strs(&["matches", "xs", "x"]))), (SUCCESS, false, None));
    assert_eq!(parts(builtin_matches(&strs(&["matches", "abc", "^b"]))), (FAILURE, false, None));
    assert_eq!(parts(builtin_matches(&strs(&["matches", "foo123", r"^[a-z]+\d+$"]))), (SUCCESS, false, None));
    assert_eq!(parts(builtin_matches(&strs(&["matches", "x", "xs"]))), (FAILURE, false, None));
}

#[test]
fn matches_rejects_wrong_argument_count() {
    let usage = Some("match takes two arguments\n".to_string());
    assert_eq!(parts(builtin_matches(&strs(&["matches"]))), (BAD_ARG, false, usage.clone()));
    assert_eq!(parts(builtin_matches(&strs(&["matches", "a"]))), (BAD_ARG, false, usage.clone()));
    assert_eq!(parts(builtin_matches(&strs(&["matches", "a", "b", "c"]))), (BAD_ARG, false, usage.clone()));
    assert_eq!(parts(builtin_matches(&strs(&[]))), (BAD_ARG, false, usage));
    assert_eq!(parts(builtin_matches(&strs(&["matches", "-h"]))), (SUCCESS, true, None));
}

#[test]
fn matches_reports_invalid_pattern() {
    let (status, help, error) = parts(builtin_matches(&strs(&["matches", "a", "foo(bar"])));
    assert_eq!(status, FAILURE);
    assert!(!help);
    let text = error.unwrap();
    let expected = regex::Regex::new("foo(bar").unwrap_err().to_string();
    assert_eq!(text, format!("couldn't compile input regex foo(bar: {}\n", expected));
}

#[test]
fn search_agrees_with_the_regex_engine() {
    assert_eq!(search("a+", "caab"), Ok(true));
    assert_eq!(search("^a+$", "caab"), Ok(false));
    assert_eq!(search("caab", "a+"), Ok(false));
    assert_eq!(search("(", "x"), Err(regex::Regex::new("(").unwrap_err().to_string()));
    assert_eq!(parts(report("p", Ok(true))), (SUCCESS, false, None));
    assert_eq!(parts(report("p", Ok(false))), (FAILURE, false, None));
    assert_eq!(
        parts(report("p", Err("oops".to_string()))),
        (FAILURE, false, Some("couldn't compile input regex p: oops\n".to_string()))
    );
}

#[test]
fn bool_reads_variable_or_literal() {
    let mut sh = shell();
    sh.variables.set("yes", Value::Str("true".to_string()));
    sh.variables.set("one", Value::Str("1".to_string()));
    sh.variables.set("no", Value::Str("false".to_string()));
    assert_eq!(parts(sh.builtin_bool(&strs(&["bool", "$yes"]))), (SUCCESS, false, None));
    assert_eq!(parts(sh.builtin_bool(&strs(&["bool", "$one"]))), (SUCCESS, false, None));
    assert_eq!(parts(sh.builtin_bool(&strs(&["bool", "$no"]))), (FAILURE, false, None));
    assert_eq!(parts(sh.builtin_bool(&strs(&["bool", "$missing"]))), (FAILURE, false, None));
    assert_eq!(parts(sh.builtin_bool(&strs(&["bool", "true"]))), (SUCCESS, false, None));
    assert_eq!(parts(sh.builtin_bool(&strs(&["bool", "1"]))), (SUCCESS, false, None));
    assert_eq!(parts(sh.builtin_bool(&strs(&["bool", "0"]))), (FAILURE, false, None));
    assert_eq!(parts(sh.builtin_bool(&strs(&["bool", ""]))), (FAILURE, false, None));
    assert_eq!(parts(sh.builtin_bool(&strs(&["bool", "--help"]))), (SUCCESS, true, None));
    assert_eq!(parts(sh.builtin_bool(&strs(&["bool", "-h"]))), (SUCCESS, true, None));
    let usage = Some("bool requires one argument\n".to_string());
    assert_eq!(parts(sh.builtin_bool(&strs(&["bool"]))), (FAILURE, false, usage.clone()));
    assert_eq!(parts(sh.builtin_bool(&strs(&["bool", "a", "b"]))), (FAILURE, false, usage));
}

#[test]
fn exit_signals_background_and_picks_status() {
    let mut sh = shell();
    sh.previous_status = 5;
    sh.background.add_to_background(10, ProcessState::Running, "a".to_string());
    sh.background.add_to_background(11, ProcessState::Stopped, "b".to_string());
    sh.background.disown(0).unwrap();
    let kills = vec![Action::Kill { pid: 11, signal: sys::SIGTERM }];
    assert_eq!(sh.builtin_exit(&strs(&["exit"])), Some((kills.clone(), 5)));
    assert_eq!(sh.builtin_exit(&strs(&["exit", "3"])), Some((kills.clone(), 3)));
    assert_eq!(sh.builtin_exit(&strs(&["exit", "-3"])), Some((kills.clone(), -3)));
    assert_eq!(sh.builtin_exit(&strs(&["exit", "three"])), Some((kills.clone(), 5)));
    assert_eq!(sh.builtin_exit(&strs(&["exit", "99999999999"])), Some((kills, 5)));
    assert_eq!(sh.builtin_exit(&strs(&["exit", "--help"])), None);
}

#[test]
fn isatty_parses_descriptor() {
    match builtin_isatty(&strs(&["isatty", "2"])) {
        TtyStep::Ask(fd) => assert_eq!(fd, 2),
        other => panic!("unexpected {:?}", other),
    }
    match builtin_isatty(&strs(&["isatty"])) {
        TtyStep::Done(outcome) => assert_eq!(parts(outcome), (SUCCESS, false, None)),
        other => panic!("unexpected {:?}", other),
    }
    match builtin_isatty(&strs(&["isatty", "two"])) {
        TtyStep::Done(outcome) => {
            assert_eq!(parts(outcome), (FAILURE, false, Some("ion: isatty given bad number\n".to_string())))
        }
        other => panic!("unexpected {:?}", other),
    }
    match builtin_isatty(&strs(&["isatty", "-h"])) {
        TtyStep::Done(outcome) => assert_eq!(parts(outcome), (SUCCESS, true, None)),
        other => panic!("unexpected {:?}", other),
    }
    assert_eq!(isatty_status(true), SUCCESS);
    assert_eq!(isatty_status(false), FAILURE);
}

#[test]
fn drop_eval_and_suspend_decisions() {
    assert!(builtin_drop_arrays(&strs(&["drop", "-a", "x"])));
    assert!(!builtin_drop_arrays(&strs(&["drop", "x", "-a"])));
    assert!(!builtin_drop_arrays(&strs(&["drop"])));
    assert_eq!(arguments_line(&strs(&["eval", "echo", "a b", "c"])), "echo a b c");
    assert_eq!(arguments_line(&strs(&["eval"])), "");
    assert_eq!(arguments_line(&strs(&[])), "");
    assert_eq!(
        builtin_suspend(&strs(&["suspend"])),
        Some(Action::KillGroup { pgid: 0, signal: sys::SIGSTOP })
    );
    assert_eq!(builtin_suspend(&strs(&["suspend", "-h"])), None);
}

#[test]
fn disown_removes_the_named_jobs() {
    let mut sh = shell();
    sh.background.add_to_background(10, ProcessState::Running, "a".to_string());
    sh.background.add_to_background(11, ProcessState::Stopped, "b".to_string());
    sh.background.add_to_background(12, ProcessState::Running, "c".to_string());
    assert_eq!(parts(sh.background.builtin_disown(&strs(&["disown", "0", "2"]))), (SUCCESS, false, None));
    assert_eq!(sh.background.state(0), ProcessState::Empty);
    assert_eq!(sh.background.state(1), ProcessState::Stopped);
    assert_eq!(sh.background.state(2), ProcessState::Empty);
    assert_eq!(parts(sh.background.builtin_disown(&strs(&["disown"]))), (SUCCESS, false, None));
    assert_eq!(parts(sh.background.builtin_disown(&strs(&[]))), (SUCCESS, false, None));
    assert_eq!(sh.background.state(1), ProcessState::Stopped);
}

#[test]
fn disown_stops_at_the_first_bad_argument() {
    let mut sh = shell();
    sh.background.add_to_background(10, ProcessState::Running, "a".to_string());
    sh.background.add_to_background(11, ProcessState::Stopped, "b".to_string());
    assert_eq!(
        parts(sh.background.builtin_disown(&strs(&["disown", "0", "x", "1"]))),
        (FAILURE, false, Some("ion: disown: x is not a valid job number\n".to_string()))
    );
    assert_eq!(sh.background.state(0), ProcessState::Empty);
    assert_eq!(sh.background.state(1), ProcessState::Stopped);
    assert_eq!(
        parts(sh.background.builtin_disown(&strs(&["disown", "0"]))),
        (FAILURE, false, Some("ion: disown: job 0 does not exist\n".to_string()))
    );
    assert_eq!(
        parts(sh.background.builtin_disown(&strs(&["disown", "7", "1"]))),
        (FAILURE, false, Some("ion: disown: job 7 does not exist\n".to_string()))
    );
    assert_eq!(sh.background.state(1), ProcessState::Stopped);
    assert_eq!(parts(sh.background.builtin_disown(&strs(&["disown", "1", "--help"]))), (SUCCESS, true, None));
    assert_eq!(sh.background.state(1), ProcessState::Stopped);
    assert_eq!(parts(sh.background.builtin_disown(&strs(&["disown", "-h"]))).0, FAILURE);
}

#[test]
fn bg_without_job_number_resumes_latest_stopped_job() {
    let mut sh = shell();
    sh.background.add_to_background(10, ProcessState::Stopped, "a".to_string());
    sh.background.add_to_background(11, ProcessState::Stopped, "b".to_string());
    sh.background.add_to_background(12, ProcessState::Running, "c".to_string());
    let r = sh.background.builtin_bg(&strs(&["bg"]));
    assert_eq!(parts(r.outcome), (SUCCESS, false, None));
    assert_eq!(r.signals, vec![Action::KillGroup { pgid: 11, signal: sys::SIGCONT }]);
    assert_eq!(sh.background.state(0), ProcessState::Stopped);
    assert_eq!(sh.background.state(1), ProcessState::Running);
    assert_eq!(sh.background.slots[1].pid, 11);
    assert_eq!(sh.background.state(2), ProcessState::Running);
    let r = sh.background.builtin_bg(&strs(&["bg"]));
    assert_eq!(r.signals, vec![Action::KillGroup { pgid: 10, signal: sys::SIGCONT }]);
    let r = sh.background.builtin_bg(&strs(&["bg"]));
    assert_eq!(
        parts(r.outcome),
        (FAILURE, false, Some("ion: bg: no jobs are running in the background\n".to_string()))
    );
    assert_eq!(r.signals, vec![]);
}

#[test]
fn bg_with_job_numbers_goes_through_all_of_them() {
    let mut sh = shell();
    sh.background.add_to_background(10, ProcessState::Stopped, "a".to_string());
    sh.background.add_to_background(11, ProcessState::Running, "b".to_string());
    sh.background.add_to_background(12, ProcessState::Stopped, "c".to_string());
    let r = sh.background.builtin_bg(&strs(&["bg", "0", "1", "x", "7", "2"]));
    assert_eq!(
        parts(r.outcome),
        (
            FAILURE,
            false,
            Some(
                "ion: bg: job 1 is already running\nion: bg: x is not a valid job number\nion: bg: job 7 does not exist\n"
                    .to_string()
            )
        )
    );
    assert_eq!(
        r.signals,
        vec![
            Action::KillGroup { pgid: 10, signal: sys::SIGCONT },
            Action::KillGroup { pgid: 12, signal: sys::SIGCONT },
        ]
    );
    assert_eq!(sh.background.state(0), ProcessState::Running);
    assert_eq!(sh.background.state(2), ProcessState::Running);
    let r = sh.background.builtin_bg(&strs(&["bg", "-h"]));
    assert_eq!(parts(r.outcome), (SUCCESS, true, None));
    assert_eq!(r.signals, vec![]);
}
