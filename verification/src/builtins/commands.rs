//! The builtin commands that decide something themselves.

use crate::builtins::help::{
    check_help, check_long_help, has_help_flag, has_long_help_flag, is_help_flag,
};
use crate::builtins::report::{complaint, helped, quiet, Outcome, OutcomeView};
use crate::builtins::{FAILURE, SUCCESS};
use crate::shell::job_control::{
    after_resume, chosen, job_number, latest_eligible, lemma_latest_eligible, named_job, refusal,
    refusal_message, resumed, termination_signals, with_state, Action, BackgroundProcess,
    JobError, JobTable, ProcessState,
};
use crate::sys::SIGCONT;
use crate::shell::Shell;
use crate::sys::SIGSTOP;
use crate::text::{chars_of, join, join_from, parse_i32, signed_of, str_eq, string_of_range, texts};
use vstd::prelude::*;

verus! {

/// Whether a text counts as true.
pub open spec fn is_truthy(text: Seq<char>) -> bool {
    text == "1"@ || text == "true"@
}

/// The text without its first character; the empty text stays empty.
pub open spec fn behind_first(text: Seq<char>) -> Seq<char> {
    if text.len() > 0 {
        text.drop_first()
    } else {
        text
    }
}

fn truthy(text: &str) -> (r: bool)
    ensures
        r == is_truthy(text@),
{
    str_eq(text, "1") || str_eq(text, "true")
}

impl Shell {
    /// The outcome of the `bool` command. It takes one argument, a variable
    /// reference: a sigil and a name. The command succeeds where the variable
    /// holds the string `1` or `true`, and else where the argument itself is
    /// `1` or `true`. Where it is a flag that asks for the manual page, the
    /// page is shown. Anything else is a failure.
    pub open spec fn spec_bool(&self, args: Seq<Seq<char>>) -> OutcomeView {
        if args.len() != 2 {
            complaint(FAILURE as int, "bool requires one argument\n"@)
        } else {
            let held = match self.variables.spec_get_str(behind_first(args[1])) {
                Some(text) => text,
                None => Seq::empty(),
            };
            if is_truthy(held) || is_truthy(args[1]) {
                quiet(SUCCESS as int)
            } else if is_help_flag(args[1]) {
                helped()
            } else {
                quiet(FAILURE as int)
            }
        }
    }

    /// If the value is '1' or 'true', return 0 exit status.
    pub fn builtin_bool(&self, args: &Vec<String>) -> (r: Outcome)
        ensures
            r@ == self.spec_bool(texts(args@)),
    {
        if args.len() != 2 {
            let mut text = String::new();
            text.append("bool requires one argument\n");
            assert(text@ =~= "bool requires one argument\n"@);
            return Outcome::complaint(FAILURE, text);
        }
        assert(texts(args@)[1] == args@[1]@);
        let arg = args[1].as_str();
        let v = chars_of(arg);
        let name = if v.len() > 0 {
            assert(v@.subrange(1, v.len() as int) =~= v@.drop_first());
            string_of_range(&v, 1, v.len())
        } else {
            assert(v@.subrange(0, 0) =~= v@);
            string_of_range(&v, 0, 0)
        };
        let held = match self.variables.get_str(name.as_str()) {
            Some(text) => text,
            None => String::new(),
        };
        if truthy(held.as_str()) || truthy(arg) {
            Outcome::quiet(SUCCESS)
        } else if str_eq(arg, "-h") || str_eq(arg, "--help") {
            Outcome::helped()
        } else {
            Outcome::quiet(FAILURE)
        }
    }

    /// What the `exit` command asks for: nothing but the manual page where a
    /// flag asks for it; otherwise a termination signal for every process of
    /// the background table, and then the end of the session with the status
    /// that the first argument writes, or with the status of the previous
    /// command where there is no such argument or it writes no number.
    pub open spec fn spec_exit(&self, args: Seq<Seq<char>>) -> Option<(Seq<Action>, int)> {
        if has_help_flag(args) {
            None
        } else {
            let given = if args.len() > 1 {
                signed_of(args[1], i32::MIN as int, i32::MAX as int)
            } else {
                None
            };
            Some(
                (
                    termination_signals(self.background.slots@),
                    match given {
                        Some(status) => status,
                        None => self.previous_status as int,
                    },
                ),
            )
        }
    }

    /// Exits the current session.
    pub fn builtin_exit(&self, args: &Vec<String>) -> (r: Option<(Vec<Action>, i32)>)
        ensures
            r is Some <==> self.spec_exit(texts(args@)) is Some,
            r matches Some((signals, status)) ==> self.spec_exit(texts(args@)) == Some(
                (signals@, status as int),
            ),
    {
        if check_help(args) {
            return None;
        }
        let signals = self.background.exit_signals();
        let given = if args.len() > 1 {
            assert(texts(args@)[1] == args@[1]@);
            parse_i32(args[1].as_str())
        } else {
            None
        };
        let status = match given {
            Some(status) => status,
            None => self.previous_status,
        };
        Some((signals, status))
    }
}

/// What the `isatty` command does before the operating system is asked.
#[derive(Debug)]
pub enum TtyStep {
    /// The command is settled.
    Done(Outcome),
    /// Whether this descriptor is a terminal decides.
    Ask(i32),
}

/// The first step of the `isatty` command as plain values.
pub enum TtyStepView {
    Done(OutcomeView),
    Ask(int),
}

impl View for TtyStep {
    type V = TtyStepView;

    open spec fn view(&self) -> TtyStepView {
        match self {
            TtyStep::Done(outcome) => TtyStepView::Done(outcome@),
            TtyStep::Ask(fd) => TtyStepView::Ask(*fd as int),
        }
    }
}

/// What the `isatty` command does first: the manual page where a flag asks
/// for it; success where no descriptor is given; a question to the operating
/// system where the first argument writes a descriptor; a failure with a
/// complaint where it writes no number.
pub open spec fn isatty_step(args: Seq<Seq<char>>) -> TtyStepView {
    if has_help_flag(args) {
        TtyStepView::Done(helped())
    } else if args.len() > 1 {
        match signed_of(args[1], i32::MIN as int, i32::MAX as int) {
            Some(fd) => TtyStepView::Ask(fd),
            None => TtyStepView::Done(
                complaint(FAILURE as int, "ion: isatty given bad number\n"@),
            ),
        }
    } else {
        TtyStepView::Done(quiet(SUCCESS as int))
    }
}

/// Returns 0 exit status if the supplied FD is a tty: the part before the
/// operating system is asked.
pub fn builtin_isatty(args: &Vec<String>) -> (r: TtyStep)
    ensures
        r@ == isatty_step(texts(args@)),
{
    if check_help(args) {
        return TtyStep::Done(Outcome::helped());
    }
    if args.len() > 1 {
        assert(texts(args@)[1] == args@[1]@);
        match parse_i32(args[1].as_str()) {
            Some(fd) => TtyStep::Ask(fd),
            None => {
                let mut text = String::new();
                text.append("ion: isatty given bad number\n");
                assert(text@ =~= "ion: isatty given bad number\n"@);
                TtyStep::Done(Outcome::complaint(FAILURE, text))
            },
        }
    } else {
        TtyStep::Done(Outcome::quiet(SUCCESS))
    }
}

/// The exit status of the `isatty` command once the operating system has
/// answered: zero for a terminal, one for anything else.
pub fn isatty_status(is_tty: bool) -> (r: i32)
    ensures
        r == if is_tty {
            SUCCESS
        } else {
            FAILURE
        },
{
    if is_tty {
        SUCCESS
    } else {
        FAILURE
    }
}

/// Whether the `drop` command is to delete arrays rather than variables: its
/// first argument is `-a`.
pub open spec fn drops_arrays(args: Seq<Seq<char>>) -> bool {
    args.len() >= 2 && args[1] == "-a"@
}

/// Tells whether the `drop` command is to delete arrays.
pub fn builtin_drop_arrays(args: &Vec<String>) -> (r: bool)
    ensures
        r == drops_arrays(texts(args@)),
{
    if args.len() >= 2 {
        assert(texts(args@)[1] == args@[1]@);
        str_eq(args[1].as_str(), "-a")
    } else {
        false
    }
}

/// The arguments behind the name of the command, with single spaces between
/// them.
pub open spec fn argument_line(args: Seq<Seq<char>>) -> Seq<char> {
    if args.len() > 0 {
        join(args.skip(1), seq![' '])
    } else {
        Seq::empty()
    }
}

/// Writes the arguments behind the name of the command as one line: what
/// `eval` evaluates and what `alias` reads.
pub fn arguments_line(args: &Vec<String>) -> (r: String)
    ensures
        r@ == argument_line(texts(args@)),
{
    proof {
        reveal_strlit(" ");
        assert(" "@ =~= seq![' ']);
    }
    if args.len() > 0 {
        assert(texts(args@.skip(1)) =~= texts(args@).skip(1));
        join_from(args, 1, " ")
    } else {
        String::new()
    }
}

/// The arguments behind the name of the command.
pub open spec fn behind_name(args: Seq<Seq<char>>) -> Seq<Seq<char>> {
    if args.len() > 0 {
        args.skip(1)
    } else {
        args
    }
}

/// What disowning the jobs that the arguments name, one after another, comes
/// to: the slots after it, and the complaint at which it stopped, if any. An
/// argument that writes no job number, or names no job of the table, stops it;
/// the jobs named before stay disowned.
pub open spec fn disown_each(slots: Seq<BackgroundProcess>, args: Seq<Seq<char>>) -> (
    Seq<BackgroundProcess>,
    Option<Seq<char>>,
)
    decreases args.len(),
{
    if args.len() == 0 {
        (slots, None)
    } else {
        match named_job("disown"@, args[0]) {
            Err(why) => (slots, Some(why)),
            Ok(n) => if n < slots.len() && !(slots[n as int].state is Empty) {
                disown_each(with_state(slots, n as int, ProcessState::Empty), args.drop_first())
            } else {
                (slots, Some(refusal("disown"@, JobError::NoSuchJob(n as usize))))
            },
        }
    }
}

/// The slots after the `disown` command.
pub open spec fn after_disown(slots: Seq<BackgroundProcess>, args: Seq<Seq<char>>) -> Seq<
    BackgroundProcess,
> {
    if has_long_help_flag(args) {
        slots
    } else {
        disown_each(slots, behind_name(args)).0
    }
}

/// The outcome of the `disown` command: the manual page where `--help` asks
/// for it; else success where every argument named a job of the table, and a
/// failure with the complaint on a line of its own where one did not.
pub open spec fn disown_outcome(slots: Seq<BackgroundProcess>, args: Seq<Seq<char>>) -> OutcomeView {
    if has_long_help_flag(args) {
        helped()
    } else {
        match disown_each(slots, behind_name(args)).1 {
            None => quiet(SUCCESS as int),
            Some(why) => complaint(FAILURE as int, why + seq!['\n']),
        }
    }
}

impl JobTable {
    /// Disowning a process removes that process from the shell's background
    /// process table, without sending it any signal.
    pub fn builtin_disown(&mut self, args: &Vec<String>) -> (r: Outcome)
        ensures
            r@ == disown_outcome(old(self).slots@, texts(args@)),
            final(self).slots@ == after_disown(old(self).slots@, texts(args@)),
            final(self).order@ == old(self).order@,
    {
        if check_long_help(args) {
            return Outcome::helped();
        }
        let ghost all = behind_name(texts(args@));
        let mut i: usize = 1;
        proof {
            if args.len() > 0 {
                assert(all =~= texts(args@).skip(1));
            } else {
                assert(all =~= Seq::<Seq<char>>::empty());
            }
        }
        while i < args.len()
            invariant
                1 <= i,
                self.order@ == old(self).order@,
                all == behind_name(texts(args@)),
                !has_long_help_flag(texts(args@)),
                i <= args.len() ==> disown_each(old(self).slots@, all) == disown_each(
                    self.slots@,
                    texts(args@).skip(i as int),
                ),
                i > args.len() ==> args.len() == 0 && self.slots@ == old(self).slots@
                    && all.len() == 0,
            decreases args.len() - i,
        {
            let ghost rest = texts(args@).skip(i as int);
            proof {
                assert(rest[0] == args@[i as int]@);
                assert(rest.drop_first() =~= texts(args@).skip(i + 1));
            }
            let failed = match job_number("disown", args[i].as_str()) {
                Err(why) => Some(why),
                Ok(n) => match self.disown(n) {
                    Ok(_) => None,
                    Err(error) => Some(refusal_message("disown", error)),
                },
            };
            match failed {
                Some(why) => {
                    let ghost reason = why@;
                    let mut text = why;
                    text.push('\n');
                    assert(text@ =~= reason + seq!['\n']);
                    return Outcome::complaint(FAILURE, text);
                },
                None => {},
            }
            i += 1;
        }
        proof {
            if i <= args.len() {
                assert(texts(args@).skip(i as int) =~= Seq::<Seq<char>>::empty());
            }
        }
        Outcome::quiet(SUCCESS)
    }
}

/// What the `bg` command comes to.
#[derive(Debug)]
pub struct Resumption {
    /// The exit status and what is to be written.
    pub outcome: Outcome,
    /// The signals to send, in order.
    pub signals: Vec<Action>,
}

/// What letting one job run in the background comes to: the slots after it,
/// the signal to send, if any, and the complaint, on a line of its own, if the
/// job was refused.
pub open spec fn bg_one(slots: Seq<BackgroundProcess>, job: Option<usize>) -> (
    Seq<BackgroundProcess>,
    Seq<Action>,
    Seq<char>,
) {
    match resumed(slots, job) {
        Ok(signal) => (after_resume(slots, job), seq![signal], Seq::empty()),
        Err(error) => (slots, Seq::empty(), refusal("bg"@, error) + seq!['\n']),
    }
}

/// What letting the jobs that the arguments name run in the background, one
/// after another, comes to: the slots after it, the signals to send, and the
/// complaints. An argument that writes no job number or names a job that
/// cannot be resumed is complained of, and the next argument is taken.
pub open spec fn bg_each(slots: Seq<BackgroundProcess>, args: Seq<Seq<char>>) -> (
    Seq<BackgroundProcess>,
    Seq<Action>,
    Seq<char>,
)
    decreases args.len(),
{
    if args.len() == 0 {
        (slots, Seq::empty(), Seq::empty())
    } else {
        let first = match named_job("bg"@, args[0]) {
            Err(why) => (slots, Seq::empty(), why + seq!['\n']),
            Ok(n) => bg_one(slots, Some(n as usize)),
        };
        let rest = bg_each(first.0, args.drop_first());
        (rest.0, first.1 + rest.1, first.2 + rest.2)
    }
}

/// What the `bg` command comes to: nothing but the manual page where a flag
/// asks for it; without a job number, the resumption of the stopped job that
/// was put in the background last; else the resumption of every job named.
pub open spec fn bg_all(
    slots: Seq<BackgroundProcess>,
    order: Seq<usize>,
    args: Seq<Seq<char>>,
) -> (Seq<BackgroundProcess>, Seq<Action>, Seq<char>) {
    if has_help_flag(args) {
        (slots, Seq::empty(), Seq::empty())
    } else if args.len() <= 1 {
        bg_one(slots, chosen(None, order, slots, false))
    } else {
        bg_each(slots, args.skip(1))
    }
}

/// The outcome of the `bg` command: the manual page where a flag asks for
/// it; success where no job was refused; failure, with the complaints, where
/// one was.
pub open spec fn bg_outcome(
    slots: Seq<BackgroundProcess>,
    order: Seq<usize>,
    args: Seq<Seq<char>>,
) -> OutcomeView {
    if has_help_flag(args) {
        helped()
    } else if bg_all(slots, order, args).2.len() == 0 {
        quiet(SUCCESS as int)
    } else {
        complaint(FAILURE as int, bg_all(slots, order, args).2)
    }
}

impl JobTable {
    fn bg_job(&mut self, id: Option<usize>, signals: &mut Vec<Action>, text: &mut String)
        ensures
            final(self).order@ == old(self).order@,
            final(self).slots@ == bg_one(
                old(self).slots@,
                chosen(id, old(self).order@, old(self).slots@, false),
            ).0,
            final(signals)@ == old(signals)@ + bg_one(
                old(self).slots@,
                chosen(id, old(self).order@, old(self).slots@, false),
            ).1,
            final(text)@ == old(text)@ + bg_one(
                old(self).slots@,
                chosen(id, old(self).order@, old(self).slots@, false),
            ).2,
    {
        match self.bg(id) {
            Ok(signal) => {
                signals.push(signal);
                assert(signals@ =~= old(signals)@ + seq![signal]);
                assert(text@ =~= old(text)@ + Seq::<char>::empty());
            },
            Err(error) => {
                let why = refusal_message("bg", error);
                text.append(why.as_str());
                text.push('\n');
                assert(text@ =~= old(text)@ + (why@ + seq!['\n']));
                assert(signals@ =~= old(signals)@ + Seq::<Action>::empty());
            },
        }
    }

    /// Resumes a stopped background process.
    pub fn builtin_bg(&mut self, args: &Vec<String>) -> (r: Resumption)
        ensures
            r.outcome@ == bg_outcome(old(self).slots@, old(self).order@, texts(args@)),
            r.signals@ == bg_all(old(self).slots@, old(self).order@, texts(args@)).1,
            final(self).slots@ == bg_all(old(self).slots@, old(self).order@, texts(args@)).0,
            final(self).order@ == old(self).order@,
    {
        let mut signals: Vec<Action> = Vec::new();
        let mut text = String::new();
        if check_help(args) {
            return Resumption { outcome: Outcome::helped(), signals };
        }
        if args.len() <= 1 {
            self.bg_job(None, &mut signals, &mut text);
            proof {
                let one = bg_one(
                    old(self).slots@,
                    chosen(None, old(self).order@, old(self).slots@, false),
                );
                assert(signals@ =~= one.1);
                assert(text@ =~= one.2);
            }
        } else {
            let ghost all = texts(args@).skip(1);
            let mut i: usize = 1;
            proof {
                let whole = bg_each(self.slots@, all);
                assert(signals@ + whole.1 =~= whole.1);
                assert(text@ + whole.2 =~= whole.2);
            }
            while i < args.len()
                invariant
                    1 <= i <= args.len(),
                    self.order@ == old(self).order@,
                    all == texts(args@).skip(1),
                    bg_each(old(self).slots@, all).0 == bg_each(
                        self.slots@,
                        texts(args@).skip(i as int),
                    ).0,
                    bg_each(old(self).slots@, all).1 == signals@ + bg_each(
                        self.slots@,
                        texts(args@).skip(i as int),
                    ).1,
                    bg_each(old(self).slots@, all).2 == text@ + bg_each(
                        self.slots@,
                        texts(args@).skip(i as int),
                    ).2,
                decreases args.len() - i,
            {
                let ghost rest = texts(args@).skip(i as int);
                let ghost before = self.slots@;
                let ghost sent = signals@;
                let ghost said = text@;
                proof {
                    assert(rest[0] == args@[i as int]@);
                    assert(rest.drop_first() =~= texts(args@).skip(i + 1));
                }
                match job_number("bg", args[i].as_str()) {
                    Err(why) => {
                        text.append(why.as_str());
                        text.push('\n');
                        proof {
                            let next = bg_each(before, rest.drop_first());
                            assert(text@ =~= said + (why@ + seq!['\n']));
                            assert(text@ + next.2 =~= said + ((why@ + seq!['\n']) + next.2));
                            assert(sent + (Seq::<Action>::empty() + next.1) =~= sent + next.1);
                        }
                    },
                    Ok(n) => {
                        self.bg_job(Some(n), &mut signals, &mut text);
                        proof {
                            let one = bg_one(before, Some(n));
                            let next = bg_each(one.0, rest.drop_first());
                            assert(signals@ + next.1 =~= sent + (one.1 + next.1));
                            assert(text@ + next.2 =~= said + (one.2 + next.2));
                        }
                    },
                }
                i += 1;
            }
            proof {
                let last = bg_each(self.slots@, texts(args@).skip(i as int));
                assert(texts(args@).skip(i as int) =~= Seq::<Seq<char>>::empty());
                assert(signals@ + last.1 =~= signals@);
                assert(text@ + last.2 =~= text@);
            }
        }
        let failed = text.as_str().unicode_len() > 0;
        let outcome = if failed {
            Outcome::complaint(FAILURE, text)
        } else {
            Outcome::quiet(SUCCESS)
        };
        Resumption { outcome, signals }
    }
}

/// The `bg` command without a job number resumes the stopped job that was put
/// in the background last: it succeeds with nothing to say, a continue signal
/// goes to the process group of that job and nothing else is asked for, the job
/// is marked as running in its slot, and no other slot changes.
pub proof fn lemma_bg_without_job_number(
    slots: Seq<BackgroundProcess>,
    order: Seq<usize>,
    j: usize,
)
    requires
        latest_eligible(order, slots, false) == Some(j),
    ensures
        bg_outcome(slots, order, seq!["bg"@]) == quiet(SUCCESS as int),
        bg_all(slots, order, seq!["bg"@]).1 == seq![
            Action::KillGroup { pgid: slots[j as int].pid, signal: SIGCONT },
        ],
        bg_all(slots, order, seq!["bg"@]).0 == with_state(slots, j as int, ProcessState::Running),
{
    lemma_latest_eligible(order, slots, false);
    reveal_strlit("bg");
    reveal_strlit("-h");
    reveal_strlit("--help");
    let args = seq!["bg"@];
    assert(!has_help_flag(args)) by {
        assert forall|i: int| 0 <= i < args.len() implies !is_help_flag(#[trigger] args[i]) by {
            assert(args[i].len() == 2);
            assert(args[i][0] == 'b');
        }
    }
}

/// What the `suspend` command asks for unless a flag asks for its manual
/// page: a stop signal to the process group of the shell itself, which the
/// group number zero stands for.
pub fn builtin_suspend(args: &Vec<String>) -> (r: Option<Action>)
    ensures
        r == if has_help_flag(texts(args@)) {
            None::<Action>
        } else {
            Some(Action::KillGroup { pgid: 0, signal: SIGSTOP })
        },
{
    if check_help(args) {
        None
    } else {
        Some(Action::KillGroup { pgid: 0, signal: SIGSTOP })
    }
}

} // verus!
