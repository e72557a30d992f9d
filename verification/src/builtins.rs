//! The commands that the shell runs itself: their table and what they decide.

pub mod commands;
pub mod help;
pub mod matches;
pub mod report;
pub mod table;

use crate::builtins::table::{
    lemma_builtin_names_sorted, sorted, table_commands, table_descriptions, table_names,
};
use crate::text::{chars_of, compare, lemma_lex_irreflexive, lemma_lex_transitive, lex_less, Rank};
use vstd::prelude::*;

verus! {

/// The exit status of a command that succeeded.
pub const SUCCESS: i32 = 0;

/// The exit status of a command that failed.
pub const FAILURE: i32 = 1;

/// The exit status of a builtin command that was given malformed arguments.
pub const BAD_ARG: i32 = 2;

/// A command that the shell runs itself.
#[derive(Debug, Clone, Copy, PartialEq, Eq, Structural)]
pub enum Builtin {
    Alias,
    Bg,
    Bool,
    Calc,
    Cd,
    Contains,
    Dirs,
    Disown,
    Drop,
    Echo,
    EndsWith,
    Eq,
    Eval,
    Exec,
    Exists,
    Exit,
    False,
    Fg,
    Fn,
    Help,
    History,
    Is,
    Isatty,
    Jobs,
    Matches,
    Popd,
    Pushd,
    Random,
    Read,
    SetOptions,
    Source,
    StartsWith,
    Status,
    Suspend,
    Test,
    True,
    Type,
    Unalias,
    Wait,
    Which,
}

/// The texts of a sequence of string slices.
pub open spec fn slice_texts(v: Seq<&'static str>) -> Seq<Seq<char>> {
    v.map_values(|s: &'static str| s@)
}

/// The table of builtin commands: names in dictionary order, and for each
/// name a one-line description and the command that it stands for.
#[derive(Debug)]
pub struct BuiltinMap {
    pub(crate) name: Vec<&'static str>,
    pub(crate) help: Vec<&'static str>,
    pub(crate) functions: Vec<Builtin>,
}

fn standard_names() -> (r: Vec<&'static str>)
    ensures
        slice_texts(r@) == table_names(),
{
    let mut v: Vec<&'static str> = Vec::new();
    v.push("alias");
    v.push("bg");
    v.push("bool");
    v.push("calc");
    v.push("cd");
    v.push("contains");
    v.push("dirs");
    v.push("disown");
    v.push("drop");
    v.push("echo");
    v.push("ends-with");
    v.push("eq");
    v.push("eval");
    v.push("exec");
    v.push("exists");
    v.push("exit");
    v.push("false");
    v.push("fg");
    v.push("fn");
    v.push("help");
    v.push("history");
    v.push("is");
    v.push("isatty");
    v.push("jobs");
    v.push("matches");
    v.push("popd");
    v.push("pushd");
    v.push("random");
    v.push("read");
    v.push("set");
    v.push("source");
    v.push("starts-with");
    v.push("status");
    v.push("suspend");
    v.push("test");
    v.push("true");
    v.push("type");
    v.push("unalias");
    v.push("wait");
    v.push("which");
    assert(slice_texts(v@) =~= table_names());
    v
}

fn standard_help() -> (r: Vec<&'static str>)
    ensures
        slice_texts(r@) == table_descriptions(),
{
    let mut v: Vec<&'static str> = Vec::new();
    v.push("View, set or unset aliases");
    v.push("Resumes a stopped background process");
    v.push("If the value is '1' or 'true', return 0 exit status");
    v.push("Calculate a mathematical expression");
    v.push("Change the current directory\n    cd <path>");
    v.push("Evaluates if the supplied argument contains a given string");
    v.push("Display the current directory stack");
    v.push("Disowning a process removes that process from the shell's background process table.");
    v.push("Delete a variable");
    v.push("Display a line of text");
    v.push("Evaluates if the supplied argument ends with a given string");
    v.push("Simple alternative to == and !=");
    v.push("Evaluates the evaluated expression");
    v.push("Replace the shell with the given command.");
    v.push("Performs tests on files and text");
    v.push("Exits the current session");
    v.push("Do nothing, unsuccessfully");
    v.push("Resumes and sets a background process as the active process");
    v.push("Print list of functions");
    v.push("Display helpful information about a given command or list commands if none specified\n    help <command>");
    v.push("Display a log of all commands previously executed");
    v.push("Simple alternative to == and !=");
    v.push("Returns 0 exit status if the supplied FD is a tty");
    v.push("Displays all jobs that are attached to the background");
    v.push("Checks if a string matches a given regex");
    v.push("Pop a directory from the stack");
    v.push("Push a directory to the stack");
    v.push("Outputs a random u64");
    v.push("Read some variables\n    read <variable>");
    v.push("Set or unset values of shell options and positional parameters.");
    v.push("Evaluate the file following the command or re-initialize the init file");
    v.push("Evaluates if the supplied argument starts with a given string");
    v.push("Evaluates the current runtime status");
    v.push("Suspends the shell with a SIGTSTOP signal");
    v.push("Performs tests on files and text");
    v.push("Do nothing, successfully");
    v.push("indicates how a command would be interpreted");
    v.push("Delete an alias");
    v.push("Waits until all running background processes have completed");
    v.push("Shows the full path of commands");
    assert(slice_texts(v@) =~= table_descriptions());
    v
}

fn standard_functions() -> (r: Vec<Builtin>)
    ensures
        r@ == table_commands(),
{
    let mut v: Vec<Builtin> = Vec::new();
    v.push(Builtin::Alias);
    v.push(Builtin::Bg);
    v.push(Builtin::Bool);
    v.push(Builtin::Calc);
    v.push(Builtin::Cd);
    v.push(Builtin::Contains);
    v.push(Builtin::Dirs);
    v.push(Builtin::Disown);
    v.push(Builtin::Drop);
    v.push(Builtin::Echo);
    v.push(Builtin::EndsWith);
    v.push(Builtin::Eq);
    v.push(Builtin::Eval);
    v.push(Builtin::Exec);
    v.push(Builtin::Exists);
    v.push(Builtin::Exit);
    v.push(Builtin::False);
    v.push(Builtin::Fg);
    v.push(Builtin::Fn);
    v.push(Builtin::Help);
    v.push(Builtin::History);
    v.push(Builtin::Is);
    v.push(Builtin::Isatty);
    v.push(Builtin::Jobs);
    v.push(Builtin::Matches);
    v.push(Builtin::Popd);
    v.push(Builtin::Pushd);
    v.push(Builtin::Random);
    v.push(Builtin::Read);
    v.push(Builtin::SetOptions);
    v.push(Builtin::Source);
    v.push(Builtin::StartsWith);
    v.push(Builtin::Status);
    v.push(Builtin::Suspend);
    v.push(Builtin::Test);
    v.push(Builtin::True);
    v.push(Builtin::Type);
    v.push(Builtin::Unalias);
    v.push(Builtin::Wait);
    v.push(Builtin::Which);
    assert(v@ =~= table_commands());
    v
}

impl BuiltinMap {
    /// The names of the table, in order.
    pub closed spec fn names(&self) -> Seq<Seq<char>> {
        slice_texts(self.name@)
    }

    /// The descriptions of the table, in the order of the names.
    pub closed spec fn descriptions(&self) -> Seq<Seq<char>> {
        slice_texts(self.help@)
    }

    /// The commands of the table, in the order of the names.
    pub closed spec fn commands(&self) -> Seq<Builtin> {
        self.functions@
    }

    /// The names are sorted, so that no name occurs twice, and every name has
    /// its description and its command.
    #[verifier::type_invariant]
    pub closed spec fn wf(&self) -> bool {
        &&& sorted(self.names())
        &&& self.names().len() == self.descriptions().len()
        &&& self.names().len() == self.commands().len()
    }

    /// The place of `func` in the table, if it is there.
    pub open spec fn place(&self, func: Seq<char>) -> Option<int> {
        if self.names().contains(func) {
            Some(self.names().index_of(func))
        } else {
            None
        }
    }

    /// The table of the commands that every session has.
    pub fn standard() -> (r: BuiltinMap)
        ensures
            r.names() == table_names(),
            r.descriptions() == table_descriptions(),
            r.commands() == table_commands(),
    {
        proof {
            lemma_builtin_names_sorted();
        }
        BuiltinMap { name: standard_names(), help: standard_help(), functions: standard_functions() }
    }

    /// Finds `func` among the names by halving the range in which it can be.
    fn find(&self, func: &str) -> (r: Option<usize>)
        ensures
            r matches Some(i) ==> i < self.names().len() && self.names()[i as int] == func@,
            r is None ==> !self.names().contains(func@),
            r matches Some(i) ==> self.place(func@) == Some(i as int),
            r is None ==> self.place(func@) is None,
            self.names().len() == self.descriptions().len(),
            self.names().len() == self.commands().len(),
    {
        proof {
            use_type_invariant(self);
        }
        let key = chars_of(func);
        let ghost names = self.names();
        let mut lo: usize = 0;
        let mut hi: usize = self.name.len();
        while lo < hi
            invariant
                lo <= hi <= self.name.len(),
                names == self.names(),
                names == slice_texts(self.name@),
                names.len() == self.descriptions().len(),
                names.len() == self.commands().len(),
                sorted(names),
                key@ == func@,
                forall|i: int| 0 <= i < lo ==> lex_less(#[trigger] names[i], func@),
                forall|i: int| hi <= i < names.len() ==> lex_less(func@, #[trigger] names[i]),
            decreases hi - lo,
        {
            let mid = lo + (hi - lo) / 2;
            let candidate = chars_of(self.name[mid]);
            assert(candidate@ == names[mid as int]);
            match compare(&candidate, &key) {
                Rank::Same => {
                    proof {
                        self.lemma_place(func@, mid as int);
                    }
                    return Some(mid);
                },
                Rank::Before => {
                    proof {
                        assert forall|i: int| 0 <= i < mid + 1 implies lex_less(
                            #[trigger] names[i],
                            func@,
                        ) by {
                            if i < mid {
                                lemma_lex_transitive(names[i], names[mid as int], func@);
                            }
                        }
                    }
                    lo = mid + 1;
                },
                Rank::After => {
                    proof {
                        assert forall|i: int| mid <= i < names.len() implies lex_less(
                            func@,
                            #[trigger] names[i],
                        ) by {
                            if i > mid {
                                lemma_lex_transitive(func@, names[mid as int], names[i]);
                            }
                        }
                    }
                    hi = mid;
                },
            }
        }
        proof {
            lemma_lex_irreflexive(func@);
            assert forall|i: int| 0 <= i < names.len() implies names[i] != func@ by {
                if i < lo {
                    assert(lex_less(names[i], func@));
                } else {
                    assert(lex_less(func@, names[i]));
                }
            }
        }
        None
    }

    /// A name stands at one place only.
    proof fn lemma_place(&self, func: Seq<char>, i: int)
        requires
            sorted(self.names()),
            0 <= i < self.names().len(),
            self.names()[i] == func,
        ensures
            self.place(func) == Some(i),
    {
        let names = self.names();
        assert(names.contains(func));
        let j = names.index_of(func);
        lemma_lex_irreflexive(func);
        if j < i {
            assert(lex_less(names[j], names[i]));
        } else if i < j {
            assert(lex_less(names[i], names[j]));
        }
    }

    /// Whether the table holds a command of this name.
    pub fn contains_key(&self, func: &str) -> (r: bool)
        ensures
            r == self.names().contains(func@),
    {
        self.find(func).is_some()
    }

    /// The names of the commands, in dictionary order.
    pub fn keys(&self) -> (r: &Vec<&'static str>)
        ensures
            slice_texts(r@) == self.names(),
    {
        &self.name
    }

    /// The description of the command of this name.
    pub fn get_help(&self, func: &str) -> (r: Option<&'static str>)
        ensures
            r matches Some(text) ==> self.place(func@) matches Some(i) && text@
                == self.descriptions()[i],
            r is None ==> self.place(func@) is None,
    {
        match self.find(func) {
            Some(pos) => {
                let text: &'static str = self.help[pos];
                Some(text)
            },
            None => None,
        }
    }

    /// The command of this name.
    pub fn get(&self, func: &str) -> (r: Option<Builtin>)
        ensures
            r matches Some(command) ==> self.place(func@) matches Some(i) && command
                == self.commands()[i],
            r is None ==> self.place(func@) is None,
    {
        match self.find(func) {
            Some(pos) => Some(self.functions[pos]),
            None => None,
        }
    }
}

} // verus!
