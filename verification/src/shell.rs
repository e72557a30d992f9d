//! The shell session: the state that outlives any single command.

pub mod command;
pub mod expand;
pub mod job_control;
pub mod pipe_exec;
pub mod tilde;

use crate::builtins::table::{table_commands, table_descriptions, table_names};
use crate::builtins::BuiltinMap;
use crate::directory_stack::DirectoryStack;
use crate::shell::job_control::JobTable;
use crate::variables::Variables;
use vstd::prelude::*;

verus! {

/// The part of the process environment that the session was started with.
#[derive(Debug)]
pub struct Environment {
    /// The home directory of the user, where one is known.
    pub home: Option<String>,
    /// The working directory, where one is known.
    pub pwd: Option<String>,
}

/// One shell session.
#[derive(Debug)]
pub struct Shell {
    /// The commands that the shell runs itself.
    pub builtins: BuiltinMap,
    /// The variables of the session.
    pub variables: Variables,
    /// The exit status of the command that ran last.
    pub previous_status: i32,
    /// The directories visited.
    pub directory_stack: DirectoryStack,
    /// The environment inherited at start.
    pub environment: Environment,
    /// The process id of the shell, which is also its process group.
    pub pid: u32,
    /// The processes that run in the background.
    pub background: JobTable,
}

impl Shell {
    /// A fresh session of the shell process `pid`: the standard builtin
    /// commands, no variables, no jobs, an empty directory stack, status zero.
    pub fn new(environment: Environment, pid: u32) -> (r: Shell)
        ensures
            r.builtins.names() == table_names(),
            r.builtins.descriptions() == table_descriptions(),
            r.builtins.commands() == table_commands(),
            r.variables.wf(),
            forall|name: Seq<char>| r.variables.spec_get(name) is None,
            r.previous_status == 0,
            r.directory_stack.dirs@.len() == 0,
            r.environment == environment,
            r.pid == pid,
            r.background.slots@.len() == 0,
            r.background.order@.len() == 0,
    {
        Shell {
            builtins: BuiltinMap::standard(),
            variables: Variables::new(),
            previous_status: 0,
            directory_stack: DirectoryStack::new(),
            environment,
            pid,
            background: JobTable::new(),
        }
    }
}

} // verus!
