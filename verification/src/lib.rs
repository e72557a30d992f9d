//! The core of an embeddable command shell.
//!
//! The crate holds what the shell decides, and leaves to its caller what has
//! to be asked of the operating system:
//! - [`shell`] is the session. [`shell::expand`], [`shell::tilde`] and
//!   [`shell::command`] turn references to variables, arrays, key-maps,
//!   directories and embedded commands into argument words;
//!   [`shell::pipe_exec`] wires the stages of a pipeline;
//!   [`shell::job_control`] keeps the table of background jobs, reads what the
//!   system reports of children and says who is to own the terminal.
//! - [`builtins`] is the table of the commands that the shell runs itself, and
//!   what those commands decide.
//! - [`sys`] is the boundary to the operating system: its numbers, its
//!   errors, the reading of wait statuses, and the steps of a launch.
//! - [`value`], [`variables`], [`ranges`], [`directory_stack`] and [`text`]
//!   are the data that the rest works on.

pub mod builtins;
pub mod directory_stack;
pub mod ranges;
pub mod shell;
pub mod sys;
pub mod text;
pub mod value;
pub mod variables;
