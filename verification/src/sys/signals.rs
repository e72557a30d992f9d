//! Blocking of the job-control signals around a launch.

use vstd::prelude::*;

verus! {

/// Blocks the signals with which a terminal stops or interrupts processes.
///
/// On this platform signals are not masked: the call changes nothing.
pub fn block() {
}

/// Unblocks the signals with which a terminal stops or interrupts processes, so
/// that children can be controlled by the shell.
///
/// On this platform signals are not masked: the call changes nothing.
pub fn unblock() {
}

} // verus!
