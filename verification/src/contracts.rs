//! The native programs this build of the runtime can execute: the counter,
//! the token, and the fibonacci program. A deployment names one of them by
//! its designator; the loader resolves the designator and the executor runs
//! the program against the syscall bridge.

pub mod counter;
pub mod fib;
pub mod token;
