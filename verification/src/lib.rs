//! Library behind a pair of Windows executables that re-run a command line
//! with administrator privileges: a requester that asks the OS shell to
//! elevate a companion runner binary, and the runner that, once elevated,
//! re-attaches to the caller's console and spawns the real target command.
//!
//! This crate holds the decision logic of both sides: encoding an argument
//! vector into the single escaped command-line string the platform expects,
//! resolving and integrity-checking the runner binary before it is elevated,
//! and classifying the outcomes of the platform calls the two executables
//! make. The executables themselves perform the OS calls and hand the
//! results to these functions.

pub mod encode;
pub mod tokenize;
pub mod error;
pub mod resolve;
pub mod protocol;
