//! Decisions of the `open_devtools` command: a front end asks the native side to
//! open the web inspector of the window labelled `main`.
//!
//! The command is a small machine per invocation. The host runs it: it performs
//! each [`devtools::Action`] and hands the outcome back as a [`devtools::Event`].
//! [`runs`] states what holds of every run of one invocation.

pub mod devtools;
pub mod runs;
