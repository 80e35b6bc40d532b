//! Starts several instances of a desktop client and binds each newly
//! created window to a configured account: capture a baseline snapshot of
//! matching windows, issue one launch per account, poll until the expected
//! number of matching windows exists, compute the new windows by
//! difference, and pair the i-th new window with the i-th account to drive
//! its login keystrokes, caption and placement. The window enumeration,
//! process creation and input injection themselves are operating-system
//! capabilities that live outside this library; what is here is every
//! decision the run makes, verified.

#![allow(unused_imports)]

pub mod config;
pub mod plan;
pub mod orchestrator;
pub mod snapshot;
