//! Namespace-joined file-access tracer: the decisions and data handling of a
//! tool that watches which files of a mount a process tree opens, and reports
//! each distinct path once, with its size and the time it was first seen.
//!
//! The system calls themselves (fanotify, poll, setns, fork) are made by the
//! program around this library; everything that decides what to do with their
//! results lives here and is verified.

pub mod pipeline;
pub mod record;
pub mod session;
pub mod startup;
pub mod text;
