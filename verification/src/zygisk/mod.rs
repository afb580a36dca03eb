//! The zygote side of the daemon.

pub mod daemon;
pub mod injection;
pub mod proc_monitor;
pub mod ptrace_inject;
pub mod regs;
pub mod remote_call;
pub mod tracing;
