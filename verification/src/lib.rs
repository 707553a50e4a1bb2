//! Lifecycle management for the container processes that an OCI runtime
//! monitor tracks: the registry of the processes, what is done when one of
//! them ends, and what a command run inside a container amounts to.
//!
//! The library decides. It waits for a process and signals one itself, but
//! what a monitor does beside that stays with the caller: running the
//! runtime, the race of a command against its deadline, and the files
//! themselves. The caller hands over what happened
//! ([`exec_sync::ExecOutcome`], the content of a pidfile, whether a file
//! could be written) and is told what follows from it. A registry is owned
//! by one caller at a time; a monitor that serves several requests at once
//! keeps it behind a lock and holds the lock for one operation at a time,
//! never for the length of a watch.
//!
//! * [`child`] and [`child_reaper`]: the descriptor of a process, the record
//!   under which it is reaped, and the registry with its operations.
//! * [`watch`] and [`exit_paths`]: the end of a watch, and the publication
//!   of an exit code to the exit paths.
//! * [`pidfile`]: the process id that the runtime leaves behind.
//! * [`exec_sync`]: synchronous exec, from admission to the answer.
//! * [`config`]: the monitor's settings.
//! * [`laws`]: what holds across these operations, proved.
//!
//! Everything is proved but what [`grandchildren`] says of the crate
//! `multimap`, what [`signal`] and [`watch`] take from the crate `nix`, and
//! what [`exec_sync`] says of the lossy reading of bytes as text.

pub mod child;
pub mod child_reaper;
pub mod config;
pub mod exec_sync;
pub mod exit_paths;
pub mod grandchildren;
pub mod laws;
pub mod pidfile;
pub mod signal;
pub mod watch;
