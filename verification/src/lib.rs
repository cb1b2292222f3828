//! Core of a record-and-replay debugger: the emulated file system used for
//! shared mappings during replay and the per-task file descriptor table that
//! keeps the syscall-buffering library's disabled-fds bitmap up to date.

pub mod backing;
pub mod copy_policy;
pub mod dirs;
pub mod emu_file;
pub mod emu_fs;
pub mod fd_table;
pub mod file_monitor;
pub mod names;
pub mod replay_syscall;
pub mod scoped_fd;
pub mod task;
pub mod trace;
pub mod util;
