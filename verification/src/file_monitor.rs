//! The interface of the handlers that the dispatcher attaches to fds.
use crate::task::Task;
use vstd::prelude::*;

verus! {

/// Whether the scheduler may switch away from a task that is about to block.
#[derive(Clone, Copy, Debug, PartialEq, Eq, Structural)]
pub enum Switchable {
    PreventSwitch,
    AllowSwitch,
}

/// A stretch of tracee memory taking part in a read or write.
#[derive(Clone, Copy, Debug)]
pub struct Range {
    /// Address of the first byte in the tracee.
    pub data: u64,
    pub length: usize,
}

/// The file offset of a read or write, looked up only when a monitor asks.
#[derive(Clone, Copy, Debug)]
pub struct LazyOffset {
    /// The offset named by the syscall itself, for the positional variants.
    pub explicit: Option<i64>,
    /// The offset found in the tracee, once it has been retrieved.
    pub retrieved: Option<i64>,
}

/// A handler attached to an fd that intercepts or augments syscalls on it.
///
/// Handlers are shared between fds (after `dup`) and between tables (after a
/// table is cloned), so every method takes `&self`; a handler that keeps
/// state does so behind interior mutability.
pub trait FileMonitor {
    /// Emulates an `ioctl` on the fd. Returns the result of the syscall if
    /// the call was handled here and must not reach the kernel.
    fn emulate_ioctl(&self, t: &Task) -> Option<u64>;

    /// Emulates an `fcntl` on the fd, with the same convention.
    fn emulate_fcntl(&self, t: &Task) -> Option<u64>;

    /// Emulates a read into `ranges`, with the same convention.
    fn emulate_read(&self, t: &Task, ranges: &Vec<Range>, offset: &LazyOffset) -> Option<u64>;

    /// Lets the handler hide directory entries from a `getdents` result.
    fn filter_getdents(&self, t: &Task);

    /// Whether the fd belongs to the debugger itself.
    fn is_rd_fd(&self) -> bool;

    /// Called before a write; says whether the task may be switched out.
    fn will_write(&self, t: &Task) -> Switchable;

    /// Called after a write of `ranges` took place at `offset`. Returns the
    /// offset as it is known afterwards.
    fn did_write(&self, ranges: &Vec<Range>, offset: LazyOffset) -> LazyOffset;
}

} // verus!
