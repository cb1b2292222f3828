//! An owned file descriptor.
use vstd::prelude::*;

verus! {

/// Calls `nix::unistd::close` and drops its answer: whether the kernel
/// reports an error or not, the descriptor is gone afterwards.
#[verifier::external_body]
fn close_raw(fd: i32) {
    let _ = nix::unistd::close(fd);
}

/// A file descriptor that this value owns, or none.
#[derive(Debug)]
pub struct ScopedFd {
    fd: i32,
}

impl ScopedFd {
    /// The raw descriptor, or -1 if there is none.
    pub closed spec fn raw(&self) -> int {
        self.fd as int
    }

    /// An owner of nothing.
    pub fn new() -> (r: ScopedFd)
        ensures
            r.raw() == -1,
    {
        ScopedFd { fd: -1 }
    }

    /// Takes over `fd`.
    pub fn from_raw(fd: i32) -> (r: ScopedFd)
        ensures
            r.raw() == fd,
    {
        ScopedFd { fd }
    }

    pub fn as_raw(&self) -> (r: i32)
        ensures
            r == self.raw(),
    {
        self.fd
    }

    pub fn is_open(&self) -> (r: bool)
        ensures
            r == (self.raw() >= 0),
    {
        self.fd >= 0
    }

    /// Closes the descriptor, if there is one.
    pub fn close(&mut self)
        ensures
            final(self).raw() == -1,
    {
        if self.fd >= 0 {
            close_raw(self.fd);
        }
        self.fd = -1;
    }
}

} // verus!
