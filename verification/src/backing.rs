//! Backing objects: anonymous, sized, writable files that live in memory and
//! are known by a file descriptor.
use crate::names::{backing_name, is_printable, make_backing_name, NAME_MAX};
use crate::scoped_fd::ScopedFd;
use vstd::prelude::*;

verus! {

/// What can go wrong with a backing object. Each of these leaves the replay
/// without a file it needs, so callers treat them as fatal.
#[derive(Clone, Copy, Debug, PartialEq, Eq, Structural)]
pub enum EmuFsError {
    /// No backing object could be created.
    CreateFailed,
    /// The backing object could not be resized.
    ResizeFailed,
    /// A read from a backing object failed or came back empty too early.
    ReadFailed,
    /// A write to a backing object failed or wrote nothing.
    WriteFailed,
    /// A size or offset does not fit the kernel's file offsets.
    TooLarge,
    /// More handles to one file than can be counted.
    TooManyHandles,
}

/// Copies are made in blocks of this many bytes.
pub const BUF_LEN: usize = 65536;

/// Calls `nix::unistd::getpid` and returns the raw process id. Nothing is
/// claimed of it: it differs from process to process.
#[verifier::external_body]
pub(crate) fn own_pid() -> (pid: i32) {
    nix::unistd::getpid().as_raw()
}

/// Calls `nix::sys::memfd::memfd_create` with `name` and no flags, and
/// returns the new descriptor, or `None` if the kernel refused or `name`
/// holds a zero byte. Nothing is claimed of the descriptor.
#[verifier::external_body]
fn memfd_create_raw(name: &Vec<u8>) -> (r: Option<i32>) {
    let mut bytes = name.clone();
    bytes.push(0);
    match core::ffi::CStr::from_bytes_with_nul(&bytes) {
        Ok(cname) => {
            match nix::sys::memfd::memfd_create(cname, nix::sys::memfd::MemFdCreateFlag::empty()) {
                Ok(fd) => Some(fd),
                Err(_) => None,
            }
        },
        Err(_) => None,
    }
}

/// Calls `nix::unistd::ftruncate` and says whether it succeeded.
#[verifier::external_body]
fn ftruncate_raw(fd: i32, len: i64) -> (ok: bool) {
    nix::unistd::ftruncate(fd, len).is_ok()
}

/// Calls `nix::sys::uio::pread` to read up to `count` bytes at `offset` into
/// the front of `buf`. As pread(2) has it, the number of bytes read is
/// returned and is at most `count`; `None` stands for an error. The length
/// of `buf` stays; nothing is claimed of the bytes.
#[verifier::external_body]
fn pread_at(fd: i32, buf: &mut Vec<u8>, count: usize, offset: i64) -> (r: Option<usize>)
    requires
        count <= old(buf)@.len(),
    ensures
        final(buf)@.len() == old(buf)@.len(),
        r matches Some(n) ==> n <= count,
{
    match nix::sys::uio::pread(fd, &mut buf[..count], offset) {
        Ok(n) => Some(n),
        Err(_) => None,
    }
}

/// Calls `nix::sys::uio::pwrite` to write `buf[from..from + count]` at
/// `offset`. As pwrite(2) has it, the number of bytes written is returned
/// and is at most `count`; `None` stands for an error.
#[verifier::external_body]
pub(crate) fn pwrite_at(fd: i32, buf: &Vec<u8>, from: usize, count: usize, offset: i64) -> (r: Option<usize>)
    requires
        from + count <= buf@.len(),
    ensures
        r matches Some(n) ==> n <= count,
{
    match nix::sys::uio::pwrite(fd, &buf[from..from + count], offset) {
        Ok(n) => Some(n),
        Err(_) => None,
    }
}

/// Resizes the backing object behind `fd` to `num_bytes`. Fails without
/// asking the kernel if `num_bytes` is no file offset.
pub fn resize_shmem_segment(fd: &ScopedFd, num_bytes: u64) -> (r: Result<(), EmuFsError>)
    ensures
        num_bytes > i64::MAX ==> r == Err::<(), EmuFsError>(EmuFsError::TooLarge),
        r is Err ==> r == Err::<(), EmuFsError>(EmuFsError::TooLarge) || r == Err::<(), EmuFsError>(
            EmuFsError::ResizeFailed,
        ),
        r == Err::<(), EmuFsError>(EmuFsError::TooLarge) ==> num_bytes > i64::MAX,
{
    if num_bytes > i64::MAX as u64 {
        return Err(EmuFsError::TooLarge);
    }
    if ftruncate_raw(fd.as_raw(), num_bytes as i64) {
        Ok(())
    } else {
        Err(EmuFsError::ResizeFailed)
    }
}

/// What a read of a block means for a copy: the number of bytes to pass on,
/// or the end of the copy if the read failed or found nothing.
pub fn bytes_read(ret: Option<usize>) -> (r: Result<usize, EmuFsError>)
    ensures
        r == (match ret {
            Some(n) if n > 0 => Ok::<usize, EmuFsError>(n),
            _ => Err::<usize, EmuFsError>(EmuFsError::ReadFailed),
        }),
{
    match ret {
        Some(n) => if n > 0 {
            Ok(n)
        } else {
            Err(EmuFsError::ReadFailed)
        },
        None => Err(EmuFsError::ReadFailed),
    }
}

/// What a write of a block means for a copy: the number of bytes that need
/// no further attempt, or the end of the copy if the write failed or wrote
/// nothing.
pub fn bytes_written(ret: Option<usize>) -> (r: Result<usize, EmuFsError>)
    ensures
        r == (match ret {
            Some(n) if n > 0 => Ok::<usize, EmuFsError>(n),
            _ => Err::<usize, EmuFsError>(EmuFsError::WriteFailed),
        }),
{
    match ret {
        Some(n) => if n > 0 {
            Ok(n)
        } else {
            Err(EmuFsError::WriteFailed)
        },
        None => Err(EmuFsError::WriteFailed),
    }
}

/// How many bytes an answer says were taken: none, for an error.
pub open spec fn took(ret: Option<usize>) -> nat {
    match ret {
        Some(n) => n as nat,
        None => 0,
    }
}

/// How far a copy has come.
pub struct CopyState {
    /// Where the block begins that is being copied: all before is copied.
    pub offset: nat,
    /// How many bytes of the block were read; 0 while the read is due.
    pub got: nat,
    /// How many of them are written.
    pub done: nat,
}

/// What a copy asks of the kernel next.
pub enum CopyCall {
    /// Read up to `count` bytes of the source at `offset`.
    Read { offset: nat, count: nat },
    /// Write `count` bytes, from index `from` of the block on, to the
    /// destination at `offset`.
    Write { from: nat, count: nat, offset: nat },
}

/// The call that a copy of `size` bytes makes in state `s`: a read of the
/// next block, which is `BUF_LEN` bytes or what is left, at the offset up to
/// which all is copied; or a write of what is left of the block that was
/// read, to the offset that the bytes were read from.
pub open spec fn copy_call(size: u64, s: CopyState) -> CopyCall {
    if s.got == 0 {
        CopyCall::Read {
            offset: s.offset,
            count: if size - s.offset < BUF_LEN {
                (size - s.offset) as nat
            } else {
                BUF_LEN as nat
            },
        }
    } else {
        CopyCall::Write {
            from: s.done,
            count: (s.got - s.done) as nat,
            offset: s.offset + s.done,
        }
    }
}

/// How many bytes a call asks for at most.
pub open spec fn asked(call: CopyCall) -> nat {
    match call {
        CopyCall::Read { offset, count } => count,
        CopyCall::Write { from, count, offset } => count,
    }
}

/// The state after the call of state `s` was answered by `ret`, if that lets
/// the copy go on: a read that gives some bytes is followed by the writes of
/// those bytes, and the write that leaves none of them by the next block.
pub open spec fn copy_next(size: u64, s: CopyState, ret: Option<usize>) -> Option<CopyState> {
    let n = took(ret);
    if s.offset >= size || n == 0 || n > asked(copy_call(size, s)) {
        None
    } else if s.got == 0 {
        Some(CopyState { offset: s.offset, got: n, done: 0 })
    } else if s.done + n == s.got {
        Some(CopyState { offset: s.offset + s.got, got: 0, done: 0 })
    } else {
        Some(CopyState { offset: s.offset, got: s.got, done: s.done + n })
    }
}

/// The state of a copy of `size` bytes once its calls were answered by
/// `answers`, one after another, if each let it go on; `None` else.
pub open spec fn copy_state(size: u64, answers: Seq<Option<usize>>) -> Option<CopyState>
    decreases answers.len(),
{
    if answers.len() == 0 {
        Some(CopyState { offset: 0, got: 0, done: 0 })
    } else {
        match copy_state(size, answers.drop_last()) {
            None => None,
            Some(s) => copy_next(size, s, answers.last()),
        }
    }
}

/// Whether a copy of `size` bytes ends in `r` when its calls are answered by
/// `answers`. A size that is no file offset is refused. Else either every
/// answer gave some bytes and all is copied; or the last answer gave none
/// or was an error, and the copy fails at that read or write.
pub open spec fn copy_ends(size: u64, answers: Seq<Option<usize>>, r: Result<(), EmuFsError>) -> bool {
    if size > i64::MAX {
        r == Err::<(), EmuFsError>(EmuFsError::TooLarge)
    } else {
        let all = copy_state(size, answers);
        let before = copy_state(size, answers.drop_last());
        ||| (all is Some && all->Some_0.got == 0 && all->Some_0.offset >= size && r == Ok::<
            (),
            EmuFsError,
        >(()))
        ||| (answers.len() > 0 && before is Some && before->Some_0.offset < size && took(
            answers.last(),
        ) == 0 && r == Err::<(), EmuFsError>(
            if before->Some_0.got == 0 {
                EmuFsError::ReadFailed
            } else {
                EmuFsError::WriteFailed
            },
        ))
    }
}

/// Copies the first `size` bytes of the object behind `src` to the same
/// offsets of the object behind `dst`, in blocks of at most `BUF_LEN` bytes.
/// Short reads and short writes are followed up. Stops with `ReadFailed` at
/// a read that fails or returns nothing before `size` bytes were copied, and
/// with `WriteFailed` at a write that fails or writes nothing. Ends as
/// `copy_ends` has it for what the kernel answers.
pub fn copy_contents(src: &ScopedFd, dst: &ScopedFd, size: u64) -> (r: Result<(), EmuFsError>)
    ensures
        exists|answers: Seq<Option<usize>>| #[trigger] copy_ends(size, answers, r),
        size == 0 ==> r is Ok,
        size > i64::MAX ==> r == Err::<(), EmuFsError>(EmuFsError::TooLarge),
        r == Err::<(), EmuFsError>(EmuFsError::TooLarge) ==> size > i64::MAX,
        r is Err ==> r != Err::<(), EmuFsError>(EmuFsError::CreateFailed) && r != Err::<
            (),
            EmuFsError,
        >(EmuFsError::ResizeFailed) && r != Err::<(), EmuFsError>(EmuFsError::TooManyHandles),
{
    let ghost mut answers: Seq<Option<usize>> = Seq::empty();
    if size > i64::MAX as u64 {
        assert(copy_ends(size, answers, Err::<(), EmuFsError>(EmuFsError::TooLarge)));
        return Err(EmuFsError::TooLarge);
    }
    let mut data: Vec<u8> = Vec::new();
    let mut k: usize = 0;
    while k < BUF_LEN
        invariant
            k <= BUF_LEN,
            data@.len() == k,
        decreases BUF_LEN - k,
    {
        data.push(0u8);
        k = k + 1;
    }
    let mut offset: u64 = 0;
    while offset < size
        invariant
            offset <= size <= i64::MAX,
            data@.len() == BUF_LEN,
            copy_state(size, answers) == Some(CopyState { offset: offset as nat, got: 0, done: 0 }),
        decreases size - offset,
    {
        let left: u64 = size - offset;
        let amount: usize = if left < BUF_LEN as u64 {
            left as usize
        } else {
            BUF_LEN
        };
        assert(copy_call(size, CopyState { offset: offset as nat, got: 0, done: 0 }) == (
        CopyCall::Read { offset: offset as nat, count: amount as nat }));
        let ret = pread_at(src.as_raw(), &mut data, amount, offset as i64);
        let ghost before = answers;
        proof {
            answers = answers.push(ret);
            assert(answers.drop_last() =~= before);
        }
        let got = match bytes_read(ret) {
            Ok(n) => n,
            Err(e) => {
                assert(copy_ends(size, answers, Err::<(), EmuFsError>(e)));
                return Err(e);
            },
        };
        let mut done: usize = 0;
        while done < got
            invariant
                done <= got <= amount,
                0 < got,
                amount <= size - offset,
                offset < size <= i64::MAX,
                data@.len() == BUF_LEN,
                amount <= BUF_LEN,
                copy_state(size, answers) == Some(
                    if done < got {
                        CopyState { offset: offset as nat, got: got as nat, done: done as nat }
                    } else {
                        CopyState { offset: (offset + got) as nat, got: 0, done: 0 }
                    },
                ),
            decreases got - done,
        {
            let count = got - done;
            let to = offset + done as u64;
            assert(copy_call(
                size,
                CopyState { offset: offset as nat, got: got as nat, done: done as nat },
            ) == (CopyCall::Write { from: done as nat, count: count as nat, offset: to as nat }));
            let ret = pwrite_at(dst.as_raw(), &data, done, count, to as i64);
            let ghost before = answers;
            proof {
                answers = answers.push(ret);
                assert(answers.drop_last() =~= before);
            }
            let put = match bytes_written(ret) {
                Ok(n) => n,
                Err(e) => {
                    assert(copy_ends(size, answers, Err::<(), EmuFsError>(e)));
                    return Err(e);
                },
            };
            done = done + put;
        }
        offset = offset + got as u64;
    }
    assert(copy_ends(size, answers, Ok::<(), EmuFsError>(())));
    Ok(())
}

/// Creates a memory file for the file recorded as `(device, inode)` at
/// `orig_path`, named by `backing_name` for process `pid`. Returns the
/// descriptor and the name, or `None` if the kernel gave no memory file.
pub fn create_memfd_file_for(pid: i32, orig_path: &Vec<u8>, orig_device: u64, orig_inode: u64) -> (r:
    Option<(ScopedFd, Vec<u8>)>)
    ensures
        r matches Some((fd, name)) ==> {
            &&& name@ == backing_name(pid as int, orig_device, orig_inode, orig_path@)
            &&& name@.len() <= NAME_MAX
            &&& forall|i: int| 0 <= i < name@.len() ==> is_printable(#[trigger] name@[i])
        },
{
    let name = make_backing_name(pid, orig_device, orig_inode, orig_path);
    match memfd_create_raw(&name) {
        Some(fd) => Some((ScopedFd::from_raw(fd), name)),
        None => None,
    }
}

/// Creates a memory file for the file recorded as `(device, inode)` at
/// `orig_path`, named for this process. Returns the descriptor and the
/// name, or `None` if the kernel gave no memory file.
pub fn create_memfd_file(orig_path: &Vec<u8>, orig_device: u64, orig_inode: u64) -> (r: Option<
    (ScopedFd, Vec<u8>),
>)
    ensures
        r matches Some((fd, name)) ==> {
            &&& name@.len() <= NAME_MAX
            &&& forall|i: int| 0 <= i < name@.len() ==> is_printable(#[trigger] name@[i])
            &&& exists|pid: i32|
                name@ == #[trigger] backing_name(pid as int, orig_device, orig_inode, orig_path@)
        },
{
    let pid = own_pid();
    let r = create_memfd_file_for(pid, orig_path, orig_device, orig_inode);
    proof {
        if r is Some {
            assert(r->Some_0.1@ == backing_name(pid as int, orig_device, orig_inode, orig_path@));
        }
    }
    r
}

} // verus!
