//! Byte strings that the emulated file system hands to the kernel: decimal
//! numbers, the name of a backing object, the path of an fd under `/proc`.
use vstd::prelude::*;

verus! {

/// The ASCII digit for `d`, which is below ten.
pub open spec fn digit(d: nat) -> u8 {
    (48 + d) as u8
}

/// `n` written in decimal, without leading zeros.
pub open spec fn decimal(n: nat) -> Seq<u8>
    decreases n,
{
    if n < 10 {
        seq![digit(n)]
    } else {
        decimal(n / 10).push(digit(n % 10))
    }
}

/// `n` written in decimal, with a minus sign if it is negative.
pub open spec fn signed_decimal(n: int) -> Seq<u8> {
    if n < 0 {
        seq![45u8] + decimal((-n) as nat)
    } else {
        decimal(n as nat)
    }
}

/// Whether `b` is a printable ASCII character, space included.
pub open spec fn is_printable(b: u8) -> bool {
    0x20 <= b <= 0x7e
}

/// `s` without its non-printable bytes.
pub open spec fn printable_only(s: Seq<u8>) -> Seq<u8>
    decreases s.len(),
{
    if s.len() == 0 {
        s
    } else if is_printable(s.last()) {
        printable_only(s.drop_last()).push(s.last())
    } else {
        printable_only(s.drop_last())
    }
}

/// The longest name that a backing object can have.
pub const NAME_MAX: usize = 255;

/// `rr-emufs-`
pub open spec fn emufs_prefix() -> Seq<u8> {
    seq![0x72u8, 0x72, 0x2d, 0x65, 0x6d, 0x75, 0x66, 0x73, 0x2d]
}

/// `-dev-`
pub open spec fn dev_infix() -> Seq<u8> {
    seq![0x2du8, 0x64, 0x65, 0x76, 0x2d]
}

/// `-inode-`
pub open spec fn inode_infix() -> Seq<u8> {
    seq![0x2du8, 0x69, 0x6e, 0x6f, 0x64, 0x65, 0x2d]
}

/// `/proc/`
pub open spec fn proc_prefix() -> Seq<u8> {
    seq![0x2fu8, 0x70, 0x72, 0x6f, 0x63, 0x2f]
}

/// `/fd/`
pub open spec fn fd_infix() -> Seq<u8> {
    seq![0x2fu8, 0x66, 0x64, 0x2f]
}

/// The name under which process `pid` creates the backing object for the
/// file that was recorded as `(device, inode)` at `orig_path`:
/// `rr-emufs-<pid>-dev-<device>-inode-<inode>-<orig_path>`, without its
/// non-printable bytes, cut to `NAME_MAX` bytes.
pub open spec fn backing_name(pid: int, device: u64, inode: u64, orig_path: Seq<u8>) -> Seq<u8> {
    let full = emufs_prefix() + signed_decimal(pid) + dev_infix() + decimal(device as nat)
        + inode_infix() + decimal(inode as nat) + seq![0x2du8] + orig_path;
    let clean = printable_only(full);
    if clean.len() > NAME_MAX {
        clean.take(NAME_MAX as int)
    } else {
        clean
    }
}

/// `/proc/<pid>/fd/<fd>`
pub open spec fn proc_fd_path(pid: int, fd: int) -> Seq<u8> {
    proc_prefix() + signed_decimal(pid) + fd_infix() + signed_decimal(fd)
}

/// Appends `n` in decimal to `out`.
pub fn push_decimal(out: &mut Vec<u8>, n: u64)
    ensures
        final(out)@ == old(out)@ + decimal(n as nat),
    decreases n,
{
    if n >= 10 {
        push_decimal(out, n / 10);
    }
    out.push(48u8 + (n % 10) as u8);
    proof {
        if n >= 10 {
            assert(final(out)@ =~= old(out)@ + decimal(n as nat));
        } else {
            assert(final(out)@ =~= old(out)@ + decimal(n as nat));
        }
    }
}

/// Appends `n` in decimal to `out`, with a minus sign if it is negative.
pub fn push_signed_decimal(out: &mut Vec<u8>, n: i64)
    ensures
        final(out)@ == old(out)@ + signed_decimal(n as int),
{
    if n < 0 {
        out.push(45u8);
        let magnitude: u64 = (-(n + 1)) as u64 + 1;
        push_decimal(out, magnitude);
        proof {
            assert(final(out)@ =~= old(out)@ + signed_decimal(n as int));
        }
    } else {
        push_decimal(out, n as u64);
    }
}

/// Appends `bytes` to `out`.
pub fn push_bytes(out: &mut Vec<u8>, bytes: &[u8])
    ensures
        final(out)@ == old(out)@ + bytes@,
{
    let mut i: usize = 0;
    while i < bytes.len()
        invariant
            i <= bytes.len(),
            out@ == old(out)@ + bytes@.take(i as int),
        decreases bytes.len() - i,
    {
        out.push(bytes[i]);
        proof {
            assert(bytes@.take(i + 1) =~= bytes@.take(i as int).push(bytes@[i as int]));
            assert(out@ =~= old(out)@ + bytes@.take(i + 1));
        }
        i = i + 1;
    }
    proof {
        assert(bytes@.take(bytes@.len() as int) =~= bytes@);
    }
}

/// Drops the non-printable bytes of `s` and keeps at most `NAME_MAX` of the
/// rest.
pub fn sanitize(s: &Vec<u8>) -> (r: Vec<u8>)
    ensures
        r@ == (if printable_only(s@).len() > NAME_MAX {
            printable_only(s@).take(NAME_MAX as int)
        } else {
            printable_only(s@)
        }),
        r@.len() <= NAME_MAX,
        forall|i: int| 0 <= i < r@.len() ==> is_printable(#[trigger] r@[i]),
{
    let mut r: Vec<u8> = Vec::new();
    let mut i: usize = 0;
    while i < s.len()
        invariant
            i <= s.len(),
            r@ == (if printable_only(s@.take(i as int)).len() > NAME_MAX {
                printable_only(s@.take(i as int)).take(NAME_MAX as int)
            } else {
                printable_only(s@.take(i as int))
            }),
            forall|k: int| 0 <= k < r@.len() ==> is_printable(#[trigger] r@[k]),
        decreases s.len() - i,
    {
        let b = s[i];
        proof {
            assert(s@.take(i + 1).drop_last() =~= s@.take(i as int));
            assert(s@.take(i + 1).last() == b);
        }
        if 0x20 <= b && b <= 0x7e && r.len() < NAME_MAX {
            r.push(b);
            proof {
                assert(r@ =~= printable_only(s@.take(i + 1)));
            }
        } else {
            proof {
                let before = printable_only(s@.take(i as int));
                let now = printable_only(s@.take(i + 1));
                if is_printable(b) {
                    assert(now == before.push(b));
                    assert(now.take(NAME_MAX as int) =~= r@);
                }
            }
        }
        i = i + 1;
    }
    proof {
        assert(s@.take(s@.len() as int) =~= s@);
    }
    r
}

/// The name for the backing object of the file recorded as
/// `(device, inode)` at `orig_path`, created by process `pid`.
pub fn make_backing_name(pid: i32, device: u64, inode: u64, orig_path: &Vec<u8>) -> (r: Vec<u8>)
    ensures
        r@ == backing_name(pid as int, device, inode, orig_path@),
        r@.len() <= NAME_MAX,
        forall|i: int| 0 <= i < r@.len() ==> is_printable(#[trigger] r@[i]),
{
    let mut full: Vec<u8> = Vec::new();
    let prefix: [u8; 9] = [0x72, 0x72, 0x2d, 0x65, 0x6d, 0x75, 0x66, 0x73, 0x2d];
    let dev: [u8; 5] = [0x2d, 0x64, 0x65, 0x76, 0x2d];
    let ino: [u8; 7] = [0x2d, 0x69, 0x6e, 0x6f, 0x64, 0x65, 0x2d];
    push_bytes(&mut full, prefix.as_slice());
    push_signed_decimal(&mut full, pid as i64);
    push_bytes(&mut full, dev.as_slice());
    push_decimal(&mut full, device);
    push_bytes(&mut full, ino.as_slice());
    push_decimal(&mut full, inode);
    full.push(0x2d);
    push_bytes(&mut full, orig_path.as_slice());
    proof {
        assert(prefix@ =~= emufs_prefix());
        assert(dev@ =~= dev_infix());
        assert(ino@ =~= inode_infix());
        assert(full@ =~= emufs_prefix() + signed_decimal(pid as int) + dev_infix() + decimal(
            device as nat,
        ) + inode_infix() + decimal(inode as nat) + seq![0x2du8] + orig_path@);
    }
    sanitize(&full)
}

/// The path under which process `pid` reaches its own descriptor `fd`.
pub fn make_proc_fd_path(pid: i32, fd: i32) -> (r: Vec<u8>)
    ensures
        r@ == proc_fd_path(pid as int, fd as int),
{
    let mut path: Vec<u8> = Vec::new();
    let prefix: [u8; 6] = [0x2f, 0x70, 0x72, 0x6f, 0x63, 0x2f];
    let infix: [u8; 4] = [0x2f, 0x66, 0x64, 0x2f];
    push_bytes(&mut path, prefix.as_slice());
    push_signed_decimal(&mut path, pid as i64);
    push_bytes(&mut path, infix.as_slice());
    push_signed_decimal(&mut path, fd as i64);
    proof {
        assert(prefix@ =~= proc_prefix());
        assert(infix@ =~= fd_infix());
        assert(path@ =~= proc_fd_path(pid as int, fd as int));
    }
    path
}

} // verus!
