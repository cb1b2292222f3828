//! Directories and files that the debugger keeps for itself: the temporary
//! directory, whether a path lies on a tmpfs, and unlinked files there that
//! serve as backing objects where the kernel has no memory files.
use crate::names::{make_backing_name, push_bytes};
use crate::scoped_fd::ScopedFd;
use vstd::prelude::*;

verus! {

/// `errno` for a path that does not exist.
pub const ENOENT: i32 = 2;

/// `errno` for a path that exists already.
pub const EEXIST: i32 = 17;

/// The file type bits of a mode that say "directory".
pub const S_IFDIR: u32 = 0o040000;

/// The file type bits of a mode that say "regular file".
pub const S_IFREG: u32 = 0o100000;

/// Read, write and search for the owner.
pub const S_IRWXU: u32 = 0o700;

/// `access` mode: may the file be read.
pub const R_OK: i32 = 4;

/// `access` mode: may the file be written.
pub const W_OK: i32 = 2;

/// The file system type that `statfs` reports for a tmpfs.
pub const TMPFS_MAGIC: i64 = 0x01021994;

/// `open` flags for a new file that must not exist yet, opened for reading
/// and writing and closed on `execve`.
pub const O_NEW_FILE: i32 = 0o2 | 0o100 | 0o200 | 0o2000000;

/// The standard error stream.
pub const STDERR_FILENO: i32 = 2;

/// What the debugger reads of its environment. Each variable is absent or
/// holds bytes.
#[derive(Debug)]
pub struct Environment {
    /// `RD_TMPDIR`: where to keep temporary files, before all else.
    pub rd_tmpdir: Option<Vec<u8>>,
    /// `TMPDIR`: where to keep temporary files otherwise.
    pub tmpdir: Option<Vec<u8>>,
    /// `RD_TRUST_TEMP_FILES`: set and not empty, it says that what lies
    /// under the temporary directories can be taken for a tmpfs unasked.
    pub trust_temp_files: Option<Vec<u8>>,
}

/// Why a directory cannot be used.
#[derive(Clone, Copy, Debug, PartialEq, Eq, Structural)]
pub enum DirError {
    /// The path cannot be looked at, for a reason other than its absence.
    NotAccessible,
    /// Neither the path nor a parent of it exists.
    NotFound,
    /// The directory is missing and cannot be created.
    CannotCreate,
    /// The directory was created and still cannot be looked at.
    CannotStat,
    /// The path exists and is no directory.
    NotADirectory,
    /// The directory cannot be written to.
    NotWritable,
}

/// Calls `nix::sys::stat::stat` and returns the mode and the owner of the
/// file at `path`, or the error number. Nothing is claimed of either: they
/// are what the file system holds.
#[verifier::external_body]
fn stat_path(path: &[u8]) -> (r: Result<(u32, u32), i32>) {
    match nix::sys::stat::stat(path) {
        Ok(st) => Ok((st.st_mode, st.st_uid)),
        Err(e) => Err(e as i32),
    }
}

/// Calls `nix::unistd::mkdir` with the permission bits of `mode` and returns
/// the error number if it fails.
#[verifier::external_body]
fn mkdir_path(path: &[u8], mode: u32) -> (r: Result<(), i32>) {
    match nix::unistd::mkdir(path, nix::sys::stat::Mode::from_bits_truncate(mode)) {
        Ok(()) => Ok(()),
        Err(e) => Err(e as i32),
    }
}

/// Calls `nix::unistd::access` with the bits of `amode` and says whether it
/// succeeded.
#[verifier::external_body]
fn access_path(path: &[u8], amode: i32) -> (ok: bool) {
    nix::unistd::access(path, nix::unistd::AccessFlags::from_bits_truncate(amode)).is_ok()
}

/// Calls `nix::sys::statfs::statfs` and returns the type of the file system
/// that holds `path`, or `None` if the call fails.
#[verifier::external_body]
fn statfs_type(path: &[u8]) -> (r: Option<i64>) {
    match nix::sys::statfs::statfs(path) {
        Ok(sfs) => Some(sfs.filesystem_type().0 as i64),
        Err(_) => None,
    }
}

/// Calls `nix::fcntl::open` with the bits of `oflag` and of `mode` and
/// returns the descriptor, or `None` if the call fails.
#[verifier::external_body]
fn open_path(path: &[u8], oflag: i32, mode: u32) -> (r: Option<i32>) {
    let flags = nix::fcntl::OFlag::from_bits_truncate(oflag);
    match nix::fcntl::open(path, flags, nix::sys::stat::Mode::from_bits_truncate(mode)) {
        Ok(fd) => Some(fd),
        Err(_) => None,
    }
}

/// Calls `nix::unistd::unlink` and says whether it succeeded.
#[verifier::external_body]
fn unlink_path(path: &[u8]) -> (ok: bool) {
    nix::unistd::unlink(path).is_ok()
}

/// Calls `nix::unistd::read` to read up to `buf.len()` bytes into `buf`. As
/// read(2) has it, the number of bytes read is returned and is at most the
/// length of `buf`; `None` stands for an error. The length of `buf` stays.
#[verifier::external_body]
fn read_fd(fd: i32, buf: &mut Vec<u8>) -> (r: Option<usize>)
    ensures
        final(buf)@.len() == old(buf)@.len(),
        r matches Some(n) ==> n <= old(buf)@.len(),
{
    match nix::unistd::read(fd, buf.as_mut_slice()) {
        Ok(n) => Some(n),
        Err(_) => None,
    }
}

/// Calls `nix::unistd::write` to write `buf[from..to]`. As write(2) has it,
/// the number of bytes written is returned and is at most `to - from`;
/// `None` stands for an error.
#[verifier::external_body]
fn write_fd(fd: i32, buf: &[u8], from: usize, to: usize) -> (r: Option<usize>)
    requires
        from <= to <= buf@.len(),
    ensures
        r matches Some(n) ==> n <= to - from,
{
    match nix::unistd::write(fd, &buf[from..to]) {
        Ok(n) => Some(n),
        Err(_) => None,
    }
}

/// Calls `nix::unistd::isatty` and returns its answer, or `None` if the
/// call fails.
#[verifier::external_body]
fn isatty_fd(fd: i32) -> (r: Option<bool>) {
    match nix::unistd::isatty(fd) {
        Ok(res) => Some(res),
        Err(_) => None,
    }
}

/// Whether a variable of the environment is set and not empty.
pub fn env_flag(value: &Option<Vec<u8>>) -> (r: bool)
    ensures
        r == (value matches Some(v) && v@.len() > 0),
{
    match value {
        Some(v) => v.len() > 0,
        None => false,
    }
}

/// Whether `path` begins with `prefix`.
pub fn starts_with(path: &[u8], prefix: &[u8]) -> (r: bool)
    ensures
        r == (prefix@.len() <= path@.len() && path@.subrange(0, prefix@.len() as int) == prefix@),
{
    if prefix.len() > path.len() {
        return false;
    }
    let mut i: usize = 0;
    while i < prefix.len()
        invariant
            i <= prefix.len() <= path.len(),
            forall|k: int| 0 <= k < i ==> path@[k] == prefix@[k],
        decreases prefix.len() - i,
    {
        if path[i] != prefix[i] {
            proof {
                assert(path@.subrange(0, prefix@.len() as int)[i as int] != prefix@[i as int]);
            }
            return false;
        }
        i = i + 1;
    }
    proof {
        assert(path@.subrange(0, prefix@.len() as int) =~= prefix@);
    }
    true
}

/// The length of `dir` without the slashes at its end.
pub open spec fn trimmed_len(dir: Seq<u8>) -> nat
    decreases dir.len(),
{
    if dir.len() > 0 && dir.last() == 0x2f {
        trimmed_len(dir.drop_last())
    } else {
        dir.len()
    }
}

/// The length of `dir` without the slashes at its end.
pub fn trim_trailing_slashes(dir: &[u8]) -> (len: usize)
    ensures
        len == trimmed_len(dir@),
        len <= dir@.len(),
        len > 0 ==> dir@[len - 1] != 0x2f,
        forall|i: int| len <= i < dir@.len() ==> dir@[i] == 0x2f,
{
    let mut len: usize = dir.len();
    proof {
        assert(dir@.take(len as int) =~= dir@);
    }
    while len > 0 && dir[len - 1] == 0x2f
        invariant
            len <= dir.len(),
            trimmed_len(dir@) == trimmed_len(dir@.take(len as int)),
            forall|i: int| len <= i < dir@.len() ==> dir@[i] == 0x2f,
        decreases len,
    {
        proof {
            assert(dir@.take(len as int).drop_last() =~= dir@.take(len - 1));
        }
        len = len - 1;
    }
    len
}

/// The index of the last slash among the first `len` bytes of `dir`.
pub fn last_slash(dir: &[u8], len: usize) -> (r: Option<usize>)
    requires
        len <= dir@.len(),
    ensures
        match r {
            Some(pos) => pos < len && dir@[pos as int] == 0x2f && forall|i: int|
                pos < i < len ==> dir@[i] != 0x2f,
            None => forall|i: int| 0 <= i < len ==> dir@[i] != 0x2f,
        },
{
    let mut i: usize = len;
    while i > 0
        invariant
            i <= len <= dir.len(),
            forall|k: int| i <= k < len ==> dir@[k] != 0x2f,
        decreases i,
    {
        i = i - 1;
        if dir[i] == 0x2f {
            return Some(i);
        }
    }
    None
}

/// A copy of the first `len` bytes of `bytes`.
fn prefix_of(bytes: &[u8], len: usize) -> (r: Vec<u8>)
    requires
        len <= bytes@.len(),
    ensures
        r@ == bytes@.take(len as int),
{
    let mut r: Vec<u8> = Vec::new();
    let mut i: usize = 0;
    while i < len
        invariant
            i <= len <= bytes.len(),
            r@ == bytes@.take(i as int),
        decreases len - i,
    {
        r.push(bytes[i]);
        proof {
            assert(bytes@.take(i + 1) =~= bytes@.take(i as int).push(bytes@[i as int]));
        }
        i = i + 1;
    }
    r
}

/// What is to be done about a directory that a first look did not find.
#[derive(Clone, Copy, Debug, PartialEq, Eq, Structural)]
pub enum Missing {
    /// Give up with this error.
    Fail(DirError),
    /// Make sure that the parent exists, which is so many bytes of the
    /// path, and then create the directory.
    CreateIn(usize),
}

/// What is to be done about a directory that was looked for and not seen,
/// where the look failed with `errno` and the path is the first `len` bytes
/// of `dir`: only a missing directory can be created, and only inside a
/// parent that the path names, which ends before the path's last slash.
pub open spec fn missing(dir: Seq<u8>, len: int, errno: i32) -> Missing {
    if errno != ENOENT {
        Missing::Fail(DirError::NotAccessible)
    } else if exists|pos: int| 0 < pos < len && dir[pos] == 0x2f {
        Missing::CreateIn(
            (choose|pos: int|
                0 < pos < len && dir[pos] == 0x2f && forall|i: int|
                    pos < i < len ==> dir[i] != 0x2f) as usize,
        )
    } else {
        Missing::Fail(DirError::NotFound)
    }
}

/// Judges a failed look at the directory whose path is the first `len`
/// bytes of `dir`.
pub fn missing_dir(dir: &[u8], len: usize, errno: i32) -> (r: Missing)
    requires
        len <= dir@.len(),
    ensures
        r == missing(dir@, len as int, errno),
        r matches Missing::CreateIn(pos) ==> 0 < pos < len,
{
    if errno != ENOENT {
        return Missing::Fail(DirError::NotAccessible);
    }
    match last_slash(dir, len) {
        Some(pos) => {
            if pos > 0 {
                proof {
                    let found = choose|p: int|
                        0 < p < len && dir@[p] == 0x2f && forall|i: int|
                            p < i < len ==> dir@[i] != 0x2f;
                    assert(0 < pos < len && dir@[pos as int] == 0x2f && forall|i: int|
                        pos < i < len ==> dir@[i] != 0x2f);
                    assert(found == pos) by {
                        if found < pos {
                            assert(dir@[pos as int] != 0x2f);
                        }
                        if pos < found {
                            assert(dir@[found] != 0x2f);
                        }
                    }
                }
                Missing::CreateIn(pos)
            } else {
                Missing::Fail(DirError::NotFound)
            }
        },
        None => Missing::Fail(DirError::NotFound),
    }
}

/// Whether a file with this mode is a directory.
pub fn is_dir_mode(mode: u32) -> (r: bool)
    ensures
        r == (mode & S_IFDIR == S_IFDIR),
{
    mode & S_IFDIR == S_IFDIR
}

/// What the file system answered while a directory was made sure of. An
/// answer that was not asked for does not count.
pub struct DirAnswers {
    /// The first look at the path: the mode of what is there, or the error
    /// number.
    pub first: Result<u32, i32>,
    /// How making sure of the parent went.
    pub parent: Result<(), DirError>,
    /// The creation of the directory: done, or the error number.
    pub made: Result<(), i32>,
    /// The second look at the path, after the creation.
    pub second: Result<u32, i32>,
    /// Whether the directory can be written to.
    pub writable: bool,
}

/// The verdict on something with mode `st_mode` that exists at the path: it
/// must be a directory, and one that can be written to.
pub open spec fn dir_checked(st_mode: u32, writable: bool) -> Result<(), DirError> {
    if st_mode & S_IFDIR != S_IFDIR {
        Err(DirError::NotADirectory)
    } else if !writable {
        Err(DirError::NotWritable)
    } else {
        Ok(())
    }
}

/// How making sure of `dir` ends, given the file system's answers. What is
/// there is checked. What is missing is created inside its parent, once the
/// parent is made sure of; that someone else created it meanwhile is no
/// failure; then it is looked at again and checked.
pub open spec fn ensured(dir: Seq<u8>, a: DirAnswers) -> Result<(), DirError> {
    match a.first {
        Ok(st_mode) => dir_checked(st_mode, a.writable),
        Err(errno) => match missing(dir, trimmed_len(dir) as int, errno) {
            Missing::Fail(e) => Err(e),
            Missing::CreateIn(_) => match a.parent {
                Err(e) => Err(e),
                Ok(()) => if a.made matches Err(errno) && errno != EEXIST {
                    Err(DirError::CannotCreate)
                } else {
                    match a.second {
                        Err(_) => Err(DirError::CannotStat),
                        Ok(st_mode) => dir_checked(st_mode, a.writable),
                    }
                },
            },
        },
    }
}

/// Whether making sure of `dir` can end in `r`: it does so for some answers
/// of the file system, and where a parent had to be made sure of, that is
/// the path up to the last slash, and its end is one that making sure of
/// that path can have.
pub open spec fn ensure_dir_ends_in(dir: Seq<u8>, r: Result<(), DirError>) -> bool
    decreases dir.len(),
{
    exists|a: DirAnswers|
        {
            &&& r == #[trigger] ensured(dir, a)
            &&& a.first matches Err(errno) ==> (missing(dir, trimmed_len(dir) as int, errno) matches Missing::CreateIn(
                pos,
            ) ==> pos < dir.len() && ensure_dir_ends_in(dir.take(pos as int), a.parent))
        }
}

/// Makes sure that the directory `dir` exists, creating it and its parents
/// with `mode` as needed, and that it can be written to. Slashes at the end
/// of `dir` do not count.
pub fn ensure_dir(dir: &[u8], mode: u32) -> (r: Result<(), DirError>)
    ensures
        ensure_dir_ends_in(dir@, r),
    decreases dir@.len(),
{
    let len = trim_trailing_slashes(dir);
    let d = prefix_of(dir, len);
    let ghost mut a = DirAnswers {
        first: Ok(0),
        parent: Ok(()),
        made: Ok(()),
        second: Ok(0),
        writable: true,
    };
    let st_mode = match stat_path(d.as_slice()) {
        Ok((st_mode, _)) => {
            proof {
                a.first = Ok(st_mode);
            }
            st_mode
        },
        Err(errno) => {
            proof {
                a.first = Err(errno);
            }
            match missing_dir(dir, len, errno) {
                Missing::Fail(e) => {
                    assert(Err::<(), DirError>(e) == ensured(dir@, a));
                    return Err(e);
                },
                Missing::CreateIn(pos) => {
                    let parent = prefix_of(dir, pos);
                    match ensure_dir(parent.as_slice(), mode) {
                        Ok(()) => {},
                        Err(e) => {
                            proof {
                                a.parent = Err(e);
                                assert(Err::<(), DirError>(e) == ensured(dir@, a));
                            }
                            return Err(e);
                        },
                    }
                },
            }
            // Someone else may create the directory at the same time.
            match mkdir_path(d.as_slice(), mode) {
                Ok(()) => {},
                Err(errno) => {
                    proof {
                        a.made = Err(errno);
                    }
                    if errno != EEXIST {
                        assert(Err::<(), DirError>(DirError::CannotCreate) == ensured(dir@, a));
                        return Err(DirError::CannotCreate);
                    }
                },
            }
            match stat_path(d.as_slice()) {
                Ok((st_mode, _)) => {
                    proof {
                        a.second = Ok(st_mode);
                    }
                    st_mode
                },
                Err(errno) => {
                    proof {
                        a.second = Err(errno);
                        assert(Err::<(), DirError>(DirError::CannotStat) == ensured(dir@, a));
                    }
                    return Err(DirError::CannotStat);
                },
            }
        },
    };
    if !is_dir_mode(st_mode) {
        assert(Err::<(), DirError>(DirError::NotADirectory) == ensured(dir@, a));
        return Err(DirError::NotADirectory);
    }
    if !access_path(d.as_slice(), W_OK) {
        proof {
            a.writable = false;
            assert(Err::<(), DirError>(DirError::NotWritable) == ensured(dir@, a));
        }
        return Err(DirError::NotWritable);
    }
    assert(Ok::<(), DirError>(()) == ensured(dir@, a));
    Ok(())
}

/// `/tmp`
pub open spec fn slash_tmp() -> Seq<u8> {
    seq![0x2fu8, 0x74, 0x6d, 0x70]
}

fn slash_tmp_bytes() -> (r: Vec<u8>)
    ensures
        r@ == slash_tmp(),
{
    let mut r: Vec<u8> = Vec::new();
    r.push(0x2f);
    r.push(0x74);
    r.push(0x6d);
    r.push(0x70);
    proof {
        assert(r@ =~= slash_tmp());
    }
    r
}

/// The directory for temporary files: `RD_TMPDIR` if it is set, else
/// `TMPDIR` if it is set, else `/tmp`. A directory named by the environment
/// is made sure of as `ensure_dir` does, with `S_IRWXU`, and the call ends
/// as that ended; `/tmp` is not created, and must be writable.
pub fn tmp_dir(env: &Environment) -> (r: Result<Vec<u8>, DirError>)
    ensures
        r matches Ok(dir) ==> dir@ == (match (env.rd_tmpdir, env.tmpdir) {
            (Some(d), _) => d@,
            (None, Some(d)) => d@,
            (None, None) => slash_tmp(),
        }),
        r matches Err(e) ==> (env.rd_tmpdir is None && env.tmpdir is None ==> e
            == DirError::NotWritable),
        env.rd_tmpdir matches Some(d) ==> ensure_dir_ends_in(
            d@,
            match r {
                Ok(_) => Ok(()),
                Err(e) => Err(e),
            },
        ),
        env.rd_tmpdir is None ==> (env.tmpdir matches Some(d) ==> ensure_dir_ends_in(
            d@,
            match r {
                Ok(_) => Ok(()),
                Err(e) => Err(e),
            },
        )),
{
    match &env.rd_tmpdir {
        Some(dir) => {
            return match ensure_dir(dir.as_slice(), S_IRWXU) {
                Ok(()) => Ok(prefix_of(dir.as_slice(), dir.len())),
                Err(e) => Err(e),
            };
        },
        None => {},
    }
    match &env.tmpdir {
        Some(dir) => {
            return match ensure_dir(dir.as_slice(), S_IRWXU) {
                Ok(()) => Ok(prefix_of(dir.as_slice(), dir.len())),
                Err(e) => Err(e),
            };
        },
        None => {},
    }
    // Don't try to create "/tmp", that probably won't work well.
    let tmp = slash_tmp_bytes();
    if !access_path(tmp.as_slice(), W_OK) {
        return Err(DirError::NotWritable);
    }
    Ok(tmp)
}

/// `path` lies under the directory `dir`: it begins with `dir` and a slash.
pub open spec fn lies_under(path: Seq<u8>, dir: Seq<u8>) -> bool {
    dir.len() < path.len() && path.subrange(0, dir.len() as int) == dir && path[dir.len() as int]
        == 0x2f
}

/// Whether `path` lies under the directory `dir`.
pub fn is_under(path: &[u8], dir: &[u8]) -> (r: bool)
    ensures
        r == lies_under(path@, dir@),
{
    starts_with(path, dir) && dir.len() < path.len() && path[dir.len()] == 0x2f
}

/// Whether a file at `path` counts as temporary, given the type `fs_type`
/// of its file system where that was asked for. With `RD_TRUST_TEMP_FILES`
/// set and not empty, what lies under `TMPDIR` or under `/tmp` counts, and
/// nothing else. Without it, what lies on a tmpfs counts, and what lies
/// under `/tmp`.
pub open spec fn counts_as_tmp(path: Seq<u8>, env: Environment, fs_type: Option<i64>) -> bool {
    if env.trust_temp_files matches Some(v) && v@.len() > 0 {
        (env.tmpdir matches Some(dir) && lies_under(path, dir@)) || lies_under(path, slash_tmp())
    } else {
        fs_type == Some(TMPFS_MAGIC) || lies_under(path, slash_tmp())
    }
}

/// Whether a file at `path` counts as temporary, given the type `fs_type`
/// of its file system.
pub fn is_tmp_file_on(path: &[u8], env: &Environment, fs_type: Option<i64>) -> (r: bool)
    ensures
        r == counts_as_tmp(path@, *env, fs_type),
{
    let tmp = slash_tmp_bytes();
    if is_under(path, tmp.as_slice()) {
        return true;
    }
    if env_flag(&env.trust_temp_files) {
        match &env.tmpdir {
            Some(dir) => is_under(path, dir.as_slice()),
            None => false,
        }
    } else {
        match fs_type {
            Some(t) => t == TMPFS_MAGIC,
            None => false,
        }
    }
}

/// Whether a file at `path` counts as temporary. The file system is asked
/// for its type only where `RD_TRUST_TEMP_FILES` does not settle it.
pub fn is_tmp_file(path: &[u8], env: &Environment) -> (r: bool)
    ensures
        env.trust_temp_files matches Some(v) && v@.len() > 0 ==> r == counts_as_tmp(
            path@,
            *env,
            None,
        ),
        lies_under(path@, slash_tmp()) ==> r,
        exists|fs_type: Option<i64>| r == #[trigger] counts_as_tmp(path@, *env, fs_type),
{
    if env_flag(&env.trust_temp_files) {
        let r = is_tmp_file_on(path, env, None);
        assert(r == counts_as_tmp(path@, *env, None));
        r
    } else {
        let fs_type = statfs_type(path);
        let r = is_tmp_file_on(path, env, fs_type);
        assert(r == counts_as_tmp(path@, *env, fs_type));
        r
    }
}

/// Whether a directory can hold backing objects: it can be written to, and
/// it lies on a tmpfs or need not, because it was named for the purpose or
/// because temporary files are trusted.
pub open spec fn can_hold_backing(writable: bool, must_be_tmpfs: bool, fs_type: Option<i64>) -> bool {
    writable && (!must_be_tmpfs || fs_type == Some(TMPFS_MAGIC))
}

/// Whether a directory can hold backing objects, given whether it can be
/// written to and the type of its file system.
pub fn usable_for_backing(writable: bool, must_be_tmpfs: bool, fs_type: Option<i64>) -> (r: bool)
    ensures
        r == can_hold_backing(writable, must_be_tmpfs, fs_type),
{
    writable && (!must_be_tmpfs || match fs_type {
        Some(t) => t == TMPFS_MAGIC,
        None => false,
    })
}

/// Looks at `dir` and says whether it can hold backing objects: asks
/// whether it can be written to and, where it must be a tmpfs, for the type
/// of its file system.
fn dir_usable(dir: &[u8], must_be_tmpfs: bool) -> (r: bool)
    ensures
        exists|writable: bool, fs_type: Option<i64>|
            r == #[trigger] can_hold_backing(writable, must_be_tmpfs, fs_type),
{
    let writable = access_path(dir, W_OK);
    let fs_type = if must_be_tmpfs {
        statfs_type(dir)
    } else {
        None
    };
    let r = usable_for_backing(writable, must_be_tmpfs, fs_type);
    assert(r == can_hold_backing(writable, must_be_tmpfs, fs_type));
    r
}

/// The directory that holds backing objects, given what the file system
/// says of the three that come into question: `answers[0]` of `RD_TMPDIR`,
/// `answers[1]` of `TMPDIR`, `answers[2]` of `/tmp`, each whether the
/// directory can be written to and the type of its file system. It is the
/// first of them, in that order, that is named and can hold backing
/// objects. `RD_TMPDIR` need only be writable. The other two must also lie
/// on a tmpfs unless `RD_TRUST_TEMP_FILES` is set and not empty.
pub open spec fn chosen_dir(env: Environment, answers: Seq<(bool, Option<i64>)>) -> Option<
    Seq<u8>,
> {
    let must_be_tmpfs = !(env.trust_temp_files matches Some(v) && v@.len() > 0);
    if env.rd_tmpdir is Some && can_hold_backing(answers[0].0, false, answers[0].1) {
        Some(env.rd_tmpdir->Some_0@)
    } else if env.tmpdir is Some && can_hold_backing(answers[1].0, must_be_tmpfs, answers[1].1) {
        Some(env.tmpdir->Some_0@)
    } else if can_hold_backing(answers[2].0, must_be_tmpfs, answers[2].1) {
        Some(slash_tmp())
    } else {
        None
    }
}

/// The first directory that can hold backing objects: `RD_TMPDIR`, then
/// `TMPDIR`, then `/tmp`, as `chosen_dir` has it for what the file system
/// answers.
pub fn backing_dir(env: &Environment) -> (r: Option<Vec<u8>>)
    ensures
        exists|answers: Seq<(bool, Option<i64>)>|
            answers.len() == 3 && (match r {
                Some(dir) => Some(dir@),
                None => None,
            }) == #[trigger] chosen_dir(*env, answers),
        r matches Some(dir) ==> (env.rd_tmpdir matches Some(d) && dir@ == d@) || (
        env.tmpdir matches Some(d) && dir@ == d@) || dir@ == slash_tmp(),
{
    let must_be_tmpfs = !env_flag(&env.trust_temp_files);
    let ghost mut of_rd: (bool, Option<i64>) = (false, None);
    let ghost mut of_tmpdir: (bool, Option<i64>) = (false, None);
    let ghost mut of_tmp: (bool, Option<i64>) = (false, None);
    match &env.rd_tmpdir {
        Some(dir) => {
            let usable = dir_usable(dir.as_slice(), false);
            proof {
                let (w, t) = choose|w: bool, t: Option<i64>|
                    usable == #[trigger] can_hold_backing(w, false, t);
                of_rd = (w, t);
            }
            if usable {
                let r = prefix_of(dir.as_slice(), dir.len());
                proof {
                    assert(dir@.take(dir@.len() as int) =~= dir@);
                    let answers = seq![of_rd, of_tmpdir, of_tmp];
                    assert(Some(r@) == chosen_dir(*env, answers));
                }
                return Some(r);
            }
        },
        None => {},
    }
    match &env.tmpdir {
        Some(dir) => {
            let usable = dir_usable(dir.as_slice(), must_be_tmpfs);
            proof {
                let (w, t) = choose|w: bool, t: Option<i64>|
                    usable == #[trigger] can_hold_backing(w, must_be_tmpfs, t);
                of_tmpdir = (w, t);
            }
            if usable {
                let r = prefix_of(dir.as_slice(), dir.len());
                proof {
                    assert(dir@.take(dir@.len() as int) =~= dir@);
                    let answers = seq![of_rd, of_tmpdir, of_tmp];
                    assert(Some(r@) == chosen_dir(*env, answers));
                }
                return Some(r);
            }
        },
        None => {},
    }
    let tmp = slash_tmp_bytes();
    let usable = dir_usable(tmp.as_slice(), must_be_tmpfs);
    proof {
        let (w, t) = choose|w: bool, t: Option<i64>|
            usable == #[trigger] can_hold_backing(w, must_be_tmpfs, t);
        of_tmp = (w, t);
        let answers = seq![of_rd, of_tmpdir, of_tmp];
        if usable {
            assert(Some(tmp@) == chosen_dir(*env, answers));
        } else {
            assert(None::<Seq<u8>> == chosen_dir(*env, answers));
        }
    }
    if usable {
        return Some(tmp);
    }
    None
}

/// Creates an unlinked file in `dir`, under `name`, and returns its
/// descriptor, or `None` if the file cannot be created or its name cannot
/// be taken away again.
pub fn create_unlinked_file(dir: &[u8], name: &[u8]) -> (r: Option<ScopedFd>) {
    let mut path: Vec<u8> = Vec::new();
    push_bytes(&mut path, dir);
    path.push(0x2f);
    push_bytes(&mut path, name);
    match open_path(path.as_slice(), O_NEW_FILE, 0o600) {
        Some(raw) => {
            let mut fd = ScopedFd::from_raw(raw);
            if unlink_path(path.as_slice()) {
                Some(fd)
            } else {
                fd.close();
                None
            }
        },
        None => None,
    }
}

/// `name` with each slash replaced by a dash. A backing object's name holds
/// the path of the recorded file; the file that is created for it, and at
/// once unlinked, must have a name without slashes.
pub fn flat_name(name: &[u8]) -> (r: Vec<u8>)
    ensures
        r@.len() == name@.len(),
        forall|i: int|
            0 <= i < name@.len() ==> #[trigger] r@[i] == (if name@[i] == 0x2f {
                0x2du8
            } else {
                name@[i]
            }),
{
    let mut r: Vec<u8> = Vec::new();
    let mut i: usize = 0;
    while i < name.len()
        invariant
            i <= name.len(),
            r@.len() == i,
            forall|k: int|
                0 <= k < i ==> #[trigger] r@[k] == (if name@[k] == 0x2f {
                    0x2du8
                } else {
                    name@[k]
                }),
        decreases name.len() - i,
    {
        if name[i] == 0x2f {
            r.push(0x2d);
        } else {
            r.push(name[i]);
        }
        i = i + 1;
    }
    r
}

/// Creates the backing object for the file recorded as
/// `(orig_device, orig_inode)` at `orig_path` as an unlinked file in the
/// first directory that can hold one. Returns the descriptor and the name
/// that the object goes by, or `None` if there is no such directory or the
/// file cannot be created. For kernels without memory files.
pub fn create_tmpfs_file(
    pid: i32,
    orig_path: &Vec<u8>,
    orig_device: u64,
    orig_inode: u64,
    env: &Environment,
) -> (r: Option<(ScopedFd, Vec<u8>)>)
    ensures
        r is Some ==> exists|answers: Seq<(bool, Option<i64>)>|
            answers.len() == 3 && (#[trigger] chosen_dir(*env, answers)) is Some,
        r matches Some((fd, name)) ==> {
            &&& name@ == crate::names::backing_name(pid as int, orig_device, orig_inode, orig_path@)
            &&& name@.len() <= crate::names::NAME_MAX
            &&& forall|i: int|
                0 <= i < name@.len() ==> crate::names::is_printable(#[trigger] name@[i])
        },
{
    let name = make_backing_name(pid, orig_device, orig_inode, orig_path);
    let dir = match backing_dir(env) {
        Some(dir) => dir,
        None => {
            return None;
        },
    };
    let file_name = flat_name(name.as_slice());
    match create_unlinked_file(dir.as_slice(), file_name.as_slice()) {
        Some(fd) => Some((fd, name)),
        None => None,
    }
}

/// Whether `dir` names something that exists. The empty path names nothing.
pub fn dir_exists(dir: &[u8]) -> (r: bool)
    ensures
        dir@.len() == 0 ==> !r,
{
    if dir.len() == 0 {
        return false;
    }
    stat_path(dir).is_ok()
}

/// Whether a file exists at `path`.
pub fn has_fs_name(path: &[u8]) -> (r: bool) {
    stat_path(path).is_ok()
}

/// Whether this process may read the file at `path`.
pub fn readable(path: &[u8]) -> (r: bool) {
    access_path(path, R_OK)
}

/// Whether this process may write the file at `path`.
pub fn writable(path: &[u8]) -> (r: bool) {
    access_path(path, W_OK)
}

/// Writes all of `buf` to `fd`, going on after short writes. Fails at a
/// write that fails or writes nothing.
pub fn write_all(fd: i32, buf: &[u8]) -> (r: Result<(), ()>)
    ensures
        buf@.len() == 0 ==> r is Ok,
{
    let mut done: usize = 0;
    while done < buf.len()
        invariant
            done <= buf.len(),
        decreases buf.len() - done,
    {
        match write_fd(fd, buf, done, buf.len()) {
            Some(nwritten) => {
                if nwritten == 0 {
                    return Err(());
                }
                done = done + nwritten;
            },
            None => {
                return Err(());
            },
        }
    }
    Ok(())
}

/// Copies what can be read from `src_fd` to `dest_fd`, in blocks of 32 KiB,
/// until the end of `src_fd`. Returns `false` if a read or a write fails,
/// or if no end is found within as many blocks as a `u64` counts.
pub fn copy_file(dest_fd: i32, src_fd: i32) -> (ok: bool) {
    let mut buf: Vec<u8> = Vec::new();
    let mut k: usize = 0;
    while k < 32 * 1024
        invariant
            k <= 32 * 1024,
            buf@.len() == k,
        decreases 32 * 1024 - k,
    {
        buf.push(0u8);
        k = k + 1;
    }
    let mut left: u64 = u64::MAX;
    while left > 0
        invariant
            buf@.len() == 32 * 1024,
        decreases left,
    {
        match read_fd(src_fd, &mut buf) {
            None => {
                return false;
            },
            Some(nread) => {
                if nread == 0 {
                    return true;
                }
                let part = prefix_of(buf.as_slice(), nread);
                if write_all(dest_fd, part.as_slice()).is_err() {
                    return false;
                }
            },
        }
        left = left - 1;
    }
    false
}

/// What `isatty` said of a stream means for whether someone is watching:
/// probably nobody is if it is no terminal. `None` where `isatty` failed.
pub fn not_interactive(answer: Option<bool>) -> (r: Option<bool>)
    ensures
        r == (match answer {
            Some(tty) => Some(!tty),
            None => None,
        }),
{
    match answer {
        Some(tty) => Some(!tty),
        None => None,
    }
}

/// Whether probably nobody is watching the stream `maybe_fd`, or standard
/// error where none is given. `None` where the stream cannot be asked.
pub fn probably_not_interactive(maybe_fd: Option<i32>) -> (r: Option<bool>) {
    let fd = match maybe_fd {
        Some(fd) => fd,
        None => STDERR_FILENO,
    };
    not_interactive(isatty_fd(fd))
}

} // verus!
