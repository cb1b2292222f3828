use rd_core::backing::create_memfd_file;
use rd_core::dirs::{
    backing_dir, copy_file, create_tmpfs_file, create_unlinked_file, dir_exists, ensure_dir,
    env_flag, flat_name, has_fs_name, is_dir_mode, is_tmp_file, is_tmp_file_on, is_under,
    last_slash, missing_dir, not_interactive, probably_not_interactive, readable, starts_with,
    tmp_dir, trim_trailing_slashes, usable_for_backing, writable, write_all, DirError,
    Environment, Missing, EEXIST, ENOENT, O_NEW_FILE, R_OK, STDERR_FILENO, S_IFDIR, S_IFREG,
    S_IRWXU, TMPFS_MAGIC, W_OK,
};

fn env(rd_tmpdir: Option<&[u8]>, tmpdir: Option<&[u8]>, trust: Option<&[u8]>) -> Environment {
    Environment {
        rd_tmpdir: rd_tmpdir.map(|d| d.to_vec()),
        tmpdir: tmpdir.map(|d| d.to_vec()),
        trust_temp_files: trust.map(|d| d.to_vec()),
    }
}

/// A path under /tmp that no other test uses.
fn scratch(name: &str) -> Vec<u8> {
    format!("/tmp/rd-core-{}-{}", nix::unistd::getpid(), name).into_bytes()
}

fn is_dir(path: &[u8]) -> bool {
    match nix::sys::stat::stat(path) {
        Ok(st) => st.st_mode & 0o170000 == 0o040000,
        Err(_) => false,
    }
}

fn remove_dirs(paths: &[&[u8]]) {
    for path in paths {
        let flag = nix::unistd::UnlinkatFlags::RemoveDir;
        let _ = nix::unistd::unlinkat(None, *path, flag);
    }
}

#[test]
fn environment_flags() {
    assert!(!env_flag(&None));
    assert!(!env_flag(&Some(Vec::new())));
    assert!(env_flag(&Some(b"1".to_vec())));
    assert!(env_flag(&Some(b"0".to_vec())));
    assert!(env_flag(&Some(vec![0xff])));
}

#[test]
fn prefixes() {
    assert!(starts_with(b"/tmp/x", b"/tmp/"));
    assert!(starts_with(b"/tmp/x", b""));
    assert!(starts_with(b"/tmp/x", b"/tmp/x"));
    assert!(!starts_with(b"/tmp/x", b"/tmp/xy"));
    assert!(!starts_with(b"/tmq/x", b"/tmp/"));
    assert!(!starts_with(b"", b"/"));
    assert!(is_under(b"/tmp/x", b"/tmp"));
    assert!(is_under(b"/tmp/", b"/tmp"));
    assert!(!is_under(b"/tmp", b"/tmp"));
    assert!(!is_under(b"/tmpx/y", b"/tmp"));
    assert!(!is_under(b"/var/tmp/y", b"/tmp"));
}

#[test]
fn trailing_slashes() {
    assert_eq!(trim_trailing_slashes(b"/a/b"), 4);
    assert_eq!(trim_trailing_slashes(b"/a/b/"), 4);
    assert_eq!(trim_trailing_slashes(b"/a/b///"), 4);
    assert_eq!(trim_trailing_slashes(b"///"), 0);
    assert_eq!(trim_trailing_slashes(b""), 0);
    assert_eq!(trim_trailing_slashes(b"a//b"), 4);
}

#[test]
fn last_slashes() {
    assert_eq!(last_slash(b"/a/b", 4), Some(2));
    assert_eq!(last_slash(b"/a/b", 2), Some(0));
    assert_eq!(last_slash(b"/a/b", 0), None);
    assert_eq!(last_slash(b"abc", 3), None);
    assert_eq!(last_slash(b"abc/", 4), Some(3));
    assert_eq!(last_slash(b"abc/", 3), None);
}

#[test]
fn what_to_do_about_a_missing_directory() {
    assert_eq!(missing_dir(b"/a/b", 4, ENOENT), Missing::CreateIn(2));
    assert_eq!(missing_dir(b"/a/b/c//", 6, ENOENT), Missing::CreateIn(4));
    assert_eq!(missing_dir(b"/a", 2, ENOENT), Missing::Fail(DirError::NotFound));
    assert_eq!(missing_dir(b"a", 1, ENOENT), Missing::Fail(DirError::NotFound));
    assert_eq!(missing_dir(b"", 0, ENOENT), Missing::Fail(DirError::NotFound));
    assert_eq!(missing_dir(b"a/b", 3, ENOENT), Missing::CreateIn(1));
    assert_eq!(missing_dir(b"/a/b", 4, EEXIST), Missing::Fail(DirError::NotAccessible));
    assert_eq!(missing_dir(b"/a/b", 4, 13), Missing::Fail(DirError::NotAccessible));
    assert_eq!((ENOENT, EEXIST), (2, 17));
}

#[test]
fn directory_modes() {
    assert!(is_dir_mode(0o040755));
    assert!(is_dir_mode(0o041777));
    assert!(!is_dir_mode(0o100644));
    assert!(!is_dir_mode(0o120777));
    assert!(!is_dir_mode(0));
}

#[test]
fn ensure_dir_creates_the_directory_and_its_parents() {
    let base = scratch("ensure");
    let mut a = base.clone();
    a.extend_from_slice(b"/a");
    let mut b = a.clone();
    b.extend_from_slice(b"/b");
    let mut asked = b.clone();
    asked.extend_from_slice(b"//");
    assert!(!is_dir(&base));
    assert_eq!(ensure_dir(&asked, S_IRWXU), Ok(()));
    assert!(is_dir(&base));
    assert!(is_dir(&a));
    assert!(is_dir(&b));
    let st = nix::sys::stat::stat(b.as_slice()).unwrap();
    assert_eq!(st.st_mode & 0o700, 0o700);
    assert_eq!(ensure_dir(&asked, S_IRWXU), Ok(()));
    assert_eq!(ensure_dir(&base, S_IRWXU), Ok(()));
    remove_dirs(&[&b, &a, &base]);
}

#[test]
fn ensure_dir_says_what_is_wrong() {
    assert_eq!(ensure_dir(b"/etc/passwd", S_IRWXU), Err(DirError::NotADirectory));
    assert_eq!(ensure_dir(b"/etc/passwd/sub", S_IRWXU), Err(DirError::NotAccessible));
    assert_eq!(ensure_dir(b"no-such-directory-here", S_IRWXU), Err(DirError::NotFound));
    assert_eq!(ensure_dir(b"/no-such-root-directory", 0).is_ok(), is_dir(b"/no-such-root-directory"));
    remove_dirs(&[b"/no-such-root-directory"]);
    let in_proc = ensure_dir(b"/proc/no-such-entry/sub", S_IRWXU);
    if nix::unistd::access("/proc", nix::unistd::AccessFlags::W_OK).is_ok() {
        assert_eq!(in_proc, Err(DirError::CannotCreate));
    } else {
        assert_eq!(in_proc, Err(DirError::NotWritable));
    }
    assert_eq!(ensure_dir(b"/tmp", S_IRWXU), Ok(()));
    assert_eq!(ensure_dir(b"/tmp///", S_IRWXU), Ok(()));
}

#[test]
fn ensure_dir_wants_a_writable_directory() {
    for dir in [&b"/proc"[..], &b"/sys"[..], &b"/proc/sys"[..], &b"/sys/kernel"[..]] {
        let writable = nix::unistd::access(dir, nix::unistd::AccessFlags::W_OK).is_ok();
        if is_dir(dir) && !writable {
            assert_eq!(ensure_dir(dir, S_IRWXU), Err(DirError::NotWritable));
        }
    }
}

#[test]
fn the_temporary_directory_is_the_first_that_is_named() {
    let first = scratch("tmpdir-first");
    let second = scratch("tmpdir-second");
    assert_eq!(tmp_dir(&env(Some(&first), Some(&second), None)), Ok(first.clone()));
    assert!(is_dir(&first));
    assert!(!is_dir(&second));
    assert_eq!(tmp_dir(&env(None, Some(&second), None)), Ok(second.clone()));
    assert!(is_dir(&second));
    assert_eq!(tmp_dir(&env(None, None, None)), Ok(b"/tmp".to_vec()));
    assert_eq!(tmp_dir(&env(None, None, Some(b"1"))), Ok(b"/tmp".to_vec()));
    assert_eq!(tmp_dir(&env(Some(b"/etc/passwd"), Some(&second), None)), Err(DirError::NotADirectory));
    remove_dirs(&[&first, &second]);
}

#[test]
fn temporary_files() {
    let plain = env(None, None, None);
    let trusting = env(None, Some(b"/scratch"), Some(b"1"));
    let not_trusting = env(None, Some(b"/scratch"), Some(b""));
    assert!(is_tmp_file_on(b"/tmp/x", &plain, None));
    assert!(is_tmp_file_on(b"/tmp/x", &plain, Some(0xef53)));
    assert!(is_tmp_file_on(b"/home/x", &plain, Some(TMPFS_MAGIC)));
    assert!(!is_tmp_file_on(b"/home/x", &plain, Some(0xef53)));
    assert!(!is_tmp_file_on(b"/home/x", &plain, None));
    assert!(!is_tmp_file_on(b"/tmp", &plain, None));
    assert!(is_tmp_file_on(b"/scratch/x", &trusting, None));
    assert!(is_tmp_file_on(b"/tmp/x", &trusting, None));
    assert!(!is_tmp_file_on(b"/home/x", &trusting, Some(TMPFS_MAGIC)));
    assert!(!is_tmp_file_on(b"/scratch/x", &not_trusting, None));
    assert!(is_tmp_file_on(b"/scratch/x", &not_trusting, Some(TMPFS_MAGIC)));
    assert_eq!(TMPFS_MAGIC, 0x01021994);
}

#[test]
fn temporary_files_on_this_machine() {
    let plain = env(None, None, None);
    let trusting = env(None, Some(b"/scratch"), Some(b"yes"));
    assert!(is_tmp_file(b"/tmp/anything", &plain));
    assert!(is_tmp_file(b"/scratch/anything", &trusting));
    assert!(!is_tmp_file(b"/proc/self/status", &trusting));
    assert!(!is_tmp_file(b"/no/such/file/anywhere", &plain));
    for path in [&b"/proc/self/status"[..], &b"/dev/shm"[..], &b"/etc/passwd"[..], &b"/"[..]] {
        if let Ok(sfs) = nix::sys::statfs::statfs(path) {
            let on_tmpfs = sfs.filesystem_type() == nix::sys::statfs::TMPFS_MAGIC;
            assert_eq!(is_tmp_file(path, &plain), on_tmpfs);
        }
    }
}

#[test]
fn directories_for_backing_objects() {
    assert!(usable_for_backing(true, false, None));
    assert!(usable_for_backing(true, false, Some(0xef53)));
    assert!(usable_for_backing(true, true, Some(TMPFS_MAGIC)));
    assert!(!usable_for_backing(true, true, Some(0xef53)));
    assert!(!usable_for_backing(true, true, None));
    assert!(!usable_for_backing(false, false, Some(TMPFS_MAGIC)));
    assert!(!usable_for_backing(false, true, Some(TMPFS_MAGIC)));

    let named = scratch("backing-dir");
    assert_eq!(ensure_dir(&named, S_IRWXU), Ok(()));
    assert_eq!(backing_dir(&env(Some(&named), Some(b"/tmp"), None)), Some(named.clone()));
    assert_eq!(backing_dir(&env(Some(b"/no/such/dir"), Some(&named), Some(b"1"))), Some(named.clone()));
    assert_eq!(backing_dir(&env(None, Some(b"/no/such/dir"), Some(b"1"))), Some(b"/tmp".to_vec()));
    let on_tmpfs = |dir: &[u8]| match nix::sys::statfs::statfs(dir) {
        Ok(sfs) => sfs.filesystem_type() == nix::sys::statfs::TMPFS_MAGIC,
        Err(_) => false,
    };
    let strict = backing_dir(&env(None, Some(&named), None));
    if on_tmpfs(&named) {
        assert_eq!(strict, Some(named.clone()));
    } else if on_tmpfs(b"/tmp") {
        assert_eq!(strict, Some(b"/tmp".to_vec()));
    } else {
        assert_eq!(strict, None);
    }
    remove_dirs(&[&named]);
}

#[test]
fn an_unlinked_file_has_no_name_left() {
    let fd = create_unlinked_file(b"/tmp", b"rd-core-unlinked-probe").unwrap();
    assert!(fd.is_open());
    assert!(nix::sys::stat::stat(&b"/tmp/rd-core-unlinked-probe"[..]).is_err());
    assert_eq!(nix::sys::stat::fstat(fd.as_raw()).unwrap().st_nlink, 0);
    assert_eq!(nix::sys::uio::pwrite(fd.as_raw(), b"data", 0).unwrap(), 4);
    let mut back = [0u8; 4];
    assert_eq!(nix::sys::uio::pread(fd.as_raw(), &mut back, 0).unwrap(), 4);
    assert_eq!(&back, b"data");
    assert!(create_unlinked_file(b"/no/such/dir", b"x").is_none());
    assert!(create_unlinked_file(b"/tmp", b"a/b").is_none());
}

#[test]
fn a_backing_object_on_a_tmpfs() {
    let named = scratch("tmpfs-file");
    assert_eq!(ensure_dir(&named, S_IRWXU), Ok(()));
    let e = env(Some(&named), None, None);
    let (fd, name) = create_tmpfs_file(4242, &b"/usr/lib/x.so".to_vec(), 8, 42, &e).unwrap();
    assert_eq!(name, b"rr-emufs-4242-dev-8-inode-42-/usr/lib/x.so".to_vec());
    assert!(fd.is_open());
    assert_eq!(nix::sys::stat::fstat(fd.as_raw()).unwrap().st_nlink, 0);
    nix::unistd::ftruncate(fd.as_raw(), 4096).unwrap();
    assert_eq!(nix::sys::stat::fstat(fd.as_raw()).unwrap().st_size, 4096);
    let nowhere = env(Some(b"/no/such/dir"), Some(b"/no/such/dir"), None);
    if backing_dir(&nowhere).is_none() {
        assert!(create_tmpfs_file(1, &b"p".to_vec(), 1, 2, &nowhere).is_none());
    }
    assert_eq!(flat_name(b"rr-emufs-1-dev-2-inode-3-/a/b c"), b"rr-emufs-1-dev-2-inode-3--a-b c".to_vec());
    assert_eq!(flat_name(b""), Vec::<u8>::new());
    remove_dirs(&[&named]);
}

#[test]
fn what_exists() {
    assert!(!dir_exists(b""));
    assert!(dir_exists(b"/tmp"));
    assert!(dir_exists(b"/etc/passwd"));
    assert!(!dir_exists(b"/no/such/dir"));
    assert!(has_fs_name(b"/etc/passwd"));
    assert!(!has_fs_name(b"/no/such/file"));
    assert!(!has_fs_name(b""));
    assert!(readable(b"/etc/passwd"));
    assert!(!readable(b"/no/such/file"));
    assert!(writable(b"/tmp"));
    assert!(!writable(b"/no/such/file"));
}

#[test]
fn write_all_writes_everything() {
    let (fd, _) = create_memfd_file(&b"w".to_vec(), 1, 2).unwrap();
    let data: Vec<u8> = (0..200_000).map(|i| (i % 199) as u8).collect();
    assert_eq!(write_all(fd.as_raw(), &data), Ok(()));
    let mut back = vec![0u8; 200_001];
    assert_eq!(nix::sys::uio::pread(fd.as_raw(), &mut back, 0).unwrap(), 200_000);
    assert_eq!(&back[..200_000], &data[..]);
    assert_eq!(write_all(fd.as_raw(), b""), Ok(()));
    assert_eq!(write_all(-1, b""), Ok(()));
    assert_eq!(write_all(-1, b"x"), Err(()));
}

#[test]
fn copy_file_copies_to_the_end() {
    let (src, _) = create_memfd_file(&b"s".to_vec(), 1, 2).unwrap();
    let (dst, _) = create_memfd_file(&b"d".to_vec(), 1, 2).unwrap();
    let data: Vec<u8> = (0..100_000).map(|i| (i % 197) as u8).collect();
    assert_eq!(nix::sys::uio::pwrite(src.as_raw(), &data, 0).unwrap(), data.len());
    assert!(copy_file(dst.as_raw(), src.as_raw()));
    let mut back = vec![0u8; 100_001];
    assert_eq!(nix::sys::uio::pread(dst.as_raw(), &mut back, 0).unwrap(), 100_000);
    assert_eq!(&back[..100_000], &data[..]);
    assert!(copy_file(dst.as_raw(), src.as_raw()));
    assert!(!copy_file(dst.as_raw(), -1));
    let (again, _) = create_memfd_file(&b"a".to_vec(), 1, 2).unwrap();
    assert_eq!(nix::sys::uio::pwrite(again.as_raw(), b"abc", 0).unwrap(), 3);
    assert!(!copy_file(-1, again.as_raw()));
}

#[test]
fn who_is_watching() {
    assert_eq!(not_interactive(Some(true)), Some(false));
    assert_eq!(not_interactive(Some(false)), Some(true));
    assert_eq!(not_interactive(None), None);
    let (fd, _) = create_memfd_file(&b"t".to_vec(), 1, 2).unwrap();
    assert_eq!(probably_not_interactive(Some(fd.as_raw())), Some(true));
    assert_eq!(probably_not_interactive(Some(-1)), None);
    let stderr_is_tty = nix::unistd::isatty(2).ok();
    assert_eq!(probably_not_interactive(None), stderr_is_tty.map(|tty| !tty));
}

#[test]
fn the_constants_are_those_of_the_system() {
    assert_eq!(ENOENT, libc::ENOENT);
    assert_eq!(EEXIST, libc::EEXIST);
    assert_eq!(S_IFDIR, libc::S_IFDIR);
    assert_eq!(S_IFREG, libc::S_IFREG);
    assert_eq!(S_IRWXU, libc::S_IRWXU);
    assert_eq!(R_OK, libc::R_OK);
    assert_eq!(W_OK, libc::W_OK);
    assert_eq!(TMPFS_MAGIC, libc::TMPFS_MAGIC as i64);
    assert_eq!(O_NEW_FILE, libc::O_RDWR | libc::O_CREAT | libc::O_EXCL | libc::O_CLOEXEC);
    assert_eq!(STDERR_FILENO, libc::STDERR_FILENO);
    assert_eq!(rd_core::copy_policy::MAP_PRIVATE, libc::MAP_PRIVATE);
    assert_eq!(rd_core::copy_policy::MAP_SHARED, libc::MAP_SHARED);
    assert_eq!(rd_core::copy_policy::PROT_EXEC, libc::PROT_EXEC);
    assert_eq!(rd_core::replay_syscall::PROT_READ, libc::PROT_READ);
    assert_eq!(rd_core::replay_syscall::PROT_WRITE, libc::PROT_WRITE);
    assert_eq!(rd_core::replay_syscall::MAP_ANONYMOUS, libc::MAP_ANONYMOUS);
    assert_eq!(rd_core::util::TRAP_BRKPT, libc::TRAP_BRKPT);
    assert_eq!(rd_core::util::SI_KERNEL, libc::SI_KERNEL);
}
