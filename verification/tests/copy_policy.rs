use rd_core::copy_policy::{
    is_ld_so_cache, should_copy, should_copy_mmap_region, MappingFacts, MAP_PRIVATE, MAP_SHARED,
    PROT_EXEC,
};
use rd_core::dirs::Environment;
use rd_core::emu_file::KernelMapping;

/// A shared, readable and writable mapping of a character device that
/// belongs to an ordinary user: nothing about it settles the matter early.
fn undecided() -> MappingFacts {
    MappingFacts {
        heuristics_enabled: true,
        private_mapping: false,
        executable: false,
        has_fs_name: true,
        st_mode: 0o020666,
        st_uid: 1000,
        is_tmp_file: false,
        is_ld_so_cache: false,
        can_read: true,
        can_write: true,
    }
}

#[test]
fn everything_is_copied_without_the_heuristics() {
    let mut f = undecided();
    f.heuristics_enabled = false;
    f.private_mapping = true;
    f.executable = true;
    assert!(should_copy(&f));
}

#[test]
fn the_copy_rules_in_order() {
    assert!(should_copy(&undecided()));
    let mut f = undecided();
    f.private_mapping = true;
    f.executable = true;
    assert!(!should_copy(&f));
    f.has_fs_name = false;
    assert!(should_copy(&f));
    f.has_fs_name = true;
    f.st_mode = 0o100755;
    assert!(should_copy(&f));
    f.st_mode = 0o020666;
    f.is_tmp_file = true;
    assert!(should_copy(&f));
    f.is_tmp_file = false;
    f.is_ld_so_cache = true;
    assert!(should_copy(&f));
    f.is_ld_so_cache = false;
    assert!(!should_copy(&f));

    let mut f = undecided();
    f.private_mapping = true;
    f.st_mode = 0o020755;
    assert!(!should_copy(&f));
    f.st_mode = 0o020644;
    assert!(should_copy(&f));

    let mut f = undecided();
    f.can_read = false;
    f.can_write = false;
    f.st_uid = 0;
    assert!(should_copy(&f));
    f.can_read = true;
    assert!(!should_copy(&f));
    f.st_uid = 65534;
    assert!(!should_copy(&f));
    f.st_uid = 1000;
    assert!(should_copy(&f));
    f.st_uid = 0;
    f.can_write = true;
    assert!(should_copy(&f));
    f.st_mode = 0o020444;
    assert!(should_copy(&f));
}

#[test]
fn the_loaders_cache() {
    assert!(is_ld_so_cache(b"/etc/ld.so.cache"));
    assert!(!is_ld_so_cache(b"/etc/ld.so.cache2"));
    assert!(!is_ld_so_cache(b"/etc/ld.so.cach"));
    assert!(!is_ld_so_cache(b"/etc/ld.so.cachE"));
    assert!(!is_ld_so_cache(b""));
}

fn mapping(path: &[u8], prot: i32, flags: i32) -> KernelMapping {
    KernelMapping { device: 1, inode: 2, file_offset_bytes: 0, size: 4096, fsname: path.to_vec(), prot, flags }
}

#[test]
fn copying_a_mapping_on_this_machine() {
    let env = Environment { rd_tmpdir: None, tmpdir: None, trust_temp_files: Some(b"1".to_vec()) };
    let on = Some(b"1".to_vec());
    let private_exec = mapping(b"/proc/self/status", PROT_EXEC | 1, MAP_PRIVATE);
    assert!(should_copy_mmap_region(&private_exec, 0o020444, 0, &None, &env));
    assert!(should_copy_mmap_region(&private_exec, 0o020444, 0, &Some(Vec::new()), &env));
    assert!(!should_copy_mmap_region(&private_exec, 0o020444, 0, &on, &env));
    assert!(should_copy_mmap_region(&private_exec, 0o100444, 0, &on, &env));
    let gone = mapping(b"/no/such/file", PROT_EXEC | 1, MAP_PRIVATE);
    assert!(should_copy_mmap_region(&gone, 0o020444, 0, &on, &env));
    let tmp = mapping(b"/tmp", PROT_EXEC | 1, MAP_PRIVATE);
    assert!(!should_copy_mmap_region(&tmp, 0o041777, 0, &on, &env));
    let in_tmp = mapping(b"/tmp/", PROT_EXEC | 1, MAP_PRIVATE);
    assert!(should_copy_mmap_region(&in_tmp, 0o041777, 0, &on, &env));
    let shared = mapping(b"/proc/self/status", 1, MAP_SHARED);
    assert!(should_copy_mmap_region(&shared, 0o020444, 1000, &on, &env));
    let private_x_file = mapping(b"/proc/self/status", 1, MAP_PRIVATE);
    assert!(!should_copy_mmap_region(&private_x_file, 0o020555, 1000, &on, &env));
}
