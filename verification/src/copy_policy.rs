//! Whether the bytes of a mapped file go into the trace while recording, or
//! can be taken from the file again on replay.
use crate::dirs::{
    counts_as_tmp, env_flag, has_fs_name, is_tmp_file, readable, writable, Environment, S_IFREG,
};
use crate::emu_file::KernelMapping;
use crate::dirs::starts_with;
use vstd::prelude::*;

verus! {

/// `mmap` flag: changes stay private to the mapping.
pub const MAP_PRIVATE: i32 = 0x02;

/// `mmap` flag: changes are shared with the file.
pub const MAP_SHARED: i32 = 0x01;

/// `mmap` protection: pages may be executed.
pub const PROT_EXEC: i32 = 0x4;

/// The user id that the real root has inside a user namespace.
pub const OVERFLOW_UID: u32 = 65534;

/// What is known of a mapping and of the file behind it when the decision
/// is made.
#[derive(Clone, Copy, Debug)]
pub struct MappingFacts {
    /// `RD_COPY_ALL_FILES` is set and not empty.
    pub heuristics_enabled: bool,
    /// The mapping is private.
    pub private_mapping: bool,
    /// The mapping can be executed.
    pub executable: bool,
    /// A file exists at the mapping's path.
    pub has_fs_name: bool,
    /// Mode of the mapped file.
    pub st_mode: u32,
    /// Owner of the mapped file.
    pub st_uid: u32,
    /// The file counts as temporary.
    pub is_tmp_file: bool,
    /// The file is `/etc/ld.so.cache`.
    pub is_ld_so_cache: bool,
    /// This process may read the file.
    pub can_read: bool,
    /// This process may write the file.
    pub can_write: bool,
}

/// Whether the mapped bytes are to be copied into the trace.
///
/// Everything is copied unless the heuristics are enabled. With them, a
/// file is copied if it cannot be found again, is a regular file, is
/// temporary or is the loader's cache. Of the rest, private mappings that
/// are executable or of an executable file are left alone; then files that
/// cannot be read later are copied; files of root that this process cannot
/// write are left alone; all else is copied.
pub open spec fn copy_decision(f: MappingFacts) -> bool {
    if !f.heuristics_enabled {
        true
    } else if !f.has_fs_name {
        true
    } else if f.st_mode & S_IFREG == S_IFREG {
        true
    } else if f.is_tmp_file {
        true
    } else if f.is_ld_so_cache {
        true
    } else if f.private_mapping && f.executable {
        false
    } else if f.private_mapping && (0o111 & f.st_mode != 0) {
        false
    } else if !f.can_read {
        true
    } else if !f.can_write && (f.st_uid == 0 || f.st_uid == OVERFLOW_UID) {
        false
    } else {
        true
    }
}

/// Decides from the facts whether the mapped bytes are to be copied.
pub fn should_copy(f: &MappingFacts) -> (r: bool)
    ensures
        r == copy_decision(*f),
{
    if !f.heuristics_enabled {
        return true;
    }
    if !f.has_fs_name {
        return true;
    }
    if f.st_mode & S_IFREG == S_IFREG {
        return true;
    }
    if f.is_tmp_file {
        return true;
    }
    if f.is_ld_so_cache {
        return true;
    }
    if f.private_mapping && f.executable {
        return false;
    }
    if f.private_mapping && (0o111 & f.st_mode != 0) {
        return false;
    }
    if !f.can_read {
        return true;
    }
    if !f.can_write && (0 == f.st_uid || OVERFLOW_UID == f.st_uid) {
        return false;
    }
    true
}

/// `/etc/ld.so.cache`
pub open spec fn ld_so_cache() -> Seq<u8> {
    seq![
        0x2fu8, 0x65, 0x74, 0x63, 0x2f, 0x6c, 0x64, 0x2e, 0x73, 0x6f, 0x2e, 0x63, 0x61, 0x63,
        0x68, 0x65,
    ]
}

/// Whether `path` is `/etc/ld.so.cache`.
pub fn is_ld_so_cache(path: &[u8]) -> (r: bool)
    ensures
        r == (path@ == ld_so_cache()),
{
    let name: [u8; 16] = [
        0x2f, 0x65, 0x74, 0x63, 0x2f, 0x6c, 0x64, 0x2e, 0x73, 0x6f, 0x2e, 0x63, 0x61, 0x63,
        0x68, 0x65,
    ];
    proof {
        assert(name@ =~= ld_so_cache());
        if path@.len() == 16 {
            assert(path@.subrange(0, 16) =~= path@);
        }
    }
    path.len() == 16 && starts_with(path, name.as_slice())
}

/// What is known of `mapping` and of its file, of mode `st_mode` and owner
/// `st_uid`, once the file system has said whether the file exists, what
/// type of file system holds it, and whether this process may read and
/// write it.
pub open spec fn facts_of(
    mapping: KernelMapping,
    st_mode: u32,
    st_uid: u32,
    copy_all_files: Option<Vec<u8>>,
    env: Environment,
    has_fs_name: bool,
    fs_type: Option<i64>,
    can_read: bool,
    can_write: bool,
) -> MappingFacts {
    MappingFacts {
        heuristics_enabled: copy_all_files matches Some(v) && v@.len() > 0,
        private_mapping: mapping.flags & MAP_PRIVATE != 0,
        executable: mapping.prot & PROT_EXEC != 0,
        has_fs_name,
        st_mode,
        st_uid,
        is_tmp_file: counts_as_tmp(mapping.fsname@, env, fs_type),
        is_ld_so_cache: mapping.fsname@ == ld_so_cache(),
        can_read,
        can_write,
    }
}

/// Whether the bytes of `mapping`, of a file with mode `st_mode` that
/// belongs to `st_uid`, are to be copied into the trace. Looks at the file
/// system for what the mapping and the mode do not say, and decides as
/// `copy_decision` has it.
pub fn should_copy_mmap_region(
    mapping: &KernelMapping,
    st_mode: u32,
    st_uid: u32,
    copy_all_files: &Option<Vec<u8>>,
    env: &Environment,
) -> (r: bool)
    ensures
        exists|has_fs_name: bool, fs_type: Option<i64>, can_read: bool, can_write: bool|
            r == copy_decision(
                #[trigger] facts_of(
                    *mapping,
                    st_mode,
                    st_uid,
                    *copy_all_files,
                    *env,
                    has_fs_name,
                    fs_type,
                    can_read,
                    can_write,
                ),
            ),
        !(copy_all_files matches Some(v) && v@.len() > 0) ==> r,
        st_mode & S_IFREG == S_IFREG ==> r,
        mapping.fsname@ == ld_so_cache() ==> r,
{
    let path = mapping.fsname.as_slice();
    let exists_there = has_fs_name(path);
    let is_tmp = is_tmp_file(path, env);
    let can_read = readable(path);
    let can_write = writable(path);
    let facts = MappingFacts {
        heuristics_enabled: env_flag(copy_all_files),
        private_mapping: mapping.flags & MAP_PRIVATE != 0,
        executable: mapping.prot & PROT_EXEC != 0,
        has_fs_name: exists_there,
        st_mode,
        st_uid,
        is_tmp_file: is_tmp,
        is_ld_so_cache: is_ld_so_cache(path),
        can_read,
        can_write,
    };
    proof {
        let fs_type = choose|fs_type: Option<i64>|
            is_tmp == #[trigger] counts_as_tmp(mapping.fsname@, *env, fs_type);
        assert(facts == facts_of(
            *mapping,
            st_mode,
            st_uid,
            *copy_all_files,
            *env,
            exists_there,
            fs_type,
            can_read,
            can_write,
        ));
    }
    should_copy(&facts)
}

} // verus!
