//! One emulated file: a backing object that stands in, during replay, for a
//! file that was mapped shared while recording.
use crate::backing::{
    copy_contents, copy_ends, create_memfd_file, own_pid, resize_shmem_segment, EmuFsError,
};
use crate::dirs::{create_tmpfs_file, Environment};
use crate::names::{backing_name, is_printable, make_proc_fd_path, proc_fd_path, NAME_MAX};
use crate::scoped_fd::ScopedFd;
use vstd::prelude::*;

verus! {

/// A mapping as the kernel reported it while recording, as far as the
/// emulated file system reads it.
#[derive(Debug)]
pub struct KernelMapping {
    /// Device of the mapped file.
    pub device: u64,
    /// Inode of the mapped file.
    pub inode: u64,
    /// Where in the file the mapping starts.
    pub file_offset_bytes: u64,
    /// Length of the mapping in bytes.
    pub size: usize,
    /// Path of the mapped file; any bytes, not only UTF-8.
    pub fsname: Vec<u8>,
    /// Protection of the mapping, as `mmap` takes it.
    pub prot: i32,
    /// Flags of the mapping, as `mmap` takes them.
    pub flags: i32,
}

impl KernelMapping {
    /// The least size of a file that holds all of this mapping.
    pub open spec fn min_file_size(&self) -> int {
        self.file_offset_bytes + self.size
    }
}

/// The recorded identity of a file: two are the same file exactly if both
/// device and inode agree.
#[derive(Clone, Copy, Debug, PartialEq, Eq, Hash, Structural)]
pub struct FileId {
    pub device: u64,
    pub inode: u64,
}

impl FileId {
    pub fn new(device: u64, inode: u64) -> (r: FileId)
        ensures
            r == (FileId { device, inode }),
    {
        FileId { device, inode }
    }

    pub fn from_kernel_mapping(recorded_map: &KernelMapping) -> (r: FileId)
        ensures
            r == (FileId { device: recorded_map.device, inode: recorded_map.inode }),
    {
        FileId { device: recorded_map.device, inode: recorded_map.inode }
    }

    pub fn from_emu_file(emu_file: &EmuFile) -> (r: FileId)
        ensures
            r == emu_file@.id(),
    {
        FileId { device: emu_file.device_, inode: emu_file.inode_ }
    }
}

/// An emulated file.
#[derive(Debug)]
pub struct EmuFile {
    orig_path: Vec<u8>,
    tmp_path: Vec<u8>,
    file: ScopedFd,
    size_: u64,
    device_: u64,
    inode_: u64,
}

/// Mathematical model of an [`EmuFile`].
pub struct EmuFileView {
    /// Path of the recorded file that this one emulates.
    pub orig_path: Seq<u8>,
    /// Name of the backing object.
    pub real_path: Seq<u8>,
    /// Raw descriptor of the backing object.
    pub fd: int,
    /// Size of the backing object in bytes.
    pub size: u64,
    /// Recorded device.
    pub device: u64,
    /// Recorded inode.
    pub inode: u64,
}

impl EmuFileView {
    /// The recorded identity.
    pub open spec fn id(self) -> FileId {
        FileId { device: self.device, inode: self.inode }
    }

    /// This file once it is known to need `size` bytes.
    pub open spec fn grown_to(self, size: u64) -> EmuFileView {
        EmuFileView { size: if self.size < size { size } else { self.size }, ..self }
    }
}

impl View for EmuFile {
    type V = EmuFileView;

    closed spec fn view(&self) -> EmuFileView {
        EmuFileView {
            orig_path: self.orig_path@,
            real_path: self.tmp_path@,
            fd: self.file.raw(),
            size: self.size_,
            device: self.device_,
            inode: self.inode_,
        }
    }
}

/// The size that an emulated file of `initial` bytes has after the first
/// `n` of the requests `sizes` were made of it with `ensure_size`.
pub open spec fn size_after(initial: u64, sizes: Seq<u64>, n: nat) -> u64
    decreases n,
{
    if n == 0 {
        initial
    } else {
        let before = size_after(initial, sizes, (n - 1) as nat);
        if before < sizes[n - 1] {
            sizes[n - 1]
        } else {
            before
        }
    }
}

/// The size of an emulated file never decreases, and after any number of
/// requests it is the largest of the initial size and the sizes asked for.
pub proof fn lemma_size_is_running_maximum(initial: u64, sizes: Seq<u64>, n: nat)
    requires
        n <= sizes.len(),
    ensures
        size_after(initial, sizes, n) >= initial,
        forall|i: int| 0 <= i < n ==> size_after(initial, sizes, n) >= sizes[i],
        size_after(initial, sizes, n) == initial || exists|i: int|
            0 <= i < n && size_after(initial, sizes, n) == sizes[i],
        n > 0 ==> size_after(initial, sizes, n) >= size_after(initial, sizes, (n - 1) as nat),
    decreases n,
{
    if n > 0 {
        lemma_size_is_running_maximum(initial, sizes, (n - 1) as nat);
        let before = size_after(initial, sizes, (n - 1) as nat);
        if before < sizes[n - 1] {
            assert(size_after(initial, sizes, n) == sizes[n - 1]);
        } else if before != initial {
            let i = choose|i: int| 0 <= i < n - 1 && before == sizes[i];
            assert(0 <= i < n && size_after(initial, sizes, n) == sizes[i]);
        }
    }
}

/// Copies `bytes`.
fn copy_of(bytes: &Vec<u8>) -> (r: Vec<u8>)
    ensures
        r@ == bytes@,
{
    let mut r: Vec<u8> = Vec::new();
    crate::names::push_bytes(&mut r, bytes.as_slice());
    proof {
        assert(r@ =~= bytes@);
    }
    r
}

impl EmuFile {
    fn new(
        fd: ScopedFd,
        orig_path: &Vec<u8>,
        real_path: Vec<u8>,
        device: u64,
        inode: u64,
        file_size: u64,
    ) -> (r: EmuFile)
        ensures
            r@ == (EmuFileView {
                orig_path: orig_path@,
                real_path: real_path@,
                fd: fd.raw(),
                size: file_size,
                device,
                inode,
            }),
    {
        EmuFile {
            orig_path: copy_of(orig_path),
            tmp_path: real_path,
            file: fd,
            size_: file_size,
            device_: device,
            inode_: inode,
        }
    }

    /// The descriptor of the backing object.
    pub fn fd(&self) -> (r: &ScopedFd)
        ensures
            r.raw() == self@.fd,
    {
        &self.file
    }

    /// A path that names the backing object in this process, such as
    /// `/proc/12345/fd/5`, for the tracee to open.
    pub fn proc_path(&self) -> (r: Vec<u8>)
        ensures
            exists|pid: i32| r@ == #[trigger] proc_fd_path(pid as int, self@.fd),
    {
        let pid = own_pid();
        let r = make_proc_fd_path(pid, self.file.as_raw());
        proof {
            assert(r@ == proc_fd_path(pid as int, self@.fd));
        }
        r
    }

    /// The path of the recorded file that this one emulates.
    pub fn emu_path(&self) -> (r: Vec<u8>)
        ensures
            r@ == self@.orig_path,
    {
        copy_of(&self.orig_path)
    }

    /// The name of the backing object.
    pub fn real_path(&self) -> (r: Vec<u8>)
        ensures
            r@ == self@.real_path,
    {
        copy_of(&self.tmp_path)
    }

    pub fn device(&self) -> (r: u64)
        ensures
            r == self@.device,
    {
        self.device_
    }

    pub fn inode(&self) -> (r: u64)
        ensures
            r == self@.inode,
    {
        self.inode_
    }

    /// The size of the backing object in bytes.
    pub fn size(&self) -> (r: u64)
        ensures
            r == self@.size,
    {
        self.size_
    }

    /// Makes the backing object at least `size` bytes long. Nothing happens
    /// if it is that long already; else it is resized, and if the kernel
    /// refuses, the file stays as it was.
    pub fn ensure_size(&mut self, size: u64) -> (r: Result<(), EmuFsError>)
        ensures
            size <= old(self)@.size ==> r is Ok,
            r is Ok ==> final(self)@ == old(self)@.grown_to(size),
            r is Err ==> final(self)@ == old(self)@ && (r == Err::<(), EmuFsError>(
                EmuFsError::ResizeFailed,
            ) || r == Err::<(), EmuFsError>(EmuFsError::TooLarge)),
            r == Err::<(), EmuFsError>(EmuFsError::TooLarge) ==> size > i64::MAX,
            old(self)@.size < size && size > i64::MAX ==> r == Err::<(), EmuFsError>(
                EmuFsError::TooLarge,
            ),
            final(self)@.size >= old(self)@.size,
    {
        if self.size_ < size {
            match resize_shmem_segment(&self.file, size) {
                Ok(()) => {
                    self.size_ = size;
                },
                Err(e) => {
                    return Err(e);
                },
            }
        }
        Ok(())
    }

    /// Makes sure that the file is large enough for a later mapping of the
    /// same recorded file.
    pub fn update(&mut self, device: u64, inode: u64, size: u64) -> (r: Result<(), EmuFsError>)
        requires
            old(self)@.device == device,
            old(self)@.inode == inode,
        ensures
            size <= old(self)@.size ==> r is Ok,
            r is Ok ==> final(self)@ == old(self)@.grown_to(size),
            r is Err ==> final(self)@ == old(self)@ && (r == Err::<(), EmuFsError>(
                EmuFsError::ResizeFailed,
            ) || r == Err::<(), EmuFsError>(EmuFsError::TooLarge)),
            r == Err::<(), EmuFsError>(EmuFsError::TooLarge) ==> size > i64::MAX,
            old(self)@.size < size && size > i64::MAX ==> r == Err::<(), EmuFsError>(
                EmuFsError::TooLarge,
            ),
    {
        self.ensure_size(size)
    }

    /// A new emulated file with its own backing object, which emulates the
    /// same recorded file, has the same size, and holds a copy of what this
    /// one's backing object holds now.
    pub fn clone_file(&self, env: &Environment) -> (r: Result<EmuFile, EmuFsError>)
        ensures
            r matches Ok(g) ==> {
                &&& g@.size == self@.size
                &&& g@.device == self@.device
                &&& g@.inode == self@.inode
                &&& g@.orig_path == self@.orig_path
                &&& exists|pid: i32|
                    g@.real_path == #[trigger] backing_name(
                        pid as int,
                        self@.device,
                        self@.inode,
                        self@.orig_path,
                    )
                &&& exists|answers: Seq<Option<usize>>|
                    #[trigger] copy_ends(self@.size, answers, Ok::<(), EmuFsError>(()))
            },
            r matches Err(e) ==> e == EmuFsError::CreateFailed || e == EmuFsError::ResizeFailed
                || exists|answers: Seq<Option<usize>>|
                #[trigger] copy_ends(self@.size, answers, Err::<(), EmuFsError>(e)),
            r is Err ==> r != Err::<EmuFile, EmuFsError>(EmuFsError::TooManyHandles),
    {
        let mut f = match EmuFile::create(
            &self.orig_path,
            self.device_,
            self.inode_,
            self.size_,
            env,
        ) {
            Ok(f) => f,
            Err(e) => {
                proof {
                    if e == EmuFsError::TooLarge {
                        assert(copy_ends(
                            self@.size,
                            Seq::<Option<usize>>::empty(),
                            Err::<(), EmuFsError>(e),
                        ));
                    }
                }
                return Err(e);
            },
        };
        let copied = copy_contents(&self.file, &f.file, self.size_);
        proof {
            let pid = choose|pid: i32|
                f@.real_path == #[trigger] backing_name(
                    pid as int,
                    self.device_,
                    self.inode_,
                    self.orig_path@,
                );
            assert(f@.real_path == backing_name(
                pid as int,
                self@.device,
                self@.inode,
                self@.orig_path,
            ));
            let answers = choose|answers: Seq<Option<usize>>|
                #[trigger] copy_ends(self.size_, answers, copied);
            assert(copy_ends(self@.size, answers, copied));
        }
        match copied {
            Ok(()) => Ok(f),
            Err(e) => {
                f.file.close();
                Err(e)
            },
        }
    }

    /// Creates an emulated file for the file recorded as
    /// `(orig_device, orig_inode)` at `orig_path`, with a fresh backing
    /// object of `orig_file_size` bytes: a memory file, or where the kernel
    /// gives none, an unlinked file in a temporary directory that `env`
    /// allows.
    pub fn create(
        orig_path: &Vec<u8>,
        orig_device: u64,
        orig_inode: u64,
        orig_file_size: u64,
        env: &Environment,
    ) -> (r: Result<EmuFile, EmuFsError>)
        ensures
            r matches Ok(f) ==> {
                &&& f@.orig_path == orig_path@
                &&& f@.device == orig_device
                &&& f@.inode == orig_inode
                &&& f@.size == orig_file_size
                &&& f@.real_path.len() <= NAME_MAX
                &&& forall|i: int|
                    0 <= i < f@.real_path.len() ==> is_printable(#[trigger] f@.real_path[i])
                &&& exists|pid: i32|
                    f@.real_path == #[trigger] backing_name(
                        pid as int,
                        orig_device,
                        orig_inode,
                        orig_path@,
                    )
            },
            r is Err ==> r == Err::<EmuFile, EmuFsError>(EmuFsError::CreateFailed) || r == Err::<
                EmuFile,
                EmuFsError,
            >(EmuFsError::ResizeFailed) || r == Err::<EmuFile, EmuFsError>(EmuFsError::TooLarge),
            r == Err::<EmuFile, EmuFsError>(EmuFsError::TooLarge) ==> orig_file_size > i64::MAX,
    {
        let (mut fd, real_name) = match create_memfd_file(orig_path, orig_device, orig_inode) {
            Some(fd_and_name) => fd_and_name,
            None => {
                let pid = own_pid();
                match create_tmpfs_file(pid, orig_path, orig_device, orig_inode, env) {
                    Some(fd_and_name) => {
                        assert(fd_and_name.1@ == backing_name(
                            pid as int,
                            orig_device,
                            orig_inode,
                            orig_path@,
                        ));
                        fd_and_name
                    },
                    None => {
                        return Err(EmuFsError::CreateFailed);
                    },
                }
            },
        };
        match resize_shmem_segment(&fd, orig_file_size) {
            Ok(()) => {},
            Err(e) => {
                fd.close();
                return Err(e);
            },
        }
        Ok(EmuFile::new(fd, orig_path, real_name, orig_device, orig_inode, orig_file_size))
    }

    /// Gives up the backing object.
    pub(crate) fn release_backing(&mut self)
        ensures
            final(self)@ == (EmuFileView { fd: -1, ..old(self)@ }),
    {
        self.file.close();
    }
}

} // verus!
