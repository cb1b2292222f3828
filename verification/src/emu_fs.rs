//! The emulated file system: the registry of the emulated files that are in
//! use, by the recorded identity of the file each one stands in for.
//!
//! The registry owns the files. Holders keep handles; a file lives as long
//! as some handle to it is held, and leaves the registry when the last one
//! is released. An identity can be used again after that, which is what
//! makes recycled inodes safe: the holder of the old file releases it before
//! a mapping of the new file is replayed.
use crate::backing::{copy_ends, EmuFsError};
use crate::names::backing_name;
use crate::dirs::Environment;
use crate::emu_file::{EmuFile, EmuFileView, FileId, KernelMapping};
use vstd::prelude::*;

verus! {

/// A handle to an emulated file. Two handles are equal exactly if they
/// stand for the same file; no two files ever get equal handles.
#[derive(Clone, Copy, Debug, PartialEq, Eq, Structural)]
pub struct EmuFileSharedPtr {
    slot: usize,
}

impl EmuFileSharedPtr {
    /// Files are numbered in the order of their creation.
    pub closed spec fn index(self) -> nat {
        self.slot as nat
    }
}

struct Slot {
    file: EmuFile,
    /// Number of handles held; the file is gone once this is 0.
    strong: usize,
}

struct Registration {
    id: FileId,
    slot: usize,
}

/// The emulated file system.
pub struct EmuFs {
    slots: Vec<Slot>,
    files: Vec<Registration>,
    env: Environment,
}

spec fn registry(files: Seq<Registration>) -> Map<FileId, EmuFileSharedPtr>
    decreases files.len(),
{
    if files.len() == 0 {
        Map::empty()
    } else {
        registry(files.drop_last()).insert(
            files.last().id,
            EmuFileSharedPtr { slot: files.last().slot },
        )
    }
}

spec fn distinct(files: Seq<Registration>) -> bool {
    forall|i: int, j: int|
        0 <= i < j < files.len() ==> (#[trigger] files[i]).id != (#[trigger] files[j]).id
}

proof fn lemma_registry_contains(files: Seq<Registration>, id: FileId)
    ensures
        registry(files).contains_key(id) <==> exists|i: int|
            0 <= i < files.len() && (#[trigger] files[i]).id == id,
    decreases files.len(),
{
    if files.len() > 0 {
        lemma_registry_contains(files.drop_last(), id);
        if registry(files).contains_key(id) {
            if files.last().id == id {
                assert(files[files.len() - 1].id == id);
            } else {
                let i = choose|i: int|
                    0 <= i < files.drop_last().len() && (#[trigger] files.drop_last()[i]).id == id;
                assert(files[i].id == id);
            }
        }
        if exists|i: int| 0 <= i < files.len() && (#[trigger] files[i]).id == id {
            let i = choose|i: int| 0 <= i < files.len() && (#[trigger] files[i]).id == id;
            if i < files.len() - 1 {
                assert(files.drop_last()[i].id == id);
            }
        }
    }
}

proof fn lemma_registry_at(files: Seq<Registration>, i: int)
    requires
        distinct(files),
        0 <= i < files.len(),
    ensures
        registry(files).contains_key(files[i].id),
        registry(files)[files[i].id] == (EmuFileSharedPtr { slot: files[i].slot }),
    decreases files.len(),
{
    if i < files.len() - 1 {
        assert(files.drop_last()[i] == files[i]);
        assert(distinct(files.drop_last())) by {
            assert forall|a: int, b: int| 0 <= a < b < files.drop_last().len() implies (
            #[trigger] files.drop_last()[a]).id != (#[trigger] files.drop_last()[b]).id by {
                assert(files[a].id != files[b].id);
            }
        }
        lemma_registry_at(files.drop_last(), i);
        assert(files[i].id != files[files.len() - 1].id);
    }
}

proof fn lemma_registry_len(files: Seq<Registration>)
    requires
        distinct(files),
    ensures
        registry(files).dom().finite(),
        registry(files).dom().len() == files.len(),
    decreases files.len(),
{
    if files.len() > 0 {
        assert(distinct(files.drop_last())) by {
            assert forall|a: int, b: int| 0 <= a < b < files.drop_last().len() implies (
            #[trigger] files.drop_last()[a]).id != (#[trigger] files.drop_last()[b]).id by {
                assert(files[a].id != files[b].id);
            }
        }
        lemma_registry_len(files.drop_last());
        lemma_registry_contains(files.drop_last(), files.last().id);
        if registry(files.drop_last()).contains_key(files.last().id) {
            let i = choose|i: int|
                0 <= i < files.drop_last().len() && (#[trigger] files.drop_last()[i]).id
                    == files.last().id;
            assert(files[i].id != files[files.len() - 1].id);
        }
        assert(registry(files).dom() =~= registry(files.drop_last()).dom().insert(files.last().id));
    } else {
        assert(registry(files).dom() =~= Set::empty());
    }
}

proof fn lemma_registry_push(files: Seq<Registration>, r: Registration)
    ensures
        registry(files.push(r)) == registry(files).insert(r.id, EmuFileSharedPtr { slot: r.slot }),
{
    assert(files.push(r).drop_last() =~= files);
}

proof fn lemma_registry_remove(files: Seq<Registration>, i: int)
    requires
        distinct(files),
        0 <= i < files.len(),
    ensures
        registry(files.remove(i)) == registry(files).remove(files[i].id),
        distinct(files.remove(i)),
    decreases files.len(),
{
    let rest = files.remove(i);
    assert(distinct(rest)) by {
        assert forall|a: int, b: int| 0 <= a < b < rest.len() implies (#[trigger] rest[a]).id != (
        #[trigger] rest[b]).id by {
            let a0 = if a < i { a } else { a + 1 };
            let b0 = if b < i { b } else { b + 1 };
            assert(files[a0].id != files[b0].id);
        }
    }
    assert(distinct(files.drop_last())) by {
        assert forall|a: int, b: int| 0 <= a < b < files.drop_last().len() implies (
        #[trigger] files.drop_last()[a]).id != (#[trigger] files.drop_last()[b]).id by {
            assert(files[a].id != files[b].id);
        }
    }
    if i == files.len() - 1 {
        assert(rest =~= files.drop_last());
        lemma_registry_contains(files.drop_last(), files[i].id);
        if registry(files.drop_last()).contains_key(files[i].id) {
            let k = choose|k: int|
                0 <= k < files.drop_last().len() && (#[trigger] files.drop_last()[k]).id
                    == files[i].id;
            assert(files[k].id != files[i].id);
        }
        assert(registry(rest) =~= registry(files).remove(files[i].id));
    } else {
        assert(rest.drop_last() =~= files.drop_last().remove(i));
        assert(rest.last() == files.last());
        assert(files.drop_last()[i] == files[i]);
        lemma_registry_remove(files.drop_last(), i);
        assert(files[i].id != files[files.len() - 1].id);
        assert(registry(rest) =~= registry(files).remove(files[i].id));
    }
}

/// Every registration names a file that is in use and has the identity it
/// is registered under.
spec fn registered_well(files: Seq<Registration>, slots: Seq<Slot>) -> bool {
    forall|k: int|
        0 <= k < files.len() ==> {
            &&& (#[trigger] files[k]).slot < slots.len()
            &&& slots[files[k].slot as int].strong > 0
            &&& slots[files[k].slot as int].file@.id() == files[k].id
        }
}

/// The registrations stay good when one file changes and either stays in
/// use under its identity or is not registered.
proof fn lemma_registered_well_kept(
    files: Seq<Registration>,
    before: Seq<Slot>,
    after: Seq<Slot>,
    changed: int,
)
    requires
        registered_well(files, before),
        after.len() == before.len(),
        0 <= changed < before.len(),
        forall|s: int| 0 <= s < before.len() && s != changed ==> after[s] == before[s],
        (after[changed].strong > 0 && after[changed].file@.id() == before[changed].file@.id())
            || forall|k: int| 0 <= k < files.len() ==> (#[trigger] files[k]).slot != changed,
    ensures
        registered_well(files, after),
{
    assert forall|k: int| 0 <= k < files.len() implies {
        &&& (#[trigger] files[k]).slot < after.len()
        &&& after[files[k].slot as int].strong > 0
        &&& after[files[k].slot as int].file@.id() == files[k].id
    } by {
        assert(files[k].slot < before.len());
    }
}

/// The registrations stay good when one of them is taken out.
proof fn lemma_registered_well_remove(files: Seq<Registration>, slots: Seq<Slot>, i: int)
    requires
        registered_well(files, slots),
        0 <= i < files.len(),
    ensures
        registered_well(files.remove(i), slots),
{
    let rest = files.remove(i);
    assert forall|k: int| 0 <= k < rest.len() implies {
        &&& (#[trigger] rest[k]).slot < slots.len()
        &&& slots[rest[k].slot as int].strong > 0
        &&& slots[rest[k].slot as int].file@.id() == rest[k].id
    } by {
        let k0 = if k < i {
            k
        } else {
            k + 1
        };
        assert(rest[k] == files[k0]);
    }
}

/// Files that were kept up to `b` are kept in `c`, which holds the same
/// files as `b`.
proof fn lemma_kept_on(a: &EmuFs, b: &EmuFs, c: &EmuFs, h: EmuFileSharedPtr)
    requires
        b.others_kept(a, h),
        c.slots@ == b.slots@,
    ensures
        c.others_kept(a, h),
        c.strong_count(h) == b.strong_count(h),
        c.file(h) == b.file(h),
        c.issued() == b.issued(),
{
    assert forall|o: EmuFileSharedPtr| o != h implies c.strong_count(o) == a.strong_count(o) && (
    a.live(o) ==> c.file(o) == a.file(o)) by {
        assert(b.strong_count(o) == c.strong_count(o));
        assert(b.file(o) == c.file(o));
    }
}

impl View for EmuFs {
    type V = Map<FileId, EmuFileSharedPtr>;

    /// The registered files: at most one for each recorded identity.
    closed spec fn view(&self) -> Map<FileId, EmuFileSharedPtr> {
        registry(self.files@)
    }
}

impl EmuFs {
    /// What this emufs takes for its environment when it looks for a
    /// temporary directory.
    pub closed spec fn environment(&self) -> Environment {
        self.env
    }

    /// Number of files created so far, released ones included.
    pub closed spec fn issued(&self) -> nat {
        self.slots@.len()
    }

    /// Number of handles to the file of `h` that are held.
    pub closed spec fn strong_count(&self, h: EmuFileSharedPtr) -> nat {
        if h.slot < self.slots@.len() {
            self.slots@[h.slot as int].strong as nat
        } else {
            0
        }
    }

    /// Whether the file of `h` is in use.
    pub open spec fn live(&self, h: EmuFileSharedPtr) -> bool {
        self.strong_count(h) > 0
    }

    /// The file of `h`.
    pub closed spec fn file(&self, h: EmuFileSharedPtr) -> EmuFileView {
        self.slots@[h.slot as int].file@
    }

    /// The registry's invariant: no identity is registered twice, and every
    /// registered file is in use and has the identity it is registered
    /// under.
    pub closed spec fn wf(&self) -> bool {
        &&& distinct(self.files@)
        &&& registered_well(self.files@, self.slots@)
    }

    /// Every file but that of `h` is as it was in `before`.
    pub open spec fn others_kept(&self, before: &EmuFs, h: EmuFileSharedPtr) -> bool {
        forall|o: EmuFileSharedPtr|
            #![trigger self.strong_count(o)]
            #![trigger self.file(o)]
            o != h ==> self.strong_count(o) == before.strong_count(o) && (before.live(o)
                ==> self.file(o) == before.file(o))
    }

    /// Every file is as it was in `before`.
    pub open spec fn all_kept(&self, before: &EmuFs) -> bool {
        forall|o: EmuFileSharedPtr|
            #![trigger self.strong_count(o)]
            #![trigger self.file(o)]
            self.strong_count(o) == before.strong_count(o) && (before.live(o) ==> self.file(o)
                == before.file(o))
    }

    /// At any time at most one file is registered for an identity, the
    /// registered file is in use, it has the identity it is registered
    /// under, and it was created by this registry.
    pub proof fn lemma_one_file_per_identity(&self, id: FileId)
        requires
            self.wf(),
            self@.contains_key(id),
        ensures
            self.live(self@[id]),
            self.file(self@[id]).id() == id,
            self@[id].index() < self.issued(),
            self@.dom().finite(),
    {
        lemma_registry_contains(self.files@, id);
        let i = choose|i: int| 0 <= i < self.files@.len() && (#[trigger] self.files@[i]).id == id;
        lemma_registry_at(self.files@, i);
        lemma_registry_len(self.files@);
    }

    /// Create and return a new emufs, with no file in it, that takes no
    /// variable of the environment for set.
    pub fn create() -> (r: EmuFs)
        ensures
            r.wf(),
            r@ == Map::<FileId, EmuFileSharedPtr>::empty(),
            r.issued() == 0,
            forall|h: EmuFileSharedPtr| !r.live(h),
            r.environment() == (Environment {
                rd_tmpdir: None,
                tmpdir: None,
                trust_temp_files: None,
            }),
    {
        EmuFs {
            slots: Vec::new(),
            files: Vec::new(),
            env: Environment { rd_tmpdir: None, tmpdir: None, trust_temp_files: None },
        }
    }

    /// A new emufs, with no file in it, that looks for temporary directories
    /// as `env` says where the kernel gives no memory files.
    pub fn create_in(env: Environment) -> (r: EmuFs)
        ensures
            r.wf(),
            r@ == Map::<FileId, EmuFileSharedPtr>::empty(),
            r.issued() == 0,
            forall|h: EmuFileSharedPtr| !r.live(h),
            r.environment() == env,
    {
        EmuFs { slots: Vec::new(), files: Vec::new(), env }
    }

    fn position(&self, id: FileId) -> (r: Option<usize>)
        requires
            self.wf(),
        ensures
            match r {
                Some(i) => {
                    &&& i < self.files@.len()
                    &&& self.files@[i as int].id == id
                    &&& self@.contains_key(id)
                    &&& self@[id] == (EmuFileSharedPtr { slot: self.files@[i as int].slot })
                },
                None => !self@.contains_key(id),
            },
    {
        let mut i: usize = 0;
        while i < self.files.len()
            invariant
                self.wf(),
                i <= self.files.len(),
                forall|k: int| 0 <= k < i ==> (#[trigger] self.files@[k]).id != id,
            decreases self.files.len() - i,
        {
            let reg = &self.files[i];
            if reg.id.device == id.device && reg.id.inode == id.inode {
                proof {
                    lemma_registry_at(self.files@, i as int);
                }
                return Some(i);
            }
            i = i + 1;
        }
        proof {
            lemma_registry_contains(self.files@, id);
        }
        None
    }

    /// The registered file for the given device and inode, if there is one.
    /// The handle is lent: the file may go when its holders release it.
    pub fn find(&self, device: u64, inode: u64) -> (r: Option<EmuFileSharedPtr>)
        requires
            self.wf(),
        ensures
            r == (if self@.contains_key(FileId { device, inode }) {
                Some(self@[FileId { device, inode }])
            } else {
                None
            }),
            r matches Some(h) ==> self.live(h) && self.file(h).id() == (FileId { device, inode }),
    {
        let id = FileId::new(device, inode);
        match self.position(id) {
            Some(i) => {
                proof {
                    self.lemma_one_file_per_identity(id);
                }
                Some(EmuFileSharedPtr { slot: self.files[i].slot })
            },
            None => None,
        }
    }

    /// The registered file for `recorded_map`, if there is one.
    pub fn at(&self, recorded_map: &KernelMapping) -> (r: Option<EmuFileSharedPtr>)
        requires
            self.wf(),
        ensures
            r == (if self@.contains_key(
                FileId { device: recorded_map.device, inode: recorded_map.inode },
            ) {
                Some(self@[FileId { device: recorded_map.device, inode: recorded_map.inode }])
            } else {
                None
            }),
            r matches Some(h) ==> self.live(h) && self.file(h).id() == (FileId {
                device: recorded_map.device,
                inode: recorded_map.inode,
            }),
    {
        self.find(recorded_map.device, recorded_map.inode)
    }

    /// Whether a file is registered for `recorded_map`.
    pub fn has_file_for(&self, recorded_map: &KernelMapping) -> (r: bool)
        requires
            self.wf(),
        ensures
            r == self@.contains_key(
                FileId { device: recorded_map.device, inode: recorded_map.inode },
            ),
    {
        self.position(FileId::from_kernel_mapping(recorded_map)).is_some()
    }

    /// Number of registered files.
    pub fn size(&self) -> (r: usize)
        requires
            self.wf(),
        ensures
            r == self@.len(),
    {
        proof {
            lemma_registry_len(self.files@);
        }
        self.files.len()
    }

    /// The registered files, each once, in no particular order.
    pub fn registered_files(&self) -> (r: Vec<EmuFileSharedPtr>)
        requires
            self.wf(),
        ensures
            r@.len() == self@.len(),
            r@.no_duplicates(),
            forall|i: int|
                0 <= i < r@.len() ==> self.live(#[trigger] r@[i]) && self@.contains_key(
                    self.file(r@[i]).id(),
                ) && self@[self.file(r@[i]).id()] == r@[i],
    {
        let mut r: Vec<EmuFileSharedPtr> = Vec::new();
        let mut i: usize = 0;
        proof {
            lemma_registry_len(self.files@);
        }
        while i < self.files.len()
            invariant
                self.wf(),
                i <= self.files.len(),
                r@.len() == i,
                forall|k: int| 0 <= k < i ==> (#[trigger] r@[k]).slot == self.files@[k].slot,
            decreases self.files.len() - i,
        {
            r.push(EmuFileSharedPtr { slot: self.files[i].slot });
            i = i + 1;
        }
        proof {
            assert forall|k: int| 0 <= k < r@.len() implies self.live(#[trigger] r@[k])
                && self@.contains_key(self.file(r@[k]).id()) && self@[self.file(r@[k]).id()]
                == r@[k] by {
                lemma_registry_at(self.files@, k);
            }
            assert forall|a: int, b: int| 0 <= a < r@.len() && 0 <= b < r@.len() && a
                != b implies r@[a] != r@[b] by {
                lemma_registry_at(self.files@, a);
                lemma_registry_at(self.files@, b);
                assert(self.files@[a].id != self.files@[b].id);
            }
        }
        r
    }

    /// The file of `h`, which must be in use.
    pub fn get(&self, h: EmuFileSharedPtr) -> (r: &EmuFile)
        requires
            self.live(h),
        ensures
            r@ == self.file(h),
    {
        &self.slots[h.slot].file
    }

    /// Whether the file of `h` is in use.
    pub fn is_live(&self, h: EmuFileSharedPtr) -> (r: bool)
        ensures
            r == self.live(h),
    {
        h.slot < self.slots.len() && self.slots[h.slot].strong > 0
    }

    /// Number of handles to the file of `h` that are held.
    pub fn handles(&self, h: EmuFileSharedPtr) -> (r: usize)
        ensures
            r == self.strong_count(h),
    {
        if h.slot < self.slots.len() {
            self.slots[h.slot].strong
        } else {
            0
        }
    }

    /// Takes the registration of the identity of `emu_file` out of the
    /// registry, whichever file it names. Called when a file goes.
    pub fn destroyed_file(&mut self, emu_file: &EmuFile)
        requires
            old(self).wf(),
        ensures
            final(self).wf(),
            final(self).environment() == old(self).environment(),
            final(self)@ == old(self)@.remove(emu_file@.id()),
            final(self).issued() == old(self).issued(),
            final(self).all_kept(old(self)),
    {
        self.unregister(FileId::from_emu_file(emu_file));
    }

    fn unregister(&mut self, id: FileId)
        requires
            old(self).wf(),
        ensures
            final(self).wf(),
            final(self).environment() == old(self).environment(),
            final(self)@ == old(self)@.remove(id),
            final(self).slots == old(self).slots,
    {
        match self.position(id) {
            Some(i) => {
                proof {
                    lemma_registry_remove(self.files@, i as int);
                }
                self.files.remove(i);
                proof {
                    lemma_registered_well_remove(old(self).files@, self.slots@, i as int);
                }
            },
            None => {
                proof {
                    assert(self@ =~= old(self)@.remove(id));
                }
            },
        }
    }

    fn register(&mut self, id: FileId, slot: usize)
        requires
            old(self).wf(),
            !old(self)@.contains_key(id),
            slot < old(self).slots@.len(),
            old(self).slots@[slot as int].strong > 0,
            old(self).slots@[slot as int].file@.id() == id,
        ensures
            final(self).wf(),
            final(self).environment() == old(self).environment(),
            final(self)@ == old(self)@.insert(id, EmuFileSharedPtr { slot }),
            final(self).slots == old(self).slots,
    {
        proof {
            lemma_registry_push(self.files@, Registration { id, slot });
            lemma_registry_contains(self.files@, id);
        }
        self.files.push(Registration { id, slot });
    }

    /// Takes in a new file, held by one handle, and returns the handle.
    fn adopt(&mut self, file: EmuFile) -> (h: EmuFileSharedPtr)
        requires
            old(self).wf(),
        ensures
            final(self).wf(),
            final(self).environment() == old(self).environment(),
            final(self)@ == old(self)@,
            final(self).files == old(self).files,
            h.index() == old(self).issued(),
            final(self).issued() == old(self).issued() + 1,
            final(self).strong_count(h) == 1,
            final(self).file(h) == file@,
            final(self).others_kept(old(self), h),
            h.slot < final(self).slots@.len(),
            final(self).slots@[h.slot as int].strong == 1,
            final(self).slots@[h.slot as int].file@ == file@,
    {
        let slot = self.slots.len();
        self.slots.push(Slot { file, strong: 1 });
        EmuFileSharedPtr { slot }
    }

    /// Returns the emulated file for the recorded shared mapping
    /// `recorded_km`, held by one more handle than before.
    ///
    /// If a file is registered for the mapping's device and inode, it is
    /// that file, grown to hold the mapping if it was smaller. Else it is a
    /// new file of just that size, registered from now on.
    ///
    /// Fails with `TooLarge` if the end of the mapping is no file offset,
    /// with `CreateFailed` or `ResizeFailed` if the kernel refuses, and with
    /// `TooManyHandles` if the handles cannot be counted; then nothing has
    /// changed.
    pub fn get_or_create(&mut self, recorded_km: &KernelMapping) -> (r: Result<
        EmuFileSharedPtr,
        EmuFsError,
    >)
        requires
            old(self).wf(),
        ensures
            final(self).wf(),
            final(self).environment() == old(self).environment(),
            ({
                let id = FileId { device: recorded_km.device, inode: recorded_km.inode };
                let min_file_size = recorded_km.min_file_size();
                match r {
                    Ok(h) => {
                        &&& min_file_size <= u64::MAX
                        &&& final(self)@ == old(self)@.insert(id, h)
                        &&& final(self).others_kept(old(self), h)
                        &&& if old(self)@.contains_key(id) {
                            &&& h == old(self)@[id]
                            &&& final(self).issued() == old(self).issued()
                            &&& final(self).strong_count(h) == old(self).strong_count(h) + 1
                            &&& final(self).file(h) == old(self).file(h).grown_to(
                                min_file_size as u64,
                            )
                        } else {
                            &&& h.index() == old(self).issued()
                            &&& final(self).issued() == old(self).issued() + 1
                            &&& final(self).strong_count(h) == 1
                            &&& final(self).file(h).id() == id
                            &&& final(self).file(h).size == min_file_size
                            &&& final(self).file(h).orig_path == recorded_km.fsname@
                            &&& exists|pid: i32|
                                final(self).file(h).real_path == #[trigger] backing_name(
                                    pid as int,
                                    recorded_km.device,
                                    recorded_km.inode,
                                    recorded_km.fsname@,
                                )
                        }
                    },
                    Err(e) => {
                        &&& final(self)@ == old(self)@
                        &&& final(self).issued() == old(self).issued()
                        &&& final(self).all_kept(old(self))
                        &&& e == EmuFsError::TooLarge ==> min_file_size > i64::MAX
                        &&& e == EmuFsError::TooManyHandles ==> old(self)@.contains_key(id) && old(
                            self,
                        ).strong_count(old(self)@[id]) == usize::MAX
                        &&& e != EmuFsError::ReadFailed && e != EmuFsError::WriteFailed
                        &&& e == EmuFsError::CreateFailed ==> !old(self)@.contains_key(id)
                    },
                }
            }),
            recorded_km.min_file_size() > u64::MAX ==> r == Err::<EmuFileSharedPtr, EmuFsError>(
                EmuFsError::TooLarge,
            ),
            ({
                let id = FileId { device: recorded_km.device, inode: recorded_km.inode };
                old(self)@.contains_key(id) && recorded_km.min_file_size() <= old(self).file(
                    old(self)@[id],
                ).size && old(self).strong_count(old(self)@[id]) < usize::MAX ==> r is Ok
            }),
    {
        let file_id = FileId::from_kernel_mapping(recorded_km);
        let min_file_size: u64 = match recorded_km.file_offset_bytes.checked_add(
            recorded_km.size as u64,
        ) {
            Some(n) => n,
            None => {
                return Err(EmuFsError::TooLarge);
            },
        };
        match self.position(file_id) {
            Some(i) => {
                let slot = self.files[i].slot;
                if self.slots[slot].strong == usize::MAX {
                    return Err(EmuFsError::TooManyHandles);
                }
                match self.slots[slot].file.update(
                    recorded_km.device,
                    recorded_km.inode,
                    min_file_size,
                ) {
                    Ok(()) => {},
                    Err(e) => {
                        return Err(e);
                    },
                }
                self.slots[slot].strong = self.slots[slot].strong + 1;
                let h = EmuFileSharedPtr { slot };
                proof {
                    assert forall|o: EmuFileSharedPtr| o != h implies self.strong_count(o) == old(
                        self,
                    ).strong_count(o) && (old(self).live(o) ==> self.file(o) == old(self).file(o)) by {
                        assert(o.slot != slot);
                    }
                    assert(self@ =~= old(self)@.insert(file_id, h));
                    lemma_registered_well_kept(self.files@, old(self).slots@, self.slots@, slot as int);
                }
                Ok(h)
            },
            None => {
                let vf = match EmuFile::create(
                    &recorded_km.fsname,
                    recorded_km.device,
                    recorded_km.inode,
                    min_file_size,
                    &self.env,
                ) {
                    Ok(vf) => vf,
                    Err(e) => {
                        return Err(e);
                    },
                };
                let h = self.adopt(vf);
                let ghost mid = *self;
                self.register(file_id, h.slot);
                proof {
                    lemma_kept_on(old(self), &mid, self, h);
                }
                Ok(h)
            },
        }
    }

    /// Makes a copy of the file of `emu_file`, which must be in use, with a
    /// backing object of its own that holds what the first one's holds now,
    /// and registers the copy in place of whatever was registered for that
    /// identity. The file copied stays in use for those who hold it. Returns
    /// the one handle to the copy.
    ///
    /// Fails if the kernel refuses the new backing object or the copy cannot
    /// be completed; then nothing has changed.
    pub fn clone_file(&mut self, emu_file: EmuFileSharedPtr) -> (r: Result<
        EmuFileSharedPtr,
        EmuFsError,
    >)
        requires
            old(self).wf(),
            old(self).live(emu_file),
        ensures
            final(self).wf(),
            final(self).environment() == old(self).environment(),
            match r {
                Ok(g) => {
                    &&& g.index() == old(self).issued()
                    &&& final(self).issued() == old(self).issued() + 1
                    &&& final(self)@ == old(self)@.insert(old(self).file(emu_file).id(), g)
                    &&& final(self).strong_count(g) == 1
                    &&& final(self).others_kept(old(self), g)
                    &&& final(self).file(g).size == old(self).file(emu_file).size
                    &&& final(self).file(g).device == old(self).file(emu_file).device
                    &&& final(self).file(g).inode == old(self).file(emu_file).inode
                    &&& final(self).file(g).orig_path == old(self).file(emu_file).orig_path
                    &&& exists|pid: i32|
                        final(self).file(g).real_path == #[trigger] backing_name(
                            pid as int,
                            old(self).file(emu_file).device,
                            old(self).file(emu_file).inode,
                            old(self).file(emu_file).orig_path,
                        )
                    &&& exists|answers: Seq<Option<usize>>|
                        #[trigger] copy_ends(
                            old(self).file(emu_file).size,
                            answers,
                            Ok::<(), EmuFsError>(()),
                        )
                },
                Err(e) => {
                    &&& final(self)@ == old(self)@
                    &&& final(self).issued() == old(self).issued()
                    &&& final(self).all_kept(old(self))
                    &&& e != EmuFsError::TooManyHandles
                    &&& e == EmuFsError::CreateFailed || e == EmuFsError::ResizeFailed
                        || exists|answers: Seq<Option<usize>>|
                        #[trigger] copy_ends(
                            old(self).file(emu_file).size,
                            answers,
                            Err::<(), EmuFsError>(e),
                        )
                },
            },
    {
        let ghost source = self.slots@[emu_file.slot as int].file@;
        let f = match self.slots[emu_file.slot].file.clone_file(&self.env) {
            Ok(f) => f,
            Err(e) => {
                proof {
                    if e != EmuFsError::CreateFailed && e != EmuFsError::ResizeFailed {
                        let answers = choose|answers: Seq<Option<usize>>|
                            #[trigger] copy_ends(source.size, answers, Err::<(), EmuFsError>(e));
                        assert(copy_ends(
                            old(self).file(emu_file).size,
                            answers,
                            Err::<(), EmuFsError>(e),
                        ));
                    }
                }
                return Err(e);
            },
        };
        proof {
            let pid = choose|pid: i32|
                f@.real_path == #[trigger] backing_name(
                    pid as int,
                    source.device,
                    source.inode,
                    source.orig_path,
                );
            assert(f@.real_path == backing_name(
                pid as int,
                old(self).file(emu_file).device,
                old(self).file(emu_file).inode,
                old(self).file(emu_file).orig_path,
            ));
            let answers = choose|answers: Seq<Option<usize>>|
                #[trigger] copy_ends(source.size, answers, Ok::<(), EmuFsError>(()));
            assert(copy_ends(old(self).file(emu_file).size, answers, Ok::<(), EmuFsError>(())));
        }
        let id = FileId::from_emu_file(&f);
        let g = self.adopt(f);
        let ghost mid = *self;
        self.unregister(id);
        self.register(id, g.slot);
        proof {
            lemma_kept_on(old(self), &mid, self, g);
            assert(self@ =~= old(self)@.insert(id, g));
        }
        Ok(g)
    }

    /// Takes one more handle to the file of `h`, which must be in use.
    /// Fails, changing nothing, if the handles cannot be counted.
    pub fn retain(&mut self, h: EmuFileSharedPtr) -> (r: Result<(), EmuFsError>)
        requires
            old(self).wf(),
            old(self).live(h),
        ensures
            final(self).wf(),
            final(self).environment() == old(self).environment(),
            final(self)@ == old(self)@,
            final(self).issued() == old(self).issued(),
            final(self).others_kept(old(self), h),
            final(self).file(h) == old(self).file(h),
            r == (if old(self).strong_count(h) < usize::MAX {
                Ok::<(), EmuFsError>(())
            } else {
                Err::<(), EmuFsError>(EmuFsError::TooManyHandles)
            }),
            final(self).strong_count(h) == (if r is Ok {
                old(self).strong_count(h) + 1
            } else {
                old(self).strong_count(h)
            }),
    {
        if self.slots[h.slot].strong == usize::MAX {
            return Err(EmuFsError::TooManyHandles);
        }
        self.slots[h.slot].strong = self.slots[h.slot].strong + 1;
        proof {
            lemma_registered_well_kept(self.files@, old(self).slots@, self.slots@, h.slot as int);
        }
        Ok(())
    }

    /// Gives back one handle to the file of `h`, which must be in use. With
    /// the last handle the file goes: whatever is registered for its
    /// identity leaves the registry, and its backing object is given up.
    /// Returns whether the file went.
    pub fn release(&mut self, h: EmuFileSharedPtr) -> (gone: bool)
        requires
            old(self).wf(),
            old(self).live(h),
        ensures
            final(self).wf(),
            final(self).environment() == old(self).environment(),
            final(self).issued() == old(self).issued(),
            final(self).others_kept(old(self), h),
            final(self).strong_count(h) == old(self).strong_count(h) - 1,
            gone == (old(self).strong_count(h) == 1),
            gone ==> !final(self).live(h) && final(self)@ == old(self)@.remove(
                old(self).file(h).id(),
            ) && !final(self)@.contains_key(old(self).file(h).id()),
            !gone ==> final(self)@ == old(self)@ && final(self).file(h) == old(self).file(h),
    {
        if self.slots[h.slot].strong > 1 {
            self.slots[h.slot].strong = self.slots[h.slot].strong - 1;
            proof {
                lemma_registered_well_kept(self.files@, old(self).slots@, self.slots@, h.slot as int);
            }
            return false;
        }
        let id = FileId::from_emu_file(&self.slots[h.slot].file);
        self.unregister(id);
        let ghost mid = self.files@;
        let ghost before_slots = self.slots@;
        self.slots[h.slot].strong = 0;
        self.slots[h.slot].file.release_backing();
        proof {
            assert(self.files@ == mid);
            assert forall|k: int| 0 <= k < mid.len() implies (#[trigger] mid[k]).slot
                != h.slot by {
                lemma_registry_at(mid, k);
                lemma_registry_contains(mid, mid[k].id);
                assert(mid[k].id != id);
            }
            lemma_registered_well_kept(mid, before_slots, self.slots@, h.slot as int);
        }
        true
    }
}

} // verus!
