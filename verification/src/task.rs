//! What the file descriptor table reads of the tasks and address spaces
//! around it, held as plain values.
use vstd::prelude::*;

verus! {

/// Length of the disabled-fds bitmap that the syscall-buffering library maps
/// into every tracee. Fds at or beyond `SYSCALLBUF_FDS_DISABLED_SIZE - 1`
/// share the last byte.
pub const SYSCALLBUF_FDS_DISABLED_SIZE: i32 = 1024;

/// One traced task, as far as the fd table is concerned.
#[derive(Clone, Copy, Debug)]
pub struct Task {
    /// Thread id of the task as it runs now.
    pub tid: i32,
    /// Thread id the task had while it was recorded.
    pub rec_tid: i32,
    /// The address space the task runs in: an index handed out by
    /// [`Session::add_address_space`].
    pub vm: usize,
    /// Address of the syscall-buffering library's globals in the tracee,
    /// once the library has initialised itself.
    pub preload_globals: Option<u64>,
}

/// The bitmap of one address space, as the tracee's memory holds it.
pub struct AddressSpace {
    preload_globals: Option<u64>,
    syscallbuf_fds_disabled: Vec<u8>,
}

/// The address spaces of one session and whether the session records.
pub struct Session {
    recording: bool,
    vms: Vec<AddressSpace>,
}

/// Mathematical model of an [`AddressSpace`].
pub struct VmView {
    pub preload_globals: Option<u64>,
    pub disabled: Seq<u8>,
}

/// Mathematical model of a [`Session`].
pub struct SessionView {
    pub recording: bool,
    pub vms: Seq<VmView>,
}

impl View for AddressSpace {
    type V = VmView;

    closed spec fn view(&self) -> VmView {
        VmView {
            preload_globals: self.preload_globals,
            disabled: self.syscallbuf_fds_disabled@,
        }
    }
}

impl View for Session {
    type V = SessionView;

    closed spec fn view(&self) -> SessionView {
        SessionView {
            recording: self.recording,
            vms: Seq::new(self.vms@.len(), |a: int| self.vms@[a]@),
        }
    }
}

impl SessionView {
    /// Every bitmap has the length that the preload interface fixes.
    pub open spec fn wf(self) -> bool {
        forall|a: int|
            0 <= a < self.vms.len() ==> (#[trigger] self.vms[a]).disabled.len()
                == SYSCALLBUF_FDS_DISABLED_SIZE
    }
}

impl Session {
    /// A session without address spaces.
    pub fn new(recording: bool) -> (r: Session)
        ensures
            r@.recording == recording,
            r@.vms.len() == 0,
            r@.wf(),
    {
        Session { recording, vms: Vec::new() }
    }

    /// Adds an address space in which the syscall-buffering library has not
    /// initialised itself yet, with an all-zero bitmap, and returns its index.
    pub fn add_address_space(&mut self) -> (vm: usize)
        requires
            old(self)@.wf(),
        ensures
            vm == old(self)@.vms.len(),
            final(self)@.recording == old(self)@.recording,
            final(self)@.vms == old(self)@.vms.push(
                (VmView {
                    preload_globals: None,
                    disabled: Seq::new(SYSCALLBUF_FDS_DISABLED_SIZE as nat, |i: int| 0u8),
                }),
            ),
            final(self)@.wf(),
    {
        let mut bitmap: Vec<u8> = Vec::new();
        let mut i: i32 = 0;
        while i < SYSCALLBUF_FDS_DISABLED_SIZE
            invariant
                0 <= i <= SYSCALLBUF_FDS_DISABLED_SIZE,
                bitmap@.len() == i,
                forall|k: int| 0 <= k < i ==> bitmap@[k] == 0u8,
            decreases SYSCALLBUF_FDS_DISABLED_SIZE - i,
        {
            bitmap.push(0u8);
            i = i + 1;
        }
        let vm = self.vms.len();
        self.vms.push(AddressSpace { preload_globals: None, syscallbuf_fds_disabled: bitmap });
        proof {
            assert(bitmap@ =~= Seq::new(SYSCALLBUF_FDS_DISABLED_SIZE as nat, |i: int| 0u8));
            assert(final(self)@.vms =~= old(self)@.vms.push(
                (VmView {
                    preload_globals: None,
                    disabled: Seq::new(SYSCALLBUF_FDS_DISABLED_SIZE as nat, |i: int| 0u8),
                }),
            ));
        }
        vm
    }

    /// Whether the session records (only then are bitmaps maintained).
    pub fn is_recording(&self) -> (r: bool)
        ensures
            r == self@.recording,
    {
        self.recording
    }

    /// Number of address spaces.
    pub fn vm_count(&self) -> (r: usize)
        ensures
            r == self@.vms.len(),
    {
        self.vms.len()
    }

    /// Address of the preload globals known for `vm`, if the library has
    /// initialised itself there.
    pub fn preload_globals(&self, vm: usize) -> (r: Option<u64>)
        ensures
            r == (if vm < self@.vms.len() {
                self@.vms[vm as int].preload_globals
            } else {
                None
            }),
    {
        if vm < self.vms.len() {
            self.vms[vm].preload_globals
        } else {
            None
        }
    }

    /// Byte `index` of the bitmap of `vm`.
    pub fn fds_disabled_byte(&self, vm: usize, index: usize) -> (r: Option<u8>)
        ensures
            r == (if vm < self@.vms.len() && index < self@.vms[vm as int].disabled.len() {
                Some(self@.vms[vm as int].disabled[index as int])
            } else {
                None
            }),
    {
        if vm < self.vms.len() {
            if index < self.vms[vm].syscallbuf_fds_disabled.len() {
                return Some(self.vms[vm].syscallbuf_fds_disabled[index]);
            }
        }
        None
    }

    /// Stores `value` as byte `index` of the bitmap of `vm`.
    pub(crate) fn set_byte(&mut self, vm: usize, index: usize, value: u8)
        requires
            vm < old(self)@.vms.len(),
            index < old(self)@.vms[vm as int].disabled.len(),
        ensures
            final(self)@.recording == old(self)@.recording,
            final(self)@.vms == old(self)@.vms.update(
                vm as int,
                (VmView {
                    preload_globals: old(self)@.vms[vm as int].preload_globals,
                    disabled: old(self)@.vms[vm as int].disabled.update(index as int, value),
                }),
            ),
    {
        self.vms[vm].syscallbuf_fds_disabled.set(index, value);
        proof {
            assert(final(self)@.vms =~= old(self)@.vms.update(
                vm as int,
                (VmView {
                    preload_globals: old(self)@.vms[vm as int].preload_globals,
                    disabled: old(self)@.vms[vm as int].disabled.update(index as int, value),
                }),
            ));
        }
    }

    /// Replaces the bitmap of `vm` and records where its preload globals are.
    pub(crate) fn set_bitmap(&mut self, vm: usize, globals: u64, bitmap: Vec<u8>)
        requires
            vm < old(self)@.vms.len(),
        ensures
            final(self)@.recording == old(self)@.recording,
            final(self)@.vms == old(self)@.vms.update(
                vm as int,
                (VmView { preload_globals: Some(globals), disabled: bitmap@ }),
            ),
    {
        self.vms.set(vm, AddressSpace { preload_globals: Some(globals), syscallbuf_fds_disabled: bitmap });
        proof {
            assert(final(self)@.vms =~= old(self)@.vms.update(
                vm as int,
                (VmView { preload_globals: Some(globals), disabled: bitmap@ }),
            ));
        }
    }
}

} // verus!
