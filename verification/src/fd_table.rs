//! File descriptor table: which fds carry a monitor. A table is shared by the
//! tasks that share their fds, and keeps the disabled-fds bitmap of every
//! address space it reaches in step with the monitors.
use crate::file_monitor::{FileMonitor, LazyOffset, Range, Switchable};
use crate::names::make_proc_fd_path;
use crate::task::{Session, SessionView, Task, VmView, SYSCALLBUF_FDS_DISABLED_SIZE};
use std::collections::HashMap;
use std::rc::Rc;
use vstd::prelude::*;
use vstd::std_specs::iter::IteratorSpec;
use vstd::set_lib::{lemma_int_range, lemma_len_subset, lemma_map_size, set_int_range};

verus! {

broadcast use vstd::std_specs::hash::group_hash_axioms;

/// Calls `Rc::clone`, which hands out another handle to the same allocation:
/// the value seen through the new handle is the value seen through the old.
#[verifier::external_body]
fn share<M>(monitor: &Rc<M>) -> (r: Rc<M>)
    ensures
        r == *monitor,
{
    Rc::clone(monitor)
}

/// Calls `nix::sys::stat::lstat` on `path` and says whether it succeeded.
/// Nothing is claimed of the answer: it is the file system's.
#[verifier::external_body]
fn lstat_ok(path: &[u8]) -> (r: bool) {
    nix::sys::stat::lstat(path).is_ok()
}

/// Whether the task with thread id `tid` has `fd` open right now: whether
/// `/proc/<tid>/fd/<fd>` exists.
pub fn is_fd_open(tid: i32, fd: i32) -> (r: bool) {
    let path = make_proc_fd_path(tid, fd);
    lstat_ok(path.as_slice())
}

/// Those of `fds` that were found not to be open, in the order of `fds`,
/// where `open[i]` says whether `fds[i]` was found open.
pub open spec fn not_open(fds: Seq<i32>, open: Seq<bool>) -> Seq<i32>
    decreases fds.len(),
{
    if fds.len() == 0 || open.len() != fds.len() {
        Seq::empty()
    } else if open.last() {
        not_open(fds.drop_last(), open.drop_last())
    } else {
        not_open(fds.drop_last(), open.drop_last()).push(fds.last())
    }
}

/// What is not open is among the fds asked about, and has no duplicates if
/// they have none.
pub proof fn lemma_not_open(fds: Seq<i32>, open: Seq<bool>)
    requires
        open.len() == fds.len(),
    ensures
        forall|k: int|
            0 <= k < not_open(fds, open).len() ==> exists|j: int|
                0 <= j < fds.len() && !open[j] && fds[j] == #[trigger] not_open(fds, open)[k],
        forall|j: int|
            0 <= j < fds.len() && !open[j] ==> not_open(fds, open).contains(#[trigger] fds[j]),
        fds.no_duplicates() ==> not_open(fds, open).no_duplicates(),
    decreases fds.len(),
{
    if fds.len() > 0 {
        let head = fds.drop_last();
        let flags = open.drop_last();
        lemma_not_open(head, flags);
        let before = not_open(head, flags);
        let all = not_open(fds, open);
        assert forall|k: int| 0 <= k < all.len() implies exists|j: int|
            0 <= j < fds.len() && !open[j] && fds[j] == #[trigger] all[k] by {
            if k < before.len() {
                let j = choose|j: int| 0 <= j < head.len() && !flags[j] && head[j] == before[k];
                assert(fds[j] == all[k] && !open[j]);
            } else {
                assert(fds[fds.len() - 1] == all[k]);
            }
        }
        assert forall|j: int| 0 <= j < fds.len() && !open[j] implies all.contains(
            #[trigger] fds[j],
        ) by {
            if j < head.len() {
                assert(head[j] == fds[j] && !flags[j]);
                assert(before.contains(head[j]));
                let k = choose|k: int| 0 <= k < before.len() && before[k] == head[j];
                assert(all[k] == fds[j]);
            } else {
                assert(all[all.len() - 1] == fds[j]);
            }
        }
        if fds.no_duplicates() {
            assert(head.no_duplicates());
            if !open.last() {
                assert forall|a: int, b: int| 0 <= a < all.len() && 0 <= b < all.len() && a
                    != b implies all[a] != all[b] by {
                    if a == before.len() || b == before.len() {
                        let k = if a == before.len() {
                            b
                        } else {
                            a
                        };
                        let j = choose|j: int|
                            0 <= j < head.len() && !flags[j] && head[j] == before[k];
                        assert(fds[j] != fds[fds.len() - 1]);
                    }
                }
            }
        }
    }
}

/// Picks from `fds` those that were found not to be open, where `open[i]`
/// says whether `fds[i]` was found open.
pub fn closed_fds(fds: &Vec<i32>, open: &Vec<bool>) -> (r: Vec<i32>)
    requires
        open@.len() == fds@.len(),
    ensures
        r@ == not_open(fds@, open@),
{
    let mut r: Vec<i32> = Vec::new();
    let mut i: usize = 0;
    while i < fds.len()
        invariant
            i <= fds.len(),
            open@.len() == fds@.len(),
            r@ == not_open(fds@.take(i as int), open@.take(i as int)),
        decreases fds.len() - i,
    {
        proof {
            assert(fds@.take(i + 1).drop_last() =~= fds@.take(i as int));
            assert(open@.take(i + 1).drop_last() =~= open@.take(i as int));
        }
        if !open[i] {
            r.push(fds[i]);
        }
        i = i + 1;
    }
    proof {
        assert(fds@.take(fds@.len() as int) =~= fds@);
        assert(open@.take(open@.len() as int) =~= open@);
    }
    r
}

/// The monitored fds that have no byte of their own in the bitmap.
pub open spec fn beyond_limit<V>(fds: Map<i32, V>) -> Set<i32> {
    fds.dom().filter(|fd: i32| fd >= SYSCALLBUF_FDS_DISABLED_SIZE)
}

/// There are fewer `i32` values at or above the bitmap's length than a `u32`
/// can count.
proof fn lemma_beyond_limit_bounded<V>(fds: Map<i32, V>)
    requires
        fds.dom().finite(),
    ensures
        beyond_limit(fds).finite(),
        beyond_limit(fds).len() <= 0x8000_0000 - SYSCALLBUF_FDS_DISABLED_SIZE,
{
    let b = beyond_limit(fds);
    fds.dom().lemma_len_filter(|fd: i32| fd >= SYSCALLBUF_FDS_DISABLED_SIZE);
    let f = |fd: i32| fd as int;
    let image = b.map(f);
    lemma_map_size(b, image, f);
    let all = set_int_range(SYSCALLBUF_FDS_DISABLED_SIZE as int, 0x8000_0000);
    lemma_int_range(SYSCALLBUF_FDS_DISABLED_SIZE as int, 0x8000_0000);
    assert forall|i: int| image.contains(i) implies all.contains(i) by {
        let fd = choose|fd: i32| b.contains(fd) && f(fd) == i;
        assert(b.contains(fd) && f(fd) == i);
    }
    lemma_len_subset(image, all);
}

/// One write into a tracee's disabled-fds bitmap, to be carried out on the
/// tracee's memory and put on record in the trace.
#[derive(Clone, Copy, Debug, PartialEq, Eq, Structural)]
pub struct BitmapWrite {
    /// The address space written to.
    pub vm: usize,
    /// Address of the preload globals in that address space.
    pub globals: u64,
    /// Which byte of the bitmap.
    pub index: usize,
    /// Its new value, 0 or 1.
    pub value: u8,
}

/// A whole bitmap for one address space, to be written to the tracee's
/// memory and put on record in the trace.
#[derive(Debug)]
pub struct BitmapInit {
    /// The address space written to.
    pub vm: usize,
    /// Address of the preload globals in that address space.
    pub globals: u64,
    /// The bitmap, `SYSCALLBUF_FDS_DISABLED_SIZE` bytes.
    pub bytes: Vec<u8>,
}

/// What the bitmaps depend on in one table.
pub struct FdsView {
    /// The tasks that share the table.
    pub tasks: Seq<Task>,
    /// The monitored fds.
    pub monitored: Set<i32>,
    /// The table's count of monitored fds beyond the limit.
    pub beyond: nat,
}

impl FdsView {
    /// Some task sharing the table runs in address space `vm`.
    pub open spec fn covers(self, vm: int) -> bool {
        exists|k: int| 0 <= k < self.tasks.len() && (#[trigger] self.tasks[k]).vm == vm
    }

    /// The table asks for syscall buffering to be off for `fd`: it monitors
    /// `fd`, or `fd` is the last byte's and it monitors some fd beyond.
    pub open spec fn disables(self, fd: i32) -> bool {
        self.monitored.contains(fd) || (fd >= SYSCALLBUF_FDS_DISABLED_SIZE - 1 && self.beyond > 0)
    }

    /// The table after `fd` was bound to a monitor.
    pub open spec fn with(self, fd: i32) -> FdsView {
        FdsView {
            tasks: self.tasks,
            monitored: self.monitored.insert(fd),
            beyond: if fd >= SYSCALLBUF_FDS_DISABLED_SIZE && !self.monitored.contains(fd) {
                self.beyond + 1
            } else {
                self.beyond
            },
        }
    }

    /// The table after `fd` was closed.
    pub open spec fn without(self, fd: i32) -> FdsView {
        FdsView {
            tasks: self.tasks,
            monitored: self.monitored.remove(fd),
            beyond: if fd >= SYSCALLBUF_FDS_DISABLED_SIZE && self.monitored.contains(fd) {
                (self.beyond - 1) as nat
            } else {
                self.beyond
            },
        }
    }

    /// The table after the first `n` of `fds` were closed, one after another.
    pub open spec fn without_all(self, fds: Seq<i32>, n: nat) -> FdsView
        decreases n,
    {
        if n == 0 {
            self
        } else {
            self.without_all(fds, (n - 1) as nat).without(fds[n - 1])
        }
    }
}

/// `tasks` without those whose thread id is `tid`.
pub open spec fn without_task(tasks: Seq<Task>, tid: i32) -> Seq<Task>
    decreases tasks.len(),
{
    if tasks.len() == 0 {
        tasks
    } else if tasks.last().tid == tid {
        without_task(tasks.drop_last(), tid)
    } else {
        without_task(tasks.drop_last(), tid).push(tasks.last())
    }
}

/// The byte that `fd` shares with others once it lies beyond the bitmap.
pub open spec fn collapsed(fd: i32) -> i32 {
    if fd >= SYSCALLBUF_FDS_DISABLED_SIZE {
        (SYSCALLBUF_FDS_DISABLED_SIZE - 1) as i32
    } else {
        fd
    }
}

/// Some table among `peers` that reaches `vm` asks for buffering to be off
/// for `fd`.
pub open spec fn peers_disable(peers: Seq<FdsView>, vm: int, fd: i32) -> bool {
    exists|j: int| 0 <= j < peers.len() && (#[trigger] peers[j]).covers(vm) && peers[j].disables(fd)
}

/// Some table that reaches `vm`, `me` or one of `peers`, asks for buffering
/// to be off for `fd`.
pub open spec fn space_disables(me: FdsView, peers: Seq<FdsView>, vm: int, fd: i32) -> bool {
    (me.covers(vm) && me.disables(fd)) || peers_disable(peers, vm, fd)
}

/// The value that byte `fd` of the bitmap of `vm` is meant to have.
pub open spec fn expected_byte(me: FdsView, peers: Seq<FdsView>, vm: int, fd: i32) -> u8 {
    if space_disables(me, peers, vm, fd) {
        1
    } else {
        0
    }
}

/// The whole bitmap that `vm` is meant to have.
pub open spec fn expected_bitmap(me: FdsView, peers: Seq<FdsView>, vm: int) -> Seq<u8> {
    Seq::new(
        SYSCALLBUF_FDS_DISABLED_SIZE as nat,
        |i: int| expected_byte(me, peers, vm, i as i32),
    )
}

/// Whether a refresh by table `me` writes to address space `vm`: the session
/// records, `me` reaches `vm`, and the preload library is set up there.
pub open spec fn refreshes(s: SessionView, me: FdsView, vm: int) -> bool {
    s.recording && me.covers(vm) && s.vms[vm].preload_globals is Some
}

/// The session after table `me` refreshed byte `fd` of the bitmap in every
/// address space it reaches.
pub open spec fn refresh_byte(s: SessionView, me: FdsView, peers: Seq<FdsView>, fd: i32) -> SessionView {
    SessionView {
        recording: s.recording,
        vms: Seq::new(
            s.vms.len(),
            |a: int|
                if refreshes(s, me, a) {
                    VmView {
                        preload_globals: s.vms[a].preload_globals,
                        disabled: s.vms[a].disabled.update(
                            fd as int,
                            expected_byte(me, peers, a, fd),
                        ),
                    }
                } else {
                    s.vms[a]
                },
        ),
    }
}

/// The writes that this refresh makes in the first `n` address spaces, in
/// the order of the address spaces: one for each that it changes.
pub open spec fn refresh_writes(
    s: SessionView,
    me: FdsView,
    peers: Seq<FdsView>,
    fd: i32,
    n: nat,
) -> Seq<BitmapWrite>
    decreases n,
{
    if n == 0 {
        Seq::empty()
    } else {
        let a = n - 1;
        let before = refresh_writes(s, me, peers, fd, a as nat);
        if refreshes(s, me, a) {
            before.push(
                (BitmapWrite {
                    vm: a as usize,
                    globals: s.vms[a].preload_globals->Some_0,
                    index: fd as usize,
                    value: expected_byte(me, peers, a, fd),
                }),
            )
        } else {
            before
        }
    }
}

/// The bitmap of `vm` says exactly what the tables that reach `vm` ask for.
/// Nothing is asked of an address space in which the preload library is not
/// set up, nor of a session that does not record.
pub open spec fn vm_consistent(s: SessionView, me: FdsView, peers: Seq<FdsView>, vm: int) -> bool {
    s.recording && s.vms[vm].preload_globals is Some ==> forall|fd: i32|
        0 <= fd < SYSCALLBUF_FDS_DISABLED_SIZE ==> #[trigger] s.vms[vm].disabled[fd as int]
            == expected_byte(me, peers, vm, fd)
}

/// Every bitmap of the session is consistent with the tables.
pub open spec fn consistent(s: SessionView, me: FdsView, peers: Seq<FdsView>) -> bool {
    forall|vm: int| 0 <= vm < s.vms.len() ==> vm_consistent(s, me, peers, vm)
}

/// The session after table `me` closed the first `n` of `fds`, one after
/// another, refreshing the bitmaps after each.
pub open spec fn close_all(
    s: SessionView,
    me: FdsView,
    peers: Seq<FdsView>,
    fds: Seq<i32>,
    n: nat,
) -> SessionView
    decreases n,
{
    if n == 0 {
        s
    } else {
        refresh_byte(
            close_all(s, me, peers, fds, (n - 1) as nat),
            me.without_all(fds, n),
            peers,
            collapsed(fds[n - 1]),
        )
    }
}

/// The writes that closing the first `n` of `fds` makes, in the order made.
pub open spec fn close_all_writes(
    s: SessionView,
    me: FdsView,
    peers: Seq<FdsView>,
    fds: Seq<i32>,
    n: nat,
) -> Seq<BitmapWrite>
    decreases n,
{
    if n == 0 {
        Seq::empty()
    } else {
        close_all_writes(s, me, peers, fds, (n - 1) as nat) + refresh_writes(
            close_all(s, me, peers, fds, (n - 1) as nat),
            me.without_all(fds, n),
            peers,
            collapsed(fds[n - 1]),
            s.vms.len(),
        )
    }
}

/// The summaries of the given tables.
pub open spec fn summaries<M: FileMonitor>(peers: Seq<&FdTable<M>>) -> Seq<FdsView> {
    Seq::new(peers.len(), |j: int| peers[j].summary())
}

pub struct FdTable<M: FileMonitor> {
    tasks: Vec<Task>,
    fds: HashMap<i32, Rc<M>>,
    /// Number of keys of `fds` that are >= SYSCALLBUF_FDS_DISABLED_SIZE.
    fd_count_beyond_limit: u32,
}

impl<M: FileMonitor> View for FdTable<M> {
    type V = Map<i32, Rc<M>>;

    /// The monitor bound to each monitored fd.
    closed spec fn view(&self) -> Map<i32, Rc<M>> {
        self.fds@
    }
}

impl<M: FileMonitor> FdTable<M> {
    /// The tasks that share this table.
    pub closed spec fn tasks(&self) -> Seq<Task> {
        self.tasks@
    }

    /// The table's count of monitored fds beyond the bitmap's direct range.
    pub closed spec fn beyond(&self) -> nat {
        self.fd_count_beyond_limit as nat
    }

    /// The table's invariant: no negative fd is monitored, and the count of
    /// fds beyond the limit is the number of such fds.
    pub closed spec fn wf(&self) -> bool {
        &&& self.fd_count_beyond_limit == beyond_limit(self.fds@).len()
        &&& forall|fd: i32| self.fds@.contains_key(fd) ==> fd >= 0
    }

    /// What the bitmaps depend on: the tasks, the monitored fds and the count
    /// of those beyond the limit.
    pub open spec fn summary(&self) -> FdsView {
        FdsView { tasks: self.tasks(), monitored: self@.dom(), beyond: self.beyond() }
    }

    /// What `wf` says, for clients.
    pub proof fn lemma_wf(&self)
        requires
            self.wf(),
        ensures
            self.beyond() == beyond_limit(self@).len(),
            forall|fd: i32| self@.contains_key(fd) ==> fd >= 0,
    {
    }

    /// A table without tasks and without monitors.
    pub fn new() -> (r: FdTable<M>)
        ensures
            r.wf(),
            r@ == Map::<i32, Rc<M>>::empty(),
            r.tasks() == Seq::<Task>::empty(),
            r.beyond() == 0,
    {
        let r = FdTable { tasks: Vec::new(), fds: HashMap::new(), fd_count_beyond_limit: 0 };
        proof {
            assert(beyond_limit(r.fds@) =~= Set::<i32>::empty());
        }
        r
    }

    /// A fresh, empty table for task `t` alone.
    pub fn create(&self, t: &Task) -> (r: FdTable<M>)
        ensures
            r.wf(),
            r@ == Map::<i32, Rc<M>>::empty(),
            r.tasks() == seq![*t],
            r.beyond() == 0,
    {
        let mut file_mon = FdTable::new();
        file_mon.tasks.push(*t);
        proof {
            assert(file_mon.tasks@ =~= seq![*t]);
        }
        file_mon
    }

    /// A table for task `t` alone that binds the same fds to the same
    /// monitors as this one: the monitors are shared, not copied.
    pub fn clone_into_task(&self, t: &Task) -> (r: FdTable<M>)
        requires
            self.wf(),
        ensures
            r.wf(),
            r@ == self@,
            r.tasks() == seq![*t],
            r.beyond() == self.beyond(),
    {
        let mut tasks: Vec<Task> = Vec::new();
        tasks.push(*t);
        proof {
            assert(tasks@ =~= seq![*t]);
        }
        FdTable {
            tasks,
            fds: self.fds.clone(),
            fd_count_beyond_limit: self.fd_count_beyond_limit,
        }
    }

    /// Adds `t` to the tasks that share this table, unless a task with its
    /// thread id shares it already. The bitmap of `t.vm` is brought up to
    /// date by `init_syscallbuf_fds_disabled`.
    pub fn insert_task(&mut self, t: &Task)
        ensures
            final(self).wf() == old(self).wf(),
            final(self)@ == old(self)@,
            final(self).beyond() == old(self).beyond(),
            final(self).tasks() == (if exists|k: int|
                0 <= k < old(self).tasks().len() && (#[trigger] old(self).tasks()[k]).tid == t.tid {
                old(self).tasks()
            } else {
                old(self).tasks().push(*t)
            }),
    {
        if !self.has_task(t.tid) {
            self.tasks.push(*t);
        }
    }

    /// Takes the task with thread id `tid` out of those that share this
    /// table. The bitmap of its address space is brought up to date by
    /// `init_syscallbuf_fds_disabled`.
    pub fn erase_task(&mut self, tid: i32)
        ensures
            final(self).wf() == old(self).wf(),
            final(self)@ == old(self)@,
            final(self).beyond() == old(self).beyond(),
            final(self).tasks() == without_task(old(self).tasks(), tid),
    {
        let mut kept: Vec<Task> = Vec::new();
        let mut k: usize = 0;
        while k < self.tasks.len()
            invariant
                k <= self.tasks.len(),
                self.tasks == old(self).tasks,
                self.fds == old(self).fds,
                self.fd_count_beyond_limit == old(self).fd_count_beyond_limit,
                kept@ == without_task(self.tasks@.take(k as int), tid),
            decreases self.tasks.len() - k,
        {
            proof {
                assert(self.tasks@.take(k + 1).drop_last() =~= self.tasks@.take(k as int));
            }
            if self.tasks[k].tid != tid {
                kept.push(self.tasks[k]);
            }
            k = k + 1;
        }
        proof {
            assert(self.tasks@.take(self.tasks@.len() as int) =~= self.tasks@);
        }
        self.tasks = kept;
    }

    /// Whether a task with thread id `tid` shares this table.
    pub fn has_task(&self, tid: i32) -> (r: bool)
        ensures
            r == exists|k: int|
                0 <= k < self.tasks().len() && (#[trigger] self.tasks()[k]).tid == tid,
    {
        let mut k: usize = 0;
        while k < self.tasks.len()
            invariant
                k <= self.tasks.len(),
                forall|j: int| 0 <= j < k ==> (#[trigger] self.tasks@[j]).tid != tid,
            decreases self.tasks.len() - k,
        {
            if self.tasks[k].tid == tid {
                return true;
            }
            k = k + 1;
        }
        false
    }

    /// Whether some task sharing this table runs in address space `vm`.
    pub fn covers_vm(&self, vm: usize) -> (r: bool)
        ensures
            r == self.summary().covers(vm as int),
    {
        let mut k: usize = 0;
        while k < self.tasks.len()
            invariant
                k <= self.tasks.len(),
                forall|j: int| 0 <= j < k ==> (#[trigger] self.tasks@[j]).vm != vm,
            decreases self.tasks.len() - k,
        {
            if self.tasks[k].vm == vm {
                return true;
            }
            k = k + 1;
        }
        false
    }

    pub fn is_monitoring(&self, fd: i32) -> (r: bool)
        ensures
            r == self@.contains_key(fd),
    {
        self.fds.contains_key(&fd)
    }

    pub fn count_beyond_limit(&self) -> (r: u32)
        ensures
            r == self.beyond(),
            self.wf() ==> r == beyond_limit(self@).len(),
    {
        self.fd_count_beyond_limit
    }

    /// The monitor bound to `fd`: another handle to the same object.
    pub fn get_monitor(&self, fd: i32) -> (r: Option<Rc<M>>)
        ensures
            r == (if self@.contains_key(fd) {
                Some(self@[fd])
            } else {
                None
            }),
    {
        match self.fds.get(&fd) {
            Some(f) => Some(share(f)),
            None => None,
        }
    }

    /// Hands an `ioctl` on `fd` to its monitor. Returns whether the monitor
    /// handled it, with the syscall's result in `result`; without a monitor
    /// nothing is handled.
    pub fn emulate_ioctl(&self, fd: i32, t: &Task, result: &mut u64) -> (r: bool)
        ensures
            !self@.contains_key(fd) ==> !r && *final(result) == *old(result),
            self@.contains_key(fd) ==> exists|answer: Option<u64>|
                {
                    &&& #[trigger] M::emulate_ioctl.ensures((&*self@[fd], t), answer)
                    &&& r == answer is Some
                    &&& *final(result) == (match answer {
                        Some(value) => value,
                        None => *old(result),
                    })
                },
    {
        match self.fds.get(&fd) {
            Some(f) => match f.emulate_ioctl(t) {
                Some(value) => {
                    *result = value;
                    true
                },
                None => false,
            },
            None => false,
        }
    }

    /// Hands an `fcntl` on `fd` to its monitor. Returns whether the monitor
    /// handled it, with the syscall's result in `result`; without a monitor
    /// nothing is handled.
    pub fn emulate_fcntl(&self, fd: i32, t: &Task, result: &mut u64) -> (r: bool)
        ensures
            !self@.contains_key(fd) ==> !r && *final(result) == *old(result),
            self@.contains_key(fd) ==> exists|answer: Option<u64>|
                {
                    &&& #[trigger] M::emulate_fcntl.ensures((&*self@[fd], t), answer)
                    &&& r == answer is Some
                    &&& *final(result) == (match answer {
                        Some(value) => value,
                        None => *old(result),
                    })
                },
    {
        match self.fds.get(&fd) {
            Some(f) => match f.emulate_fcntl(t) {
                Some(value) => {
                    *result = value;
                    true
                },
                None => false,
            },
            None => false,
        }
    }

    /// Hands a read from `fd` into `ranges` to its monitor. Returns whether
    /// the monitor handled it, with the syscall's result in `result`;
    /// without a monitor nothing is handled.
    pub fn emulate_read(
        &self,
        fd: i32,
        t: &Task,
        ranges: &Vec<Range>,
        offset: &LazyOffset,
        result: &mut u64,
    ) -> (r: bool)
        ensures
            !self@.contains_key(fd) ==> !r && *final(result) == *old(result),
            self@.contains_key(fd) ==> exists|answer: Option<u64>|
                {
                    &&& #[trigger] M::emulate_read.ensures((&*self@[fd], t, ranges, offset), answer)
                    &&& r == answer is Some
                    &&& *final(result) == (match answer {
                        Some(value) => value,
                        None => *old(result),
                    })
                },
    {
        match self.fds.get(&fd) {
            Some(f) => match f.emulate_read(t, ranges, offset) {
                Some(value) => {
                    *result = value;
                    true
                },
                None => false,
            },
            None => false,
        }
    }

    /// Lets the monitor of `fd`, if it has one, filter what `getdents`
    /// returned to `t`.
    pub fn filter_getdents(&self, fd: i32, t: &Task) {
        match self.fds.get(&fd) {
            Some(f) => f.filter_getdents(t),
            None => (),
        }
    }

    /// Whether `fd` belongs to the debugger itself, as its monitor says;
    /// without a monitor it does not.
    pub fn is_rd_fd(&self, fd: i32) -> (r: bool)
        ensures
            !self@.contains_key(fd) ==> !r,
            self@.contains_key(fd) ==> M::is_rd_fd.ensures((&*self@[fd],), r),
    {
        match self.fds.get(&fd) {
            Some(f) => f.is_rd_fd(),
            None => false,
        }
    }

    /// Whether `t` may be switched out during a write to `fd`, as the monitor
    /// of `fd` says; without a monitor it may.
    pub fn will_write(&self, t: &Task, fd: i32) -> (r: Switchable)
        ensures
            !self@.contains_key(fd) ==> r == Switchable::AllowSwitch,
            self@.contains_key(fd) ==> M::will_write.ensures((&*self@[fd], t), r),
    {
        match self.fds.get(&fd) {
            Some(f) => f.will_write(t),
            None => Switchable::AllowSwitch,
        }
    }

    /// Tells the monitor of `fd`, if it has one, of a write of `ranges` at
    /// `offset`, and keeps the offset that the monitor hands back.
    pub fn did_write(&self, fd: i32, ranges: Vec<Range>, offset: &mut LazyOffset)
        ensures
            !self@.contains_key(fd) ==> *final(offset) == *old(offset),
            self@.contains_key(fd) ==> M::did_write.ensures(
                (&*self@[fd], &ranges, *old(offset)),
                *final(offset),
            ),
    {
        match self.fds.get(&fd) {
            Some(f) => {
                *offset = f.did_write(&ranges, *offset);
            },
            None => (),
        }
    }

    /// The monitored fds, each once, in no particular order.
    pub fn monitored_fds(&self) -> (v: Vec<i32>)
        ensures
            v@.no_duplicates(),
            v@.to_set() == self@.dom(),
    {
        let mut v: Vec<i32> = Vec::new();
        for fd in it: self.fds.keys()
            invariant
                v@ == it.seq().take(it.index()).unref(),
        {
            v.push(*fd);
        }
        proof {
            let all = vstd::std_specs::hash::spec_keys_iter(&self.fds).remaining();
            assert(all.unref().to_set() == self.fds@.dom());
            assert(v@ =~= all.unref());
        }
        v
    }

    /// Whether this table asks for syscall buffering to be off for `fd`.
    pub fn disables_fd(&self, fd: i32) -> (r: bool)
        ensures
            r == self.summary().disables(fd),
    {
        self.fds.contains_key(&fd) || (fd >= SYSCALLBUF_FDS_DISABLED_SIZE - 1
            && self.fd_count_beyond_limit > 0)
    }

    /// Binds `fd` to `monitor` and keeps the count of fds beyond the limit.
    fn bind(&mut self, fd: i32, monitor: Rc<M>)
        requires
            old(self).wf(),
            fd >= 0,
        ensures
            final(self).wf(),
            final(self)@ == old(self)@.insert(fd, monitor),
            final(self).tasks() == old(self).tasks(),
            final(self).summary() == old(self).summary().with(fd),
    {
        proof {
            lemma_beyond_limit_bounded(self.fds@);
        }
        if fd >= SYSCALLBUF_FDS_DISABLED_SIZE && !self.fds.contains_key(&fd) {
            self.fd_count_beyond_limit += 1;
        }
        self.fds.insert(fd, monitor);
        proof {
            let before = old(self).fds@;
            if fd >= SYSCALLBUF_FDS_DISABLED_SIZE {
                assert(beyond_limit(self.fds@) =~= beyond_limit(before).insert(fd));
            } else {
                assert(beyond_limit(self.fds@) =~= beyond_limit(before));
            }
            assert(self.fds@.dom() =~= before.dom().insert(fd));
        }
    }

    /// Removes what `fd` is bound to, if anything, and keeps the count of fds
    /// beyond the limit.
    fn unbind(&mut self, fd: i32)
        requires
            old(self).wf(),
        ensures
            final(self).wf(),
            final(self)@ == old(self)@.remove(fd),
            final(self).tasks() == old(self).tasks(),
            final(self).summary() == old(self).summary().without(fd),
    {
        proof {
            lemma_beyond_limit_bounded(self.fds@);
        }
        if fd >= SYSCALLBUF_FDS_DISABLED_SIZE && self.fds.contains_key(&fd) {
            assert(beyond_limit(self.fds@).contains(fd));
            self.fd_count_beyond_limit -= 1;
        }
        self.fds.remove(&fd);
        proof {
            let before = old(self).fds@;
            if fd >= SYSCALLBUF_FDS_DISABLED_SIZE {
                assert(beyond_limit(self.fds@) =~= beyond_limit(before).remove(fd));
            } else {
                assert(beyond_limit(self.fds@) =~= beyond_limit(before));
            }
            assert(self.fds@.dom() =~= before.dom().remove(fd));
        }
    }

    /// Refreshes the byte that stands for `fd` in the bitmap of every address
    /// space that this table reaches and in which the preload library is set
    /// up, each once. Returns the writes for the tracees' memory. Does nothing
    /// in a session that does not record.
    pub fn update_syscallbuf_fds_disabled(
        &self,
        fd: i32,
        session: &mut Session,
        peers: &Vec<&FdTable<M>>,
    ) -> (writes: Vec<BitmapWrite>)
        requires
            fd >= 0,
            old(session)@.wf(),
        ensures
            final(session)@.wf(),
            final(session)@ == refresh_byte(
                old(session)@,
                self.summary(),
                summaries(peers@),
                collapsed(fd),
            ),
            writes@ == refresh_writes(
                old(session)@,
                self.summary(),
                summaries(peers@),
                collapsed(fd),
                old(session)@.vms.len(),
            ),
    {
        let mut writes: Vec<BitmapWrite> = Vec::new();
        let byte: i32 = if fd >= SYSCALLBUF_FDS_DISABLED_SIZE {
            SYSCALLBUF_FDS_DISABLED_SIZE - 1
        } else {
            fd
        };
        let ghost before = session@;
        let ghost me = self.summary();
        let ghost others = summaries(peers@);
        let ghost after = refresh_byte(before, me, others, byte);
        if !session.is_recording() {
            proof {
                lemma_no_writes_unless_recording(before, me, others, byte, before.vms.len());
                assert(after.vms =~= before.vms);
            }
            return writes;
        }
        let n = session.vm_count();
        let mut a: usize = 0;
        while a < n
            invariant
                a <= n,
                n == before.vms.len(),
                0 <= byte < SYSCALLBUF_FDS_DISABLED_SIZE,
                byte == collapsed(fd),
                before.wf(),
                before.recording,
                me == self.summary(),
                others == summaries(peers@),
                after == refresh_byte(before, me, others, byte),
                session@.recording == before.recording,
                session@.vms.len() == n,
                forall|b: int| 0 <= b < a ==> session@.vms[b] == after.vms[b],
                forall|b: int| a <= b < n ==> session@.vms[b] == before.vms[b],
                writes@ == refresh_writes(before, me, others, byte, a as nat),
            decreases n - a,
        {
            if self.covers_vm(a) {
                match session.preload_globals(a) {
                    Some(globals) => {
                        let value: u8 = if is_fd_monitored_in_any_task(a, byte, self, peers) {
                            1
                        } else {
                            0
                        };
                        assert(before.vms[a as int].disabled.len() == SYSCALLBUF_FDS_DISABLED_SIZE);
                        session.set_byte(a, byte as usize, value);
                        writes.push(BitmapWrite { vm: a, globals, index: byte as usize, value });
                    },
                    None => {},
                }
            }
            a = a + 1;
        }
        proof {
            assert(session@.vms =~= after.vms);
        }
        writes
    }

    /// Binds `fd`, which must be free, to `monitor`, and refreshes the bitmaps
    /// for it. Returns the writes for the tracees' memory.
    pub fn add_monitor(
        &mut self,
        t: &Task,
        fd: i32,
        monitor: Rc<M>,
        session: &mut Session,
        peers: &Vec<&FdTable<M>>,
    ) -> (writes: Vec<BitmapWrite>)
        requires
            old(self).wf(),
            fd >= 0,
            !old(self)@.contains_key(fd),
            old(session)@.wf(),
        ensures
            final(self).wf(),
            final(self)@ == old(self)@.insert(fd, monitor),
            final(self).tasks() == old(self).tasks(),
            final(self).beyond() == beyond_limit(final(self)@).len(),
            final(self).summary() == old(self).summary().with(fd),
            final(session)@.wf(),
            final(session)@ == refresh_byte(
                old(session)@,
                final(self).summary(),
                summaries(peers@),
                collapsed(fd),
            ),
            writes@ == refresh_writes(
                old(session)@,
                final(self).summary(),
                summaries(peers@),
                collapsed(fd),
                old(session)@.vms.len(),
            ),
            consistent(old(session)@, old(self).summary(), summaries(peers@)) ==> consistent(
                final(session)@,
                final(self).summary(),
                summaries(peers@),
            ),
    {
        self.bind(fd, monitor);
        proof {
            if consistent(old(session)@, old(self).summary(), summaries(peers@)) {
                lemma_refresh_keeps_bitmaps_consistent(
                    old(session)@,
                    old(self).summary(),
                    self.summary(),
                    summaries(peers@),
                    fd,
                );
            }
        }
        self.update_syscallbuf_fds_disabled(fd, session, peers)
    }

    /// Makes `to` stand for what `from` stands for: bound to the same monitor
    /// if `from` is monitored, free otherwise. Refreshes the bitmaps for `to`
    /// and returns the writes for the tracees' memory.
    pub fn did_dup(
        &mut self,
        from: i32,
        to: i32,
        session: &mut Session,
        peers: &Vec<&FdTable<M>>,
    ) -> (writes: Vec<BitmapWrite>)
        requires
            old(self).wf(),
            to >= 0,
            old(session)@.wf(),
        ensures
            final(self).wf(),
            final(self)@ == (if old(self)@.contains_key(from) {
                old(self)@.insert(to, old(self)@[from])
            } else {
                old(self)@.remove(to)
            }),
            final(self).tasks() == old(self).tasks(),
            final(self).beyond() == beyond_limit(final(self)@).len(),
            final(self).summary() == (if old(self)@.contains_key(from) {
                old(self).summary().with(to)
            } else {
                old(self).summary().without(to)
            }),
            final(session)@.wf(),
            final(session)@ == refresh_byte(
                old(session)@,
                final(self).summary(),
                summaries(peers@),
                collapsed(to),
            ),
            writes@ == refresh_writes(
                old(session)@,
                final(self).summary(),
                summaries(peers@),
                collapsed(to),
                old(session)@.vms.len(),
            ),
            consistent(old(session)@, old(self).summary(), summaries(peers@)) ==> consistent(
                final(session)@,
                final(self).summary(),
                summaries(peers@),
            ),
    {
        match self.get_monitor(from) {
            Some(monitor) => {
                self.bind(to, monitor);
            },
            None => {
                self.unbind(to);
            },
        }
        proof {
            if consistent(old(session)@, old(self).summary(), summaries(peers@)) {
                lemma_refresh_keeps_bitmaps_consistent(
                    old(session)@,
                    old(self).summary(),
                    self.summary(),
                    summaries(peers@),
                    to,
                );
            }
        }
        self.update_syscallbuf_fds_disabled(to, session, peers)
    }

    /// Removes the monitor of `fd`, if it has one, and refreshes the bitmaps
    /// for it. Returns the writes for the tracees' memory.
    pub fn did_close(&mut self, fd: i32, session: &mut Session, peers: &Vec<&FdTable<M>>) -> (writes:
        Vec<BitmapWrite>)
        requires
            old(self).wf(),
            fd >= 0,
            old(session)@.wf(),
        ensures
            final(self).wf(),
            final(self)@ == old(self)@.remove(fd),
            final(self).tasks() == old(self).tasks(),
            final(self).beyond() == beyond_limit(final(self)@).len(),
            final(self).summary() == old(self).summary().without(fd),
            final(session)@.wf(),
            final(session)@ == refresh_byte(
                old(session)@,
                final(self).summary(),
                summaries(peers@),
                collapsed(fd),
            ),
            writes@ == refresh_writes(
                old(session)@,
                final(self).summary(),
                summaries(peers@),
                collapsed(fd),
                old(session)@.vms.len(),
            ),
            consistent(old(session)@, old(self).summary(), summaries(peers@)) ==> consistent(
                final(session)@,
                final(self).summary(),
                summaries(peers@),
            ),
    {
        self.unbind(fd);
        proof {
            if consistent(old(session)@, old(self).summary(), summaries(peers@)) {
                lemma_refresh_keeps_bitmaps_consistent(
                    old(session)@,
                    old(self).summary(),
                    self.summary(),
                    summaries(peers@),
                    fd,
                );
            }
        }
        self.update_syscallbuf_fds_disabled(fd, session, peers)
    }

    /// Regenerates the whole bitmap of the address space of task `t`, from
    /// all the tables that reach it, and notes where the preload globals of
    /// that address space are. Called when the preload library initialises
    /// itself in `t`. Returns the bitmap for the tracee's memory. Does nothing
    /// in a session that does not record, or while `t` has no preload globals.
    pub fn init_syscallbuf_fds_disabled(
        &self,
        t: &Task,
        session: &mut Session,
        peers: &Vec<&FdTable<M>>,
    ) -> (r: Option<BitmapInit>)
        requires
            old(session)@.wf(),
        ensures
            final(session)@.wf(),
            final(session)@.recording == old(session)@.recording,
            !(old(session)@.recording && t.preload_globals is Some && t.vm < old(
                session,
            )@.vms.len()) ==> r is None && final(session)@ == old(session)@,
            old(session)@.recording && t.preload_globals is Some && t.vm < old(session)@.vms.len()
                ==> {
                &&& r matches Some(init)
                &&& init.vm == t.vm
                &&& Some(init.globals) == t.preload_globals
                &&& init.bytes@ == expected_bitmap(
                    self.summary(),
                    summaries(peers@),
                    t.vm as int,
                )
                &&& final(session)@.vms == old(session)@.vms.update(
                    t.vm as int,
                    (VmView { preload_globals: t.preload_globals, disabled: init.bytes@ }),
                )
                &&& vm_consistent(
                    final(session)@,
                    self.summary(),
                    summaries(peers@),
                    t.vm as int,
                )
            },
            consistent(old(session)@, self.summary(), summaries(peers@)) ==> consistent(
                final(session)@,
                self.summary(),
                summaries(peers@),
            ),
    {
        if !session.is_recording() {
            return None;
        }
        let globals = match t.preload_globals {
            None => return None,
            Some(pr) => pr,
        };
        if t.vm >= session.vm_count() {
            return None;
        }
        let ghost me = self.summary();
        let ghost others = summaries(peers@);
        let mut disabled: Vec<u8> = Vec::new();
        let mut bytes: Vec<u8> = Vec::new();
        let mut fd: i32 = 0;
        while fd < SYSCALLBUF_FDS_DISABLED_SIZE
            invariant
                0 <= fd <= SYSCALLBUF_FDS_DISABLED_SIZE,
                me == self.summary(),
                others == summaries(peers@),
                disabled@.len() == fd,
                bytes@ == disabled@,
                forall|k: int|
                    0 <= k < fd ==> #[trigger] disabled@[k] == expected_byte(
                        me,
                        others,
                        t.vm as int,
                        k as i32,
                    ),
            decreases SYSCALLBUF_FDS_DISABLED_SIZE - fd,
        {
            let value: u8 = if is_fd_monitored_in_any_task(t.vm, fd, self, peers) {
                1
            } else {
                0
            };
            disabled.push(value);
            bytes.push(value);
            fd = fd + 1;
        }
        proof {
            assert(disabled@ =~= expected_bitmap(me, others, t.vm as int));
        }
        session.set_bitmap(t.vm, globals, disabled);
        proof {
            let now = session@;
            assert forall|a: int| 0 <= a < now.vms.len() implies (#[trigger] now.vms[a]).disabled.len()
                == SYSCALLBUF_FDS_DISABLED_SIZE by {
                if a != t.vm {
                    assert(now.vms[a] == old(session)@.vms[a]);
                }
            }
            assert forall|k: i32| 0 <= k < SYSCALLBUF_FDS_DISABLED_SIZE implies (
            #[trigger] now.vms[t.vm as int].disabled[k as int]) == expected_byte(
                me,
                others,
                t.vm as int,
                k,
            ) by {}
            if consistent(old(session)@, me, others) {
                assert forall|a: int| 0 <= a < now.vms.len() implies vm_consistent(
                    now,
                    me,
                    others,
                    a,
                ) by {
                    if a != t.vm {
                        assert(now.vms[a] == old(session)@.vms[a]);
                        assert(vm_consistent(old(session)@, me, others, a));
                    }
                }
            }
        }
        Some(BitmapInit { vm: t.vm, globals, bytes })
    }

    /// Finds the monitored fds that task `t` no longer has open after an
    /// `execve`, by looking for each under `/proc/<tid>/fd`, and closes them in
    /// this table. Returns them, each once, and the writes for the tracees'
    /// memory: of the monitored fds, taken in some order, those for which the
    /// look found nothing, in that order.
    pub fn fds_to_close_after_exec(
        &mut self,
        t: &Task,
        session: &mut Session,
        peers: &Vec<&FdTable<M>>,
    ) -> (r: (Vec<i32>, Vec<BitmapWrite>))
        requires
            old(self).wf(),
            old(session)@.wf(),
        ensures
            exists|fds: Seq<i32>, open: Seq<bool>|
                {
                    &&& fds.no_duplicates()
                    &&& fds.to_set() == old(self)@.dom()
                    &&& open.len() == fds.len()
                    &&& r.0@ == #[trigger] not_open(fds, open)
                },
            r.0@.no_duplicates(),
            forall|i: int| 0 <= i < r.0@.len() ==> old(self)@.contains_key(#[trigger] r.0@[i]),
            final(self).wf(),
            final(self)@ == old(self)@.remove_keys(r.0@.to_set()),
            final(self).tasks() == old(self).tasks(),
            final(self).beyond() == beyond_limit(final(self)@).len(),
            final(self).summary() == old(self).summary().without_all(r.0@, r.0@.len()),
            final(session)@.wf(),
            final(session)@ == close_all(
                old(session)@,
                old(self).summary(),
                summaries(peers@),
                r.0@,
                r.0@.len(),
            ),
            r.1@ == close_all_writes(
                old(session)@,
                old(self).summary(),
                summaries(peers@),
                r.0@,
                r.0@.len(),
            ),
            consistent(old(session)@, old(self).summary(), summaries(peers@)) ==> consistent(
                final(session)@,
                final(self).summary(),
                summaries(peers@),
            ),
    {
        let fds = self.monitored_fds();
        let mut open: Vec<bool> = Vec::new();
        let mut i: usize = 0;
        while i < fds.len()
            invariant
                i <= fds.len(),
                open@.len() == i,
            decreases fds.len() - i,
        {
            open.push(is_fd_open(t.tid, fds[i]));
            i = i + 1;
        }
        let fds_to_close = closed_fds(&fds, &open);
        proof {
            old(self).lemma_wf();
            lemma_not_open(fds@, open@);
            assert forall|k: int| 0 <= k < fds_to_close@.len() implies old(self)@.contains_key(
                #[trigger] fds_to_close@[k],
            ) by {
                let j = choose|j: int|
                    0 <= j < fds@.len() && !open@[j] && fds@[j] == fds_to_close@[k];
                assert(fds@.to_set().contains(fds@[j]));
            }
        }
        let writes = self.close_after_exec(t, fds_to_close.as_slice(), session, peers);
        (fds_to_close, writes)
    }

    /// Closes the given fds in this table, one after another, as `did_close`
    /// does. Returns the writes for the tracees' memory.
    pub fn close_after_exec(
        &mut self,
        t: &Task,
        fds_to_close: &[i32],
        session: &mut Session,
        peers: &Vec<&FdTable<M>>,
    ) -> (writes: Vec<BitmapWrite>)
        requires
            old(self).wf(),
            forall|i: int| 0 <= i < fds_to_close@.len() ==> #[trigger] fds_to_close@[i] >= 0,
            old(session)@.wf(),
        ensures
            final(self).wf(),
            final(self)@ == old(self)@.remove_keys(fds_to_close@.to_set()),
            final(self).tasks() == old(self).tasks(),
            final(self).beyond() == beyond_limit(final(self)@).len(),
            final(self).summary() == old(self).summary().without_all(
                fds_to_close@,
                fds_to_close@.len(),
            ),
            final(session)@.wf(),
            final(session)@ == close_all(
                old(session)@,
                old(self).summary(),
                summaries(peers@),
                fds_to_close@,
                fds_to_close@.len(),
            ),
            writes@ == close_all_writes(
                old(session)@,
                old(self).summary(),
                summaries(peers@),
                fds_to_close@,
                fds_to_close@.len(),
            ),
            consistent(old(session)@, old(self).summary(), summaries(peers@)) ==> consistent(
                final(session)@,
                final(self).summary(),
                summaries(peers@),
            ),
    {
        let mut writes: Vec<BitmapWrite> = Vec::new();
        let ghost s0 = session@;
        let ghost me0 = self.summary();
        let ghost others = summaries(peers@);
        let ghost fds = fds_to_close@;
        let mut i: usize = 0;
        proof {
            assert(self@ =~= old(self)@.remove_keys(fds.take(0).to_set()));
        }
        while i < fds_to_close.len()
            invariant
                i <= fds_to_close.len(),
                fds == fds_to_close@,
                others == summaries(peers@),
                me0 == old(self).summary(),
                s0 == old(session)@,
                forall|k: int| 0 <= k < fds.len() ==> #[trigger] fds[k] >= 0,
                self.wf(),
                session@.wf(),
                self@ == old(self)@.remove_keys(fds.take(i as int).to_set()),
                self.tasks() == old(self).tasks(),
                self.summary() == me0.without_all(fds, i as nat),
                session@ == close_all(s0, me0, others, fds, i as nat),
                writes@ == close_all_writes(s0, me0, others, fds, i as nat),
                s0.vms.len() == session@.vms.len(),
                consistent(s0, me0, others) ==> consistent(session@, self.summary(), others),
            decreases fds_to_close.len() - i,
        {
            let fd = fds_to_close[i];
            let mut step = self.did_close(fd, session, peers);
            writes.append(&mut step);
            proof {
                assert(fds.take(i + 1).to_set() =~= fds.take(i as int).to_set().insert(fd)) by {
                    assert(fds.take(i + 1) =~= fds.take(i as int).push(fd));
                    assert forall|x: i32|
                        fds.take(i + 1).to_set().contains(x) <==> fds.take(
                            i as int,
                        ).to_set().insert(fd).contains(x) by {
                        if fds.take(i + 1).contains(x) {
                            let k = choose|k: int|
                                0 <= k < fds.take(i + 1).len() && #[trigger] fds.take(i + 1)[k] == x;
                            if k < i {
                                assert(fds.take(i as int)[k] == x);
                            }
                        }
                        if fds.take(i as int).contains(x) {
                            let k = choose|k: int|
                                0 <= k < fds.take(i as int).len() && #[trigger] fds.take(i as int)[k] == x;
                            assert(fds.take(i + 1)[k] == x);
                        }
                        if x == fd {
                            assert(fds.take(i + 1)[i as int] == x);
                        }
                    }
                }
                assert(self@ =~= old(self)@.remove_keys(fds.take(i + 1).to_set()));
            }
            i = i + 1;
        }
        proof {
            assert(fds.take(fds.len() as int) =~= fds);
            self.lemma_wf();
        }
        writes
    }
}

/// A session that does not record gets no writes.
proof fn lemma_no_writes_unless_recording(
    s: SessionView,
    me: FdsView,
    peers: Seq<FdsView>,
    fd: i32,
    n: nat,
)
    requires
        !s.recording,
    ensures
        refresh_writes(s, me, peers, fd, n) == Seq::<BitmapWrite>::empty(),
    decreases n,
{
    if n > 0 {
        lemma_no_writes_unless_recording(s, me, peers, fd, (n - 1) as nat);
    }
}

/// Whether some table that reaches address space `vm`, `me` or one of
/// `peers`, monitors `fd`, or monitors an fd beyond the bitmap where `fd`
/// is the last byte's.
pub fn is_fd_monitored_in_any_task<M: FileMonitor>(
    vm: usize,
    fd: i32,
    me: &FdTable<M>,
    peers: &Vec<&FdTable<M>>,
) -> (r: bool)
    ensures
        r == space_disables(me.summary(), summaries(peers@), vm as int, fd),
{
    if me.covers_vm(vm) && me.disables_fd(fd) {
        return true;
    }
    let mut j: usize = 0;
    while j < peers.len()
        invariant
            j <= peers.len(),
            forall|i: int|
                0 <= i < j ==> !((#[trigger] summaries(peers@)[i]).covers(vm as int) && summaries(
                    peers@,
                )[i].disables(fd)),
        decreases peers.len() - j,
    {
        let table = peers[j];
        if table.covers_vm(vm) && table.disables_fd(fd) {
            assert(summaries(peers@)[j as int] == table.summary());
            return true;
        }
        assert(summaries(peers@)[j as int] == table.summary());
        j = j + 1;
    }
    false
}

/// After a table changed at `fd` alone and refreshed the byte that stands
/// for `fd`, every bitmap that was consistent with the tables is so again:
/// in each address space that the table reaches, byte `i` is 1 exactly if
/// some table reaching that address space monitors `i`, and the last byte is
/// 1 exactly if one of them monitors it or counts an fd beyond the bitmap.
pub proof fn lemma_refresh_keeps_bitmaps_consistent(
    s: SessionView,
    before: FdsView,
    after: FdsView,
    peers: Seq<FdsView>,
    fd: i32,
)
    requires
        s.wf(),
        fd >= 0,
        consistent(s, before, peers),
        after == before.with(fd) || after == before.without(fd),
    ensures
        consistent(refresh_byte(s, after, peers, collapsed(fd)), after, peers),
{
    let byte = collapsed(fd);
    let r = refresh_byte(s, after, peers, byte);
    assert forall|vm: int| 0 <= vm < r.vms.len() implies vm_consistent(r, after, peers, vm) by {
        if r.recording && r.vms[vm].preload_globals is Some {
            assert(vm_consistent(s, before, peers, vm));
            assert forall|k: i32| 0 <= k < SYSCALLBUF_FDS_DISABLED_SIZE implies (
            #[trigger] r.vms[vm].disabled[k as int]) == expected_byte(after, peers, vm, k) by {
                assert(s.vms[vm].disabled[k as int] == expected_byte(before, peers, vm, k));
                assert(after.covers(vm) == before.covers(vm));
                if k != byte {
                    assert(after.disables(k) == before.disables(k));
                }
            }
        }
    }
}

} // verus!
