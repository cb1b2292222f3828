use rd_core::fd_table::{
    closed_fds, is_fd_monitored_in_any_task, is_fd_open, BitmapWrite, FdTable,
};
use rd_core::file_monitor::{FileMonitor, LazyOffset, Range, Switchable};
use rd_core::task::{Session, Task, SYSCALLBUF_FDS_DISABLED_SIZE};
use std::cell::Cell;
use std::rc::Rc;

/// A monitor that answers with fixed values and counts its calls.
struct Probe {
    answer: u64,
    rd_fd: bool,
    calls: Cell<u32>,
}

impl Probe {
    fn new(answer: u64, rd_fd: bool) -> Rc<Probe> {
        Rc::new(Probe { answer, rd_fd, calls: Cell::new(0) })
    }
}

impl FileMonitor for Probe {
    fn emulate_ioctl(&self, _t: &Task) -> Option<u64> {
        self.calls.set(self.calls.get() + 1);
        Some(self.answer)
    }

    fn emulate_fcntl(&self, _t: &Task) -> Option<u64> {
        self.calls.set(self.calls.get() + 1);
        if self.rd_fd {
            Some(self.answer + 1)
        } else {
            None
        }
    }

    fn emulate_read(&self, _t: &Task, ranges: &Vec<Range>, _offset: &LazyOffset) -> Option<u64> {
        self.calls.set(self.calls.get() + 1);
        Some(ranges.iter().map(|r| r.length as u64).sum())
    }

    fn filter_getdents(&self, _t: &Task) {
        self.calls.set(self.calls.get() + 1);
    }

    fn is_rd_fd(&self) -> bool {
        self.rd_fd
    }

    fn will_write(&self, _t: &Task) -> Switchable {
        Switchable::PreventSwitch
    }

    fn did_write(&self, ranges: &Vec<Range>, offset: LazyOffset) -> LazyOffset {
        self.calls.set(self.calls.get() + 1);
        LazyOffset { explicit: offset.explicit, retrieved: Some(ranges.len() as i64) }
    }
}

const GLOBALS: u64 = 0x7000_0000;
const LAST: usize = (SYSCALLBUF_FDS_DISABLED_SIZE - 1) as usize;

fn task(tid: i32, vm: usize) -> Task {
    Task { tid, rec_tid: tid, vm, preload_globals: Some(GLOBALS + vm as u64 * 0x1000) }
}

/// A recording session with one address space, and a table for one task in
/// it whose bitmap is initialised.
fn one_task() -> (Session, Task, FdTable<Probe>) {
    let mut session = Session::new(true);
    let vm = session.add_address_space();
    let t = task(100, vm);
    let table = FdTable::<Probe>::new().create(&t);
    let init = table.init_syscallbuf_fds_disabled(&t, &mut session, &Vec::new());
    assert!(init.is_some());
    (session, t, table)
}

#[test]
fn new_table_is_empty() {
    let table = FdTable::<Probe>::new();
    assert!(!table.is_monitoring(0));
    assert!(!table.is_monitoring(3));
    assert_eq!(table.count_beyond_limit(), 0);
    assert!(table.get_monitor(3).is_none());
    assert!(table.monitored_fds().is_empty());
    assert!(!table.has_task(100));
}

#[test]
fn create_gives_an_empty_table_for_the_task() {
    let (mut session, t, mut table) = one_task();
    table.add_monitor(&t, 3, Probe::new(1, false), &mut session, &Vec::new());
    let other = task(101, t.vm);
    let fresh = table.create(&other);
    assert!(!fresh.is_monitoring(3));
    assert_eq!(fresh.count_beyond_limit(), 0);
    assert!(fresh.has_task(101));
    assert!(!fresh.has_task(100));
    assert!(fresh.covers_vm(t.vm));
}

#[test]
fn add_monitor_binds_the_fd() {
    let (mut session, t, mut table) = one_task();
    let m = Probe::new(7, false);
    let writes = table.add_monitor(&t, 3, m.clone(), &mut session, &Vec::new());
    assert!(table.is_monitoring(3));
    assert!(!table.is_monitoring(4));
    assert!(Rc::ptr_eq(&table.get_monitor(3).unwrap(), &m));
    assert_eq!(table.count_beyond_limit(), 0);
    assert_eq!(writes, vec![BitmapWrite { vm: t.vm, globals: GLOBALS, index: 3, value: 1 }]);
    assert_eq!(session.fds_disabled_byte(t.vm, 3), Some(1));
    assert_eq!(session.fds_disabled_byte(t.vm, 4), Some(0));
}

#[test]
fn dup_sharing() {
    let (mut session, t, mut table) = one_task();
    let m = Probe::new(7, false);
    table.add_monitor(&t, 3, m.clone(), &mut session, &Vec::new());
    let writes = table.did_dup(3, 7, &mut session, &Vec::new());
    let at3 = table.get_monitor(3).unwrap();
    let at7 = table.get_monitor(7).unwrap();
    assert!(Rc::ptr_eq(&at3, &at7));
    assert!(Rc::ptr_eq(&at7, &m));
    assert_eq!(writes, vec![BitmapWrite { vm: t.vm, globals: GLOBALS, index: 7, value: 1 }]);
    assert_eq!(session.fds_disabled_byte(t.vm, 7), Some(1));
}

#[test]
fn dup_of_an_unmonitored_fd_frees_the_target() {
    let (mut session, t, mut table) = one_task();
    table.add_monitor(&t, 7, Probe::new(7, false), &mut session, &Vec::new());
    let writes = table.did_dup(3, 7, &mut session, &Vec::new());
    assert!(!table.is_monitoring(7));
    assert!(!table.is_monitoring(3));
    assert_eq!(writes, vec![BitmapWrite { vm: t.vm, globals: GLOBALS, index: 7, value: 0 }]);
    assert_eq!(session.fds_disabled_byte(t.vm, 7), Some(0));
}

#[test]
fn dup_onto_a_monitored_fd_rebinds_it() {
    let (mut session, t, mut table) = one_task();
    let a = Probe::new(1, false);
    let b = Probe::new(2, false);
    table.add_monitor(&t, 3, a.clone(), &mut session, &Vec::new());
    table.add_monitor(&t, 2000, b, &mut session, &Vec::new());
    assert_eq!(table.count_beyond_limit(), 1);
    table.did_dup(3, 2000, &mut session, &Vec::new());
    assert!(Rc::ptr_eq(&table.get_monitor(2000).unwrap(), &a));
    assert_eq!(table.count_beyond_limit(), 1);
    table.did_dup(3, 2001, &mut session, &Vec::new());
    assert_eq!(table.count_beyond_limit(), 2);
    table.did_dup(4, 2000, &mut session, &Vec::new());
    assert_eq!(table.count_beyond_limit(), 1);
    assert_eq!(session.fds_disabled_byte(t.vm, LAST), Some(1));
}

#[test]
fn did_close_removes_the_monitor() {
    let (mut session, t, mut table) = one_task();
    table.add_monitor(&t, 3, Probe::new(7, false), &mut session, &Vec::new());
    let writes = table.did_close(3, &mut session, &Vec::new());
    assert!(!table.is_monitoring(3));
    assert_eq!(writes, vec![BitmapWrite { vm: t.vm, globals: GLOBALS, index: 3, value: 0 }]);
    assert_eq!(session.fds_disabled_byte(t.vm, 3), Some(0));
    let again = table.did_close(3, &mut session, &Vec::new());
    assert!(!table.is_monitoring(3));
    assert_eq!(again, vec![BitmapWrite { vm: t.vm, globals: GLOBALS, index: 3, value: 0 }]);
}

#[test]
fn bitmap_collapse() {
    let (mut session, t, mut table) = one_task();
    let none: Vec<&FdTable<Probe>> = Vec::new();
    assert_eq!(session.fds_disabled_byte(t.vm, LAST), Some(0));
    table.add_monitor(&t, 2000, Probe::new(1, false), &mut session, &none);
    assert_eq!(session.fds_disabled_byte(t.vm, LAST), Some(1));
    assert_eq!(table.count_beyond_limit(), 1);
    table.add_monitor(&t, 3000, Probe::new(2, false), &mut session, &none);
    assert_eq!(table.count_beyond_limit(), 2);
    assert_eq!(session.fds_disabled_byte(t.vm, LAST), Some(1));
    let writes = table.did_close(2000, &mut session, &none);
    assert_eq!(table.count_beyond_limit(), 1);
    assert_eq!(session.fds_disabled_byte(t.vm, LAST), Some(1));
    assert_eq!(writes, vec![BitmapWrite { vm: t.vm, globals: GLOBALS, index: LAST, value: 1 }]);
    let writes = table.did_close(3000, &mut session, &none);
    assert_eq!(table.count_beyond_limit(), 0);
    assert_eq!(session.fds_disabled_byte(t.vm, LAST), Some(0));
    assert_eq!(writes, vec![BitmapWrite { vm: t.vm, globals: GLOBALS, index: LAST, value: 0 }]);
}

#[test]
fn the_last_byte_also_stands_for_its_own_fd() {
    let (mut session, t, mut table) = one_task();
    let none: Vec<&FdTable<Probe>> = Vec::new();
    table.add_monitor(&t, LAST as i32, Probe::new(1, false), &mut session, &none);
    assert_eq!(table.count_beyond_limit(), 0);
    assert_eq!(session.fds_disabled_byte(t.vm, LAST), Some(1));
    table.add_monitor(&t, SYSCALLBUF_FDS_DISABLED_SIZE, Probe::new(1, false), &mut session, &none);
    assert_eq!(table.count_beyond_limit(), 1);
    table.did_close(LAST as i32, &mut session, &none);
    assert_eq!(session.fds_disabled_byte(t.vm, LAST), Some(1));
    table.did_close(SYSCALLBUF_FDS_DISABLED_SIZE, &mut session, &none);
    assert_eq!(session.fds_disabled_byte(t.vm, LAST), Some(0));
}

#[test]
fn count_beyond_limit_counts_the_fds_beyond_the_bitmap() {
    let (mut session, t, mut table) = one_task();
    let none: Vec<&FdTable<Probe>> = Vec::new();
    let fds = [0, 5, 1023, 1024, 1025, 40000, i32::MAX];
    for fd in fds {
        table.add_monitor(&t, fd, Probe::new(1, false), &mut session, &none);
        let beyond = table.monitored_fds().iter().filter(|fd| **fd >= SYSCALLBUF_FDS_DISABLED_SIZE).count();
        assert_eq!(table.count_beyond_limit() as usize, beyond);
    }
    assert_eq!(table.count_beyond_limit(), 4);
    for fd in [1024, 5, 40000, 7, i32::MAX, 1025] {
        table.did_close(fd, &mut session, &none);
        let beyond = table.monitored_fds().iter().filter(|fd| **fd >= SYSCALLBUF_FDS_DISABLED_SIZE).count();
        assert_eq!(table.count_beyond_limit() as usize, beyond);
    }
    assert_eq!(table.count_beyond_limit(), 0);
    let mut left = table.monitored_fds();
    left.sort();
    assert_eq!(left, vec![0, 1023]);
}

#[test]
fn a_byte_stays_set_while_a_peer_in_the_address_space_monitors_the_fd() {
    let mut session = Session::new(true);
    let vm = session.add_address_space();
    let t1 = task(100, vm);
    let t2 = task(101, vm);
    let mut mine = FdTable::<Probe>::new().create(&t1);
    let mut peer = FdTable::<Probe>::new().create(&t2);
    mine.init_syscallbuf_fds_disabled(&t1, &mut session, &vec![&peer]);
    peer.add_monitor(&t2, 9, Probe::new(1, false), &mut session, &vec![&mine]);
    mine.add_monitor(&t1, 9, Probe::new(2, false), &mut session, &vec![&peer]);
    assert_eq!(session.fds_disabled_byte(vm, 9), Some(1));
    let writes = mine.did_close(9, &mut session, &vec![&peer]);
    assert_eq!(writes, vec![BitmapWrite { vm, globals: GLOBALS, index: 9, value: 1 }]);
    assert_eq!(session.fds_disabled_byte(vm, 9), Some(1));
    let writes = peer.did_close(9, &mut session, &vec![&mine]);
    assert_eq!(writes, vec![BitmapWrite { vm, globals: GLOBALS, index: 9, value: 0 }]);
    assert_eq!(session.fds_disabled_byte(vm, 9), Some(0));
    assert!(!is_fd_monitored_in_any_task(vm, 9, &mine, &vec![&peer]));
}

#[test]
fn a_table_refreshes_every_address_space_it_reaches_once() {
    let mut session = Session::new(true);
    let vm0 = session.add_address_space();
    let vm1 = session.add_address_space();
    let vm2 = session.add_address_space();
    let t0 = task(100, vm0);
    let t0b = task(101, vm0);
    let t1 = task(102, vm1);
    let mut table = FdTable::<Probe>::new().create(&t0);
    table.insert_task(&t0b);
    table.insert_task(&t1);
    let none: Vec<&FdTable<Probe>> = Vec::new();
    table.init_syscallbuf_fds_disabled(&t0, &mut session, &none);
    table.init_syscallbuf_fds_disabled(&t1, &mut session, &none);
    let writes = table.add_monitor(&t0, 12, Probe::new(1, false), &mut session, &none);
    assert_eq!(
        writes,
        vec![
            BitmapWrite { vm: vm0, globals: GLOBALS, index: 12, value: 1 },
            BitmapWrite { vm: vm1, globals: GLOBALS + 0x1000, index: 12, value: 1 },
        ]
    );
    assert_eq!(session.fds_disabled_byte(vm0, 12), Some(1));
    assert_eq!(session.fds_disabled_byte(vm1, 12), Some(1));
    assert_eq!(session.fds_disabled_byte(vm2, 12), Some(0));
}

#[test]
fn no_write_before_the_preload_library_is_set_up() {
    let mut session = Session::new(true);
    let vm = session.add_address_space();
    let t = task(100, vm);
    let mut table = FdTable::<Probe>::new().create(&t);
    let writes = table.add_monitor(&t, 3, Probe::new(1, false), &mut session, &Vec::new());
    assert!(writes.is_empty());
    assert_eq!(session.fds_disabled_byte(vm, 3), Some(0));
    assert_eq!(session.preload_globals(vm), None);
    let init = table.init_syscallbuf_fds_disabled(&t, &mut session, &Vec::new()).unwrap();
    assert_eq!(init.vm, vm);
    assert_eq!(init.globals, GLOBALS);
    assert_eq!(init.bytes.len(), SYSCALLBUF_FDS_DISABLED_SIZE as usize);
    for (i, byte) in init.bytes.iter().enumerate() {
        assert_eq!(*byte, if i == 3 { 1 } else { 0 });
        assert_eq!(session.fds_disabled_byte(vm, i), Some(*byte));
    }
    assert_eq!(session.preload_globals(vm), Some(GLOBALS));
}

#[test]
fn init_gathers_all_tables_of_the_address_space() {
    let mut session = Session::new(true);
    let vm = session.add_address_space();
    let other_vm = session.add_address_space();
    let t1 = task(100, vm);
    let t2 = task(101, vm);
    let t3 = task(102, other_vm);
    let mut mine = FdTable::<Probe>::new().create(&t1);
    let mut peer = FdTable::<Probe>::new().create(&t2);
    let mut far = FdTable::<Probe>::new().create(&t3);
    mine.add_monitor(&t1, 1, Probe::new(1, false), &mut session, &vec![&peer, &far]);
    peer.add_monitor(&t2, 2, Probe::new(1, false), &mut session, &vec![&mine, &far]);
    peer.add_monitor(&t2, 5000, Probe::new(1, false), &mut session, &vec![&mine, &far]);
    far.add_monitor(&t3, 4, Probe::new(1, false), &mut session, &vec![&mine, &peer]);
    let init = mine.init_syscallbuf_fds_disabled(&t1, &mut session, &vec![&peer, &far]).unwrap();
    for (i, byte) in init.bytes.iter().enumerate() {
        assert_eq!(*byte, if i == 1 || i == 2 || i == LAST { 1 } else { 0 }, "byte {}", i);
    }
}

#[test]
fn init_needs_a_recording_session_and_preload_globals() {
    let mut replaying = Session::new(false);
    let vm = replaying.add_address_space();
    let t = task(100, vm);
    let mut table = FdTable::<Probe>::new().create(&t);
    assert!(table.init_syscallbuf_fds_disabled(&t, &mut replaying, &Vec::new()).is_none());
    assert_eq!(replaying.preload_globals(vm), None);
    let writes = table.add_monitor(&t, 3, Probe::new(1, false), &mut replaying, &Vec::new());
    assert!(writes.is_empty());
    assert!(table.is_monitoring(3));
    assert_eq!(replaying.fds_disabled_byte(vm, 3), Some(0));

    let mut recording = Session::new(true);
    let vm = recording.add_address_space();
    let bare = Task { tid: 100, rec_tid: 100, vm, preload_globals: None };
    let table = FdTable::<Probe>::new().create(&bare);
    assert!(table.init_syscallbuf_fds_disabled(&bare, &mut recording, &Vec::new()).is_none());
    let nowhere = Task { tid: 100, rec_tid: 100, vm: 17, preload_globals: Some(GLOBALS) };
    assert!(table.init_syscallbuf_fds_disabled(&nowhere, &mut recording, &Vec::new()).is_none());
}

#[test]
fn close_across_exec_on_replay() {
    let mut session = Session::new(true);
    let vm = session.add_address_space();
    let t1 = task(100, vm);
    let t2 = task(101, vm);
    let mut table = FdTable::<Probe>::new().create(&t1);
    table.insert_task(&t2);
    let none: Vec<&FdTable<Probe>> = Vec::new();
    table.init_syscallbuf_fds_disabled(&t1, &mut session, &none);
    for fd in [3, 5, 10] {
        table.add_monitor(&t1, fd, Probe::new(1, false), &mut session, &none);
    }
    let writes = table.close_after_exec(&t1, &[5], &mut session, &none);
    let mut left = table.monitored_fds();
    left.sort();
    assert_eq!(left, vec![3, 10]);
    assert_eq!(writes, vec![BitmapWrite { vm, globals: GLOBALS, index: 5, value: 0 }]);
    assert_eq!(session.fds_disabled_byte(vm, 3), Some(1));
    assert_eq!(session.fds_disabled_byte(vm, 5), Some(0));
    assert_eq!(session.fds_disabled_byte(vm, 10), Some(1));
    assert!(table.has_task(100) && table.has_task(101));
}

#[test]
fn close_after_exec_closes_each_fd_in_turn() {
    let (mut session, t, mut table) = one_task();
    let none: Vec<&FdTable<Probe>> = Vec::new();
    for fd in [3, 5, 2000, 3000] {
        table.add_monitor(&t, fd, Probe::new(1, false), &mut session, &none);
    }
    let writes = table.close_after_exec(&t, &[2000, 5, 5, 3000, 8], &mut session, &none);
    assert_eq!(
        writes,
        vec![
            BitmapWrite { vm: t.vm, globals: GLOBALS, index: LAST, value: 1 },
            BitmapWrite { vm: t.vm, globals: GLOBALS, index: 5, value: 0 },
            BitmapWrite { vm: t.vm, globals: GLOBALS, index: 5, value: 0 },
            BitmapWrite { vm: t.vm, globals: GLOBALS, index: LAST, value: 0 },
            BitmapWrite { vm: t.vm, globals: GLOBALS, index: 8, value: 0 },
        ]
    );
    assert_eq!(table.monitored_fds(), vec![3]);
    assert_eq!(table.count_beyond_limit(), 0);
}

#[test]
fn close_across_exec() {
    let pid = nix::unistd::getpid().as_raw();
    let name = core::ffi::CStr::from_bytes_with_nul(b"fds-after-exec\0").unwrap();
    let flags = nix::sys::memfd::MemFdCreateFlag::empty();
    let a = nix::sys::memfd::memfd_create(name, flags).unwrap();
    let b = nix::sys::memfd::memfd_create(name, flags).unwrap();
    let c = nix::sys::memfd::memfd_create(name, flags).unwrap();
    let mut session = Session::new(true);
    let vm = session.add_address_space();
    let t1 = task(pid, vm);
    let t2 = task(pid, vm);
    let mut table = FdTable::<Probe>::new().create(&t1);
    table.insert_task(&t2);
    let none: Vec<&FdTable<Probe>> = Vec::new();
    table.init_syscallbuf_fds_disabled(&t1, &mut session, &none);
    for fd in [a, b, c] {
        table.add_monitor(&t1, fd, Probe::new(1, false), &mut session, &none);
    }
    nix::unistd::close(b).unwrap();
    let (closed, writes) = table.fds_to_close_after_exec(&t1, &mut session, &none);
    assert_eq!(closed, vec![b]);
    let mut left = table.monitored_fds();
    left.sort();
    let mut expected = vec![a, c];
    expected.sort();
    assert_eq!(left, expected);
    assert_eq!(writes.len(), 1);
    assert_eq!(writes[0].value, 0);
    assert_eq!(writes[0].index, b as usize);
    let (closed, writes) = table.fds_to_close_after_exec(&t1, &mut session, &none);
    assert!(closed.is_empty());
    assert!(writes.is_empty());
    nix::unistd::close(a).unwrap();
    nix::unistd::close(c).unwrap();
}

#[test]
fn clone_into_task_shares_the_monitors() {
    let (mut session, t, mut table) = one_task();
    let none: Vec<&FdTable<Probe>> = Vec::new();
    let m = Probe::new(1, false);
    table.add_monitor(&t, 3, m.clone(), &mut session, &none);
    table.add_monitor(&t, 4000, Probe::new(2, false), &mut session, &none);
    let child = task(200, t.vm);
    let mut copy = table.clone_into_task(&child);
    assert!(Rc::ptr_eq(&copy.get_monitor(3).unwrap(), &m));
    assert!(copy.is_monitoring(4000));
    assert_eq!(copy.count_beyond_limit(), 1);
    assert!(copy.has_task(200));
    assert!(!copy.has_task(100));
    copy.did_close(3, &mut session, &vec![&table]);
    assert!(!copy.is_monitoring(3));
    assert!(table.is_monitoring(3));
    assert_eq!(session.fds_disabled_byte(t.vm, 3), Some(1));
}

#[test]
fn tasks_come_and_go() {
    let t = task(100, 0);
    let mut table = FdTable::<Probe>::new().create(&t);
    table.insert_task(&task(101, 1));
    table.insert_task(&task(102, 0));
    assert!(table.has_task(100) && table.has_task(101) && table.has_task(102));
    assert!(table.covers_vm(0) && table.covers_vm(1) && !table.covers_vm(2));
    table.insert_task(&task(101, 2));
    assert!(!table.covers_vm(2));
    table.erase_task(101);
    assert!(!table.has_task(101));
    assert!(table.has_task(100) && table.has_task(102));
    assert!(!table.covers_vm(1));
    table.erase_task(7);
    table.erase_task(100);
    table.erase_task(102);
    assert!(!table.covers_vm(0));
}

#[test]
fn calls_on_an_unmonitored_fd_do_nothing() {
    let (_session, t, table) = one_task();
    let mut result: u64 = 99;
    assert!(!table.emulate_ioctl(3, &t, &mut result));
    assert!(!table.emulate_fcntl(3, &t, &mut result));
    let ranges = vec![Range { data: 0x1000, length: 8 }];
    let mut offset = LazyOffset { explicit: None, retrieved: None };
    assert!(!table.emulate_read(3, &t, &ranges, &offset, &mut result));
    assert_eq!(result, 99);
    table.filter_getdents(3, &t);
    assert!(!table.is_rd_fd(3));
    assert_eq!(table.will_write(&t, 3), Switchable::AllowSwitch);
    table.did_write(3, ranges, &mut offset);
    assert_eq!(offset.retrieved, None);
}

#[test]
fn calls_on_a_monitored_fd_reach_its_monitor() {
    let (mut session, t, mut table) = one_task();
    let m = Probe::new(40, true);
    table.add_monitor(&t, 3, m.clone(), &mut session, &Vec::new());
    table.add_monitor(&t, 4, Probe::new(50, false), &mut session, &Vec::new());
    let mut result: u64 = 0;
    assert!(table.emulate_ioctl(3, &t, &mut result));
    assert_eq!(result, 40);
    assert!(table.emulate_fcntl(3, &t, &mut result));
    assert_eq!(result, 41);
    let ranges = vec![Range { data: 0x1000, length: 8 }, Range { data: 0x2000, length: 4 }];
    let mut offset = LazyOffset { explicit: Some(0), retrieved: None };
    assert!(table.emulate_read(3, &t, &ranges, &offset, &mut result));
    assert_eq!(result, 12);
    table.filter_getdents(3, &t);
    assert!(table.is_rd_fd(3));
    assert!(!table.is_rd_fd(4));
    assert_eq!(table.will_write(&t, 3), Switchable::PreventSwitch);
    table.did_write(3, ranges, &mut offset);
    assert_eq!(offset.retrieved, Some(2));
    assert_eq!(m.calls.get(), 5);
    result = 77;
    assert!(!table.emulate_fcntl(4, &t, &mut result));
    assert_eq!(result, 77);
    assert!(table.emulate_ioctl(4, &t, &mut result));
    assert_eq!(result, 50);
}

#[test]
fn disables_fd_follows_the_monitors_and_the_count() {
    let (mut session, t, mut table) = one_task();
    let none: Vec<&FdTable<Probe>> = Vec::new();
    table.add_monitor(&t, 3, Probe::new(1, false), &mut session, &none);
    assert!(table.disables_fd(3));
    assert!(!table.disables_fd(4));
    assert!(!table.disables_fd(LAST as i32));
    table.add_monitor(&t, 5000, Probe::new(1, false), &mut session, &none);
    assert!(table.disables_fd(LAST as i32));
    assert!(table.disables_fd(5000));
    assert!(!table.disables_fd(LAST as i32 - 1));
    assert!(is_fd_monitored_in_any_task(t.vm, LAST as i32, &table, &none));
    assert!(!is_fd_monitored_in_any_task(t.vm + 1, LAST as i32, &table, &none));
}

#[test]
fn update_refreshes_one_byte() {
    let (mut session, t, table) = one_task();
    let writes = table.update_syscallbuf_fds_disabled(6000, &mut session, &Vec::new());
    assert_eq!(writes, vec![BitmapWrite { vm: t.vm, globals: GLOBALS, index: LAST, value: 0 }]);
    let writes = table.update_syscallbuf_fds_disabled(0, &mut session, &Vec::new());
    assert_eq!(writes, vec![BitmapWrite { vm: t.vm, globals: GLOBALS, index: 0, value: 0 }]);
}

#[test]
fn the_fds_found_closed_are_picked_in_order() {
    assert_eq!(closed_fds(&vec![3, 5, 10], &vec![true, false, true]), vec![5]);
    assert_eq!(closed_fds(&vec![3, 5, 10], &vec![false, false, false]), vec![3, 5, 10]);
    assert_eq!(closed_fds(&vec![3, 5, 10], &vec![true, true, true]), Vec::<i32>::new());
    assert_eq!(closed_fds(&vec![10, 3, 5], &vec![false, true, false]), vec![10, 5]);
    assert_eq!(closed_fds(&Vec::new(), &Vec::new()), Vec::<i32>::new());
}

#[test]
fn an_fd_is_open_if_proc_has_it() {
    let pid = nix::unistd::getpid().as_raw();
    let name = core::ffi::CStr::from_bytes_with_nul(b"open-probe\0").unwrap();
    let fd = nix::sys::memfd::memfd_create(name, nix::sys::memfd::MemFdCreateFlag::empty()).unwrap();
    assert!(is_fd_open(pid, fd));
    nix::unistd::close(fd).unwrap();
    assert!(!is_fd_open(pid, fd));
    assert!(!is_fd_open(pid, -1));
    assert!(!is_fd_open(-1, 0));
}
