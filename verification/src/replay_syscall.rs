//! Decisions of the syscall replayer that need nothing but plain values:
//! the driver that talks to the tracee asks them and acts on the answers.
use crate::copy_policy::MAP_PRIVATE;
use vstd::prelude::*;

verus! {

/// At most this many bytes of a written string are shown in a diagnostic.
pub const MAX_DUMPED_BYTES: usize = 1000;

/// `mmap` protection: pages may be read.
pub const PROT_READ: i32 = 0x1;

/// `mmap` protection: pages may be written.
pub const PROT_WRITE: i32 = 0x2;

/// `mmap` flag: the mapping has no file behind it.
pub const MAP_ANONYMOUS: i32 = 0x20;

/// The kinds of task events in a trace.
#[derive(Clone, Copy, Debug, PartialEq, Eq, Structural)]
pub enum TraceTaskEventType {
    Clone,
    Exec,
    Exit,
}

/// A task event as the trace holds it, with the time of its frame.
#[derive(Clone, Copy, Debug, PartialEq, Eq, Structural)]
pub struct TraceTaskEvent {
    pub event_type: TraceTaskEventType,
    pub time: u64,
}

/// Why no task event was found for the current frame.
#[derive(Clone, Copy, Debug, PartialEq, Eq, Structural)]
pub enum TraceError {
    /// The trace ends before an event of the kind or of the time asked for.
    Corrupt,
    /// The event found is of a later frame than the current one.
    OutOfSync,
}

/// Whether reading stops at `event`: it is of the kind asked for, or of the
/// current frame or a later one.
pub open spec fn stops_at(event: TraceTaskEvent, now: u64, wanted: TraceTaskEventType) -> bool {
    event.time >= now || event.event_type == wanted
}

/// Reads task events, in the order of `events`, up to the first of kind
/// `wanted` or of a frame that is not before `now`, and returns its index.
/// Fails with `Corrupt` if there is none, and with `OutOfSync` if the one
/// found is not of frame `now`.
pub fn read_task_trace_event(events: &[TraceTaskEvent], now: u64, wanted: TraceTaskEventType) -> (r:
    Result<usize, TraceError>)
    ensures
        match r {
            Ok(i) => {
                &&& i < events@.len()
                &&& stops_at(events@[i as int], now, wanted)
                &&& events@[i as int].time == now
                &&& forall|j: int| 0 <= j < i ==> !stops_at(#[trigger] events@[j], now, wanted)
            },
            Err(TraceError::Corrupt) => forall|j: int|
                0 <= j < events@.len() ==> !stops_at(#[trigger] events@[j], now, wanted),
            Err(TraceError::OutOfSync) => exists|i: int|
                {
                    &&& 0 <= i < events@.len()
                    &&& stops_at(#[trigger] events@[i], now, wanted)
                    &&& events@[i].time != now
                    &&& forall|j: int| 0 <= j < i ==> !stops_at(#[trigger] events@[j], now, wanted)
                },
        },
{
    let mut i: usize = 0;
    while i < events.len()
        invariant
            i <= events.len(),
            forall|j: int| 0 <= j < i ==> !stops_at(#[trigger] events@[j], now, wanted),
        decreases events.len() - i,
    {
        let event = events[i];
        if event.time >= now || event.event_type == wanted {
            if event.time == now {
                return Ok(i);
            }
            assert(stops_at(events@[i as int], now, wanted));
            return Err(TraceError::OutOfSync);
        }
        i = i + 1;
    }
    Err(TraceError::Corrupt)
}

/// What the replayer saw when it waited for the tracee.
#[derive(Clone, Copy, Debug, PartialEq, Eq, Structural)]
pub enum WaitOutcome {
    /// The tracee is gone.
    UnexpectedExit,
    /// `waitpid` returned `ret` and the tracee stopped with the signal
    /// `stop_sig`, that replay ignores or not.
    Stopped { ret: i32, stop_sig: Option<i32>, ignored: bool },
}

/// What the replayer does after it waited for the tracee.
#[derive(Clone, Copy, Debug, PartialEq, Eq, Structural)]
pub enum ContStep {
    /// Go on to check the syscall; the tracee now has thread id `tid`.
    Arrived { tid: i32 },
    /// Resume the tracee and wait again; it now has thread id `tid`.
    Resume { tid: i32 },
    /// Replay has lost the tracee: `waitpid` failed, or reported another
    /// task than the one waited for, or a change of thread id a second time.
    Lost,
}

/// The thread id that task `tid` has after `waitpid` returned `ret`, where
/// `new_tid` is the id it is about to take on, or -1; `None` if `ret`
/// cannot be that task.
pub open spec fn tid_after_wait(tid: i32, new_tid: i32, ret: i32) -> Option<i32> {
    if ret < 0 {
        None
    } else if ret == new_tid {
        if tid != new_tid {
            Some(new_tid)
        } else {
            None
        }
    } else if ret == tid {
        Some(tid)
    } else {
        None
    }
}

/// Decides what follows a wait for the task `tid` on its way to the next
/// syscall. `new_tid` is the thread id that the task is about to take on
/// when another thread of its group calls `execve`, or -1. A stop with a
/// signal that replay ignores is passed over.
pub fn after_wait(tid: i32, new_tid: i32, outcome: WaitOutcome) -> (r: ContStep)
    ensures
        r == (match outcome {
            WaitOutcome::UnexpectedExit => ContStep::Arrived { tid },
            WaitOutcome::Stopped { ret, stop_sig, ignored } => match tid_after_wait(
                tid,
                new_tid,
                ret,
            ) {
                None => ContStep::Lost,
                Some(now) => if stop_sig is Some && ignored {
                    ContStep::Resume { tid: now }
                } else {
                    ContStep::Arrived { tid: now }
                },
            },
        }),
{
    match outcome {
        WaitOutcome::UnexpectedExit => ContStep::Arrived { tid },
        WaitOutcome::Stopped { ret, stop_sig, ignored } => {
            if ret < 0 {
                return ContStep::Lost;
            }
            let mut now = tid;
            if ret == new_tid {
                // A task changes its thread id once only.
                if tid == new_tid {
                    return ContStep::Lost;
                }
                now = new_tid;
            }
            if ret != now {
                return ContStep::Lost;
            }
            if stop_sig.is_some() && ignored {
                ContStep::Resume { tid: now }
            } else {
                ContStep::Arrived { tid: now }
            }
        },
    }
}

/// Whether the tracee has arrived where the trace says: no signal is
/// pending and the syscall is one of those expected.
pub fn at_expected_syscall(
    stop_sig: Option<i32>,
    current_syscall: i32,
    expect_syscallno: i32,
    maybe_expect_syscallno2: Option<i32>,
) -> (r: bool)
    ensures
        r == (stop_sig is None && (current_syscall == expect_syscallno || current_syscall == (
        match maybe_expect_syscallno2 {
            Some(n) => n,
            None => -1i32,
        }))),
{
    let expect_syscallno2 = match maybe_expect_syscallno2 {
        Some(n) => n,
        None => -1,
    };
    stop_sig.is_none() && (current_syscall == expect_syscallno || current_syscall
        == expect_syscallno2)
}

/// How many bytes of a written string are read back for a diagnostic, of
/// the `len` that the syscall was asked to write.
pub fn dumped_length(len: usize) -> (r: usize)
    ensures
        r == (if len < MAX_DUMPED_BYTES {
            len
        } else {
            MAX_DUMPED_BYTES
        }),
{
    if len < MAX_DUMPED_BYTES {
        len
    } else {
        MAX_DUMPED_BYTES
    }
}

/// Whether a recorded mapping can serve as scratch memory: readable and
/// writable, private and anonymous.
pub fn is_scratch_mapping(prot: i32, flags: i32) -> (r: bool)
    ensures
        r == (prot & (PROT_READ | PROT_WRITE) == (PROT_READ | PROT_WRITE) && flags & (MAP_PRIVATE
            | MAP_ANONYMOUS) == (MAP_PRIVATE | MAP_ANONYMOUS)),
{
    prot & (PROT_READ | PROT_WRITE) == (PROT_READ | PROT_WRITE) && flags & (MAP_PRIVATE
        | MAP_ANONYMOUS) == (MAP_PRIVATE | MAP_ANONYMOUS)
}

} // verus!
