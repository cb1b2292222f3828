//! Utilities around the core: page sizes, searching bytes, writing at an
//! offset, and what the processor says of itself.
use crate::backing::{pwrite_at, took};
use vstd::arithmetic::power2::{lemma2_to64, lemma2_to64_rest, lemma_pow2_pos, lemma_pow2_strictly_increases, lemma_pow2_unfold, pow2};
use vstd::bits::{lemma_u64_low_bits_mask_is_mod, low_bits_mask};
use vstd::prelude::*;

verus! {

pub const CPUID_GETVENDORSTRING: u32 = 0x0;

pub const CPUID_GETFEATURES: u32 = 0x1;

pub const CPUID_GETTLB: u32 = 0x2;

pub const CPUID_GETSERIAL: u32 = 0x3;

pub const CPUID_GETCACHEPARAMS: u32 = 0x04;

pub const CPUID_GETEXTENDEDFEATURES: u32 = 0x07;

pub const CPUID_GETEXTENDEDTOPOLOGY: u32 = 0x0B;

pub const CPUID_GETXSAVE: u32 = 0x0D;

pub const CPUID_GETRDTMONITORING: u32 = 0x0F;

pub const CPUID_GETRDTALLOCATION: u32 = 0x10;

pub const CPUID_GETSGX: u32 = 0x12;

pub const CPUID_GETPT: u32 = 0x14;

pub const CPUID_GETSOC: u32 = 0x17;

pub const CPUID_HYPERVISOR: u32 = 0x40000000;

pub const CPUID_INTELEXTENDED: u32 = 0x80000000;

pub const CPUID_INTELFEATURES: u32 = 0x80000001;

pub const CPUID_INTELBRANDSTRING: u32 = 0x80000002;

pub const CPUID_INTELBRANDSTRINGMORE: u32 = 0x80000003;

pub const CPUID_INTELBRANDSTRINGEND: u32 = 0x80000004;

pub const OSXSAVE_FEATURE_FLAG: u32 = 0x0800_0000;

pub const AVX_FEATURE_FLAG: u32 = 0x1000_0000;

pub const HLE_FEATURE_FLAG: u32 = 0x10;

pub const XSAVEC_FEATURE_FLAG: u32 = 0x2;

/// `si_code` of a trap at a breakpoint.
pub const TRAP_BRKPT: i32 = 1;

/// `si_code` of a signal that the kernel sent.
pub const SI_KERNEL: i32 = 0x80;

/// Where one feature's state lies in an XSAVE area.
#[derive(Clone, Copy, Debug)]
pub struct XSaveFeatureLayout {
    pub offset: u32,
    pub size: u32,
}

/// The layout of an XSAVE area.
#[derive(Debug)]
pub struct XSaveLayout {
    pub full_size: usize,
    pub supported_feature_bits: u64,
    pub feature_layouts: Vec<XSaveFeatureLayout>,
}

/// One answer of the CPUID instruction, with the question.
#[derive(Clone, Copy, Debug, Default)]
pub struct CPUIDRecord {
    pub eax_in: u32,
    pub ecx_in: u32,
    pub out: CPUIDData,
}

/// The four registers that CPUID fills.
#[derive(Clone, Copy, Debug, Default)]
pub struct CPUIDData {
    pub eax: u32,
    pub ebx: u32,
    pub ecx: u32,
    pub edx: u32,
}

/// An instruction that traps so that its effect can be recorded.
#[derive(Clone, Copy, Debug, PartialEq, Eq, Structural)]
pub enum TrappedInstruction {
    NoInstruction,
    Rdtsc,
    Rdtscp,
    CpuId,
    Int3,
    Pushf,
    Pushf16,
}

impl TrappedInstruction {
    /// The number by which the instruction is known in a trace.
    pub fn number(&self) -> (r: u8)
        ensures
            r == (match self {
                TrappedInstruction::NoInstruction => 0u8,
                TrappedInstruction::Rdtsc => 1,
                TrappedInstruction::Rdtscp => 2,
                TrappedInstruction::CpuId => 3,
                TrappedInstruction::Int3 => 4,
                TrappedInstruction::Pushf => 5,
                TrappedInstruction::Pushf16 => 6,
            }),
    {
        match self {
            TrappedInstruction::NoInstruction => 0,
            TrappedInstruction::Rdtsc => 1,
            TrappedInstruction::Rdtscp => 2,
            TrappedInstruction::CpuId => 3,
            TrappedInstruction::Int3 => 4,
            TrappedInstruction::Pushf => 5,
            TrappedInstruction::Pushf16 => 6,
        }
    }
}

/// Whether a SIGTRAP with this `si_code` came from the kernel or from a
/// breakpoint instruction.
pub fn is_kernel_trap(si_code: i32) -> (r: bool)
    ensures
        r == (si_code == TRAP_BRKPT || si_code == SI_KERNEL),
{
    si_code == TRAP_BRKPT || si_code == SI_KERNEL
}

/// Calls `nix::unistd::sysconf` for `PAGE_SIZE` and returns the value, or
/// `None` where the system names none. Nothing is claimed of the value: it
/// is the machine's.
#[verifier::external_body]
fn sysconf_page_size() -> (r: Option<i64>) {
    match nix::unistd::sysconf(nix::unistd::SysconfVar::PAGE_SIZE) {
        Ok(Some(size)) => Some(size),
        _ => None,
    }
}

/// Whether `n` is a power of two.
pub open spec fn is_power_of_two(n: u64) -> bool {
    exists|k: nat| k < 64 && n == #[trigger] pow2(k)
}

/// The size of a page on this machine, if the system names one that is a
/// power of two and fits.
pub fn page_size() -> (r: Option<usize>)
    ensures
        r matches Some(size) ==> is_power_of_two(size as u64),
{
    match sysconf_page_size() {
        Some(size) => {
            if size > 0 && size as u64 <= usize::MAX as u64 {
                if power_of_two(size as u64) {
                    return Some(size as usize);
                }
            }
            None
        },
        None => None,
    }
}

/// Whether `n` is a power of two.
pub fn power_of_two(n: u64) -> (r: bool)
    ensures
        r == is_power_of_two(n),
{
    let mut p: u64 = 1;
    let mut k: u32 = 0;
    proof {
        lemma2_to64();
    }
    while k < 63
        invariant
            k <= 63,
            p == pow2(k as nat),
            p <= 0x8000_0000_0000_0000,
            forall|j: nat| j < k ==> n != #[trigger] pow2(j),
        decreases 63 - k,
    {
        if p == n {
            return true;
        }
        proof {
            lemma_pow2_unfold((k + 1) as nat);
            lemma2_to64_rest();
            if k + 1 < 63 {
                lemma_pow2_strictly_increases((k + 1) as nat, 63);
            }
        }
        p = p * 2;
        k = k + 1;
    }
    p == n
}

/// The largest multiple of `page` that is not above `size`.
pub open spec fn rounded_down(size: int, page: int) -> int {
    size - size % page
}

/// The least multiple of `page` that is not below `size`.
pub open spec fn rounded_up(size: int, page: int) -> int {
    if size % page == 0 {
        size
    } else {
        size - size % page + page
    }
}

/// `sz` rounded down to a multiple of `page`, which is a power of two.
pub fn floor_to_page(sz: u64, page: u64) -> (r: u64)
    requires
        is_power_of_two(page),
    ensures
        r == rounded_down(sz as int, page as int),
        r <= sz,
        page > 0,
{
    proof {
        let k = choose|k: nat| k < 64 && page == #[trigger] pow2(k);
        lemma_pow2_pos(k);
        lemma_u64_low_bits_mask_is_mod(sz, k);
        let mask = (page - 1) as u64;
        assert(low_bits_mask(k) as u64 == mask);
        assert(sz & !mask == (sz - (sz & mask)) as u64) by (bit_vector);
        assert(sz & mask <= sz) by (bit_vector);
    }
    let page_mask: u64 = !(page - 1);
    sz & page_mask
}

/// `size` rounded up to a multiple of `page`, which is a power of two, or
/// `None` if that is more than a `u64` holds.
pub fn ceil_to_page(size: u64, page: u64) -> (r: Option<u64>)
    requires
        is_power_of_two(page),
    ensures
        match r {
            Some(n) => n == rounded_up(size as int, page as int),
            None => rounded_up(size as int, page as int) > u64::MAX,
        },
{
    let below = floor_to_page(size, page);
    if below == size {
        Some(size)
    } else {
        below.checked_add(page)
    }
}

/// `sz` rounded down to a multiple of the page size, or `None` where the
/// system names no page size.
pub fn floor_page_size(sz: usize) -> (r: Option<usize>)
    ensures
        r matches Some(n) ==> exists|page: u64|
            #[trigger] is_power_of_two(page) && n == rounded_down(sz as int, page as int),
{
    match page_size() {
        Some(page) => Some(floor_to_page(sz as u64, page as u64) as usize),
        None => None,
    }
}

/// `size` rounded up to a multiple of the page size, or `None` where the
/// system names no page size or the result does not fit.
pub fn ceil_page_size(size: usize) -> (r: Option<usize>)
    ensures
        r matches Some(n) ==> exists|page: u64|
            #[trigger] is_power_of_two(page) && n == rounded_up(size as int, page as int),
{
    match page_size() {
        Some(page) => match ceil_to_page(size as u64, page as u64) {
            Some(n) => if n <= usize::MAX as u64 {
                proof {
                    assert(is_power_of_two(page as u64));
                }
                Some(n as usize)
            } else {
                None
            },
            None => None,
        },
        None => None,
    }
}

/// `needle` stands in `haystack` at index `i`.
pub open spec fn occurs_at(haystack: Seq<u8>, needle: Seq<u8>, i: int) -> bool {
    0 <= i && i + needle.len() <= haystack.len() && haystack.subrange(i, i + needle.len())
        == needle
}

/// The index of the first place in `haystack` where `needle` stands.
pub fn find(haystack: &[u8], needle: &[u8]) -> (r: Option<usize>)
    ensures
        match r {
            Some(i) => occurs_at(haystack@, needle@, i as int) && forall|j: int|
                0 <= j < i ==> !occurs_at(haystack@, needle@, j),
            None => forall|j: int| !occurs_at(haystack@, needle@, j),
        },
{
    if needle.len() > haystack.len() {
        return None;
    }
    let last = haystack.len() - needle.len();
    let mut i: usize = 0;
    while i <= last
        invariant
            last == haystack.len() - needle.len(),
            needle.len() <= haystack.len(),
            i <= last + 1,
            forall|j: int| 0 <= j < i ==> !occurs_at(haystack@, needle@, j),
        decreases last + 1 - i,
    {
        let mut k: usize = 0;
        while k < needle.len() && haystack[i + k] == needle[k]
            invariant
                i <= last,
                last == haystack.len() - needle.len(),
                needle.len() <= haystack.len(),
                k <= needle.len(),
                forall|m: int| 0 <= m < k ==> haystack@[i + m] == needle@[m],
            decreases needle.len() - k,
        {
            k = k + 1;
        }
        if k == needle.len() {
            proof {
                assert(haystack@.subrange(i as int, i + needle.len()) =~= needle@);
            }
            return Some(i);
        }
        proof {
            assert(haystack@.subrange(i as int, i + needle.len())[k as int] == haystack@[i + k]);
        }
        i = i + 1;
    }
    None
}

/// What a positional write of part of a buffer means for the whole.
#[derive(Clone, Copy, Debug, PartialEq, Eq, Structural)]
pub enum WriteProgress {
    /// So many bytes are written in all; nothing more is tried.
    Stop(usize),
    /// Nothing was written and the kernel reported an error.
    Fail,
    /// So many bytes more are written, and the rest is tried next.
    Advance(usize),
}

/// What the answer `ret` of a write means, of which `written` bytes went
/// before: `None` for an error, else the number of bytes that the kernel
/// took. A write that takes nothing ends the attempt; an error does too,
/// and is passed on only where nothing was written before it.
pub open spec fn progress_of(written: usize, ret: Option<usize>) -> WriteProgress {
    match ret {
        Some(n) if n > 0 => WriteProgress::Advance(n),
        Some(_) => WriteProgress::Stop(written),
        None => if written > 0 {
            WriteProgress::Stop(written)
        } else {
            WriteProgress::Fail
        },
    }
}

/// Judges the answer `ret` of a write of which `written` bytes went before.
pub fn write_progress(written: usize, ret: Option<usize>) -> (r: WriteProgress)
    ensures
        r == progress_of(written, ret),
{
    match ret {
        Some(n) => if n > 0 {
            WriteProgress::Advance(n)
        } else {
            WriteProgress::Stop(written)
        },
        None => if written > 0 {
            WriteProgress::Stop(written)
        } else {
            WriteProgress::Fail
        },
    }
}

/// One positional write of a part of a buffer.
pub struct WriteCall {
    /// Index in the buffer of the first byte handed over.
    pub from: nat,
    /// How many bytes are handed over.
    pub count: nat,
    /// Where in the file they are to go.
    pub offset: int,
}

/// The write that is asked for when `written` bytes of a buffer of `len`
/// bytes are in the file, the first of them at `offset`: all of the rest,
/// to follow what is there.
pub open spec fn next_write(len: nat, offset: i64, written: nat) -> WriteCall {
    WriteCall { from: written, count: (len - written) as nat, offset: offset + written }
}

/// How many bytes are written once the writes were answered by `rets`, one
/// after another, each write being `next_write` of what went before, if
/// every one of them was asked for and took some bytes; `None` else.
pub open spec fn written_after(len: nat, offset: i64, rets: Seq<Option<usize>>) -> Option<nat>
    decreases rets.len(),
{
    if rets.len() == 0 {
        Some(0)
    } else {
        match written_after(len, offset, rets.drop_last()) {
            None => None,
            Some(w) => if w < len && offset + w <= i64::MAX && 0 < took(rets.last())
                <= next_write(len, offset, w).count {
                Some(w + took(rets.last()))
            } else {
                None
            },
        }
    }
}

/// Whether writing a buffer of `len` bytes at `offset` ends in `r` when the
/// writes are answered by `rets`. Either every answer took some bytes, and
/// then all is written, or the next write would begin beyond the last file
/// offset; or the last answer took nothing or was an error, and then what
/// was written before it is returned, or the error if that was nothing.
pub open spec fn pwrite_all_ends(
    len: nat,
    offset: i64,
    rets: Seq<Option<usize>>,
    r: Result<usize, ()>,
) -> bool {
    let all = written_after(len, offset, rets);
    let before = written_after(len, offset, rets.drop_last());
    ||| (all is Some && (all->Some_0 >= len || offset + all->Some_0 > i64::MAX) && r == Ok::<
        usize,
        (),
    >(all->Some_0 as usize))
    ||| (rets.len() > 0 && before is Some && before->Some_0 < len && offset + before->Some_0
        <= i64::MAX && took(rets.last()) == 0 && r == (match progress_of(
        before->Some_0 as usize,
        rets.last(),
    ) {
        WriteProgress::Stop(n) => Ok::<usize, ()>(n),
        WriteProgress::Fail => Err::<usize, ()>(()),
        WriteProgress::Advance(n) => Ok::<usize, ()>(n),
    }))
}

/// Answers that all took some bytes leave no more written than the buffer
/// holds, and at least one byte for each answer.
pub proof fn lemma_written_after(len: nat, offset: i64, rets: Seq<Option<usize>>)
    ensures
        written_after(len, offset, rets) matches Some(w) ==> rets.len() <= w <= len,
    decreases rets.len(),
{
    if rets.len() > 0 {
        lemma_written_after(len, offset, rets.drop_last());
    }
}

/// Writing all of a buffer never reports more than the buffer holds. It
/// fails only if the first write fails. It writes all when every write
/// takes some bytes and the end of the buffer lies at a file offset.
pub proof fn lemma_pwrite_all_ends(
    len: nat,
    offset: i64,
    rets: Seq<Option<usize>>,
    r: Result<usize, ()>,
)
    requires
        pwrite_all_ends(len, offset, rets, r),
        len <= usize::MAX,
    ensures
        r matches Ok(n) ==> n <= len,
        len == 0 ==> r == Ok::<usize, ()>(0),
        r is Err ==> rets.len() == 1 && rets[0] is None,
        (forall|i: int| 0 <= i < rets.len() ==> took(#[trigger] rets[i]) > 0) && offset + len
            <= i64::MAX ==> r == Ok::<usize, ()>(len as usize),
{
    lemma_written_after(len, offset, rets);
    if rets.len() > 0 {
        lemma_written_after(len, offset, rets.drop_last());
        assert(rets.last() == rets[rets.len() - 1]);
    }
}

/// Like pwrite64(2), but tries to write all of `buf`: what a short write
/// left is written next, behind what is written. Returns how many bytes
/// were written, or an error if the first write failed. Ends as
/// `pwrite_all_ends` has it for what the kernel answers.
pub fn pwrite_all_fallible(fd: i32, buf: &Vec<u8>, offset: i64) -> (r: Result<usize, ()>)
    ensures
        exists|rets: Seq<Option<usize>>| #[trigger] pwrite_all_ends(buf@.len(), offset, rets, r),
        r matches Ok(n) ==> n <= buf@.len(),
        buf@.len() == 0 ==> r == Ok::<usize, ()>(0),
{
    let mut written: usize = 0;
    let ghost mut rets: Seq<Option<usize>> = Seq::empty();
    while written < buf.len()
        invariant
            written <= buf.len(),
            written_after(buf@.len(), offset, rets) == Some(written as nat),
        decreases buf.len() - written,
    {
        let at: i128 = offset as i128 + written as i128;
        if at > i64::MAX as i128 {
            assert(pwrite_all_ends(buf@.len(), offset, rets, Ok::<usize, ()>(written)));
            return Ok(written);
        }
        let from = written;
        let count = buf.len() - written;
        let to = at as i64;
        assert(next_write(buf@.len(), offset, written as nat) == (WriteCall {
            from: from as nat,
            count: count as nat,
            offset: to as int,
        }));
        let ret = pwrite_at(fd, buf, from, count, to);
        let ghost before = rets;
        proof {
            rets = rets.push(ret);
            assert(rets.drop_last() =~= before);
        }
        match write_progress(written, ret) {
            WriteProgress::Stop(n) => {
                assert(pwrite_all_ends(buf@.len(), offset, rets, Ok::<usize, ()>(n)));
                return Ok(n);
            },
            WriteProgress::Fail => {
                assert(pwrite_all_ends(buf@.len(), offset, rets, Err::<usize, ()>(())));
                return Err(());
            },
            WriteProgress::Advance(n) => {
                written = written + n;
            },
        }
    }
    assert(pwrite_all_ends(buf@.len(), offset, rets, Ok::<usize, ()>(written)));
    Ok(written)
}

/// Calls `raw_cpuid::native_cpuid::cpuid_count`, which runs the CPUID
/// instruction, and copies the four registers. Nothing is claimed of them:
/// they are the processor's.
#[verifier::external_body]
fn cpuid(code: u32, subrequest: u32) -> (r: CPUIDData) {
    let temp = raw_cpuid::native_cpuid::cpuid_count(code, subrequest);
    CPUIDData { eax: temp.eax, ebx: temp.ebx, ecx: temp.ecx, edx: temp.edx }
}

/// Asks the processor for leaf `eax`, subleaf `ecx`, and keeps the question
/// with the answer.
pub fn cpuid_record(eax: u32, ecx: u32) -> (r: CPUIDRecord)
    ensures
        r.eax_in == eax,
        r.ecx_in == ecx,
{
    CPUIDRecord { eax_in: eax, ecx_in: ecx, out: cpuid(eax, ecx) }
}

/// Whether the features in `features`, the answer to `CPUID_GETFEATURES`,
/// say that the operating system has enabled XSAVE.
pub fn xsave_enabled_in(features: &CPUIDData) -> (r: bool)
    ensures
        r == (features.ecx & OSXSAVE_FEATURE_FLAG != 0),
{
    (features.ecx & OSXSAVE_FEATURE_FLAG) != 0
}

/// Whether the operating system has enabled XSAVE on this processor.
pub fn xsave_enabled() -> bool {
    let features = cpuid(CPUID_GETFEATURES, 0);
    xsave_enabled_in(&features)
}

/// Whether `rec` answers the question for leaf `eax`, subleaf `ecx`: it is
/// of that leaf, and of that subleaf or of a leaf without subleaves.
pub open spec fn answers(rec: CPUIDRecord, eax: u32, ecx: u32) -> bool {
    rec.eax_in == eax && (rec.ecx_in == ecx || rec.ecx_in == u32::MAX)
}

/// The first of `records` that answers the question for leaf `eax`,
/// subleaf `ecx`.
pub fn find_cpuid_record(records: &[CPUIDRecord], eax: u32, ecx: u32) -> (r: Option<&CPUIDRecord>)
    ensures
        match r {
            Some(rec) => exists|i: int|
                0 <= i < records@.len() && #[trigger] records@[i] == *rec && answers(
                    records@[i],
                    eax,
                    ecx,
                ) && forall|j: int| 0 <= j < i ==> !answers(#[trigger] records@[j], eax, ecx),
            None => forall|j: int|
                0 <= j < records@.len() ==> !answers(#[trigger] records@[j], eax, ecx),
        },
{
    let mut i: usize = 0;
    while i < records.len()
        invariant
            i <= records.len(),
            forall|j: int| 0 <= j < i ==> !answers(#[trigger] records@[j], eax, ecx),
        decreases records.len() - i,
    {
        let rec = &records[i];
        if rec.eax_in == eax && (rec.ecx_in == ecx || rec.ecx_in == u32::MAX) {
            assert(records@[i as int] == *rec);
            return Some(rec);
        }
        i = i + 1;
    }
    None
}

/// No record is of a leaf above `bound`.
pub open spec fn leaves_within(records: Seq<CPUIDRecord>, bound: u32) -> bool {
    forall|i: int| 0 <= i < records.len() ==> (#[trigger] records[i]).eax_in <= bound
}

/// `after` is `before` and then records of leaf `base` alone.
pub open spec fn extended_by_leaf(
    before: Seq<CPUIDRecord>,
    after: Seq<CPUIDRecord>,
    base: u32,
) -> bool {
    &&& before.len() <= after.len()
    &&& forall|i: int| 0 <= i < before.len() ==> after[i] == before[i]
    &&& forall|i: int| before.len() <= i < after.len() ==> (#[trigger] after[i]).eax_in == base
}

/// How the last subleaf of a leaf with any number of subleaves is known.
#[derive(Clone, Copy, Debug, PartialEq, Eq, Structural)]
pub enum SubleafEnd {
    /// Cache parameters end with a cache of type 0.
    NoMoreCaches,
    /// The extended topology ends with a level of type 0.
    NoMoreLevels,
    /// The SGX sections end with a subleaf of type 0.
    NoMoreSections,
}

/// Whether `out` is the answer for the last subleaf of its leaf.
pub fn is_last_subleaf(end: SubleafEnd, out: &CPUIDData) -> (r: bool)
    ensures
        r == (match end {
            SubleafEnd::NoMoreCaches => out.eax & 0x1f == 0,
            SubleafEnd::NoMoreLevels => out.ecx & 0xff00 == 0,
            SubleafEnd::NoMoreSections => out.eax & 0x0f == 0,
        }),
{
    match end {
        SubleafEnd::NoMoreCaches => out.eax & 0x1f == 0,
        SubleafEnd::NoMoreLevels => out.ecx & 0xff00 == 0,
        SubleafEnd::NoMoreSections => out.eax & 0x0f == 0,
    }
}

/// Asks for leaf `eax`, subleaf `ecx`, and appends the record.
fn push_record(results: &mut Vec<CPUIDRecord>, eax: u32, ecx: u32) -> (rec: CPUIDRecord)
    ensures
        final(results)@ == old(results)@.push(rec),
        rec.eax_in == eax,
        rec.ecx_in == ecx,
{
    let rec = cpuid_record(eax, ecx);
    results.push(rec);
    rec
}

/// Appends the records of leaf `base` from subleaf `first` on, up to and
/// with the one that `end` takes for the last.
fn push_subleaves_to_end(results: &mut Vec<CPUIDRecord>, base: u32, first: u32, end: SubleafEnd)
    ensures
        extended_by_leaf(old(results)@, final(results)@, base),
        final(results)@.len() > old(results)@.len(),
{
    let mut level: u32 = first;
    let mut more: bool = true;
    let mut pushed: bool = false;
    while more
        invariant
            extended_by_leaf(old(results)@, results@, base),
            pushed ==> results@.len() > old(results)@.len(),
            !more ==> pushed,
        decreases
                (if more {
                    u32::MAX - level + 1
                } else {
                    0
                }),
    {
        let rec = push_record(results, base, level);
        pushed = true;
        if is_last_subleaf(end, &rec.out) || level == u32::MAX {
            more = false;
        } else {
            level = level + 1;
        }
    }
}

/// Appends the records of leaf `base` for the subleaves from `first` to
/// `last`, both included.
fn push_subleaves(results: &mut Vec<CPUIDRecord>, base: u32, first: u32, last: u32)
    ensures
        extended_by_leaf(old(results)@, final(results)@, base),
        first <= last ==> final(results)@.len() == old(results)@.len() + (last - first) + 1,
        first > last ==> final(results)@ == old(results)@,
{
    if first > last {
        return ;
    }
    let mut level: u32 = first;
    while level < last
        invariant
            first <= level <= last,
            extended_by_leaf(old(results)@, results@, base),
            results@.len() == old(results)@.len() + (level - first),
        decreases last - level,
    {
        push_record(results, base, level);
        level = level + 1;
    }
    push_record(results, base, last);
}

/// The subleaves from 1 up to, not including, `upto` whose bit is set in
/// `mask`, in rising order.
pub open spec fn masked_levels(mask: u32, upto: u32) -> Seq<u32>
    decreases upto,
{
    if upto <= 1 {
        Seq::empty()
    } else {
        let level = (upto - 1) as u32;
        let before = masked_levels(mask, level);
        if mask & (1u32 << level) != 0 {
            before.push(level)
        } else {
            before
        }
    }
}

/// Appends the records of leaf `base` for those subleaves from 1 to 31
/// whose bit is set in `mask`, in rising order.
fn push_subleaves_in_mask(results: &mut Vec<CPUIDRecord>, base: u32, mask: u32)
    ensures
        extended_by_leaf(old(results)@, final(results)@, base),
        final(results)@.len() == old(results)@.len() + masked_levels(mask, 32).len(),
        forall|i: int|
            old(results)@.len() <= i < final(results)@.len() ==> (#[trigger] final(results)@[i]).ecx_in == masked_levels(mask, 32)[i - old(results)@.len()],
{
    let mut level: u32 = 1;
    while level < 32
        invariant
            1 <= level <= 32,
            extended_by_leaf(old(results)@, results@, base),
            results@.len() == old(results)@.len() + masked_levels(mask, level).len(),
            forall|i: int|
                old(results)@.len() <= i < results@.len() ==> (#[trigger] results@[i]).ecx_in
                    == masked_levels(mask, level)[i - old(results)@.len()],
        decreases 32 - level,
    {
        if mask & (1u32 << level) != 0 {
            push_record(results, base, level);
        }
        level = level + 1;
    }
}

/// Appends the records of leaf `base`, all of its subleaves that the
/// processor reports. Returns whether the leaf said that the processor has
/// SGX or runs under a hypervisor, if it is the one to say so.
fn push_leaf(results: &mut Vec<CPUIDRecord>, base: u32, has_sgx: bool) -> (found: (bool, bool))
    ensures
        extended_by_leaf(old(results)@, final(results)@, base),
        final(results)@.len() > old(results)@.len(),
        base != CPUID_GETEXTENDEDFEATURES ==> !found.0,
        base != CPUID_GETFEATURES ==> !found.1,
{
    let mut sgx = false;
    let mut hypervisor = false;
    if base == CPUID_GETCACHEPARAMS {
        push_subleaves_to_end(results, base, 0, SubleafEnd::NoMoreCaches);
    } else if base == CPUID_GETEXTENDEDFEATURES {
        let rec = push_record(results, base, 0);
        if rec.out.ebx & 0x4 != 0 {
            sgx = true;
        }
        push_subleaves(results, base, 1, rec.out.eax);
    } else if base == CPUID_GETEXTENDEDTOPOLOGY {
        push_subleaves_to_end(results, base, 0, SubleafEnd::NoMoreLevels);
    } else if base == CPUID_GETXSAVE {
        push_subleaves(results, base, 0, 63);
    } else if base == CPUID_GETRDTMONITORING {
        let rec = push_record(results, base, 0);
        push_subleaves_in_mask(results, base, rec.out.edx);
    } else if base == CPUID_GETRDTALLOCATION {
        let rec = push_record(results, base, 0);
        push_subleaves_in_mask(results, base, rec.out.ebx);
    } else if base == CPUID_GETSGX {
        push_record(results, base, 0);
        if has_sgx {
            push_record(results, base, 1);
            push_subleaves_to_end(results, base, 2, SubleafEnd::NoMoreSections);
        }
    } else if base == CPUID_GETPT || base == CPUID_GETSOC {
        let rec = push_record(results, base, 0);
        push_subleaves(results, base, 1, rec.out.eax);
    } else if base == CPUID_GETFEATURES {
        let rec = push_record(results, base, u32::MAX);
        if rec.out.ecx & 0x8000_0000 != 0 {
            hypervisor = true;
        }
    } else {
        push_record(results, base, u32::MAX);
    }
    (sgx, hypervisor)
}

/// Appends the records of the leaves from `first` to `last`, both
/// included, in rising order, each with no subleaf named.
fn push_plain_leaves(results: &mut Vec<CPUIDRecord>, first: u32, last: u32)
    ensures
        old(results)@.len() <= final(results)@.len(),
        forall|i: int| 0 <= i < old(results)@.len() ==> final(results)@[i] == old(results)@[i],
        forall|i: int|
            old(results)@.len() <= i < final(results)@.len() ==> first <= (
            #[trigger] final(results)@[i]).eax_in <= last,
        final(results)@.len() == old(results)@.len() + (if first <= last {
            last - first + 1
        } else {
            0
        }),
        forall|i: int|
            old(results)@.len() <= i < final(results)@.len() ==> (#[trigger] final(results)@[i]).eax_in == first + (i - old(results)@.len()) && final(results)@[i].ecx_in
                == u32::MAX,
{
    if first > last {
        return ;
    }
    let mut leaf: u32 = first;
    while leaf < last
        invariant
            first <= leaf <= last,
            results@.len() == old(results)@.len() + (leaf - first),
            forall|i: int| 0 <= i < old(results)@.len() ==> results@[i] == old(results)@[i],
            forall|i: int|
                old(results)@.len() <= i < results@.len() ==> (#[trigger] results@[i]).eax_in
                    == first + (i - old(results)@.len()) && results@[i].ecx_in == u32::MAX,
        decreases last - leaf,
    {
        push_record(results, leaf, u32::MAX);
        leaf = leaf + 1;
    }
    push_record(results, last, u32::MAX);
}

/// Some record is of leaf `leaf`.
pub open spec fn has_leaf(records: Seq<CPUIDRecord>, leaf: u32) -> bool {
    exists|i: int| 0 <= i < records.len() && (#[trigger] records[i]).eax_in == leaf
}

/// A leaf that `before` has, `after` has too, if `after` begins as `before`.
proof fn lemma_has_leaf_stays(before: Seq<CPUIDRecord>, after: Seq<CPUIDRecord>, leaf: u32)
    requires
        has_leaf(before, leaf),
        before.len() <= after.len(),
        forall|i: int| 0 <= i < before.len() ==> after[i] == before[i],
    ensures
        has_leaf(after, leaf),
{
    let i = choose|i: int| 0 <= i < before.len() && (#[trigger] before[i]).eax_in == leaf;
    assert(after[i].eax_in == leaf);
}

/// The highest basic leaf that is asked for: the highest that the vendor
/// record reports, or `up_to` if that is less.
pub open spec fn basic_info_max(records: Seq<CPUIDRecord>, up_to: u32) -> u32 {
    if up_to < records[0].out.eax {
        up_to
    } else {
        records[0].out.eax
    }
}

/// Collects what CPUID answers for every leaf up to `up_to` that the
/// processor reports, with all subleaves: the basic leaves, then those of a
/// hypervisor if there is one, then the extended leaves. The first record
/// is that of the vendor string, and no record is of a leaf above `up_to`.
/// Every basic leaf up to the highest asked for has a record, and what is
/// not a basic leaf lies in the range of the hypervisor's or the extended
/// leaves; with `up_to` below those ranges and no basic leaf to ask for,
/// the vendor record is all.
pub fn gather_cpuid_records(up_to: u32) -> (results: Vec<CPUIDRecord>)
    ensures
        results@.len() >= 1,
        results@[0].eax_in == CPUID_GETVENDORSTRING,
        results@[0].ecx_in == u32::MAX,
        leaves_within(results@, up_to),
        forall|leaf: u32|
            1 <= leaf <= basic_info_max(results@, up_to) ==> #[trigger] has_leaf(results@, leaf),
        forall|i: int|
            0 <= i < results@.len() ==> (#[trigger] results@[i]).eax_in <= basic_info_max(
                results@,
                up_to,
            ) || (up_to >= CPUID_HYPERVISOR && results@[i].eax_in >= CPUID_HYPERVISOR),
        up_to >= CPUID_INTELEXTENDED ==> has_leaf(results@, CPUID_INTELEXTENDED),
        basic_info_max(results@, up_to) == 0 && up_to < CPUID_HYPERVISOR ==> results@.len() == 1,
{
    let mut results: Vec<CPUIDRecord> = Vec::new();
    let vendor_string = push_record(&mut results, CPUID_GETVENDORSTRING, u32::MAX);
    let basic_info_max: u32 = if up_to < vendor_string.out.eax {
        up_to
    } else {
        vendor_string.out.eax
    };
    let mut has_sgx = false;
    let mut has_hypervisor = false;
    let mut base: u32 = 0;
    while base < basic_info_max
        invariant
            base <= basic_info_max <= up_to,
            results@.len() >= 1,
            results@[0] == vendor_string,
            leaves_within(results@, base),
            base == 0 ==> results@.len() == 1,
            forall|leaf: u32| 1 <= leaf <= base ==> #[trigger] has_leaf(results@, leaf),
        decreases basic_info_max - base,
    {
        base = base + 1;
        let ghost before = results@;
        let found = push_leaf(&mut results, base, has_sgx);
        has_sgx = has_sgx || found.0;
        has_hypervisor = has_hypervisor || found.1;
        proof {
            assert(results@[before.len() as int].eax_in == base);
            assert forall|leaf: u32| 1 <= leaf <= base implies #[trigger] has_leaf(
                results@,
                leaf,
            ) by {
                if leaf < base {
                    lemma_has_leaf_stays(before, results@, leaf);
                }
            }
        }
    }
    if up_to < CPUID_HYPERVISOR {
        return results;
    }
    let ghost basic = results@;
    if has_hypervisor {
        let hv_info = push_record(&mut results, CPUID_HYPERVISOR, u32::MAX);
        let hv_info_max: u32 = if up_to < hv_info.out.eax {
            up_to
        } else {
            hv_info.out.eax
        };
        push_plain_leaves(&mut results, CPUID_HYPERVISOR + 1, hv_info_max);
    }
    if up_to < CPUID_INTELEXTENDED {
        proof {
            assert forall|leaf: u32| 1 <= leaf <= basic_info_max implies #[trigger] has_leaf(
                results@,
                leaf,
            ) by {
                lemma_has_leaf_stays(basic, results@, leaf);
            }
        }
        return results;
    }
    let ghost middle = results@;
    let extended_info = push_record(&mut results, CPUID_INTELEXTENDED, u32::MAX);
    let extended_info_max: u32 = if up_to < extended_info.out.eax {
        up_to
    } else {
        extended_info.out.eax
    };
    push_plain_leaves(&mut results, CPUID_INTELEXTENDED + 1, extended_info_max);
    proof {
        assert(results@[middle.len() as int].eax_in == CPUID_INTELEXTENDED);
        assert forall|leaf: u32| 1 <= leaf <= basic_info_max implies #[trigger] has_leaf(
            results@,
            leaf,
        ) by {
            lemma_has_leaf_stays(basic, results@, leaf);
        }
    }
    results
}

/// What CPUID answers for every leaf that the processor reports.
pub fn all_cpuid_records() -> (results: Vec<CPUIDRecord>)
    ensures
        results@.len() >= 1,
        results@[0].eax_in == CPUID_GETVENDORSTRING,
        results@[0].ecx_in == u32::MAX,
        leaves_within(results@, u32::MAX),
        forall|leaf: u32|
            1 <= leaf <= results@[0].out.eax ==> #[trigger] has_leaf(results@, leaf),
        has_leaf(results@, CPUID_INTELEXTENDED),
{
    let results = gather_cpuid_records(u32::MAX);
    proof {
        assert(basic_info_max(results@, u32::MAX) == results@[0].out.eax);
    }
    results
}

/// One extended state component, as CPUID leaf 0xD reports it.
#[derive(Clone, Copy, Debug)]
pub struct ExtendedState {
    /// The subleaf, which is the number of the feature's bit.
    pub subleaf: u32,
    /// Whether the state is managed through XCR0.
    pub in_xcr0: bool,
    /// Where the state lies in the XSAVE area.
    pub offset: u32,
    /// How many bytes it takes there.
    pub size: u32,
}

/// What CPUID leaf 0xD reports of the XSAVE area.
#[derive(Debug)]
pub struct ExtendedStateInfo {
    /// Size of the area for the features that are enabled.
    pub area_size: u32,
    /// The state components from subleaf 2 on.
    pub states: Vec<ExtendedState>,
}

/// Calls `raw_cpuid::CpuId::get_extended_state_info` and copies out the
/// size of the XSAVE area for the enabled features and, for each state
/// that the crate's iterator yields, its subleaf, whether it is in XCR0,
/// its offset and its size. Nothing is claimed of the values: they are the
/// processor's.
#[verifier::external_body]
fn extended_state_info() -> (r: Option<ExtendedStateInfo>) {
    raw_cpuid::CpuId::new().get_extended_state_info().map(
        |info| ExtendedStateInfo {
            area_size: info.xsave_area_size_enabled_features(),
            states: info.iter().map(
                |state| ExtendedState {
                    subleaf: state.subleaf,
                    in_xcr0: state.is_in_xcr0(),
                    offset: state.offset(),
                    size: state.size(),
                },
            ).collect(),
        },
    )
}

/// The feature bits of the first `n` of `states`: one bit for each state
/// in XCR0, at the position of its subleaf.
pub open spec fn feature_bits(states: Seq<ExtendedState>, n: nat) -> u64
    decreases n,
{
    if n == 0 {
        0
    } else {
        let before = feature_bits(states, (n - 1) as nat);
        let state = states[n - 1];
        if state.in_xcr0 && state.subleaf < 64 {
            before | (1u64 << state.subleaf)
        } else {
            before
        }
    }
}

/// The layouts of the first `n` of `states`: two empty ones for the legacy
/// features, then one for each state in XCR0, in order.
pub open spec fn feature_layouts(states: Seq<ExtendedState>, n: nat) -> Seq<XSaveFeatureLayout>
    decreases n,
{
    if n == 0 {
        seq![
            XSaveFeatureLayout { offset: 0, size: 0 },
            XSaveFeatureLayout { offset: 0, size: 0 },
        ]
    } else {
        let before = feature_layouts(states, (n - 1) as nat);
        let state = states[n - 1];
        if state.in_xcr0 {
            before.push(XSaveFeatureLayout { offset: state.offset, size: state.size })
        } else {
            before
        }
    }
}

/// The layout of the XSAVE area that `info` describes. A processor that
/// reports no extended state has the legacy area: 512 bytes for x87 and SSE.
pub fn xsave_layout_of(info: &Option<ExtendedStateInfo>) -> (layout: XSaveLayout)
    ensures
        match info {
            Some(found) => {
                &&& layout.full_size == found.area_size
                &&& layout.supported_feature_bits == feature_bits(
                    found.states@,
                    found.states@.len(),
                )
                &&& layout.feature_layouts@ == feature_layouts(found.states@, found.states@.len())
            },
            None => {
                &&& layout.full_size == 512
                &&& layout.supported_feature_bits == 0x3
                &&& layout.feature_layouts@ == Seq::<XSaveFeatureLayout>::empty()
            },
        },
{
    match info {
        Some(found) => {
            let mut layout = XSaveLayout {
                full_size: found.area_size as usize,
                supported_feature_bits: 0,
                feature_layouts: Vec::new(),
            };
            layout.feature_layouts.push(XSaveFeatureLayout { offset: 0, size: 0 });
            layout.feature_layouts.push(XSaveFeatureLayout { offset: 0, size: 0 });
            proof {
                assert(layout.feature_layouts@ =~= feature_layouts(found.states@, 0));
            }
            let mut i: usize = 0;
            while i < found.states.len()
                invariant
                    i <= found.states.len(),
                    layout.full_size == found.area_size,
                    layout.supported_feature_bits == feature_bits(found.states@, i as nat),
                    layout.feature_layouts@ == feature_layouts(found.states@, i as nat),
                decreases found.states.len() - i,
            {
                let state = found.states[i];
                if state.in_xcr0 {
                    if state.subleaf < 64 {
                        layout.supported_feature_bits = layout.supported_feature_bits | (1u64
                            << state.subleaf);
                    }
                    layout.feature_layouts.push(
                        XSaveFeatureLayout { offset: state.offset, size: state.size },
                    );
                }
                i = i + 1;
            }
            layout
        },
        None => XSaveLayout {
            full_size: 512,
            supported_feature_bits: 0x3,
            feature_layouts: Vec::new(),
        },
    }
}

/// The layout of the XSAVE area on this processor.
pub fn xsave_native_layout() -> (layout: XSaveLayout)
    ensures
        layout.feature_layouts@.len() == 0 ==> layout.full_size == 512
            && layout.supported_feature_bits == 0x3,
{
    let info = extended_state_info();
    let layout = xsave_layout_of(&info);
    proof {
        if let Some(found) = info {
            lemma_two_legacy_layouts(found.states@, found.states@.len());
        }
    }
    layout
}

/// Where the processor reports extended state, the layouts begin with those
/// of the two legacy features.
proof fn lemma_two_legacy_layouts(states: Seq<ExtendedState>, n: nat)
    ensures
        feature_layouts(states, n).len() >= 2,
    decreases n,
{
    if n > 0 {
        lemma_two_legacy_layouts(states, (n - 1) as nat);
    }
}

} // verus!
