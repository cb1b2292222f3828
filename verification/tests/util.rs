use rd_core::backing::create_memfd_file;
use rd_core::trace::compressed_writer::{BlockHeader, Sync, WaitFlag};
use rd_core::util::{
    all_cpuid_records, ceil_page_size, ceil_to_page, cpuid_record, find, find_cpuid_record,
    floor_page_size, floor_to_page, gather_cpuid_records, is_kernel_trap, is_last_subleaf,
    page_size, power_of_two, pwrite_all_fallible, write_progress, xsave_enabled,
    xsave_enabled_in, xsave_layout_of, xsave_native_layout, CPUIDData, CPUIDRecord,
    ExtendedState, ExtendedStateInfo, SubleafEnd, TrappedInstruction, WriteProgress,
    CPUID_GETFEATURES, CPUID_GETVENDORSTRING, CPUID_GETXSAVE, OSXSAVE_FEATURE_FLAG,
};

#[test]
fn kernel_traps() {
    assert!(is_kernel_trap(1));
    assert!(is_kernel_trap(0x80));
    assert!(!is_kernel_trap(0));
    assert!(!is_kernel_trap(2));
    assert!(!is_kernel_trap(-1));
    assert!(!is_kernel_trap(0x81));
}

#[test]
fn trapped_instructions_have_their_numbers() {
    assert_eq!(TrappedInstruction::NoInstruction.number(), 0);
    assert_eq!(TrappedInstruction::Rdtsc.number(), 1);
    assert_eq!(TrappedInstruction::Rdtscp.number(), 2);
    assert_eq!(TrappedInstruction::CpuId.number(), 3);
    assert_eq!(TrappedInstruction::Int3.number(), 4);
    assert_eq!(TrappedInstruction::Pushf.number(), 5);
    assert_eq!(TrappedInstruction::Pushf16.number(), 6);
}

#[test]
fn powers_of_two() {
    for k in 0..64 {
        assert!(power_of_two(1u64 << k));
    }
    for n in [0u64, 3, 5, 6, 7, 12, 4095, 4097, u64::MAX, (1 << 63) + 1] {
        assert!(!power_of_two(n), "{}", n);
    }
}

#[test]
fn the_page_size_is_the_systems() {
    let raw = nix::unistd::sysconf(nix::unistd::SysconfVar::PAGE_SIZE).unwrap().unwrap();
    assert_eq!(page_size(), Some(raw as usize));
    assert!(power_of_two(raw as u64));
}

#[test]
fn rounding_to_pages() {
    assert_eq!(floor_to_page(0, 4096), 0);
    assert_eq!(floor_to_page(1, 4096), 0);
    assert_eq!(floor_to_page(4095, 4096), 0);
    assert_eq!(floor_to_page(4096, 4096), 4096);
    assert_eq!(floor_to_page(12345, 4096), 12288);
    assert_eq!(floor_to_page(u64::MAX, 4096), u64::MAX - 4095);
    assert_eq!(floor_to_page(77, 1), 77);
    assert_eq!(ceil_to_page(0, 4096), Some(0));
    assert_eq!(ceil_to_page(1, 4096), Some(4096));
    assert_eq!(ceil_to_page(4096, 4096), Some(4096));
    assert_eq!(ceil_to_page(4097, 4096), Some(8192));
    assert_eq!(ceil_to_page(12345, 65536), Some(65536));
    assert_eq!(ceil_to_page(u64::MAX - 4095, 4096), Some(u64::MAX - 4095));
    assert_eq!(ceil_to_page(u64::MAX - 4094, 4096), None);
    assert_eq!(ceil_to_page(u64::MAX, 1), Some(u64::MAX));
}

#[test]
fn rounding_to_this_machines_pages() {
    let page = page_size().unwrap();
    assert_eq!(floor_page_size(0), Some(0));
    assert_eq!(floor_page_size(page - 1), Some(0));
    assert_eq!(floor_page_size(page), Some(page));
    assert_eq!(floor_page_size(3 * page + 5), Some(3 * page));
    assert_eq!(ceil_page_size(0), Some(0));
    assert_eq!(ceil_page_size(1), Some(page));
    assert_eq!(ceil_page_size(page), Some(page));
    assert_eq!(ceil_page_size(3 * page + 5), Some(4 * page));
    assert_eq!(ceil_page_size(usize::MAX), None);
}

#[test]
fn find_gives_the_first_place() {
    assert_eq!(find(b"hello world", b"o"), Some(4));
    assert_eq!(find(b"hello world", b"world"), Some(6));
    assert_eq!(find(b"hello world", b"hello world"), Some(0));
    assert_eq!(find(b"hello world", b"worlds"), None);
    assert_eq!(find(b"hello world", b""), Some(0));
    assert_eq!(find(b"", b""), Some(0));
    assert_eq!(find(b"", b"a"), None);
    assert_eq!(find(b"aaab", b"aab"), Some(1));
    assert_eq!(find(b"/tmp/\xff\xfe/x", b"\xfe/"), Some(6));
    assert_eq!(find(b"abc", b"abcd"), None);
}

#[test]
fn progress_of_a_write() {
    assert_eq!(write_progress(0, Some(10)), WriteProgress::Advance(10));
    assert_eq!(write_progress(5, Some(1)), WriteProgress::Advance(1));
    assert_eq!(write_progress(0, Some(0)), WriteProgress::Stop(0));
    assert_eq!(write_progress(5, Some(0)), WriteProgress::Stop(5));
    assert_eq!(write_progress(5, None), WriteProgress::Stop(5));
    assert_eq!(write_progress(0, None), WriteProgress::Fail);
}

#[test]
fn pwrite_all_writes_at_the_offset() {
    let (fd, _) = create_memfd_file(&b"w".to_vec(), 1, 2).unwrap();
    let data: Vec<u8> = (0..100_000).map(|i| (i % 200) as u8).collect();
    assert_eq!(pwrite_all_fallible(fd.as_raw(), &data, 10), Ok(100_000));
    let mut back = vec![0u8; 100_010];
    assert_eq!(nix::sys::uio::pread(fd.as_raw(), &mut back, 0).unwrap(), 100_010);
    assert_eq!(&back[..10], &[0u8; 10]);
    assert_eq!(&back[10..], &data[..]);
    assert_eq!(pwrite_all_fallible(fd.as_raw(), &Vec::new(), 0), Ok(0));
    assert_eq!(pwrite_all_fallible(-1, &Vec::new(), 0), Ok(0));
    assert_eq!(pwrite_all_fallible(-1, &vec![1u8, 2, 3], 0), Err(()));
    assert_eq!(pwrite_all_fallible(fd.as_raw(), &vec![1u8, 2, 3], -1), Err(()));
    assert_eq!(pwrite_all_fallible(fd.as_raw(), &vec![1u8, 2, 3], i64::MAX), Err(()));
    assert_eq!(pwrite_all_fallible(fd.as_raw(), &vec![7u8, 8, 9], 5), Ok(3));
    let mut head = [0u8; 12];
    assert_eq!(nix::sys::uio::pread(fd.as_raw(), &mut head, 0).unwrap(), 12);
    assert_eq!(&head[..5], &[0u8; 5]);
    assert_eq!(&head[5..8], &[7u8, 8, 9]);
    assert_eq!(&head[8..10], &[0u8; 2]);
    assert_eq!(&head[10..], &data[..2]);
}

fn record(eax_in: u32, ecx_in: u32, eax: u32) -> CPUIDRecord {
    CPUIDRecord { eax_in, ecx_in, out: CPUIDData { eax, ebx: 0, ecx: 0, edx: 0 } }
}

#[test]
fn finding_a_cpuid_record() {
    let records = vec![
        record(0, u32::MAX, 1),
        record(1, u32::MAX, 2),
        record(4, 0, 3),
        record(4, 1, 4),
        record(4, 1, 5),
        record(7, 0, 6),
    ];
    assert_eq!(find_cpuid_record(&records, 0, 0).unwrap().out.eax, 1);
    assert_eq!(find_cpuid_record(&records, 1, 77).unwrap().out.eax, 2);
    assert_eq!(find_cpuid_record(&records, 4, 0).unwrap().out.eax, 3);
    assert_eq!(find_cpuid_record(&records, 4, 1).unwrap().out.eax, 4);
    assert!(find_cpuid_record(&records, 4, 2).is_none());
    assert!(find_cpuid_record(&records, 5, 0).is_none());
    assert_eq!(find_cpuid_record(&records, 7, 0).unwrap().out.eax, 6);
    assert!(find_cpuid_record(&records, 7, u32::MAX).is_none());
    assert!(find_cpuid_record(&[], 0, 0).is_none());
    let plain = CPUIDRecord::default();
    assert_eq!((plain.eax_in, plain.ecx_in, plain.out.edx), (0, 0, 0));
}

#[test]
fn last_subleaves() {
    let out = |eax, ecx| CPUIDData { eax, ebx: 9, ecx, edx: 9 };
    assert!(is_last_subleaf(SubleafEnd::NoMoreCaches, &out(0x20, 1)));
    assert!(!is_last_subleaf(SubleafEnd::NoMoreCaches, &out(0x21, 0)));
    assert!(is_last_subleaf(SubleafEnd::NoMoreLevels, &out(5, 0xff)));
    assert!(!is_last_subleaf(SubleafEnd::NoMoreLevels, &out(0, 0x100)));
    assert!(is_last_subleaf(SubleafEnd::NoMoreSections, &out(0x10, 1)));
    assert!(!is_last_subleaf(SubleafEnd::NoMoreSections, &out(0x1, 0)));
}

#[test]
fn cpuid_records_of_this_processor() {
    let vendor = cpuid_record(CPUID_GETVENDORSTRING, u32::MAX);
    assert_eq!((vendor.eax_in, vendor.ecx_in), (0, u32::MAX));
    let native = raw_cpuid::native_cpuid::cpuid_count(0, 0);
    assert_eq!((vendor.out.ebx, vendor.out.ecx, vendor.out.edx), (native.ebx, native.ecx, native.edx));
    let all = all_cpuid_records();
    assert_eq!((all[0].eax_in, all[0].ecx_in), (0, u32::MAX));
    assert_eq!(all[0].out.ebx, native.ebx);
    let few = gather_cpuid_records(1);
    assert_eq!(few.len(), 2);
    assert!(few.iter().all(|r| r.eax_in <= 1));
    assert_eq!((few[1].eax_in, few[1].ecx_in), (1, u32::MAX));
    let none = gather_cpuid_records(0);
    assert_eq!(none.len(), 1);
    let basic = gather_cpuid_records(CPUID_GETXSAVE);
    assert!(basic.iter().all(|r| r.eax_in <= CPUID_GETXSAVE));
    if vendor.out.eax >= CPUID_GETXSAVE {
        assert_eq!(basic.iter().filter(|r| r.eax_in == CPUID_GETXSAVE).count(), 64);
    }
    assert!(all.len() >= basic.len());
}

#[test]
fn xsave_is_enabled_where_the_flag_says_so() {
    let with = CPUIDData { eax: 0, ebx: 0, ecx: OSXSAVE_FEATURE_FLAG | 5, edx: 0 };
    let without = CPUIDData { eax: !0, ebx: !0, ecx: !OSXSAVE_FEATURE_FLAG, edx: !0 };
    assert!(xsave_enabled_in(&with));
    assert!(!xsave_enabled_in(&without));
    assert_eq!(OSXSAVE_FEATURE_FLAG, 1 << 27);
    let native = raw_cpuid::native_cpuid::cpuid_count(CPUID_GETFEATURES, 0);
    assert_eq!(xsave_enabled(), native.ecx & (1 << 27) != 0);
}

#[test]
fn xsave_layouts() {
    let legacy = xsave_layout_of(&None);
    assert_eq!(legacy.full_size, 512);
    assert_eq!(legacy.supported_feature_bits, 3);
    assert!(legacy.feature_layouts.is_empty());
    let info = ExtendedStateInfo {
        area_size: 2696,
        states: vec![
            ExtendedState { subleaf: 2, in_xcr0: true, offset: 576, size: 256 },
            ExtendedState { subleaf: 8, in_xcr0: false, offset: 0, size: 128 },
            ExtendedState { subleaf: 9, in_xcr0: true, offset: 2688, size: 8 },
            ExtendedState { subleaf: 70, in_xcr0: true, offset: 1, size: 2 },
        ],
    };
    let layout = xsave_layout_of(&Some(info));
    assert_eq!(layout.full_size, 2696);
    assert_eq!(layout.supported_feature_bits, (1 << 2) | (1 << 9));
    let pairs: Vec<(u32, u32)> = layout.feature_layouts.iter().map(|l| (l.offset, l.size)).collect();
    assert_eq!(pairs, vec![(0, 0), (0, 0), (576, 256), (2688, 8), (1, 2)]);
    let native = xsave_native_layout();
    match raw_cpuid::CpuId::new().get_extended_state_info() {
        Some(found) => {
            assert_eq!(native.full_size, found.xsave_area_size_enabled_features() as usize);
            assert_eq!(native.feature_layouts.len(), 2 + found.iter().filter(|s| s.is_in_xcr0()).count());
        }
        None => assert_eq!(native.full_size, 512),
    }
}

#[test]
fn trace_writer_types() {
    assert_ne!(Sync::DontSync, Sync::Sync);
    assert_ne!(WaitFlag::Wait, WaitFlag::NoWait);
    let header = BlockHeader { compressed_length: 10, uncompressed_length: 1 << 20 };
    assert_eq!(header, BlockHeader { compressed_length: 10, uncompressed_length: 1048576 });
}
