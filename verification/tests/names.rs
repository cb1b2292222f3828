use rd_core::names::{
    make_backing_name, make_proc_fd_path, push_bytes, push_decimal, push_signed_decimal, sanitize,
    NAME_MAX,
};

fn decimal(n: u64) -> Vec<u8> {
    let mut out = Vec::new();
    push_decimal(&mut out, n);
    out
}

fn signed(n: i64) -> Vec<u8> {
    let mut out = Vec::new();
    push_signed_decimal(&mut out, n);
    out
}

#[test]
fn decimal_numbers() {
    assert_eq!(decimal(0), b"0".to_vec());
    assert_eq!(decimal(7), b"7".to_vec());
    assert_eq!(decimal(10), b"10".to_vec());
    assert_eq!(decimal(1234567890), b"1234567890".to_vec());
    assert_eq!(decimal(u64::MAX), b"18446744073709551615".to_vec());
    for n in [1u64, 9, 99, 100, 101, 65535, 1 << 40] {
        assert_eq!(decimal(n), n.to_string().into_bytes());
    }
}

#[test]
fn signed_decimal_numbers() {
    assert_eq!(signed(0), b"0".to_vec());
    assert_eq!(signed(-1), b"-1".to_vec());
    assert_eq!(signed(42), b"42".to_vec());
    assert_eq!(signed(i64::MIN), b"-9223372036854775808".to_vec());
    assert_eq!(signed(i64::MAX), b"9223372036854775807".to_vec());
}

#[test]
fn numbers_are_appended() {
    let mut out = b"fd=".to_vec();
    push_decimal(&mut out, 12);
    push_bytes(&mut out, b", pid=");
    push_signed_decimal(&mut out, -3);
    push_bytes(&mut out, b"");
    assert_eq!(out, b"fd=12, pid=-3".to_vec());
}

#[test]
fn sanitize_drops_what_does_not_print() {
    assert_eq!(sanitize(&b"plain name".to_vec()), b"plain name".to_vec());
    assert_eq!(sanitize(&b"a\0b\nc\x7fd\x1f\x20e\x7e\x80\xff".to_vec()), b"abcd e~".to_vec());
    assert_eq!(sanitize(&Vec::new()), Vec::<u8>::new());
    assert_eq!(sanitize(&vec![0u8; 1000]), Vec::<u8>::new());
}

#[test]
fn sanitize_keeps_at_most_name_max_bytes() {
    assert_eq!(NAME_MAX, 255);
    let long: Vec<u8> = (0..600).map(|i| b'a' + (i % 26) as u8).collect();
    assert_eq!(sanitize(&long), long[..255].to_vec());
    let exact: Vec<u8> = vec![b'x'; 255];
    assert_eq!(sanitize(&exact), exact);
    let mut mixed = Vec::new();
    for i in 0..300 {
        mixed.push(b'0' + (i % 10) as u8);
        mixed.push(0x07);
    }
    let kept: Vec<u8> = (0..255).map(|i| b'0' + (i % 10) as u8).collect();
    assert_eq!(sanitize(&mixed), kept);
}

#[test]
fn backing_names() {
    assert_eq!(
        make_backing_name(12345, 8, 42, &b"/usr/lib/libc.so".to_vec()),
        b"rr-emufs-12345-dev-8-inode-42-/usr/lib/libc.so".to_vec()
    );
    assert_eq!(make_backing_name(1, 0, 0, &Vec::new()), b"rr-emufs-1-dev-0-inode-0-".to_vec());
    assert_eq!(
        make_backing_name(1, u64::MAX, 7, &b"\xc3\xa9t\xc3\xa9".to_vec()),
        b"rr-emufs-1-dev-18446744073709551615-inode-7-t".to_vec()
    );
    let long = vec![b'p'; 400];
    let name = make_backing_name(99, 1, 2, &long);
    assert_eq!(name.len(), 255);
    let mut expected = b"rr-emufs-99-dev-1-inode-2-".to_vec();
    expected.resize(255, b'p');
    assert_eq!(name, expected);
}

#[test]
fn proc_fd_paths() {
    assert_eq!(make_proc_fd_path(12345, 5), b"/proc/12345/fd/5".to_vec());
    assert_eq!(make_proc_fd_path(1, 0), b"/proc/1/fd/0".to_vec());
    assert_eq!(make_proc_fd_path(4194304, -1), b"/proc/4194304/fd/-1".to_vec());
}
