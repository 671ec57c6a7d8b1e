use hyperlight_sandbox::random::{get_random_bytes, get_random_u64};
use hyperlight_sandbox::sandbox_builder::{
    SandboxBuilder, MIN_HEAP_SIZE, MIN_INPUT_DATA_SIZE, MIN_STACK_SIZE,
};
use hyperlight_sandbox::sandbox_config::{parse_size, size_in_range, ExecutionResult, SizeError};
use hyperlight_sandbox::virtual_fs::{FIRST_FILE_FD, INPUT_DIR_FD, OUTPUT_DIR_FD};
use hyperlight_sandbox::wasi_host::HostState;
use hyperlight_sandbox::wasi_types::{
    DescriptorType, FsErrorCode, OpenFlags, StreamError,
};

fn flags(create: bool, truncate: bool) -> OpenFlags {
    OpenFlags { create, directory: false, exclusive: false, truncate }
}

#[test]
fn host_preopens_and_types() {
    let h = HostState::new(vec!["example.com".to_string()]);
    assert_eq!(
        h.get_directories(),
        vec![(INPUT_DIR_FD, "/input".to_string()), (OUTPUT_DIR_FD, "/output".to_string())]
    );
    assert_eq!(h.get_type(INPUT_DIR_FD).ok(), Some(DescriptorType::Directory));
    // an unknown descriptor reads as a directory
    assert_eq!(h.get_type(999).ok(), Some(DescriptorType::Directory));
    assert_eq!(h.allowed_domains, vec!["example.com".to_string()]);
}

#[test]
fn host_stat_and_flags() {
    let mut h = HostState::new(Vec::new());
    h.fs.add_input_file("in.txt", b"12345".to_vec());
    let out = h.open_at(OUTPUT_DIR_FD, "out.txt", flags(false, false)).unwrap();
    let dir = h.stat(INPUT_DIR_FD).unwrap();
    assert_eq!(dir.file_type, DescriptorType::Directory);
    assert_eq!(dir.size, 0);
    assert_eq!(dir.link_count, 1);
    let file = h.stat(FIRST_FILE_FD).unwrap();
    assert_eq!(file.file_type, DescriptorType::RegularFile);
    assert_eq!(file.size, 5);
    assert_eq!(h.stat(777).err(), Some(FsErrorCode::BadDescriptor));
    let f = h.get_flags(INPUT_DIR_FD).unwrap();
    assert!(f.read && !f.write && !f.mutate_directory);
    let f = h.get_flags(OUTPUT_DIR_FD).unwrap();
    assert!(f.read && f.write && f.mutate_directory);
    let f = h.get_flags(FIRST_FILE_FD).unwrap();
    assert!(f.read && !f.write);
    let f = h.get_flags(out).unwrap();
    assert!(f.read && f.write && !f.mutate_directory);
    assert_eq!(h.get_flags(777).err(), Some(FsErrorCode::BadDescriptor));
    assert_eq!(h.stat_at(INPUT_DIR_FD, "in.txt").unwrap().size, 5);
    assert_eq!(h.stat_at(INPUT_DIR_FD, "nope").err(), Some(FsErrorCode::NoEntry));
}

#[test]
fn host_open_read_write() {
    let mut h = HostState::new(Vec::new());
    assert_eq!(h.open_at(INPUT_DIR_FD, "missing", flags(false, false)).err(), Some(FsErrorCode::NoEntry));
    assert_eq!(h.open_at(555, "x", flags(true, false)).err(), Some(FsErrorCode::NoEntry));
    let fd = h.open_at(OUTPUT_DIR_FD, "o.txt", flags(false, false)).unwrap();
    assert_eq!(h.write(fd, b"hello".to_vec(), 0).ok(), Some(5));
    assert_eq!(h.read(fd, 10, 0).ok(), Some((b"hello".to_vec(), true)));
    assert_eq!(h.read(OUTPUT_DIR_FD, 10, 0).err(), Some(FsErrorCode::BadDescriptor));
    assert_eq!(h.write(OUTPUT_DIR_FD, b"x".to_vec(), 0).err(), Some(FsErrorCode::Unsupported));
    let again = h.open_at(OUTPUT_DIR_FD, "o.txt", flags(false, true)).unwrap();
    assert_eq!(again, fd);
    assert_eq!(h.read(fd, 10, 0).ok(), Some((Vec::new(), true)));
}

#[test]
fn host_streams_over_files() {
    let mut h = HostState::new(Vec::new());
    let fd = h.open_at(OUTPUT_DIR_FD, "s.txt", flags(false, false)).unwrap();
    let w = h.write_via_stream(fd, 0).unwrap();
    assert!(h.output_stream_write(w, b"abc".to_vec()).is_ok());
    assert!(h.output_stream_blocking_write_and_flush(w, b"def".to_vec()).is_ok());
    let a = h.append_via_stream(fd).unwrap();
    assert!(h.output_stream_write(a, b"!".to_vec()).is_ok());
    // writes to a stream the filesystem does not know are dropped
    assert!(h.output_stream_write(4242, b"zzz".to_vec()).is_ok());
    let r = h.read_via_stream(fd, 1).unwrap();
    assert_eq!(h.input_stream_read(r, 4).ok(), Some(b"bcde".to_vec()));
    assert_eq!(h.input_stream_blocking_read(r, 4).ok(), Some(b"f!".to_vec()));
    assert!(matches!(h.input_stream_read(r, 4), Err(StreamError::Closed)));
    // a write stream cannot be read
    assert!(matches!(h.input_stream_read(w, 4), Err(StreamError::Closed)));
    assert_eq!(h.read_via_stream(OUTPUT_DIR_FD, 0).err(), Some(FsErrorCode::Unsupported));
    assert_eq!(h.write_via_stream(OUTPUT_DIR_FD, 0).err(), Some(FsErrorCode::Unsupported));
    assert_eq!(h.append_via_stream(OUTPUT_DIR_FD).err(), Some(FsErrorCode::Unsupported));
}

#[test]
fn host_directory_listing() {
    let mut h = HostState::new(Vec::new());
    h.fs.add_input_file("only.txt", vec![1]);
    let d = h.read_directory(INPUT_DIR_FD).unwrap();
    let e = h.read_directory_entry(d).ok().unwrap().unwrap();
    assert_eq!(e.name, "only.txt");
    assert_eq!(e.entry_type, DescriptorType::RegularFile);
    assert!(h.read_directory_entry(d).ok().unwrap().is_none());
    // an unknown listing reads as finished
    assert!(h.read_directory_entry(d + 50).ok().unwrap().is_none());
    assert_eq!(h.read_directory(FIRST_FILE_FD).err(), Some(FsErrorCode::BadDescriptor));
}

#[test]
fn host_random_bytes_follow_the_generator() {
    let h = HostState::new(Vec::new());
    assert_eq!(h.get_random_bytes(0, 4), vec![191, 8, 17, 116]);
    assert_eq!(h.get_random_bytes(42, 3), vec![118, 82, 210]);
    assert!(h.get_random_bytes(7, 0).is_empty());
}

#[test]
fn os_random_bytes_have_the_asked_length() {
    let v = get_random_bytes(32).unwrap();
    assert_eq!(v.len(), 32);
    assert_eq!(get_random_bytes(0).unwrap().len(), 0);
    assert!(get_random_u64().is_some());
}

#[test]
fn parse_size_units() {
    assert_eq!(parse_size("512"), Ok(512));
    assert_eq!(parse_size("8Ki"), Ok(8 * 1024));
    assert_eq!(parse_size("512Mi"), Ok(512 * 1024 * 1024));
    assert_eq!(parse_size("2Gi"), Ok(2 * 1024 * 1024 * 1024));
    assert_eq!(parse_size("  64Mi \n"), Ok(64 * 1024 * 1024));
    assert_eq!(parse_size("+5"), Ok(5));
    assert_eq!(parse_size("0Ki"), Ok(0));
}

#[test]
fn parse_size_errors() {
    assert_eq!(parse_size(""), Err(SizeError::Empty));
    assert_eq!(parse_size("   "), Err(SizeError::Empty));
    assert_eq!(parse_size("Mi"), Err(SizeError::Empty));
    assert_eq!(parse_size("12x"), Err(SizeError::InvalidDigit));
    assert_eq!(parse_size("-5"), Err(SizeError::InvalidDigit));
    assert_eq!(parse_size("+"), Err(SizeError::InvalidDigit));
    assert_eq!(parse_size("5 Mi"), Err(SizeError::InvalidDigit));
    assert_eq!(parse_size("4mi"), Err(SizeError::InvalidDigit));
    assert_eq!(parse_size("18446744073709551616"), Err(SizeError::PosOverflow));
    assert_eq!(parse_size("18446744073709551615"), Ok(u64::MAX));
}

#[test]
fn execution_result_success_is_exit_code_zero() {
    let ok = ExecutionResult { stdout: "hi\n".to_string(), stderr: String::new(), exit_code: 0 };
    let bad = ExecutionResult { stdout: String::new(), stderr: "boom".to_string(), exit_code: 1 };
    assert!(ok.success());
    assert!(!bad.success());
}

#[test]
fn builder_ignores_sizes_below_the_minimums() {
    let b = SandboxBuilder::new();
    let c = b.get_config();
    assert_eq!(c.input_data_size, MIN_INPUT_DATA_SIZE);
    assert_eq!(c.heap_size, MIN_HEAP_SIZE);
    assert_eq!(c.stack_size, MIN_STACK_SIZE);
    assert_eq!(MIN_STACK_SIZE, 64 * 1024);
    let b = b
        .with_guest_heap_size(10)
        .with_guest_stack_size(10)
        .with_guest_input_buffer_size(10)
        .with_guest_output_buffer_size(10);
    let c = b.get_config();
    assert_eq!(c.heap_size, MIN_HEAP_SIZE);
    assert_eq!(c.stack_size, MIN_STACK_SIZE);
    assert_eq!(c.input_data_size, MIN_INPUT_DATA_SIZE);
    assert_eq!(c.output_data_size, Some(10));
    let c = b
        .with_guest_heap_size(MIN_HEAP_SIZE * 4)
        .with_guest_stack_size(MIN_STACK_SIZE * 2)
        .with_guest_input_buffer_size(MIN_INPUT_DATA_SIZE + 1)
        .get_config();
    assert_eq!(c.heap_size, 4 * 1024 * 1024);
    assert_eq!(c.stack_size, 128 * 1024);
    assert_eq!(c.input_data_size, 192 * 1024 + 1);
}

#[test]
fn host_clocks_and_insecure_random() {
    let h = HostState::new(Vec::new());
    let d = h.wall_clock_now(1_700_000_000_123_456_789);
    assert_eq!(d.seconds, 1_700_000_000);
    assert_eq!(d.nanoseconds, 123_456_789);
    let r = h.wall_clock_resolution();
    assert_eq!((r.seconds, r.nanoseconds), (0, 1));
    assert_eq!(h.monotonic_now(5 + (1u128 << 64)), 5);
    assert_eq!(h.monotonic_resolution(), 1);
    assert_eq!(h.get_random_u64(7 + (3u128 << 64)), 7);
    assert_eq!(h.get_insecure_random_bytes(3), vec![0, 0, 0]);
    assert_eq!(h.get_insecure_random_u64(), 42);
    assert_eq!(h.insecure_seed(), (0, 0));
}

#[test]
fn size_in_range_tells_when_parse_size_may_be_called() {
    assert!(size_in_range("16Gi"));
    assert!(size_in_range("12x"));
    assert!(size_in_range("18446744073709551615"));
    assert!(size_in_range("18014398509481983Ki"));
    assert!(!size_in_range("18014398509481984Ki"));
    assert!(!size_in_range("17179869184Gi"));
}

#[test]
fn host_pollables_are_all_ready() {
    let h = HostState::new(Vec::new());
    assert_eq!(h.poll(3), vec![0, 1, 2]);
    assert!(h.poll(0).is_empty());
}

#[test]
fn host_refuses_writes_to_input_files() {
    let mut h = HostState::new(Vec::new());
    h.fs.add_input_file("in.txt", b"keep".to_vec());
    assert_eq!(h.write(FIRST_FILE_FD, b"x".to_vec(), 0).err(), Some(FsErrorCode::BadDescriptor));
    assert_eq!(h.write_via_stream(FIRST_FILE_FD, 0).err(), Some(FsErrorCode::BadDescriptor));
    assert_eq!(h.append_via_stream(FIRST_FILE_FD).err(), Some(FsErrorCode::BadDescriptor));
    assert_eq!(h.read(FIRST_FILE_FD, 10, 0).ok(), Some((b"keep".to_vec(), true)));
    // reading is still allowed
    let r = h.read_via_stream(FIRST_FILE_FD, 0).unwrap();
    assert_eq!(h.input_stream_read(r, 10).ok(), Some(b"keep".to_vec()));
}

#[test]
fn empty_random_request_always_succeeds() {
    assert_eq!(get_random_bytes(0), Some(Vec::new()));
}
