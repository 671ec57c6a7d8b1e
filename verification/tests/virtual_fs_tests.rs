use hyperlight_sandbox::virtual_fs::{
    VirtualFs, FIRST_DIR_STREAM_ID, FIRST_FILE_FD, FIRST_STREAM_ID, INPUT_DIR_FD, OUTPUT_DIR_FD,
};

#[test]
fn new_fs_has_the_two_preopen_directories() {
    let fs = VirtualFs::new();
    assert!(fs.is_directory(INPUT_DIR_FD));
    assert!(fs.is_directory(OUTPUT_DIR_FD));
    assert!(!fs.is_output_dir(INPUT_DIR_FD));
    assert!(fs.is_output_dir(OUTPUT_DIR_FD));
    assert!(!fs.is_file(INPUT_DIR_FD));
    assert!(!fs.is_directory(FIRST_FILE_FD));
    assert!(fs.get_output_files().is_empty());
}

#[test]
fn input_file_is_found_and_read() {
    let mut fs = VirtualFs::new();
    fs.add_input_file("data.txt", b"hello world".to_vec());
    let fd = fs.find_file_in_dir(INPUT_DIR_FD, "data.txt").unwrap();
    assert_eq!(fd, FIRST_FILE_FD);
    assert!(fs.is_file(fd));
    assert!(!fs.is_output_file(fd));
    assert_eq!(fs.file_size(fd), Some(11));
    assert_eq!(fs.find_file_in_dir(OUTPUT_DIR_FD, "data.txt"), None);
    assert_eq!(fs.find_file_in_dir(INPUT_DIR_FD, "other.txt"), None);
    assert_eq!(fs.read_file(fd, 0, 5), Some((b"hello".to_vec(), false)));
    assert_eq!(fs.read_file(fd, 6, 100), Some((b"world".to_vec(), true)));
    assert_eq!(fs.read_file(fd, 50, 3), Some((Vec::new(), true)));
    assert_eq!(fs.read_file(INPUT_DIR_FD, 0, 3), None);
}

#[test]
fn open_at_finds_or_creates() {
    let mut fs = VirtualFs::new();
    fs.add_input_file("in.txt", vec![1, 2, 3]);
    // an existing file is found
    assert_eq!(fs.open_at(INPUT_DIR_FD, "in.txt", false, false), Some(FIRST_FILE_FD));
    // a missing input file is not created without the create flag
    assert_eq!(fs.open_at(INPUT_DIR_FD, "missing.txt", false, false), None);
    // but is with it
    assert_eq!(fs.open_at(INPUT_DIR_FD, "made.txt", true, false), Some(FIRST_FILE_FD + 1));
    // an output file is always created
    let out = fs.open_at(OUTPUT_DIR_FD, "out.txt", false, false).unwrap();
    assert_eq!(out, FIRST_FILE_FD + 2);
    assert!(fs.is_output_file(out));
    assert_eq!(fs.file_size(out), Some(0));
    // a file descriptor is no directory to open in
    assert_eq!(fs.open_at(FIRST_FILE_FD, "x", true, false), None);
    assert_eq!(fs.open_at(77, "x", true, false), None);
}

#[test]
fn open_at_with_truncate_empties_the_file() {
    let mut fs = VirtualFs::new();
    fs.add_input_file("in.txt", vec![1, 2, 3]);
    let fd = fs.open_at(INPUT_DIR_FD, "in.txt", false, true).unwrap();
    assert_eq!(fs.file_size(fd), Some(0));
}

#[test]
fn write_then_read_gives_back_the_bytes() {
    let mut fs = VirtualFs::new();
    let fd = fs.open_at(OUTPUT_DIR_FD, "result.bin", false, false).unwrap();
    assert_eq!(fs.write_file(fd, 0, b"abcdef"), Some(6));
    assert_eq!(fs.read_file(fd, 0, 6), Some((b"abcdef".to_vec(), true)));
    // writing past the end fills the gap with zeros
    assert_eq!(fs.write_file(fd, 8, b"xy"), Some(2));
    assert_eq!(fs.read_file(fd, 0, 100), Some((b"abcdef\0\0xy".to_vec(), true)));
    // overwrite in the middle
    assert_eq!(fs.write_file(fd, 2, b"ZZ"), Some(2));
    assert_eq!(fs.read_file(fd, 0, 4), Some((b"abZZ".to_vec(), false)));
    assert_eq!(fs.write_file(OUTPUT_DIR_FD, 0, b"no"), None);
}

#[test]
fn read_stream_walks_the_file_to_its_end() {
    let mut fs = VirtualFs::new();
    fs.add_input_file("f", b"0123456789".to_vec());
    let fd = fs.find_file_in_dir(INPUT_DIR_FD, "f").unwrap();
    let s = fs.create_read_stream(fd, 2).unwrap();
    assert_eq!(s, FIRST_STREAM_ID);
    assert!(fs.has_stream(s));
    assert!(!fs.is_write_stream(s));
    assert_eq!(fs.stream_read(s, 3), Ok(b"234".to_vec()));
    assert_eq!(fs.stream_read(s, 3), Ok(b"567".to_vec()));
    assert_eq!(fs.stream_read(s, 10), Ok(b"89".to_vec()));
    assert_eq!(fs.stream_read(s, 10), Err(()));
    assert_eq!(fs.stream_read(999, 1), Err(()));
    assert_eq!(fs.create_read_stream(INPUT_DIR_FD, 0), None);
}

#[test]
fn write_and_append_streams() {
    let mut fs = VirtualFs::new();
    let fd = fs.open_at(OUTPUT_DIR_FD, "log.txt", false, false).unwrap();
    let w = fs.create_write_stream(fd, 0).unwrap();
    assert!(fs.is_write_stream(w));
    assert_eq!(fs.stream_write(w, b"one "), Some(4));
    assert_eq!(fs.stream_write(w, b"two "), Some(4));
    let a = fs.create_append_stream(fd).unwrap();
    assert_eq!(a, w + 1);
    assert_eq!(fs.stream_write(a, b"three"), Some(5));
    assert_eq!(fs.read_file(fd, 0, 100), Some((b"one two three".to_vec(), true)));
    assert_eq!(fs.stream_write(12345, b"x"), None);
    assert_eq!(fs.create_append_stream(OUTPUT_DIR_FD), None);
}

#[test]
fn directory_listing_names_the_files_of_the_directory() {
    let mut fs = VirtualFs::new();
    fs.add_input_file("a.txt", vec![]);
    fs.add_input_file("b.txt", vec![]);
    fs.open_at(OUTPUT_DIR_FD, "c.txt", false, false).unwrap();
    let d = fs.create_dir_stream(INPUT_DIR_FD).unwrap();
    assert_eq!(d, FIRST_DIR_STREAM_ID);
    assert!(fs.has_dir_stream(d));
    let mut names = Vec::new();
    while let Some(Some((name, is_dir))) = fs.read_dir_entry(d) {
        assert!(!is_dir);
        names.push(name);
    }
    names.sort();
    assert_eq!(names, vec!["a.txt".to_string(), "b.txt".to_string()]);
    assert_eq!(fs.read_dir_entry(d), Some(None));
    assert_eq!(fs.read_dir_entry(d + 1), None);
    assert_eq!(fs.create_dir_stream(FIRST_FILE_FD), None);
}

#[test]
fn output_files_are_collected() {
    let mut fs = VirtualFs::new();
    fs.add_input_file("in.txt", b"input".to_vec());
    let fd = fs.open_at(OUTPUT_DIR_FD, "out.txt", false, false).unwrap();
    fs.write_file(fd, 0, b"output");
    let out = fs.get_output_files();
    assert_eq!(out, vec![("out.txt".to_string(), b"output".to_vec())]);
}

#[test]
fn clear_keeps_only_the_preopens() {
    let mut fs = VirtualFs::new();
    fs.add_input_file("in.txt", b"input".to_vec());
    let fd = fs.find_file_in_dir(INPUT_DIR_FD, "in.txt").unwrap();
    let s = fs.create_read_stream(fd, 0).unwrap();
    let d = fs.create_dir_stream(INPUT_DIR_FD).unwrap();
    fs.clear();
    assert!(!fs.is_file(fd));
    assert!(!fs.has_stream(s));
    assert!(!fs.has_dir_stream(d));
    assert!(fs.is_directory(INPUT_DIR_FD));
    assert!(fs.is_directory(OUTPUT_DIR_FD));
    // numbering starts again
    fs.add_input_file("again.txt", vec![]);
    assert_eq!(fs.find_file_in_dir(INPUT_DIR_FD, "again.txt"), Some(FIRST_FILE_FD));
}

#[test]
fn input_files_are_read_only() {
    let mut fs = VirtualFs::new();
    fs.add_input_file("data.txt", b"abc".to_vec());
    let fd = fs.find_file_in_dir(INPUT_DIR_FD, "data.txt").unwrap();
    assert_eq!(fs.write_file(fd, 0, b"zz"), None);
    assert_eq!(fs.create_write_stream(fd, 0), None);
    assert_eq!(fs.create_append_stream(fd), None);
    assert_eq!(fs.read_file(fd, 0, 10), Some((b"abc".to_vec(), true)));
}

#[test]
fn lookup_and_open_agree_on_the_first_of_same_named_files() {
    let mut fs = VirtualFs::new();
    fs.add_input_file("dup.txt", b"first".to_vec());
    fs.add_input_file("dup.txt", b"second".to_vec());
    assert_eq!(fs.find_file_in_dir(INPUT_DIR_FD, "dup.txt"), Some(FIRST_FILE_FD));
    assert_eq!(fs.open_at(INPUT_DIR_FD, "dup.txt", false, false), Some(FIRST_FILE_FD));
}
