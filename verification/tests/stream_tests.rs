use hyperlight_sandbox::buffer::Buffer;
use hyperlight_sandbox::http_future::FutureHttp;
use hyperlight_sandbox::io_stream::{Stream, WRITE_BUDGET};
use hyperlight_sandbox::poll::AnyPollable;
use hyperlight_sandbox::request_options::RequestOptions;
use hyperlight_sandbox::wasi_types::StreamError;

#[test]
fn buffer_is_first_in_first_out() {
    let mut b = Buffer::default();
    assert!(b.writable());
    assert!(!b.readable());
    assert!(b.write(b"abc").is_ok());
    assert!(b.write(b"de").is_ok());
    assert!(b.readable());
    assert_eq!(b.read(2).ok(), Some(b"ab".to_vec()));
    assert_eq!(b.read_all().ok(), Some(b"cde".to_vec()));
    assert_eq!(b.read(5).ok(), Some(Vec::new()));
}

#[test]
fn closed_buffer_refuses_writes_and_drains() {
    let mut b = Buffer::default();
    b.write(b"xyz").ok().unwrap();
    assert_eq!(b.read(1).ok(), Some(b"x".to_vec()));
    assert_eq!(b.close(), (1, 3));
    assert!(b.is_closed());
    assert!(b.readable());
    assert!(b.write(b"more").is_err());
    assert_eq!(b.read(10).ok(), Some(b"yz".to_vec()));
    assert!(b.read(1).is_err());
    assert!(b.read_all().is_err());
}

#[test]
fn stream_write_budget_and_close() {
    let mut s = Stream::new();
    assert_eq!(s.check_write().ok(), Some(WRITE_BUDGET));
    assert_eq!(WRITE_BUDGET, 4096);
    assert!(s.write(b"hello").is_ok());
    assert!(s.flush().is_ok());
    assert_eq!(s.read(3).ok(), Some(b"hel".to_vec()));
    assert_eq!(s.close(), (3, 5));
    assert!(s.check_write().is_err());
    assert_eq!(s.read_all().ok(), Some(b"lo".to_vec()));
    assert!(s.read_all().is_err());
}

#[test]
fn splice_moves_at_most_the_budget() {
    let mut src = Stream::new();
    let big = vec![7u8; 5000];
    src.write(&big).ok().unwrap();
    let mut dst = Stream::new();
    assert_eq!(dst.splice(&mut src, 10_000).ok(), Some(4096));
    assert_eq!(dst.splice(&mut src, 100).ok(), Some(100));
    assert_eq!(dst.read_all().ok().map(|v| v.len()), Some(4196));
    assert_eq!(src.read_all().ok().map(|v| v.len()), Some(804));
}

#[test]
fn splice_from_a_drained_closed_stream_fails() {
    let mut src = Stream::new();
    src.close();
    let mut dst = Stream::new();
    assert!(dst.splice(&mut src, 10).is_err());
}

#[test]
fn future_gives_its_value_once() {
    let mut f: FutureHttp<u32> = FutureHttp::default();
    assert!(!f.is_ready());
    assert_eq!(f.get(), None);
    f.set(42);
    assert!(f.is_ready());
    assert_eq!(f.get(), Some(Ok(42)));
    assert!(f.is_ready());
    assert_eq!(f.get(), Some(Err(())));
    assert_eq!(f.get(), Some(Err(())));
}

#[test]
fn request_options_round_trip() {
    let mut o = RequestOptions::default();
    assert_eq!(o.connect_timeout(), None);
    assert!(o.set_connect_timeout(Some(1_000)).is_ok());
    assert!(o.set_first_byte_timeout(Some(2_000)).is_ok());
    assert!(o.set_between_bytes_timeout(Some(3_000)).is_ok());
    assert_eq!(o.connect_timeout(), Some(1_000));
    assert_eq!(o.first_byte_timeout(), Some(2_000));
    assert_eq!(o.between_bytes_timeout(), Some(3_000));
    assert!(o.set_connect_timeout(None).is_ok());
    assert_eq!(o.connect_timeout(), None);
    assert_eq!(o.first_byte_timeout(), Some(2_000));
}

#[test]
fn pollable_is_ready_once_its_future_finished() {
    let mut p = AnyPollable::future();
    assert!(p.is_pending());
    assert!(!p.poll(false));
    assert!(p.is_pending());
    assert!(p.poll(true));
    assert!(!p.is_pending());
    // later polls report ready without looking at the future
    assert!(p.poll(false));
}

#[test]
fn stream_write_zeroes_and_skip() {
    let mut s = Stream::new();
    assert!(s.write_zeroes(3).is_ok());
    assert!(s.write(b"ab").is_ok());
    assert_eq!(s.skip(2).ok(), Some(2));
    assert_eq!(s.read_all().ok(), Some(vec![0, b'a', b'b']));
    assert_eq!(s.skip(10).ok(), Some(0));
    s.close();
    assert!(s.write_zeroes(1).is_err());
    let e = s.skip(1).err().unwrap();
    assert!(matches!(StreamError::from(e), StreamError::Closed));
}
