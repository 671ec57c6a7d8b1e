//! The host side of the WASI interfaces that a sandboxed guest imports:
//! streams, descriptors and preopens served from the virtual filesystem.
use crate::http_store::{HttpStore, HttpView, FIRST_HTTP_HANDLE};
use crate::wasi_types::Datetime;
use crate::virtual_fs::{FsView, VirtualFs, INPUT_DIR_FD, OUTPUT_DIR_FD, read_fits};
use crate::wasi_types::{
    DescriptorFlags, DescriptorStat, DescriptorType, DirectoryEntry, FsErrorCode, OpenFlags,
    StreamError,
};
use vstd::prelude::*;

verus! {

/// The state that the host keeps for one sandbox.
pub struct HostState {
    pub fs: VirtualFs,
    pub http: HttpStore,
    /// The domains that outgoing HTTP requests may reach.
    pub allowed_domains: Vec<String>,
}

/// The multiplier of the byte generator.
pub const LCG_MULTIPLIER: u64 = 6364136223846793005;

/// The increment of the byte generator.
pub const LCG_INCREMENT: u64 = 1442695040888963407;

/// The generator's state after `n` steps from `seed`.
pub open spec fn lcg_state(seed: u64, n: nat) -> u64
    decreases n,
{
    if n == 0 {
        seed
    } else {
        let s = lcg_state(seed, (n - 1) as nat);
        vstd::wrapping::u64_specs::wrapping_add(
            vstd::wrapping::u64_specs::wrapping_mul(s, LCG_MULTIPLIER),
            LCG_INCREMENT,
        )
    }
}

/// The `n` bytes that the generator gives from `seed`: bits 33 to 40 of
/// each state after the first.
pub open spec fn lcg_bytes(seed: u64, n: nat) -> Seq<u8> {
    Seq::new(n, |i: int| (lcg_state(seed, (i + 1) as nat) >> 33u64) as u8)
}

/// The attributes reported for a directory.
pub open spec fn directory_stat() -> DescriptorStat {
    DescriptorStat {
        file_type: DescriptorType::Directory,
        link_count: 1,
        size: 0,
        data_access_timestamp: None,
        data_modification_timestamp: None,
        status_change_timestamp: None,
    }
}

/// The attributes reported for a regular file of `size` bytes.
pub open spec fn file_stat(size: u64) -> DescriptorStat {
    DescriptorStat {
        file_type: DescriptorType::RegularFile,
        link_count: 1,
        size,
        data_access_timestamp: None,
        data_modification_timestamp: None,
        status_change_timestamp: None,
    }
}

/// The flags reported for a descriptor: readable always, writable in
/// `/output/`, and directories that are writable may be changed.
pub open spec fn flags_for(writable: bool, is_dir: bool) -> DescriptorFlags {
    DescriptorFlags {
        read: true,
        write: writable,
        file_integrity_sync: false,
        data_integrity_sync: false,
        requested_write_sync: false,
        mutate_directory: is_dir && writable,
    }
}

fn make_stat(file_type: DescriptorType, size: u64) -> (s: DescriptorStat)
    ensures
        s == (DescriptorStat {
            file_type,
            link_count: 1,
            size,
            data_access_timestamp: None,
            data_modification_timestamp: None,
            status_change_timestamp: None,
        }),
{
    DescriptorStat {
        file_type,
        link_count: 1,
        size,
        data_access_timestamp: None,
        data_modification_timestamp: None,
        status_change_timestamp: None,
    }
}

impl HostState {
    /// A fresh host whose guest may reach the given domains.
    pub fn new(allowed_domains: Vec<String>) -> (h: Self)
        ensures
            h.fs@ == FsView::initial(),
            h.fs@.wf(),
            h.http@.wf(),
            h.http@.next_handle == FIRST_HTTP_HANDLE,
            h.http@.requests.is_empty(),
            h.http@.fields.is_empty(),
            h.allowed_domains@ == allowed_domains@,
    {
        HostState { fs: VirtualFs::new(), http: HttpStore::new(), allowed_domains }
    }

    // ----- random -----
    /// `len` pseudo-random bytes from a generator seeded by a clock
    /// reading in nanoseconds.
    pub fn get_random_bytes(&self, clock_nanos: u128, len: u64) -> (r: Vec<u8>)
        ensures
            r@ == lcg_bytes(clock_nanos as u64, len as nat),
    {
        let mut state: u64 = clock_nanos as u64;
        let ghost seed = clock_nanos as u64;
        let mut out: Vec<u8> = Vec::new();
        let mut i: u64 = 0;
        while i < len
            invariant
                0 <= i <= len,
                state == lcg_state(seed, i as nat),
                out@ == lcg_bytes(seed, i as nat),
            decreases len - i,
        {
            state = state.wrapping_mul(LCG_MULTIPLIER).wrapping_add(LCG_INCREMENT);
            out.push((state >> 33) as u8);
            i = i + 1;
            assert(out@ =~= lcg_bytes(seed, i as nat));
        }
        out
    }

    /// A random `u64` read from a clock in nanoseconds: its low 64 bits.
    pub fn get_random_u64(&self, clock_nanos: u128) -> (r: u64)
        ensures
            r == clock_nanos as u64,
    {
        clock_nanos as u64
    }

    /// The insecure source gives zero bytes.
    pub fn get_insecure_random_bytes(&self, len: u64) -> (r: Vec<u8>)
        requires
            len <= usize::MAX,
        ensures
            r@ == Seq::new(len as nat, |i: int| 0u8),
    {
        let mut out: Vec<u8> = Vec::new();
        let mut i: u64 = 0;
        while i < len
            invariant
                i <= len,
                out@ == Seq::new(i as nat, |k: int| 0u8),
            decreases len - i,
        {
            out.push(0u8);
            i = i + 1;
            assert(out@ =~= Seq::new(i as nat, |k: int| 0u8));
        }
        out
    }

    /// The insecure source's fixed number.
    pub fn get_insecure_random_u64(&self) -> (r: u64)
        ensures
            r == 42,
    {
        42
    }

    /// The insecure seed: both halves zero.
    pub fn insecure_seed(&self) -> (r: (u64, u64))
        ensures
            r == (0u64, 0u64),
    {
        (0, 0)
    }

    // ----- io: poll -----
    /// Every pollable of the host is ready at once: polling `count` of
    /// them reports all their indices, in order.
    pub fn poll(&self, count: u32) -> (r: Vec<u32>)
        ensures
            r@ == Seq::new(count as nat, |i: int| i as u32),
    {
        let mut out: Vec<u32> = Vec::new();
        let mut i: u32 = 0;
        while i < count
            invariant
                i <= count,
                out@ == Seq::new(i as nat, |k: int| k as u32),
            decreases count - i,
        {
            out.push(i);
            i = i + 1;
            assert(out@ =~= Seq::new(i as nat, |k: int| k as u32));
        }
        out
    }

    // ----- clocks -----
    /// The monotonic clock's reading: the low 64 bits of the time since
    /// the epoch in nanoseconds.
    pub fn monotonic_now(&self, since_epoch_nanos: u128) -> (r: u64)
        ensures
            r == since_epoch_nanos as u64,
    {
        since_epoch_nanos as u64
    }

    /// The monotonic clock ticks in single nanoseconds.
    pub fn monotonic_resolution(&self) -> (r: u64)
        ensures
            r == 1,
    {
        1
    }

    /// The wall-clock time for a time since the epoch in nanoseconds:
    /// whole seconds and the nanoseconds past them.
    pub fn wall_clock_now(&self, since_epoch_nanos: u128) -> (r: Datetime)
        requires
            since_epoch_nanos / 1_000_000_000 <= u64::MAX,
        ensures
            r.seconds == since_epoch_nanos / 1_000_000_000,
            r.nanoseconds == since_epoch_nanos % 1_000_000_000,
            r.seconds * 1_000_000_000 + r.nanoseconds == since_epoch_nanos,
    {
        let seconds = (since_epoch_nanos / 1_000_000_000) as u64;
        let nanoseconds = (since_epoch_nanos % 1_000_000_000) as u32;
        Datetime { seconds, nanoseconds }
    }

    /// The wall clock ticks in single nanoseconds.
    pub fn wall_clock_resolution(&self) -> (r: Datetime)
        ensures
            r == (Datetime { seconds: 0, nanoseconds: 1 }),
    {
        Datetime { seconds: 0, nanoseconds: 1 }
    }

    // ----- io: streams -----
    /// Read from an input stream: only read streams of the filesystem give
    /// bytes; every other stream, and the end of a file, reports `Closed`.
    pub fn input_stream_read(&mut self, stream_id: u32, len: u64) -> (r: Result<
        Vec<u8>,
        StreamError,
    >)
        requires
            old(self).fs@.wf(),
            old(self).fs@.stream_read_fits(stream_id, len),
        ensures
            final(self).fs@.wf(),
            old(self).fs@.streams.contains_key(stream_id) && !old(self).fs@.streams[stream_id].is_write
                ==> {
                &&& final(self).fs@ == old(self).fs@.after_stream_read(stream_id, len)
                &&& match old(self).fs@.stream_read(stream_id, len) {
                    Ok(bytes) => r matches Ok(got) && got@ == bytes,
                    Err(()) => r matches Err(StreamError::Closed),
                }
            },
            !(old(self).fs@.streams.contains_key(stream_id) && !old(
                self,
            ).fs@.streams[stream_id].is_write) ==> final(self).fs@ == old(self).fs@ && r matches Err(
                StreamError::Closed,
            ),
    {
        if self.fs.has_stream(stream_id) && !self.fs.is_write_stream(stream_id) {
            return match self.fs.stream_read(stream_id, len) {
                Ok(bytes) => Ok(bytes),
                Err(()) => Err(StreamError::Closed),
            };
        }
        Err(StreamError::Closed)
    }

    /// The blocking form of [`HostState::input_stream_read`]; the
    /// filesystem never makes a reader wait.
    pub fn input_stream_blocking_read(&mut self, stream_id: u32, len: u64) -> (r: Result<
        Vec<u8>,
        StreamError,
    >)
        requires
            old(self).fs@.wf(),
            old(self).fs@.stream_read_fits(stream_id, len),
        ensures
            final(self).fs@.wf(),
            old(self).fs@.streams.contains_key(stream_id) && !old(self).fs@.streams[stream_id].is_write
                ==> {
                &&& final(self).fs@ == old(self).fs@.after_stream_read(stream_id, len)
                &&& match old(self).fs@.stream_read(stream_id, len) {
                    Ok(bytes) => r matches Ok(got) && got@ == bytes,
                    Err(()) => r matches Err(StreamError::Closed),
                }
            },
            !(old(self).fs@.streams.contains_key(stream_id) && !old(
                self,
            ).fs@.streams[stream_id].is_write) ==> final(self).fs@ == old(self).fs@ && r matches Err(
                StreamError::Closed,
            ),
    {
        self.input_stream_read(stream_id, len)
    }

    /// Write to an output stream: write streams of the filesystem take the
    /// bytes; writes to any other stream are accepted and dropped.
    pub fn output_stream_write(&mut self, stream_id: u32, contents: Vec<u8>) -> (r: Result<
        (),
        StreamError,
    >)
        requires
            old(self).fs@.wf(),
            old(self).fs@.stream_write_fits(stream_id, contents@.len() as int),
        ensures
            final(self).fs@.wf(),
            r is Ok,
            final(self).fs@ == (if old(self).fs@.streams.contains_key(stream_id) && old(
                self,
            ).fs@.streams[stream_id].is_write {
                old(self).fs@.stream_write(stream_id, contents@)
            } else {
                old(self).fs@
            }),
    {
        if self.fs.has_stream(stream_id) && self.fs.is_write_stream(stream_id) {
            let _ = self.fs.stream_write(stream_id, contents.as_slice());
            return Ok(());
        }
        Ok(())
    }

    /// The blocking form of [`HostState::output_stream_write`], which
    /// also flushes; the filesystem needs no flush.
    pub fn output_stream_blocking_write_and_flush(&mut self, stream_id: u32, contents: Vec<u8>) -> (r:
        Result<(), StreamError>)
        requires
            old(self).fs@.wf(),
            old(self).fs@.stream_write_fits(stream_id, contents@.len() as int),
        ensures
            final(self).fs@.wf(),
            r is Ok,
            final(self).fs@ == (if old(self).fs@.streams.contains_key(stream_id) && old(
                self,
            ).fs@.streams[stream_id].is_write {
                old(self).fs@.stream_write(stream_id, contents@)
            } else {
                old(self).fs@
            }),
    {
        self.output_stream_write(stream_id, contents)
    }

    // ----- filesystem: descriptors -----
    /// Read the next entry of a directory listing; an unknown listing
    /// reads as finished.
    pub fn read_directory_entry(&mut self, stream_id: u32) -> (r: Result<
        Option<DirectoryEntry>,
        FsErrorCode,
    >)
        requires
            old(self).fs@.wf(),
        ensures
            final(self).fs@.wf(),
            r is Ok,
            !old(self).fs@.dir_streams.contains_key(stream_id) ==> (r matches Ok(None))
                && final(self).fs@ == old(self).fs@,
            old(self).fs@.dir_streams.contains_key(stream_id) ==> {
                let st = old(self).fs@.dir_streams[stream_id];
                if st.cursor >= st.entries.len() {
                    (r matches Ok(None)) && final(self).fs@ == old(self).fs@
                } else {
                    let e = st.entries[st.cursor as int];
                    &&& r matches Ok(Some(got)) && got.name@ == e.0 && got.entry_type == (if e.1 {
                        DescriptorType::Directory
                    } else {
                        DescriptorType::RegularFile
                    })
                    &&& final(self).fs@.dir_streams[stream_id].cursor == st.cursor + 1
                }
            },
    {
        if self.fs.has_dir_stream(stream_id) {
            match self.fs.read_dir_entry(stream_id) {
                Some(Some((name, is_dir))) => {
                    let dtype = if is_dir {
                        DescriptorType::Directory
                    } else {
                        DescriptorType::RegularFile
                    };
                    return Ok(Some(DirectoryEntry { entry_type: dtype, name }));
                },
                Some(None) => return Ok(None),
                None => {},
            }
        }
        Ok(None)
    }

    /// Open a read stream on a file at `offset`.
    pub fn read_via_stream(&mut self, fd: u32, offset: u64) -> (r: Result<u32, FsErrorCode>)
        requires
            old(self).fs@.wf(),
            old(self).fs@.is_file(fd) ==> old(self).fs@.next_stream_id < u32::MAX,
        ensures
            final(self).fs@.wf(),
            old(self).fs@.is_file(fd) ==> r == Ok::<u32, FsErrorCode>(old(self).fs@.next_stream_id)
                && final(self).fs@ == old(self).fs@.add_stream(fd, offset, false),
            !old(self).fs@.is_file(fd) ==> r == Err::<u32, FsErrorCode>(FsErrorCode::Unsupported)
                && final(self).fs@ == old(self).fs@,
    {
        if self.fs.is_file(fd) {
            return match self.fs.create_read_stream(fd, offset) {
                Some(id) => Ok(id),
                None => Err(FsErrorCode::BadDescriptor),
            };
        }
        Err(FsErrorCode::Unsupported)
    }

    /// Open a write stream on a file at `offset`; a file of `/input/` is
    /// read-only and is refused as a bad descriptor.
    pub fn write_via_stream(&mut self, fd: u32, offset: u64) -> (r: Result<u32, FsErrorCode>)
        requires
            old(self).fs@.wf(),
            old(self).fs@.is_output_file(fd) ==> old(self).fs@.next_stream_id < u32::MAX,
        ensures
            final(self).fs@.wf(),
            old(self).fs@.is_output_file(fd) ==> r == Ok::<u32, FsErrorCode>(
                old(self).fs@.next_stream_id,
            ) && final(self).fs@ == old(self).fs@.add_stream(fd, offset, true),
            old(self).fs@.is_file(fd) && !old(self).fs@.is_output_file(fd) ==> r == Err::<
                u32,
                FsErrorCode,
            >(FsErrorCode::BadDescriptor) && final(self).fs@ == old(self).fs@,
            !old(self).fs@.is_file(fd) ==> r == Err::<u32, FsErrorCode>(FsErrorCode::Unsupported)
                && final(self).fs@ == old(self).fs@,
    {
        if self.fs.is_file(fd) {
            return match self.fs.create_write_stream(fd, offset) {
                Some(id) => Ok(id),
                None => Err(FsErrorCode::BadDescriptor),
            };
        }
        Err(FsErrorCode::Unsupported)
    }

    /// Open a write stream at the end of a file; a file of `/input/` is
    /// read-only and is refused as a bad descriptor.
    pub fn append_via_stream(&mut self, fd: u32) -> (r: Result<u32, FsErrorCode>)
        requires
            old(self).fs@.wf(),
            old(self).fs@.is_output_file(fd) ==> old(self).fs@.next_stream_id < u32::MAX,
        ensures
            final(self).fs@.wf(),
            old(self).fs@.is_output_file(fd) ==> r == Ok::<u32, FsErrorCode>(
                old(self).fs@.next_stream_id,
            ) && final(self).fs@ == old(self).fs@.add_stream(
                fd,
                old(self).fs@.data(fd).len() as u64,
                true,
            ),
            old(self).fs@.is_file(fd) && !old(self).fs@.is_output_file(fd) ==> r == Err::<
                u32,
                FsErrorCode,
            >(FsErrorCode::BadDescriptor) && final(self).fs@ == old(self).fs@,
            !old(self).fs@.is_file(fd) ==> r == Err::<u32, FsErrorCode>(FsErrorCode::Unsupported)
                && final(self).fs@ == old(self).fs@,
    {
        if self.fs.is_file(fd) {
            return match self.fs.create_append_stream(fd) {
                Some(id) => Ok(id),
                None => Err(FsErrorCode::BadDescriptor),
            };
        }
        Err(FsErrorCode::Unsupported)
    }

    /// The type of a descriptor; an unknown descriptor reads as a
    /// directory.
    pub fn get_type(&self, fd: u32) -> (r: Result<DescriptorType, FsErrorCode>)
        ensures
            r == Ok::<DescriptorType, FsErrorCode>(
                if self.fs@.is_file(fd) {
                    DescriptorType::RegularFile
                } else {
                    DescriptorType::Directory
                },
            ),
    {
        if self.fs.is_directory(fd) {
            Ok(DescriptorType::Directory)
        } else if self.fs.is_file(fd) {
            Ok(DescriptorType::RegularFile)
        } else {
            Ok(DescriptorType::Directory)
        }
    }

    /// Positioned read through a file descriptor.
    pub fn read(&self, fd: u32, length: u64, offset: u64) -> (r: Result<
        (Vec<u8>, bool),
        FsErrorCode,
    >)
        requires
            self.fs@.is_file(fd) ==> read_fits(self.fs@.data(fd), offset, length),
        ensures
            match self.fs@.read_file(fd, offset, length) {
                Some(expected) => r matches Ok(got) && got.0@ == expected.0 && got.1
                    == expected.1,
                None => r == Err::<(Vec<u8>, bool), FsErrorCode>(FsErrorCode::BadDescriptor),
            },
    {
        if self.fs.is_file(fd) {
            return match self.fs.read_file(fd, offset, length) {
                Some(got) => Ok(got),
                None => Err(FsErrorCode::BadDescriptor),
            };
        }
        Err(FsErrorCode::BadDescriptor)
    }

    /// Positioned write through a file descriptor; a file of `/input/` is
    /// read-only and is refused as a bad descriptor.
    pub fn write(&mut self, fd: u32, buffer: Vec<u8>, offset: u64) -> (r: Result<
        u64,
        FsErrorCode,
    >)
        requires
            old(self).fs@.wf(),
            old(self).fs@.write_fits(fd, offset, buffer@.len() as int),
        ensures
            final(self).fs@.wf(),
            final(self).fs@ == old(self).fs@.write_file(fd, offset, buffer@),
            r == (if old(self).fs@.is_output_file(fd) {
                Ok::<u64, FsErrorCode>(buffer@.len() as u64)
            } else if old(self).fs@.is_file(fd) {
                Err::<u64, FsErrorCode>(FsErrorCode::BadDescriptor)
            } else {
                Err::<u64, FsErrorCode>(FsErrorCode::Unsupported)
            }),
    {
        if self.fs.is_file(fd) {
            return match self.fs.write_file(fd, offset, buffer.as_slice()) {
                Some(n) => Ok(n),
                None => Err(FsErrorCode::BadDescriptor),
            };
        }
        Err(FsErrorCode::Unsupported)
    }

    /// Open a listing of a directory.
    pub fn read_directory(&mut self, fd: u32) -> (r: Result<u32, FsErrorCode>)
        requires
            old(self).fs@.wf(),
            old(self).fs@.is_directory(fd) ==> old(self).fs@.next_dir_stream_id < u32::MAX,
        ensures
            final(self).fs@.wf(),
            !old(self).fs@.is_directory(fd) ==> r == Err::<u32, FsErrorCode>(
                FsErrorCode::BadDescriptor,
            ) && final(self).fs@ == old(self).fs@,
            old(self).fs@.is_directory(fd) ==> {
                let id = old(self).fs@.next_dir_stream_id;
                &&& r == Ok::<u32, FsErrorCode>(id)
                &&& final(self).fs@.dir_streams.contains_key(id)
                &&& final(self).fs@.dir_streams[id].cursor == 0
                &&& old(self).fs@.is_listing(fd, final(self).fs@.dir_streams[id].entries)
            },
    {
        if self.fs.is_directory(fd) {
            return match self.fs.create_dir_stream(fd) {
                Some(id) => Ok(id),
                None => Err(FsErrorCode::BadDescriptor),
            };
        }
        Err(FsErrorCode::BadDescriptor)
    }

    /// The attributes of a descriptor.
    pub fn stat(&self, fd: u32) -> (r: Result<DescriptorStat, FsErrorCode>)
        ensures
            r == (if self.fs@.is_directory(fd) {
                Ok::<DescriptorStat, FsErrorCode>(directory_stat())
            } else if self.fs@.is_file(fd) {
                Ok::<DescriptorStat, FsErrorCode>(file_stat(self.fs@.data(fd).len() as u64))
            } else {
                Err::<DescriptorStat, FsErrorCode>(FsErrorCode::BadDescriptor)
            }),
    {
        if self.fs.is_directory(fd) {
            return Ok(make_stat(DescriptorType::Directory, 0));
        }
        if let Some(size) = self.fs.file_size(fd) {
            return Ok(make_stat(DescriptorType::RegularFile, size));
        }
        Err(FsErrorCode::BadDescriptor)
    }

    /// The flags of a descriptor: what lies under `/output/` is writable.
    pub fn get_flags(&self, fd: u32) -> (r: Result<DescriptorFlags, FsErrorCode>)
        ensures
            r == (if self.fs@.is_directory(fd) {
                Ok::<DescriptorFlags, FsErrorCode>(flags_for(self.fs@.is_output_dir(fd), true))
            } else if self.fs@.is_file(fd) {
                Ok::<DescriptorFlags, FsErrorCode>(flags_for(self.fs@.is_output_file(fd), false))
            } else {
                Err::<DescriptorFlags, FsErrorCode>(FsErrorCode::BadDescriptor)
            }),
    {
        if self.fs.is_directory(fd) {
            let writable = self.fs.is_output_dir(fd);
            return Ok(
                DescriptorFlags {
                    read: true,
                    write: writable,
                    file_integrity_sync: false,
                    data_integrity_sync: false,
                    requested_write_sync: false,
                    mutate_directory: writable,
                },
            );
        }
        if self.fs.is_file(fd) {
            let writable = self.fs.is_output_file(fd);
            return Ok(
                DescriptorFlags {
                    read: true,
                    write: writable,
                    file_integrity_sync: false,
                    data_integrity_sync: false,
                    requested_write_sync: false,
                    mutate_directory: false,
                },
            );
        }
        Err(FsErrorCode::BadDescriptor)
    }

    /// The attributes of the file named `path` in a directory.
    pub fn stat_at(&self, dir_fd: u32, path: &str) -> (r: Result<DescriptorStat, FsErrorCode>)
        ensures
            !self.fs@.has_file(dir_fd, path@) ==> r == Err::<DescriptorStat, FsErrorCode>(
                FsErrorCode::NoEntry,
            ),
            self.fs@.has_file(dir_fd, path@) ==> r == Ok::<DescriptorStat, FsErrorCode>(
                file_stat(self.fs@.data(self.fs@.found_file(dir_fd, path@)->0).len() as u64),
            ),
    {
        if let Some(file_fd) = self.fs.find_file_in_dir(dir_fd, path) {
            let size = match self.fs.file_size(file_fd) {
                Some(size) => size,
                None => 0,
            };
            return Ok(make_stat(DescriptorType::RegularFile, size));
        }
        Err(FsErrorCode::NoEntry)
    }

    /// Open (or create) the file named `path` in a directory.
    pub fn open_at(&mut self, dir_fd: u32, path: &str, open_flags: OpenFlags) -> (r: Result<
        u32,
        FsErrorCode,
    >)
        requires
            old(self).fs@.wf(),
            old(self).fs@.is_directory(dir_fd) && !old(self).fs@.has_file(dir_fd, path@) && (old(
                self,
            ).fs@.is_output_dir(dir_fd) || open_flags.create) ==> old(self).fs@.next_fd
                < u32::MAX,
        ensures
            final(self).fs@.wf(),
            !old(self).fs@.is_directory(dir_fd) ==> r == Err::<u32, FsErrorCode>(
                FsErrorCode::NoEntry,
            ) && final(self).fs@ == old(self).fs@,
            old(self).fs@.is_directory(dir_fd) && old(self).fs@.has_file(dir_fd, path@) ==> {
                &&& r is Ok
                &&& old(self).fs@.found_file(dir_fd, path@) == Some(r->Ok_0)
                &&& old(self).fs@.file_in(r->Ok_0, dir_fd, path@)
                &&& final(self).fs@ == (if open_flags.truncate {
                    old(self).fs@.set_data(r->Ok_0, Seq::empty())
                } else {
                    old(self).fs@
                })
            },
            old(self).fs@.is_directory(dir_fd) && !old(self).fs@.has_file(dir_fd, path@) && (old(
                self,
            ).fs@.is_output_dir(dir_fd) || open_flags.create) ==> {
                &&& r == Ok::<u32, FsErrorCode>(old(self).fs@.next_fd)
                &&& final(self).fs@ == old(self).fs@.add_file(path@, dir_fd, Seq::empty())
            },
            old(self).fs@.is_directory(dir_fd) && !old(self).fs@.has_file(dir_fd, path@) && !old(
                self,
            ).fs@.is_output_dir(dir_fd) && !open_flags.create ==> r == Err::<u32, FsErrorCode>(
                FsErrorCode::NoEntry,
            ) && final(self).fs@ == old(self).fs@,
    {
        match self.fs.open_at(dir_fd, path, open_flags.create, open_flags.truncate) {
            Some(fd) => Ok(fd),
            None => Err(FsErrorCode::NoEntry),
        }
    }

    /// The preopened directories: `/input` and `/output`.
    pub fn get_directories(&self) -> (r: Vec<(u32, String)>)
        ensures
            r@.len() == 2,
            r@[0].0 == INPUT_DIR_FD && r@[0].1@ == "/input"@,
            r@[1].0 == OUTPUT_DIR_FD && r@[1].1@ == "/output"@,
    {
        let mut r: Vec<(u32, String)> = Vec::new();
        r.push((INPUT_DIR_FD, "/input".to_owned()));
        r.push((OUTPUT_DIR_FD, "/output".to_owned()));
        r
    }
}

} // verus!
