//! In-memory virtual filesystem for WASI preopens.
//!
//! Manages `/input/` (read-only) and `/output/` (writable) directories
//! entirely in memory. No host filesystem access is needed.
use std::collections::HashMap;
use vstd::prelude::*;
use vstd::std_specs::iter::IteratorSpec;

verus! {

broadcast use vstd::std_specs::hash::group_hash_axioms;

/// Pre-allocated descriptor ID for the `/input` preopen directory.
pub const INPUT_DIR_FD: u32 = 3;

/// Pre-allocated descriptor ID for the `/output` preopen directory.
pub const OUTPUT_DIR_FD: u32 = 4;

pub const FIRST_FILE_FD: u32 = 10;

pub const FIRST_STREAM_ID: u32 = 100;

pub const FIRST_DIR_STREAM_ID: u32 = 500;

/// An entry in the virtual filesystem.
pub enum FsEntry {
    Directory { path: String, is_output: bool },
    File { name: String, dir_fd: u32, data: Vec<u8> },
}

/// The mathematical value of an [`FsEntry`].
pub enum EntryView {
    Directory { path: Seq<char>, is_output: bool },
    File { name: Seq<char>, dir_fd: u32, data: Seq<u8> },
}

impl View for FsEntry {
    type V = EntryView;

    open spec fn view(&self) -> EntryView {
        match self {
            FsEntry::Directory { path, is_output } => EntryView::Directory {
                path: path@,
                is_output: *is_output,
            },
            FsEntry::File { name, dir_fd, data } => EntryView::File {
                name: name@,
                dir_fd: *dir_fd,
                data: data@,
            },
        }
    }
}

/// Read/write stream tracking position within a file.
pub struct StreamState {
    pub file_fd: u32,
    pub offset: u64,
    pub is_write: bool,
}

/// Directory listing stream state.
pub struct DirStreamState {
    pub entries: Vec<(String, bool)>,
    pub cursor: usize,
}

/// The mathematical value of a directory listing stream.
pub struct DirStreamView {
    pub entries: Seq<(Seq<char>, bool)>,
    pub cursor: nat,
}

/// The mathematical value of a [`VirtualFs`].
pub struct FsView {
    pub entries: Map<u32, EntryView>,
    pub streams: Map<u32, StreamState>,
    pub dir_streams: Map<u32, DirStreamView>,
    pub next_fd: u32,
    pub next_stream_id: u32,
    pub next_dir_stream_id: u32,
}

pub open spec fn entry_view(e: FsEntry) -> EntryView {
    e@
}

pub open spec fn listing_view(d: DirStreamState) -> DirStreamView {
    DirStreamView {
        entries: d.entries@.map_values(|p: (String, bool)| (p.0@, p.1)),
        cursor: d.cursor as nat,
    }
}

pub open spec fn min_int(a: int, b: int) -> int {
    if a <= b {
        a
    } else {
        b
    }
}

pub open spec fn max_int(a: int, b: int) -> int {
    if a >= b {
        a
    } else {
        b
    }
}

/// The bytes and the end-of-file flag that a positioned read of `len`
/// bytes at `offset` gives on a file holding `data`.
pub open spec fn read_range(data: Seq<u8>, offset: u64, len: u64) -> (Seq<u8>, bool) {
    let start = min_int(offset as usize as int, data.len() as int);
    let end = min_int(start + len as usize as int, data.len() as int);
    (data.subrange(start, end), end >= data.len())
}

/// A positioned read of `len` bytes at `offset` stays within `usize`.
pub open spec fn read_fits(data: Seq<u8>, offset: u64, len: u64) -> bool {
    min_int(offset as usize as int, data.len() as int) + len as usize as int <= usize::MAX
}

/// The contents of a file holding `data` after `buf` is written at `start`:
/// the file grows with zero bytes where needed.
pub open spec fn write_at(data: Seq<u8>, start: int, buf: Seq<u8>) -> Seq<u8> {
    Seq::new(
        max_int(data.len() as int, start + buf.len()) as nat,
        |i: int|
            if start <= i < start + buf.len() {
                buf[i - start]
            } else if i < data.len() {
                data[i]
            } else {
                0u8
            },
    )
}

impl EntryView {
    pub open spec fn is_file_in(self, dir_fd: u32, name: Seq<char>) -> bool {
        self matches EntryView::File { name: n, dir_fd: d, .. } && n == name && d == dir_fd
    }

    pub open spec fn is_file_under(self, dir_fd: u32) -> bool {
        self matches EntryView::File { dir_fd: d, .. } && d == dir_fd
    }

    pub open spec fn file_name(self) -> Seq<char> {
        match self {
            EntryView::File { name, .. } => name,
            EntryView::Directory { path, .. } => path,
        }
    }

    pub open spec fn file_data(self) -> Seq<u8> {
        match self {
            EntryView::File { data, .. } => data,
            EntryView::Directory { .. } => Seq::empty(),
        }
    }

    pub open spec fn with_data(self, data: Seq<u8>) -> EntryView {
        match self {
            EntryView::File { name, dir_fd, .. } => EntryView::File { name, dir_fd, data },
            EntryView::Directory { .. } => self,
        }
    }
}

/// Some pair of `r` carries the name `n`.
pub open spec fn has_name(r: Seq<(String, Vec<u8>)>, n: Seq<char>) -> bool {
    exists|i: int| 0 <= i < r.len() && r[i].0@ == n
}

impl FsView {
    /// The filesystem as `VirtualFs::new` creates it.
    pub open spec fn initial() -> FsView {
        FsView {
            entries: map![
                INPUT_DIR_FD => EntryView::Directory { path: "/input"@, is_output: false },
                OUTPUT_DIR_FD => EntryView::Directory { path: "/output"@, is_output: true },
            ],
            streams: Map::empty(),
            dir_streams: Map::empty(),
            next_fd: FIRST_FILE_FD,
            next_stream_id: FIRST_STREAM_ID,
            next_dir_stream_id: FIRST_DIR_STREAM_ID,
        }
    }

    pub open spec fn is_directory(self, fd: u32) -> bool {
        self.entries.contains_key(fd) && self.entries[fd] is Directory
    }

    pub open spec fn is_output_dir(self, fd: u32) -> bool {
        self.entries.contains_key(fd) && (self.entries[fd] matches EntryView::Directory {
            is_output,
            ..
        } && is_output)
    }

    pub open spec fn is_file(self, fd: u32) -> bool {
        self.entries.contains_key(fd) && self.entries[fd] is File
    }

    pub open spec fn is_output_file(self, fd: u32) -> bool {
        self.entries.contains_key(fd) && self.entries[fd].is_file_under(OUTPUT_DIR_FD)
    }

    /// The contents of the file `fd`.
    pub open spec fn data(self, fd: u32) -> Seq<u8> {
        self.entries[fd].file_data()
    }

    /// `fd` is a file named `name` in the directory `dir_fd`.
    pub open spec fn file_in(self, fd: u32, dir_fd: u32, name: Seq<char>) -> bool {
        self.entries.contains_key(fd) && self.entries[fd].is_file_in(dir_fd, name)
    }

    /// Some file of `/output/` is named `name` and holds `data`.
    pub open spec fn holds_output(self, name: Seq<char>, data: Seq<u8>) -> bool {
        exists|fd: u32| #[trigger] self.file_in(fd, OUTPUT_DIR_FD, name) && self.data(fd) == data
    }

    /// Some file named `name` lies in the directory `dir_fd`.
    pub open spec fn has_file(self, dir_fd: u32, name: Seq<char>) -> bool {
        exists|fd: u32| self.file_in(fd, dir_fd, name)
    }

    /// The file a lookup of `name` in `dir_fd` finds: the one with the
    /// least descriptor, where several share the name.
    pub open spec fn found_file(self, dir_fd: u32, name: Seq<char>) -> Option<u32> {
        if self.has_file(dir_fd, name) {
            Some(
                choose|fd: u32|
                    #[trigger] self.file_in(fd, dir_fd, name) && forall|o: u32|
                        #[trigger] self.file_in(o, dir_fd, name) ==> fd <= o,
            )
        } else {
            None
        }
    }

    /// The filesystem with the contents of the file `fd` replaced.
    pub open spec fn set_data(self, fd: u32, data: Seq<u8>) -> FsView {
        FsView { entries: self.entries.insert(fd, self.entries[fd].with_data(data)), ..self }
    }

    /// The filesystem with a new file at the next descriptor.
    pub open spec fn add_file(self, name: Seq<char>, dir_fd: u32, data: Seq<u8>) -> FsView {
        FsView {
            entries: self.entries.insert(
                self.next_fd,
                EntryView::File { name, dir_fd, data },
            ),
            next_fd: (self.next_fd + 1) as u32,
            ..self
        }
    }

    /// The filesystem with a new stream at the next stream identifier.
    pub open spec fn add_stream(self, file_fd: u32, offset: u64, is_write: bool) -> FsView {
        FsView {
            streams: self.streams.insert(
                self.next_stream_id,
                StreamState { file_fd, offset, is_write },
            ),
            next_stream_id: (self.next_stream_id + 1) as u32,
            ..self
        }
    }

    /// The stream `id` stands before readable bytes of an existing file.
    pub open spec fn stream_readable(self, id: u32) -> bool {
        &&& self.streams.contains_key(id)
        &&& self.is_file(self.streams[id].file_fd)
        &&& (self.streams[id].offset as usize as int) < self.data(self.streams[id].file_fd).len()
    }

    /// The bytes that a read of `len` bytes from the stream `id` gives.
    pub open spec fn stream_read(self, id: u32, len: u64) -> Result<Seq<u8>, ()> {
        if self.stream_readable(id) {
            let data = self.data(self.streams[id].file_fd);
            let start = self.streams[id].offset as usize as int;
            Ok(data.subrange(start, min_int(start + len as usize as int, data.len() as int)))
        } else {
            Err(())
        }
    }

    /// The filesystem after a read of `len` bytes from the stream `id`:
    /// the stream's offset moves past the bytes read.
    pub open spec fn after_stream_read(self, id: u32, len: u64) -> FsView {
        match self.stream_read(id, len) {
            Ok(bytes) => FsView {
                streams: self.streams.insert(
                    id,
                    StreamState {
                        offset: (self.streams[id].offset as usize as int + bytes.len()) as u64,
                        ..self.streams[id]
                    },
                ),
                ..self
            },
            Err(()) => self,
        }
    }

    /// A read of `len` bytes from the stream `id` stays within `usize`.
    pub open spec fn stream_read_fits(self, id: u32, len: u64) -> bool {
        self.stream_readable(id) ==> self.streams[id].offset as usize as int + len as usize as int
            <= usize::MAX
    }

    /// The filesystem after `buf` is written through the stream `id`: the
    /// file takes the bytes at the stream's offset, which moves past them.
    pub open spec fn stream_write(self, id: u32, buf: Seq<u8>) -> FsView {
        if self.streams.contains_key(id) && self.is_output_file(self.streams[id].file_fd) {
            let st = self.streams[id];
            let written = self.write_file(st.file_fd, st.offset, buf);
            FsView {
                streams: self.streams.insert(
                    id,
                    StreamState { offset: (st.offset + buf.len()) as u64, ..st },
                ),
                ..written
            }
        } else {
            self
        }
    }

    /// A write of `len` bytes through the stream `id` stays within `usize`
    /// and its offset within `u64`.
    pub open spec fn stream_write_fits(self, id: u32, len: int) -> bool {
        self.streams.contains_key(id) ==> {
            &&& self.write_fits(self.streams[id].file_fd, self.streams[id].offset, len)
            &&& self.is_output_file(self.streams[id].file_fd) ==> self.streams[id].offset + len
                <= u64::MAX
        }
    }

    /// `es` lists the files of the directory `dir_fd` in the order of `fds`:
    /// every file of the directory once, none other, none a directory.
    pub open spec fn is_listing_by(self, dir_fd: u32, es: Seq<(Seq<char>, bool)>, fds: Seq<
        u32,
    >) -> bool {
        &&& fds.len() == es.len()
        &&& forall|i: int, k: int| 0 <= i < k < fds.len() ==> fds[i] != fds[k]
        &&& forall|i: int|
            #![trigger fds[i]]
            0 <= i < fds.len() ==> {
                &&& self.entries.contains_key(fds[i])
                &&& self.entries[fds[i]].is_file_under(dir_fd)
                &&& es[i] == (self.entries[fds[i]].file_name(), false)
            }
        &&& forall|fd: u32| #[trigger]
            self.entries.contains_key(fd) && self.entries[fd].is_file_under(dir_fd)
                ==> fds.contains(fd)
    }

    /// `es` lists the files of the directory `dir_fd` in some order.
    pub open spec fn is_listing(self, dir_fd: u32, es: Seq<(Seq<char>, bool)>) -> bool {
        exists|fds: Seq<u32>| self.is_listing_by(dir_fd, es, fds)
    }

    /// The result of a positioned read.
    pub open spec fn read_file(self, fd: u32, offset: u64, len: u64) -> Option<(Seq<u8>, bool)> {
        if self.is_file(fd) {
            Some(read_range(self.data(fd), offset, len))
        } else {
            None
        }
    }

    /// The filesystem after `buf` is written into the file `fd` at `offset`:
    /// only files of `/output/` take writes; `/input/` is read-only.
    pub open spec fn write_file(self, fd: u32, offset: u64, buf: Seq<u8>) -> FsView {
        if self.is_output_file(fd) {
            FsView {
                entries: self.entries.insert(
                    fd,
                    self.entries[fd].with_data(write_at(self.data(fd), offset as usize as int, buf)),
                ),
                ..self
            }
        } else {
            self
        }
    }

    /// A positioned write of `len` bytes at `offset` stays within `usize`.
    pub open spec fn write_fits(self, fd: u32, offset: u64, len: int) -> bool {
        self.is_output_file(fd) ==> offset as usize as int + len <= usize::MAX
    }

    /// The well-formedness of the filesystem: the two preopen directories
    /// are in place, every other descriptor is a file in one of them, and
    /// every identifier handed out lies below the next one to hand out.
    pub open spec fn wf(self) -> bool {
        &&& self.entries.contains_key(INPUT_DIR_FD)
        &&& self.entries[INPUT_DIR_FD] == (EntryView::Directory {
            path: "/input"@,
            is_output: false,
        })
        &&& self.entries.contains_key(OUTPUT_DIR_FD)
        &&& self.entries[OUTPUT_DIR_FD] == (EntryView::Directory {
            path: "/output"@,
            is_output: true,
        })
        &&& forall|fd: u32|
            #[trigger] self.entries.contains_key(fd) && fd != INPUT_DIR_FD && fd != OUTPUT_DIR_FD
                ==> {
                &&& FIRST_FILE_FD <= fd < self.next_fd
                &&& self.entries[fd] is File
                &&& (self.entries[fd].is_file_under(INPUT_DIR_FD) || self.entries[fd].is_file_under(
                    OUTPUT_DIR_FD,
                ))
            }
        &&& FIRST_FILE_FD <= self.next_fd
        &&& forall|id: u32| #[trigger]
            self.streams.contains_key(id) ==> FIRST_STREAM_ID <= id < self.next_stream_id
        &&& FIRST_STREAM_ID <= self.next_stream_id
        &&& forall|id: u32| #[trigger]
            self.dir_streams.contains_key(id) ==> FIRST_DIR_STREAM_ID <= id
                < self.next_dir_stream_id && self.dir_streams[id].cursor
                <= self.dir_streams[id].entries.len()
        &&& FIRST_DIR_STREAM_ID <= self.next_dir_stream_id
    }
}

proof fn lemma_add_file_wf(v: FsView, name: Seq<char>, dir_fd: u32, data: Seq<u8>)
    requires
        v.wf(),
        v.is_directory(dir_fd),
        v.next_fd < u32::MAX,
    ensures
        v.add_file(name, dir_fd, data).wf(),
{
    let a = v.add_file(name, dir_fd, data);
    assert(dir_fd == INPUT_DIR_FD || dir_fd == OUTPUT_DIR_FD);
    assert forall|fd: u32|
        #[trigger] a.entries.contains_key(fd) && fd != INPUT_DIR_FD && fd != OUTPUT_DIR_FD implies {
        &&& FIRST_FILE_FD <= fd < a.next_fd
        &&& a.entries[fd] is File
        &&& (a.entries[fd].is_file_under(INPUT_DIR_FD) || a.entries[fd].is_file_under(
            OUTPUT_DIR_FD,
        ))
    } by {
        if fd != v.next_fd {
            assert(v.entries.contains_key(fd));
        }
    }
}

proof fn lemma_add_stream_wf(v: FsView, file_fd: u32, offset: u64, is_write: bool)
    requires
        v.wf(),
        v.next_stream_id < u32::MAX,
    ensures
        v.add_stream(file_fd, offset, is_write).wf(),
{
    let w = v.add_stream(file_fd, offset, is_write);
    assert forall|k: u32| #[trigger] w.streams.contains_key(k) implies FIRST_STREAM_ID <= k
        < w.next_stream_id by {
        if k != v.next_stream_id {
            assert(v.streams.contains_key(k));
        }
    }
}

/// In-memory virtual filesystem backing WASI preopens.
pub struct VirtualFs {
    entries: HashMap<u32, FsEntry>,
    streams: HashMap<u32, StreamState>,
    dir_streams: HashMap<u32, DirStreamState>,
    next_fd: u32,
    next_stream_id: u32,
    next_dir_stream_id: u32,
}

impl View for VirtualFs {
    type V = FsView;

    closed spec fn view(&self) -> FsView {
        FsView {
            entries: self.entries@.map_values(|e: FsEntry| e@),
            streams: self.streams@,
            dir_streams: self.dir_streams@.map_values(|d: DirStreamState| listing_view(d)),
            next_fd: self.next_fd,
            next_stream_id: self.next_stream_id,
            next_dir_stream_id: self.next_dir_stream_id,
        }
    }
}

fn copy_range(data: &Vec<u8>, start: usize, end: usize) -> (out: Vec<u8>)
    requires
        start <= end <= data@.len(),
    ensures
        out@ == data@.subrange(start as int, end as int),
{
    let mut out: Vec<u8> = Vec::new();
    let mut i: usize = start;
    while i < end
        invariant
            start <= i <= end <= data@.len(),
            out@ == data@.subrange(start as int, i as int),
        decreases end - i,
    {
        out.push(data[i]);
        i = i + 1;
    }
    out
}

fn copy_string(s: &str) -> (out: String)
    ensures
        out@ == s@,
{
    s.to_owned()
}

impl VirtualFs {
    pub fn new() -> (fs: Self)
        ensures
            fs@ == FsView::initial(),
            fs@.wf(),
    {
        let mut entries: HashMap<u32, FsEntry> = HashMap::new();
        entries.insert(
            INPUT_DIR_FD,
            FsEntry::Directory { path: copy_string("/input"), is_output: false },
        );
        entries.insert(
            OUTPUT_DIR_FD,
            FsEntry::Directory { path: copy_string("/output"), is_output: true },
        );
        let fs = VirtualFs {
            entries,
            streams: HashMap::new(),
            dir_streams: HashMap::new(),
            next_fd: FIRST_FILE_FD,
            next_stream_id: FIRST_STREAM_ID,
            next_dir_stream_id: FIRST_DIR_STREAM_ID,
        };
        assert(fs@.entries =~= FsView::initial().entries);
        assert(fs@.dir_streams =~= Map::empty());
        fs
    }

    // ----- Host-side file management -----
    /// Add a file to `/input/`.
    pub fn add_input_file(&mut self, name: &str, data: Vec<u8>)
        requires
            old(self)@.wf(),
            old(self)@.next_fd < u32::MAX,
        ensures
            final(self)@.wf(),
            final(self)@ == (FsView {
                entries: old(self)@.entries.insert(
                    old(self)@.next_fd,
                    EntryView::File { name: name@, dir_fd: INPUT_DIR_FD, data: data@ },
                ),
                next_fd: (old(self)@.next_fd + 1) as u32,
                ..old(self)@
            }),
    {
        let fd = self.alloc_fd();
        self.entries.insert(
            fd,
            FsEntry::File { name: copy_string(name), dir_fd: INPUT_DIR_FD, data },
        );
        assert(self@.entries =~= old(self)@.entries.insert(
            fd,
            EntryView::File { name: name@, dir_fd: INPUT_DIR_FD, data: data@ },
        ));
    }


    /// Get all files written to `/output/`, one pair per distinct name.
    /// Where several output files share a name, which one's contents are
    /// given is left to the map's order of iteration.
    pub fn get_output_files(&self) -> (r: Vec<(String, Vec<u8>)>)
        ensures
            forall|i: int, j: int| 0 <= i < j < r@.len() ==> r@[i].0@ != r@[j].0@,
            forall|i: int|
                #![trigger r@[i]]
                0 <= i < r@.len() ==> self@.holds_output(r@[i].0@, r@[i].1@),
            forall|fd: u32| #[trigger]
                self@.is_output_file(fd) ==> has_name(r@, self@.entries[fd].file_name()),
    {
        let fds = self.entry_fds();
        let mut result: Vec<(String, Vec<u8>)> = Vec::new();
        let ghost mut src: Seq<u32> = Seq::empty();
        let mut n: usize = 0;
        while n < fds.len()
            invariant
                0 <= n <= fds@.len(),
                forall|fd: u32| fds@.contains(fd) <==> self.entries@.contains_key(fd),
                src.len() == result@.len(),
                forall|i: int, j: int| 0 <= i < j < result@.len() ==> result@[i].0@ != result@[j].0@,
                forall|i: int|
                    #![trigger result@[i]]
                    0 <= i < result@.len() ==> self@.file_in(src[i], OUTPUT_DIR_FD, result@[i].0@)
                        && self@.data(src[i]) == result@[i].1@,
                forall|j: int|
                    #![trigger fds@[j]]
                    0 <= j < n && self@.is_output_file(fds@[j]) ==> has_name(
                        result@,
                        self@.entries[fds@[j]].file_name(),
                    ),
            decreases fds@.len() - n,
        {
            let fd = fds[n];
            assert(fds@.contains(fd));
            if let Some(FsEntry::File { name, dir_fd, data }) = self.entries.get(&fd) {
                if *dir_fd == OUTPUT_DIR_FD {
                    let mut k: usize = 0;
                    let mut found = false;
                    while k < result.len()
                        invariant
                            0 <= k <= result@.len(),
                            found ==> k < result@.len() && result@[k as int].0@ == name@,
                            !found ==> forall|i: int| 0 <= i < k ==> result@[i].0@ != name@,
                        ensures
                            found ==> k < result@.len() && result@[k as int].0@ == name@,
                            !found ==> k == result@.len() && forall|i: int|
                                0 <= i < k ==> result@[i].0@ != name@,
                        decreases result@.len() - k + (if found {
                            0int
                        } else {
                            1int
                        }),
                    {
                        if result[k].0 == *name {
                            found = true;
                            break;
                        }
                        k = k + 1;
                    }
                    let ghost before = result@;
                    let copy = (name.clone(), copy_range(data, 0, data.len()));
                    if found {
                        result.set(k, copy);
                        proof {
                            src = src.update(k as int, fd);
                        }
                        assert(result@[k as int].0@ == name@);
                        assert(self@.file_in(fd, OUTPUT_DIR_FD, name@));
                        assert(self@.data(fd) == data@);
                        assert(forall|i: int| 0 <= i < result@.len() && i != k ==> result@[i] == before[i]);
                        assert forall|j: int|
                            #![trigger fds@[j]]
                            0 <= j < n + 1 && self@.is_output_file(fds@[j]) implies has_name(
                            result@,
                            self@.entries[fds@[j]].file_name(),
                        ) by {
                            if j < n {
                                let i = choose|i: int|
                                    0 <= i < before.len() && before[i].0@ == self@.entries[fds@[
                                        j
                                    ]].file_name();
                                assert(result@[i].0@ == before[i].0@);
                            } else {
                                assert(result@[k as int].0@ == self@.entries[fds@[j]].file_name());
                            }
                        }
                    } else {
                        result.push(copy);
                        proof {
                            src = src.push(fd);
                        }
                        assert(result@[before.len() as int].0@ == name@);
                        assert(self@.file_in(fd, OUTPUT_DIR_FD, name@));
                        assert(self@.data(fd) == data@);
                        assert(forall|i: int| 0 <= i < before.len() ==> result@[i] == before[i]);
                        assert forall|j: int|
                            #![trigger fds@[j]]
                            0 <= j < n + 1 && self@.is_output_file(fds@[j]) implies has_name(
                            result@,
                            self@.entries[fds@[j]].file_name(),
                        ) by {
                            if j < n {
                                let i = choose|i: int|
                                    0 <= i < before.len() && before[i].0@ == self@.entries[fds@[
                                        j
                                    ]].file_name();
                                assert(result@[i].0@ == before[i].0@);
                            } else {
                                assert(result@[before.len() as int].0@
                                    == self@.entries[fds@[j]].file_name());
                            }
                        }
                    }
                }
            }
            n = n + 1;
        }
        assert forall|i: int|
            #![trigger result@[i]]
            0 <= i < result@.len() implies self@.holds_output(result@[i].0@, result@[i].1@) by {
            assert(self@.file_in(src[i], OUTPUT_DIR_FD, result@[i].0@));
        }
        assert forall|fd: u32| #[trigger]
            self@.is_output_file(fd) implies has_name(result@, self@.entries[fd].file_name()) by {
            assert(fds@.contains(fd));
            let j = choose|j: int| 0 <= j < fds@.len() && fds@[j] == fd;
            assert(self@.is_output_file(fds@[j]));
        }
        result
    }

    /// The descriptors of all entries, in the map's order of iteration.
    fn entry_fds(&self) -> (r: Vec<u32>)
        ensures
            r@.no_duplicates(),
            forall|fd: u32| r@.contains(fd) <==> self.entries@.contains_key(fd),
    {
        let mut r: Vec<u32> = Vec::new();
        let ghost all = vstd::std_specs::hash::spec_keys_iter(&self.entries).remaining();
        for k in it: self.entries.keys()
            invariant
                it.seq() == all,
                r@.len() == it.index(),
                forall|i: int| 0 <= i < it.index() ==> r@[i] == *all[i],
        {
            r.push(*k);
        }
        assert(r@ =~= all.unref());
        r
    }


    /// Clear all files and streams (between runs).
    pub fn clear(&mut self)
        requires
            old(self)@.wf(),
        ensures
            final(self)@ == FsView::initial(),
            final(self)@.wf(),
    {
        let input = self.entries.remove(&INPUT_DIR_FD);
        let output = self.entries.remove(&OUTPUT_DIR_FD);
        self.entries.clear();
        if let Some(entry) = input {
            self.entries.insert(INPUT_DIR_FD, entry);
        }
        if let Some(entry) = output {
            self.entries.insert(OUTPUT_DIR_FD, entry);
        }
        self.streams.clear();
        self.dir_streams.clear();
        self.next_fd = FIRST_FILE_FD;
        self.next_stream_id = FIRST_STREAM_ID;
        self.next_dir_stream_id = FIRST_DIR_STREAM_ID;
        assert(self@.entries =~= FsView::initial().entries);
        assert(self@.dir_streams =~= Map::empty());
    }


    // ----- File operations -----
    /// Open (or create) a file relative to a directory descriptor: an
    /// existing file is the one [`VirtualFs::find_file_in_dir`] finds.
    pub fn open_at(&mut self, dir_fd: u32, path: &str, create: bool, truncate: bool) -> (r: Option<
        u32,
    >)
        requires
            old(self)@.wf(),
            old(self)@.is_directory(dir_fd) && !old(self)@.has_file(dir_fd, path@) && (old(
                self,
            )@.is_output_dir(dir_fd) || create) ==> old(self)@.next_fd < u32::MAX,
        ensures
            final(self)@.wf(),
            !old(self)@.is_directory(dir_fd) ==> r is None && final(self)@ == old(self)@,
            old(self)@.is_directory(dir_fd) && old(self)@.has_file(dir_fd, path@) ==> {
                &&& r == old(self)@.found_file(dir_fd, path@)
                &&& old(self)@.file_in(r->0, dir_fd, path@)
                &&& final(self)@ == (if truncate {
                    old(self)@.set_data(r->0, Seq::empty())
                } else {
                    old(self)@
                })
            },
            old(self)@.is_directory(dir_fd) && !old(self)@.has_file(dir_fd, path@) && (old(
                self,
            )@.is_output_dir(dir_fd) || create) ==> {
                &&& r == Some(old(self)@.next_fd)
                &&& final(self)@ == old(self)@.add_file(path@, dir_fd, Seq::empty())
            },
            old(self)@.is_directory(dir_fd) && !old(self)@.has_file(dir_fd, path@) && !old(
                self,
            )@.is_output_dir(dir_fd) && !create ==> r is None && final(self)@ == old(self)@,
    {
        let is_output = match self.entries.get(&dir_fd) {
            Some(FsEntry::Directory { is_output, .. }) => *is_output,
            _ => return None,
        };

        // Check if file already exists
        if let Some(fd) = self.find_file_in_dir(dir_fd, path) {
            if truncate {
                self.set_file_data(fd, Vec::new());
            }
            return Some(fd);
        }

        // For output dirs, always allow creation. For input, only if create flag.
        if is_output || create {
            let fd = self.alloc_fd();
            self.entries.insert(
                fd,
                FsEntry::File { name: copy_string(path), dir_fd, data: Vec::new() },
            );
            assert(self@.entries =~= old(self)@.add_file(path@, dir_fd, Seq::empty()).entries);
            proof {
                lemma_add_file_wf(old(self)@, path@, dir_fd, Seq::empty());
            }
            return Some(fd);
        }
        None
    }

    /// Replace the contents of the file `fd`.
    fn set_file_data(&mut self, fd: u32, data: Vec<u8>)
        requires
            old(self)@.wf(),
            old(self)@.is_file(fd),
        ensures
            final(self)@.wf(),
            final(self)@ == old(self)@.set_data(fd, data@),
    {
        let removed = self.entries.remove(&fd);
        if let Some(FsEntry::File { name, dir_fd, .. }) = removed {
            self.entries.insert(fd, FsEntry::File { name, dir_fd, data });
        }
        assert(self@.entries =~= old(self)@.set_data(fd, data@).entries);
    }

    /// Positioned read from a file.
    pub fn read_file(&self, fd: u32, offset: u64, len: u64) -> (r: Option<(Vec<u8>, bool)>)
        requires
            self@.is_file(fd) ==> read_fits(self@.data(fd), offset, len),
        ensures
            match self@.read_file(fd, offset, len) {
                Some(expected) => r matches Some(got) && got.0@ == expected.0 && got.1
                    == expected.1,
                None => r is None,
            },
    {
        match self.entries.get(&fd) {
            Some(FsEntry::File { data, .. }) => {
                let off = offset as usize;
                let start = if off < data.len() {
                    off
                } else {
                    data.len()
                };
                let want = start + len as usize;
                let end = if want < data.len() {
                    want
                } else {
                    data.len()
                };
                let at_end = end >= data.len();
                Some((copy_range(data, start, end), at_end))
            },
            _ => None,
        }
    }

    /// Positioned write to a file of `/output/`; files of `/input/` are
    /// read-only and refuse the write.
    pub fn write_file(&mut self, fd: u32, offset: u64, buffer: &[u8]) -> (r: Option<u64>)
        requires
            old(self)@.wf(),
            old(self)@.write_fits(fd, offset, buffer@.len() as int),
        ensures
            final(self)@.wf(),
            final(self)@ == old(self)@.write_file(fd, offset, buffer@),
            r == (if old(self)@.is_output_file(fd) {
                Some(buffer@.len() as u64)
            } else {
                None::<u64>
            }),
            old(self)@.is_file(fd) && !old(self)@.is_output_file(fd) ==> r is None && final(self)@
                == old(self)@,
    {
        if !self.is_output_file(fd) {
            return None;
        }
        let removed = self.entries.remove(&fd);
        if let Some(FsEntry::File { name, dir_fd, mut data }) = removed {
            let start = offset as usize;
            let ghost old_data = data@;
            if start + buffer.len() > data.len() {
                data.resize(start + buffer.len(), 0u8);
            }
            let mut i: usize = 0;
            while i < buffer.len()
                invariant
                    0 <= i <= buffer@.len(),
                    start + buffer@.len() <= data@.len(),
                    start + buffer@.len() <= usize::MAX,
                    data@.len() == max_int(old_data.len() as int, start + buffer@.len()),
                    forall|j: int|
                        0 <= j < data@.len() ==> #[trigger] data@[j] == (if start <= j < start + i {
                            buffer@[j - start]
                        } else if j < old_data.len() {
                            old_data[j]
                        } else {
                            0u8
                        }),
                decreases buffer@.len() - i,
            {
                data.set(start + i, buffer[i]);
                i = i + 1;
            }
            assert(data@ =~= write_at(old_data, start as int, buffer@));
            self.entries.insert(fd, FsEntry::File { name, dir_fd, data });
        }
        assert(self@.entries =~= old(self)@.write_file(fd, offset, buffer@).entries);
        Some(buffer.len() as u64)
    }


    // ----- Stream operations -----
    /// Create a read stream for a file at the given offset.
    pub fn create_read_stream(&mut self, file_fd: u32, offset: u64) -> (r: Option<u32>)
        requires
            old(self)@.wf(),
            old(self)@.is_file(file_fd) ==> old(self)@.next_stream_id < u32::MAX,
        ensures
            final(self)@.wf(),
            old(self)@.is_file(file_fd) ==> r == Some(old(self)@.next_stream_id) && final(self)@
                == old(self)@.add_stream(file_fd, offset, false),
            !old(self)@.is_file(file_fd) ==> r is None && final(self)@ == old(self)@,
    {
        if !self.is_file(file_fd) {
            return None;
        }
        let id = self.alloc_stream_id();
        self.streams.insert(id, StreamState { file_fd, offset, is_write: false });
        assert(self@ == old(self)@.add_stream(file_fd, offset, false));
        proof {
            lemma_add_stream_wf(old(self)@, file_fd, offset, false);
        }
        Some(id)
    }

    /// Create a write stream for a file of `/output/` at the given offset;
    /// files of `/input/` are read-only and get none.
    pub fn create_write_stream(&mut self, file_fd: u32, offset: u64) -> (r: Option<u32>)
        requires
            old(self)@.wf(),
            old(self)@.is_output_file(file_fd) ==> old(self)@.next_stream_id < u32::MAX,
        ensures
            final(self)@.wf(),
            old(self)@.is_output_file(file_fd) ==> r == Some(old(self)@.next_stream_id)
                && final(self)@ == old(self)@.add_stream(file_fd, offset, true),
            !old(self)@.is_output_file(file_fd) ==> r is None && final(self)@ == old(self)@,
    {
        if !self.is_output_file(file_fd) {
            return None;
        }
        let id = self.alloc_stream_id();
        self.streams.insert(id, StreamState { file_fd, offset, is_write: true });
        assert(self@ == old(self)@.add_stream(file_fd, offset, true));
        proof {
            lemma_add_stream_wf(old(self)@, file_fd, offset, true);
        }
        Some(id)
    }

    /// Create a write stream positioned at end of file (append mode), for
    /// a file of `/output/` only.
    pub fn create_append_stream(&mut self, file_fd: u32) -> (r: Option<u32>)
        requires
            old(self)@.wf(),
            old(self)@.is_output_file(file_fd) ==> old(self)@.next_stream_id < u32::MAX,
        ensures
            final(self)@.wf(),
            old(self)@.is_output_file(file_fd) ==> r == Some(old(self)@.next_stream_id)
                && final(self)@ == old(self)@.add_stream(
                file_fd,
                old(self)@.data(file_fd).len() as u64,
                true,
            ),
            !old(self)@.is_output_file(file_fd) ==> r is None && final(self)@ == old(self)@,
    {
        if !self.is_output_file(file_fd) {
            return None;
        }
        let size = match self.file_size(file_fd) {
            Some(size) => size,
            None => return None,
        };
        self.create_write_stream(file_fd, size)
    }

    /// Read from a stream. Returns Ok(bytes) or Err(()) at EOF.
    pub fn stream_read(&mut self, stream_id: u32, len: u64) -> (r: Result<Vec<u8>, ()>)
        requires
            old(self)@.wf(),
            old(self)@.stream_read_fits(stream_id, len),
        ensures
            final(self)@.wf(),
            match old(self)@.stream_read(stream_id, len) {
                Ok(bytes) => r matches Ok(got) && got@ == bytes,
                Err(()) => r is Err,
            },
            final(self)@ == old(self)@.after_stream_read(stream_id, len),
    {
        let (file_fd, offset) = match self.streams.get(&stream_id) {
            Some(stream) => (stream.file_fd, stream.offset),
            None => return Err(()),
        };
        let bytes = match self.entries.get(&file_fd) {
            Some(FsEntry::File { data, .. }) => {
                if offset as usize >= data.len() {
                    return Err(());
                }
                let start = offset as usize;
                let want = start + len as usize;
                let end = if want < data.len() {
                    want
                } else {
                    data.len()
                };
                copy_range(data, start, end)
            },
            _ => return Err(()),
        };
        let ghost start = offset as usize as int;
        let end = offset as usize + bytes.len();
        let removed = self.streams.remove(&stream_id);
        if let Some(mut stream) = removed {
            stream.offset = end as u64;
            self.streams.insert(stream_id, stream);
        }
        assert(self@.streams =~= old(self)@.after_stream_read(stream_id, len).streams);
        Ok(bytes)
    }

    /// Write to a stream. Returns bytes written.
    pub fn stream_write(&mut self, stream_id: u32, buffer: &[u8]) -> (r: Option<u64>)
        requires
            old(self)@.wf(),
            old(self)@.stream_write_fits(stream_id, buffer@.len() as int),
        ensures
            final(self)@.wf(),
            final(self)@ == old(self)@.stream_write(stream_id, buffer@),
            r == (if old(self)@.streams.contains_key(stream_id) && old(self)@.is_output_file(
                old(self)@.streams[stream_id].file_fd,
            ) {
                Some(buffer@.len() as u64)
            } else {
                None::<u64>
            }),
    {
        let (file_fd, offset) = match self.streams.get(&stream_id) {
            Some(stream) => (stream.file_fd, stream.offset),
            None => return None,
        };
        let written = match self.write_file(file_fd, offset, buffer) {
            Some(written) => written,
            None => return None,
        };
        let removed = self.streams.remove(&stream_id);
        if let Some(mut stream) = removed {
            stream.offset = stream.offset + written;
            self.streams.insert(stream_id, stream);
        }
        assert(self@.streams =~= old(self)@.stream_write(stream_id, buffer@).streams);
        Some(written)
    }

    /// Check if a stream ID is tracked by this filesystem.
    pub fn has_stream(&self, id: u32) -> (b: bool)
        ensures
            b == self@.streams.contains_key(id),
    {
        self.streams.contains_key(&id)
    }

    /// Check if a stream is a write stream.
    pub fn is_write_stream(&self, id: u32) -> (b: bool)
        ensures
            b == (self@.streams.contains_key(id) && self@.streams[id].is_write),
    {
        match self.streams.get(&id) {
            Some(stream) => stream.is_write,
            None => false,
        }
    }


    // ----- Directory listing -----
    /// Create a directory listing stream. The listing names every file of
    /// the directory once, in the map's order of iteration.
    pub fn create_dir_stream(&mut self, dir_fd: u32) -> (r: Option<u32>)
        requires
            old(self)@.wf(),
            old(self)@.is_directory(dir_fd) ==> old(self)@.next_dir_stream_id < u32::MAX,
        ensures
            final(self)@.wf(),
            !old(self)@.is_directory(dir_fd) ==> r is None && final(self)@ == old(self)@,
            old(self)@.is_directory(dir_fd) ==> {
                let id = old(self)@.next_dir_stream_id;
                &&& r == Some(id)
                &&& final(self)@.dir_streams.contains_key(id)
                &&& final(self)@.dir_streams[id].cursor == 0
                &&& old(self)@.is_listing(dir_fd, final(self)@.dir_streams[id].entries)
                &&& final(self)@ == (FsView {
                    dir_streams: old(self)@.dir_streams.insert(id, final(self)@.dir_streams[id]),
                    next_dir_stream_id: (id + 1) as u32,
                    ..old(self)@
                })
            },
    {
        if !self.is_directory(dir_fd) {
            return None;
        }
        let fds = self.entry_fds();
        let mut file_entries: Vec<(String, bool)> = Vec::new();
        let ghost mut listed: Seq<u32> = Seq::empty();
        let mut n: usize = 0;
        while n < fds.len()
            invariant
                0 <= n <= fds@.len(),
                fds@.no_duplicates(),
                forall|fd: u32| fds@.contains(fd) <==> self.entries@.contains_key(fd),
                listed.len() == file_entries@.len(),
                forall|i: int|
                    #![trigger listed[i]]
                    0 <= i < listed.len() ==> {
                        &&& self@.entries.contains_key(listed[i])
                        &&& self@.entries[listed[i]].is_file_under(dir_fd)
                        &&& file_entries@[i].0@ == self@.entries[listed[i]].file_name()
                        &&& !file_entries@[i].1
                    },
                forall|i: int|
                    #![trigger listed[i]]
                    0 <= i < listed.len() ==> exists|j: int| 0 <= j < n && fds@[j] == listed[i],
                forall|i: int, k: int| 0 <= i < k < listed.len() ==> listed[i] != listed[k],
                forall|j: int|
                    #![trigger fds@[j]]
                    0 <= j < n && self@.entries[fds@[j]].is_file_under(dir_fd) ==> listed.contains(
                        fds@[j],
                    ),
            decreases fds@.len() - n,
        {
            let fd = fds[n];
            assert(fds@.contains(fd));
            let ghost before = listed;
            if let Some(FsEntry::File { name, dir_fd: dfd, .. }) = self.entries.get(&fd) {
                if *dfd == dir_fd {
                    file_entries.push((name.clone(), false));
                    proof {
                        listed = listed.push(fd);
                        assert forall|i: int| 0 <= i < before.len() implies before[i] != fd by {
                            let j = choose|j: int| 0 <= j < n && fds@[j] == before[i];
                        }
                    }
                }
            }
            proof {
                assert forall|j: int|
                    #![trigger fds@[j]]
                    0 <= j < n + 1 && self@.entries[fds@[j]].is_file_under(dir_fd)
                        implies listed.contains(fds@[j]) by {
                    if j < n {
                        assert(before.contains(fds@[j]));
                        let i = choose|i: int| 0 <= i < before.len() && before[i] == fds@[j];
                        assert(listed[i] == fds@[j]);
                    } else {
                        assert(listed[listed.len() - 1] == fds@[j]);
                    }
                }
                assert forall|i: int|
                    #![trigger listed[i]]
                    0 <= i < listed.len() implies exists|j: int| 0 <= j < n + 1 && fds@[j] == listed[i] by {
                    if i < before.len() {
                        let j = choose|j: int| 0 <= j < n && fds@[j] == before[i];
                    } else {
                        assert(fds@[n as int] == listed[i]);
                    }
                }
            }
            n = n + 1;
        }
        let id = self.alloc_dir_stream_id();
        let ghost old_view = self@;
        self.dir_streams.insert(id, DirStreamState { entries: file_entries, cursor: 0 });
        proof {
            let es = self@.dir_streams[id].entries;
            assert(es =~= file_entries@.map_values(|p: (String, bool)| (p.0@, p.1)));
            assert forall|fd: u32|
                #[trigger] old(self)@.entries.contains_key(fd) && old(self)@.entries[fd].is_file_under(
                    dir_fd,
                ) implies listed.contains(fd) by {
                assert(fds@.contains(fd));
                let j = choose|j: int| 0 <= j < fds@.len() && fds@[j] == fd;
            }
            assert(old(self)@.is_listing_by(dir_fd, es, listed));
            assert(self@.dir_streams =~= old(self)@.dir_streams.insert(id, self@.dir_streams[id]));
            assert forall|k: u32| #[trigger] self@.dir_streams.contains_key(k) implies FIRST_DIR_STREAM_ID
                <= k < self@.next_dir_stream_id && self@.dir_streams[k].cursor
                <= self@.dir_streams[k].entries.len() by {
                if k != id {
                    assert(old(self)@.dir_streams.contains_key(k));
                }
            }
        }
        Some(id)
    }

    /// Read next directory entry. Returns Some(Some((name, is_dir))) for an entry,
    /// Some(None) at end, None if invalid stream.
    pub fn read_dir_entry(&mut self, stream_id: u32) -> (r: Option<Option<(String, bool)>>)
        requires
            old(self)@.wf(),
        ensures
            final(self)@.wf(),
            !old(self)@.dir_streams.contains_key(stream_id) ==> r is None && final(self)@ == old(
                self,
            )@,
            old(self)@.dir_streams.contains_key(stream_id) ==> {
                let st = old(self)@.dir_streams[stream_id];
                if st.cursor >= st.entries.len() {
                    r == Some(None::<(String, bool)>) && final(self)@ == old(self)@
                } else {
                    &&& r matches Some(Some(e)) && e.0@ == st.entries[st.cursor as int].0 && e.1
                        == st.entries[st.cursor as int].1
                    &&& final(self)@ == (FsView {
                        dir_streams: old(self)@.dir_streams.insert(
                            stream_id,
                            DirStreamView { cursor: st.cursor + 1, ..st },
                        ),
                        ..old(self)@
                    })
                }
            },
    {
        if !self.dir_streams.contains_key(&stream_id) {
            return None;
        }
        let removed = self.dir_streams.remove(&stream_id);
        let mut stream = match removed {
            Some(stream) => stream,
            None => return None,
        };
        if stream.cursor >= stream.entries.len() {
            self.dir_streams.insert(stream_id, stream);
            assert(self@.dir_streams =~= old(self)@.dir_streams);
            return Some(None);
        }
        let entry = (stream.entries[stream.cursor].0.clone(), stream.entries[stream.cursor].1);
        stream.cursor = stream.cursor + 1;
        self.dir_streams.insert(stream_id, stream);
        proof {
            let st = old(self)@.dir_streams[stream_id];
            assert(self@.dir_streams =~= old(self)@.dir_streams.insert(
                stream_id,
                DirStreamView { cursor: st.cursor + 1, ..st },
            ));
            assert forall|k: u32| #[trigger] self@.dir_streams.contains_key(k) implies FIRST_DIR_STREAM_ID
                <= k < self@.next_dir_stream_id && self@.dir_streams[k].cursor
                <= self@.dir_streams[k].entries.len() by {
                if k != stream_id {
                    assert(old(self)@.dir_streams.contains_key(k));
                }
            }
        }
        Some(Some(entry))
    }

    /// Check if a directory stream ID is tracked.
    pub fn has_dir_stream(&self, id: u32) -> (b: bool)
        ensures
            b == self@.dir_streams.contains_key(id),
    {
        self.dir_streams.contains_key(&id)
    }

    // ----- Allocation -----
    fn alloc_fd(&mut self) -> (fd: u32)
        requires
            old(self).next_fd < u32::MAX,
        ensures
            fd == old(self).next_fd,
            final(self).next_fd == old(self).next_fd + 1,
            final(self).entries == old(self).entries,
            final(self).streams == old(self).streams,
            final(self).dir_streams == old(self).dir_streams,
            final(self).next_stream_id == old(self).next_stream_id,
            final(self).next_dir_stream_id == old(self).next_dir_stream_id,
    {
        let fd = self.next_fd;
        self.next_fd = self.next_fd + 1;
        fd
    }

    fn alloc_stream_id(&mut self) -> (id: u32)
        requires
            old(self).next_stream_id < u32::MAX,
        ensures
            id == old(self).next_stream_id,
            final(self).next_stream_id == old(self).next_stream_id + 1,
            final(self).entries == old(self).entries,
            final(self).streams == old(self).streams,
            final(self).dir_streams == old(self).dir_streams,
            final(self).next_fd == old(self).next_fd,
            final(self).next_dir_stream_id == old(self).next_dir_stream_id,
    {
        let id = self.next_stream_id;
        self.next_stream_id = self.next_stream_id + 1;
        id
    }

    fn alloc_dir_stream_id(&mut self) -> (id: u32)
        requires
            old(self).next_dir_stream_id < u32::MAX,
        ensures
            id == old(self).next_dir_stream_id,
            final(self).next_dir_stream_id == old(self).next_dir_stream_id + 1,
            final(self).entries == old(self).entries,
            final(self).streams == old(self).streams,
            final(self).dir_streams == old(self).dir_streams,
            final(self).next_fd == old(self).next_fd,
            final(self).next_stream_id == old(self).next_stream_id,
    {
        let id = self.next_dir_stream_id;
        self.next_dir_stream_id = self.next_dir_stream_id + 1;
        id
    }

    // ----- Queries -----
    pub fn is_directory(&self, fd: u32) -> (b: bool)
        ensures
            b == self@.is_directory(fd),
    {
        match self.entries.get(&fd) {
            Some(FsEntry::Directory { .. }) => true,
            _ => false,
        }
    }

    pub fn is_output_dir(&self, fd: u32) -> (b: bool)
        ensures
            b == self@.is_output_dir(fd),
    {
        match self.entries.get(&fd) {
            Some(FsEntry::Directory { is_output, .. }) => *is_output,
            _ => false,
        }
    }

    pub fn is_file(&self, fd: u32) -> (b: bool)
        ensures
            b == self@.is_file(fd),
    {
        match self.entries.get(&fd) {
            Some(FsEntry::File { .. }) => true,
            _ => false,
        }
    }

    pub fn file_size(&self, fd: u32) -> (r: Option<u64>)
        ensures
            r == (if self@.is_file(fd) {
                Some(self@.data(fd).len() as u64)
            } else {
                None::<u64>
            }),
    {
        match self.entries.get(&fd) {
            Some(FsEntry::File { data, .. }) => Some(data.len() as u64),
            _ => None,
        }
    }

    pub fn is_output_file(&self, fd: u32) -> (b: bool)
        ensures
            b == self@.is_output_file(fd),
    {
        match self.entries.get(&fd) {
            Some(FsEntry::File { dir_fd, .. }) => *dir_fd == OUTPUT_DIR_FD,
            _ => false,
        }
    }

    /// Find a file by name within a directory. Returns the fd if found;
    /// where several files share the name, the one with the least
    /// descriptor.
    pub fn find_file_in_dir(&self, dir_fd: u32, name: &str) -> (r: Option<u32>)
        ensures
            r == self@.found_file(dir_fd, name@),
            match r {
                Some(fd) => self@.file_in(fd, dir_fd, name@),
                None => !self@.has_file(dir_fd, name@),
            },
    {
        let wanted = copy_string(name);
        let ghost all = vstd::std_specs::hash::spec_hash_map_iter(&self.entries).remaining();
        let mut best: Option<u32> = None;
        for pair in it: self.entries.iter()
            invariant
                it.seq() == all,
                wanted@ == name@,
                match best {
                    Some(b) => {
                        &&& self@.file_in(b, dir_fd, name@)
                        &&& forall|j: int|
                            0 <= j < it.index() && (*(#[trigger] it.seq()[j]).1)@.is_file_in(
                                dir_fd,
                                name@,
                            ) ==> b <= *it.seq()[j].0
                    },
                    None => forall|j: int|
                        0 <= j < it.index() ==> !(*(#[trigger] it.seq()[j]).1)@.is_file_in(
                            dir_fd,
                            name@,
                        ),
                },
        {
            let (fd, entry) = pair;
            proof {
                assert(all.contains(pair));
            }
            if let FsEntry::File { name: fname, dir_fd: dfd, .. } = entry {
                if *dfd == dir_fd && *fname == wanted {
                    best = match best {
                        Some(b) => if *fd < b {
                            Some(*fd)
                        } else {
                            Some(b)
                        },
                        None => Some(*fd),
                    };
                }
            }
        }
        proof {
            assert forall|fd: u32| #[trigger]
                self@.file_in(fd, dir_fd, name@) implies (best matches Some(b) && b <= fd) by {
                assert(all.contains((&fd, &self.entries@[fd])));
                let j = all.index_of((&fd, &self.entries@[fd]));
                assert(all[j] == (&fd, &self.entries@[fd]));
            }
            match best {
                Some(b) => {
                    assert(self@.has_file(dir_fd, name@));
                    let c = self@.found_file(dir_fd, name@)->0;
                    assert(self@.file_in(c, dir_fd, name@) && forall|o: u32|
                        #[trigger] self@.file_in(o, dir_fd, name@) ==> c <= o);
                    assert(c <= b && b <= c);
                },
                None => {},
            }
        }
        best
    }
}

} // verus!

verus! {

/// A write followed by a read of the same range gives back the bytes
/// written, and no other entry of the filesystem changes.
pub proof fn lemma_read_after_write(fs: FsView, fd: u32, offset: u64, buf: Seq<u8>)
    requires
        fs.wf(),
        fs.is_output_file(fd),
        fs.write_fits(fd, offset, buf.len() as int),
    ensures
        ({
            let after = fs.write_file(fd, offset, buf);
            &&& after.wf()
            &&& after.read_file(fd, offset, buf.len() as u64) matches Some(got) && got.0 == buf
            &&& forall|other: u32|
                other != fd && #[trigger] fs.entries.contains_key(other) ==> after.entries.contains_key(
                    other,
                ) && after.entries[other] == fs.entries[other]
        }),
{
    let after = fs.write_file(fd, offset, buf);
    let start = offset as usize as int;
    let data = after.data(fd);
    assert(data.len() >= start + buf.len());
    assert(data.subrange(start, start + buf.len()) =~= buf);
    assert forall|k: u32| #[trigger] after.entries.contains_key(k) && k != INPUT_DIR_FD && k
        != OUTPUT_DIR_FD implies {
        &&& FIRST_FILE_FD <= k < after.next_fd
        &&& after.entries[k] is File
        &&& (after.entries[k].is_file_under(INPUT_DIR_FD) || after.entries[k].is_file_under(
            OUTPUT_DIR_FD,
        ))
    } by {
        assert(fs.entries.contains_key(k));
    }
}

/// `/input/` is read-only: a write into one of its files, directly or
/// through any stream on it, leaves the whole filesystem as it was.
pub proof fn lemma_input_read_only(fs: FsView, fd: u32, offset: u64, buf: Seq<u8>, id: u32)
    requires
        fs.wf(),
        fs.is_file(fd),
        !fs.is_output_file(fd),
    ensures
        fs.write_file(fd, offset, buf) == fs,
        fs.streams.contains_key(id) && fs.streams[id].file_fd == fd ==> fs.stream_write(id, buf)
            == fs,
{
}

/// Bytes written through an append stream land after the file's former
/// contents.
pub proof fn lemma_append_stream_appends(fs: FsView, fd: u32, buf: Seq<u8>)
    requires
        fs.wf(),
        fs.is_output_file(fd),
        fs.next_stream_id < u32::MAX,
        fs.data(fd).len() + buf.len() <= usize::MAX,
    ensures
        ({
            let opened = fs.add_stream(fd, fs.data(fd).len() as u64, true);
            let written = opened.stream_write(fs.next_stream_id, buf);
            &&& written.data(fd) == fs.data(fd) + buf
            &&& written.streams[fs.next_stream_id].offset == fs.data(fd).len() + buf.len()
        }),
{
    let opened = fs.add_stream(fd, fs.data(fd).len() as u64, true);
    let written = opened.stream_write(fs.next_stream_id, buf);
    assert(written.data(fd) =~= fs.data(fd) + buf);
}

/// Two reads in a row from one stream give consecutive bytes of the file:
/// the second read starts where the first one stopped.
pub proof fn lemma_consecutive_stream_reads(fs: FsView, id: u32, n1: u64, n2: u64)
    requires
        fs.wf(),
        fs.stream_read_fits(id, n1),
        fs.stream_read(id, n1) is Ok,
        fs.after_stream_read(id, n1).stream_read(id, n2) is Ok,
        fs.after_stream_read(id, n1).stream_read_fits(id, n2),
    ensures
        ({
            let first = fs.stream_read(id, n1)->Ok_0;
            let second = fs.after_stream_read(id, n1).stream_read(id, n2)->Ok_0;
            let start = fs.streams[id].offset as usize as int;
            first + second == fs.data(fs.streams[id].file_fd).subrange(
                start,
                start + first.len() + second.len(),
            )
        }),
{
    let first = fs.stream_read(id, n1)->Ok_0;
    let mid = fs.after_stream_read(id, n1);
    let second = mid.stream_read(id, n2)->Ok_0;
    let start = fs.streams[id].offset as usize as int;
    let data = fs.data(fs.streams[id].file_fd);
    assert(mid.streams[id].offset as usize as int == start + first.len());
    assert(first + second =~= data.subrange(start, start + first.len() + second.len()));
}

/// After `open_at` gives a descriptor, that descriptor is a file of the
/// directory under the requested name, so a lookup of the name finds a
/// file; a directory that holds the name once is opened at that file.
pub proof fn lemma_open_finds_unique(fs: FsView, dir_fd: u32, fd: u32, name: Seq<char>)
    requires
        fs.wf(),
        fs.file_in(fd, dir_fd, name),
        forall|other: u32| #[trigger] fs.file_in(other, dir_fd, name) ==> other == fd,
    ensures
        fs.has_file(dir_fd, name),
        forall|got: u32| #[trigger] fs.file_in(got, dir_fd, name) ==> got == fd,
        fs.set_data(fd, Seq::empty()).file_in(fd, dir_fd, name),
{
}

/// Where one file of `/output/` carries a name, the listing of output
/// files pairs that name with that file's contents.
pub proof fn lemma_output_listing_unique(fs: FsView, fd: u32, r: Seq<(String, Vec<u8>)>)
    requires
        fs.wf(),
        fs.is_output_file(fd),
        forall|other: u32|
            #[trigger] fs.file_in(other, OUTPUT_DIR_FD, fs.entries[fd].file_name()) ==> other == fd,
        forall|i: int| #![trigger r[i]] 0 <= i < r.len() ==> fs.holds_output(r[i].0@, r[i].1@),
        forall|f: u32| #[trigger] fs.is_output_file(f) ==> has_name(r, fs.entries[f].file_name()),
    ensures
        exists|i: int|
            0 <= i < r.len() && r[i].0@ == fs.entries[fd].file_name() && r[i].1@ == fs.data(fd),
{
    let name = fs.entries[fd].file_name();
    assert(fs.is_output_file(fd));
    let i = choose|i: int| 0 <= i < r.len() && r[i].0@ == name;
    assert(fs.holds_output(r[i].0@, r[i].1@));
    let other = choose|other: u32|
        #[trigger] fs.file_in(other, OUTPUT_DIR_FD, r[i].0@) && fs.data(other) == r[i].1@;
    assert(other == fd);
}

} // verus!
