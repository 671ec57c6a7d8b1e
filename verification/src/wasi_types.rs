//! Plain value types of the WASI interfaces that the host serves.
use vstd::prelude::*;

verus! {

/// The error of a WASI stream operation.
pub enum StreamError {
    LastOperationFailed(u32),
    Closed,
}

/// The errors of WASI filesystem operations that this host reports.
#[derive(PartialEq, Eq, Structural, Debug, Clone, Copy)]
pub enum FsErrorCode {
    BadDescriptor,
    NoEntry,
    Unsupported,
}

/// The type of a filesystem object.
#[derive(PartialEq, Eq, Structural, Debug, Clone, Copy)]
pub enum DescriptorType {
    Unknown,
    Directory,
    RegularFile,
}

/// The flags of an open descriptor.
#[derive(PartialEq, Eq, Structural, Debug, Clone, Copy)]
pub struct DescriptorFlags {
    pub read: bool,
    pub write: bool,
    pub file_integrity_sync: bool,
    pub data_integrity_sync: bool,
    pub requested_write_sync: bool,
    pub mutate_directory: bool,
}

/// A point in wall-clock time.
#[derive(PartialEq, Eq, Structural, Debug, Clone, Copy)]
pub struct Datetime {
    pub seconds: u64,
    pub nanoseconds: u32,
}

/// The attributes of a filesystem object.
#[derive(PartialEq, Eq, Structural, Debug, Clone, Copy)]
pub struct DescriptorStat {
    pub file_type: DescriptorType,
    pub link_count: u64,
    pub size: u64,
    pub data_access_timestamp: Option<Datetime>,
    pub data_modification_timestamp: Option<Datetime>,
    pub status_change_timestamp: Option<Datetime>,
}

/// An entry of a directory listing.
pub struct DirectoryEntry {
    pub entry_type: DescriptorType,
    pub name: String,
}

/// The flags with which a file is opened.
#[derive(PartialEq, Eq, Structural, Debug, Clone, Copy)]
pub struct OpenFlags {
    pub create: bool,
    pub directory: bool,
    pub exclusive: bool,
    pub truncate: bool,
}

/// An HTTP request method.
pub enum Method {
    Get,
    Head,
    Post,
    Put,
    Delete,
    Connect,
    Options,
    Trace,
    Patch,
    Other(String),
}

/// An HTTP URL scheme.
pub enum Scheme {
    HTTP,
    HTTPS,
    Other(String),
}

/// The errors of WASI HTTP operations that this host reports.
pub enum HttpErrorCode {
    HTTPRequestDenied,
    HTTPRequestMethodInvalid,
    HTTPRequestBodySize(Option<u64>),
    InternalError(Option<String>),
}

} // verus!
