//! Verified core of an in-memory sandbox host: the virtual filesystem that
//! backs WASI preopens, byte streams and pollables, HTTP header fields,
//! requests and futures, tool dispatch, and the sandbox's configuration.
pub mod buffer;
pub mod guest_memory;
pub mod headers;
pub mod host_functions;
pub mod http_future;
pub mod http_store;
pub mod io_stream;
pub mod outgoing;
pub mod poll;
pub mod random;
pub mod request_options;
pub mod sandbox_builder;
pub mod sandbox_config;
pub mod tools;
pub mod virtual_fs;
pub mod wasi_host;
pub mod wasi_types;
