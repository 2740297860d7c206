//! Machine-identity resolution.
//!
//! This library derives a best-effort identifier for the current host: a value
//! that is reasonably unique and reasonably stable for the lifetime of an OS
//! install, meant as opaque seed material. No single operating system exposes
//! one reliable identity value, so the library aggregates many independent,
//! OS-specific acquisition strategies into a prioritized fallback chain.
//!
//! Each strategy here is a pure, verified function of the plain values its
//! native mechanism yields (file contents, kernel buffers, registry values);
//! the unverified shell around the library performs the actual reads and
//! native calls and hands the results in.

pub mod bsd;
pub mod bytes;
pub mod digest;
pub mod endian;
pub mod hex;
pub mod id;
pub mod linux;
pub mod macos;
pub mod paths;
pub mod posix;
pub mod reader;
pub mod resolver;
pub mod sorting;
pub mod uuid_text;
pub mod windows;
