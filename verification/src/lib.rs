//! A filesystem access layer that talks to the kernel through raw system
//! calls, with its marshalling, return-value decoding and parsing logic
//! verified.  The library itself performs no I/O: it builds syscall
//! requests and decodes raw results; an unverified shell issues the calls.

pub mod bytes;
pub mod gateway;
pub mod device;
pub mod flags;
pub mod times;
pub mod abi;
pub mod meta;
pub mod ops;
pub mod dirent;
pub mod realpath;
pub mod dirbuilder;
