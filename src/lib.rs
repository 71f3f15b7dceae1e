//! Persistence and merging of a command-line tool's configuration, with its
//! cryptographic section stored only in encrypted form.

pub mod bytes;
pub mod cipher;
pub mod codec;
pub mod document;
pub mod merge;
pub mod sessions;
pub mod vault;
