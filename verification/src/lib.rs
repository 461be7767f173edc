//! Package-format resolution and the decision logic of archive extraction.

pub mod bridge;
pub mod extracted_files;
pub mod package_formats;
pub mod paths;
pub mod suffixes;
pub mod unpack;
pub mod unpack_laws;
