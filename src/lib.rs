//! Reading "cache pair" game archives and rebuilding audio (WAV, Ogg/Opus) and
//! texture (DDS) files from the compressed data they hold.
//!
//! The library works on bytes: a caller reads the table of contents and the
//! entries of a cache file and hands them in.

pub mod audio;
mod buffer;
pub mod bytes;
pub mod cache_pair;
pub mod compression;
pub mod error;
pub mod extract_audio;
pub mod extract_texture;
pub mod names;
pub mod ogg;
pub mod opus;
pub mod package;
pub mod preamble;
pub mod text;
pub mod texture;
pub mod toc;

pub use error::LotusError;
