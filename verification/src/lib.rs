//! The decisions behind a small media tool, verified.
//!
//! The tool splits a media file into one file per stream, and runs audio
//! through a filter into a new file. Everything that reads a file, a socket or
//! a codec happens outside; this library decides what is to be done, in which
//! order, under which names, and what every answer from outside leads to.

pub mod text;
pub mod failure;
pub mod paths;
pub mod media;
pub mod container;
pub mod packets;
pub mod callbacks;
pub mod format_context;
pub mod download;
pub mod stream_split;
pub mod splitting;
pub mod analysis;
pub mod session;
pub mod setup;
pub mod transcoder;
pub mod runs;
