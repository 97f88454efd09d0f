//! A lazily evaluated, ordered stream of text lines drawn from every file in
//! a directory, visited in natural (alphanumeric) order of their names.
//!
//! The verified core lives here: the construction decisions, the ordering of
//! the file list, the cross-file advance state machine, and the lossy line
//! decoding. The open file handles themselves are I/O state and belong to the
//! caller that drives the stream; every decision about them is made by the
//! contracts in [`streamer`] and reflected at the specification level in
//! [`model`].

pub mod decode;
pub mod model;
pub mod order;
pub mod streamer;

pub use streamer::DirectoryLinesStreamer;
pub use streamer::DirectoryLinesStreamerError;
