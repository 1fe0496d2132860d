//! The core of a streaming lossless compression codec: the adaptive
//! probability models that drive its arithmetic coder, the CRC32C digest over
//! the coded stream, the command-level state machine shared by the encoder
//! and the decoder, and the main-thread side of the threaded decoder.
//!
//! The arithmetic coder itself, the per-command sub-machines and the
//! ring-buffer recoder are outside collaborators, specified only at their
//! suspension-protocol boundary; every decision between those calls is
//! verified here.
pub mod codec;
pub mod crc32;
pub mod decoder;
pub mod probability;
