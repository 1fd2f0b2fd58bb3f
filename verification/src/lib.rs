//! Streaming frame reassembly for camera video carried over a serial link.
//!
//! The byte stream has no reliable framing of its own: bytes arrive in
//! arbitrary chunks with no guaranteed alignment. This crate rebuilds
//! discrete image frames from such a stream. It provides:
//!
//! - a marker matcher that finds fixed byte sequences in a stream, in an
//!   exact form and in an ambiguous-prefix form that resynchronizes on the
//!   marker's own internal repetitions ([`marker`]);
//! - a raw scanline reassembler that packs two-byte pixel samples into a
//!   frame buffer, driven by horizontal and vertical sync markers ([`raw`]);
//! - a delimited payload reassembler that collects the bytes of an opaque
//!   encoded payload between fixed start and end markers ([`delimited`]);
//! - an engine that demultiplexes the stream into per-channel frames and
//!   presents a uniform consume-bytes interface over both wire protocols
//!   ([`engine`]);
//! - a decoded-frame store fed by an external codec ([`codec`]);
//! - the device configuration byte and resolution table ([`settings`]).

pub mod marker;
pub mod raw;
pub mod delimited;
pub mod engine;
pub mod codec;
pub mod settings;
