//! Metadata parser library for various Ogg formats.
//!
//! Supported formats:
//!
//! * Vorbis (Detect, Metadata)
//! * Opus (Detect, Metadata)
//! * Theora (Detect, Metadata)
//! * Speex (Detect)
//!
//! The codec of a stream is told from the magic that opens its first
//! packet (`magic`), and its metadata is read from the identification
//! header behind the magic (`vorbis`, `opus`, `theora`, `format`). The
//! length of an audio stream is the granule position of its last packet,
//! which is looked for shortly before the end of the file.
//!
//! The library does no reading of its own. `resolve` holds the
//! resolution of a whole file as a sequence of steps, each of which names
//! what the packet source is to do next and takes what came of it;
//! `model` says what each step is, and `laws` what follows for every
//! file.

pub mod bytes;
pub mod error;
pub mod format;
pub mod laws;
pub mod magic;
pub mod metadata;
pub mod model;
pub mod opus;
pub mod resolve;
pub mod stream;
pub mod theora;
pub mod vorbis;

pub use error::OggMetadataError;
pub use format::{parse_format, OggFormat};
pub use magic::{identify_packet_data_by_magic, needs_last_packet_absgp, BareOggFormat};
pub use metadata::AudioMetadata;
pub use opus::Metadata as OpusMetadata;
pub use theora::Metadata as TheoraMetadata;
pub use vorbis::Metadata as VorbisMetadata;
