//! The Vorbis audio codec: its metadata and its identification header.

use vstd::prelude::*;
use crate::bytes::{le_uint, lemma_uint_bounds, read_u32_le, read_u8};
use crate::error::{OggMetadataError, Outcome, outcome_of};
use crate::metadata::AudioMetadata;

verus! {

/// Metadata for the Vorbis audio codec.
#[derive(Debug, Clone, Copy, PartialEq, Eq)]
pub struct Metadata {
    pub channels: u8,
    pub sample_rate: u32,
    /// The number of samples in the stream, where the last packet of the
    /// stream was found.
    pub length_in_samples: Option<u64>,
}

impl AudioMetadata for Metadata {
    open spec fn output_channel_count(&self) -> u8 {
        self.channels
    }

    fn get_output_channel_count(&self) -> (r: u8) {
        self.channels
    }
}

/// The fields of the Vorbis identification header that the metadata uses.
#[derive(Debug, Clone, Copy, PartialEq, Eq)]
pub struct IdentHeader {
    pub channels: u8,
    pub sample_rate: u32,
}

/// The identification header that the payload of a first Vorbis packet
/// spells: a little-endian version of four bytes, which must be zero, the
/// channel count in one byte, the little-endian sample rate in four.
pub open spec fn ident_header(packet: Seq<u8>) -> Outcome<IdentHeader> {
    if packet.len() < 4 {
        Outcome::ShortRead
    } else if le_uint(packet, 0, 4) != 0 {
        Outcome::Unrecognized
    } else if packet.len() < 9 {
        Outcome::ShortRead
    } else {
        Outcome::Value(
            IdentHeader { channels: packet[4], sample_rate: le_uint(packet, 5, 4) as u32 },
        )
    }
}

/// Reads the Vorbis identification header from the payload that follows
/// the magic of the stream's first packet.
pub fn read_header_ident(packet: &[u8]) -> (r: Result<IdentHeader, OggMetadataError>)
    ensures
        outcome_of(r) == ident_header(packet@),
        packet@.len() >= 4 && le_uint(packet@, 0, 4) != 0 ==> r is Err && r->Err_0
            is UnrecognizedFormat,
        r matches Ok(hdr) ==> hdr.channels == packet@[4] && hdr.sample_rate == packet@[5] + 256
            * packet@[6] + 65536 * packet@[7] + 16777216 * packet@[8],
{
    proof {
        lemma_uint_bounds(packet@, 5);
        reveal_with_fuel(le_uint, 5);
    }
    let vorbis_version: u32 = match read_u32_le(packet, 0) {
        Ok(v) => v,
        Err(err) => {
            return Err(OggMetadataError::from(err));
        },
    };
    if vorbis_version != 0 {
        return Err(OggMetadataError::UnrecognizedFormat);
    }
    let audio_channels: u8 = match read_u8(packet, 4) {
        Ok(v) => v,
        Err(err) => {
            return Err(OggMetadataError::from(err));
        },
    };
    let audio_sample_rate: u32 = match read_u32_le(packet, 5) {
        Ok(v) => v,
        Err(err) => {
            return Err(OggMetadataError::from(err));
        },
    };
    Ok(IdentHeader { channels: audio_channels, sample_rate: audio_sample_rate })
}

} // verus!
