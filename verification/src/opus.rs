//! The Opus audio codec: its metadata and its identification header.

use vstd::prelude::*;
use crate::bytes::{le_uint, lemma_uint_bounds, read_u16_le, read_u8};
use crate::error::{OggMetadataError, Outcome, outcome_of};
use crate::metadata::AudioMetadata;

verus! {

/// Metadata for the Opus audio codec.
#[derive(Debug, Clone, Copy, PartialEq, Eq)]
pub struct Metadata {
    pub output_channels: u8,
    /// The number of samples in this piece.
    ///
    /// While Opus has a varying sample rate, the per-page sample counter
    /// operates on units of 48 kHz.
    pub length_in_48khz_samples: Option<u64>,
}

impl AudioMetadata for Metadata {
    open spec fn output_channel_count(&self) -> u8 {
        self.output_channels
    }

    fn get_output_channel_count(&self) -> (r: u8) {
        self.output_channels
    }
}

/// The fields of the Opus identification header that the metadata uses.
#[derive(Debug, Clone, Copy, PartialEq, Eq)]
pub struct IdentHeader {
    pub output_channels: u8,
    /// The number of decoded samples to discard at the start of the stream.
    pub pre_skip: u16,
}

/// The identification header that the payload of a first Opus packet
/// spells: a version byte, whose major half (the high four bits) must be
/// zero, the output channel count in one byte, the little-endian pre-skip
/// in two.
pub open spec fn ident_header(packet: Seq<u8>) -> Outcome<IdentHeader> {
    if packet.len() < 1 {
        Outcome::ShortRead
    } else if packet[0] >= 16 {
        Outcome::Unrecognized
    } else if packet.len() < 4 {
        Outcome::ShortRead
    } else {
        Outcome::Value(
            IdentHeader { output_channels: packet[1], pre_skip: le_uint(packet, 2, 2) as u16 },
        )
    }
}

/// Reads the Opus identification header from the payload that follows
/// the magic of the stream's first packet.
///
/// The version is split into a major and a minor half; every version
/// whose major half is zero is read.
pub fn read_header_ident(packet: &[u8]) -> (r: Result<IdentHeader, OggMetadataError>)
    ensures
        outcome_of(r) == ident_header(packet@),
        packet@.len() >= 1 && packet@[0] >= 16 ==> r is Err && r->Err_0 is UnrecognizedFormat,
        packet@.len() >= 4 && packet@[0] < 16 ==> r is Ok,
        r matches Ok(hdr) ==> hdr.output_channels == packet@[1] && hdr.pre_skip == packet@[2] + 256
            * packet@[3],
{
    proof {
        lemma_uint_bounds(packet@, 2);
        reveal_with_fuel(le_uint, 3);
    }
    let opus_version: u8 = match read_u8(packet, 0) {
        Ok(v) => v,
        Err(err) => {
            return Err(OggMetadataError::from(err));
        },
    };
    if opus_version >= 16 {
        return Err(OggMetadataError::UnrecognizedFormat);
    }
    let output_channels: u8 = match read_u8(packet, 1) {
        Ok(v) => v,
        Err(err) => {
            return Err(OggMetadataError::from(err));
        },
    };
    let pre_skip: u16 = match read_u16_le(packet, 2) {
        Ok(v) => v,
        Err(err) => {
            return Err(OggMetadataError::from(err));
        },
    };
    Ok(IdentHeader { output_channels, pre_skip })
}

} // verus!
