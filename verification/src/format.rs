//! The metadata of one logical stream, and how it is assembled from the
//! stream's identification header and the granule position of its last
//! packet.

use vstd::prelude::*;
use crate::error::{OggMetadataError, Outcome, outcome_of};
use crate::magic::BareOggFormat;
use crate::opus;
use crate::theora;
use crate::vorbis;

verus! {

/// The format of one logical stream, with the metadata read from it.
#[derive(Debug, Clone, Copy, PartialEq, Eq)]
pub enum OggFormat {
    /// The Vorbis format.
    Vorbis(vorbis::Metadata),
    /// The Opus format, as specified by RFC 6716 and RFC 7845.
    Opus(opus::Metadata),
    /// The Theora video format.
    Theora(theora::Metadata),
    /// The Speex format.
    Speex,
    /// The Skeleton format with structure information.
    Skeleton,
    /// A format not supported by this crate, or the magic was corrupted.
    Unknown,
}

/// The length of an Opus stream in samples of 48 kHz: the granule position
/// of its last packet less the samples to skip at its start.
///
/// A granule position below the pre-skip gives no valid length, and neither
/// does a last packet that was not found: the length is then absent.
pub open spec fn opus_length(last_packet_absgp: Option<u64>, pre_skip: u16) -> Option<u64> {
    match last_packet_absgp {
        Some(absgp) => if absgp >= pre_skip {
            Some((absgp - pre_skip) as u64)
        } else {
            None
        },
        None => None,
    }
}

/// The metadata of a stream of `bare_format` whose first packet carries
/// `payload` behind the magic and whose last packet, where it was found,
/// has the granule position `last_packet_absgp`.
pub open spec fn format_of(
    payload: Seq<u8>,
    bare_format: BareOggFormat,
    last_packet_absgp: Option<u64>,
) -> Outcome<OggFormat> {
    match bare_format {
        BareOggFormat::Vorbis => match vorbis::ident_header(payload) {
            Outcome::Value(hdr) => Outcome::Value(
                OggFormat::Vorbis(
                    vorbis::Metadata {
                        channels: hdr.channels,
                        sample_rate: hdr.sample_rate,
                        length_in_samples: last_packet_absgp,
                    },
                ),
            ),
            Outcome::Unrecognized => Outcome::Unrecognized,
            Outcome::ShortRead => Outcome::ShortRead,
        },
        BareOggFormat::Opus => match opus::ident_header(payload) {
            Outcome::Value(hdr) => Outcome::Value(
                OggFormat::Opus(
                    opus::Metadata {
                        output_channels: hdr.output_channels,
                        length_in_48khz_samples: opus_length(last_packet_absgp, hdr.pre_skip),
                    },
                ),
            ),
            Outcome::Unrecognized => Outcome::Unrecognized,
            Outcome::ShortRead => Outcome::ShortRead,
        },
        BareOggFormat::Theora => match theora::ident_header(payload) {
            Outcome::Value(hdr) => Outcome::Value(
                OggFormat::Theora(
                    theora::Metadata {
                        pixels_width: hdr.picture_region_width,
                        pixels_height: hdr.picture_region_height,
                    },
                ),
            ),
            Outcome::Unrecognized => Outcome::Unrecognized,
            Outcome::ShortRead => Outcome::ShortRead,
        },
        BareOggFormat::Speex => Outcome::Value(OggFormat::Speex),
        BareOggFormat::Skeleton => Outcome::Value(OggFormat::Skeleton),
    }
}

/// Assembles the metadata of a stream of `bare_format` from the payload
/// that follows the magic of its first packet and from the granule
/// position of its last packet, where that was found.
///
/// Speex and Skeleton are detected only: nothing of their payload is read.
/// The length of an Opus stream is the granule position less the header's
/// pre-skip; it is left out where the pre-skip exceeds the position.
pub fn parse_format(
    pck_data: &[u8],
    bare_format: BareOggFormat,
    last_packet_absgp: Option<u64>,
) -> (r: Result<OggFormat, OggMetadataError>)
    ensures
        outcome_of(r) == format_of(pck_data@, bare_format, last_packet_absgp),
{
    match bare_format {
        BareOggFormat::Vorbis => {
            let ident_hdr = match vorbis::read_header_ident(pck_data) {
                Ok(hdr) => hdr,
                Err(err) => {
                    return Err(err);
                },
            };
            Ok(
                OggFormat::Vorbis(
                    vorbis::Metadata {
                        channels: ident_hdr.channels,
                        sample_rate: ident_hdr.sample_rate,
                        length_in_samples: last_packet_absgp,
                    },
                ),
            )
        },
        BareOggFormat::Opus => {
            let ident_hdr = match opus::read_header_ident(pck_data) {
                Ok(hdr) => hdr,
                Err(err) => {
                    return Err(err);
                },
            };
            let length: Option<u64> = match last_packet_absgp {
                Some(absgp) => absgp.checked_sub(ident_hdr.pre_skip as u64),
                None => None,
            };
            Ok(
                OggFormat::Opus(
                    opus::Metadata {
                        output_channels: ident_hdr.output_channels,
                        length_in_48khz_samples: length,
                    },
                ),
            )
        },
        BareOggFormat::Theora => {
            let ident_hdr = match theora::read_header_ident(pck_data) {
                Ok(hdr) => hdr,
                Err(err) => {
                    return Err(err);
                },
            };
            Ok(
                OggFormat::Theora(
                    theora::Metadata {
                        pixels_width: ident_hdr.picture_region_width,
                        pixels_height: ident_hdr.picture_region_height,
                    },
                ),
            )
        },
        BareOggFormat::Speex => Ok(OggFormat::Speex),
        BareOggFormat::Skeleton => Ok(OggFormat::Skeleton),
    }
}

} // verus!
