//! The Theora video codec: its metadata and its identification header.

use vstd::prelude::*;
use crate::bytes::{be_uint, lemma_uint_bounds, read_u16_be, read_u8, read_uint_be};
use crate::error::{OggMetadataError, Outcome, outcome_of};

verus! {

/// Metadata for the Theora video codec.
#[derive(Debug, Clone, Copy, PartialEq, Eq)]
pub struct Metadata {
    pub pixels_width: u32,
    pub pixels_height: u32,
}

/// The fields of the Theora identification header that the metadata uses.
#[derive(Debug, Clone, Copy, PartialEq, Eq)]
pub struct IdentHeader {
    /// Width of the picture region in pixels.
    pub picture_region_width: u32,
    /// Height of the picture region in pixels.
    pub picture_region_height: u32,
}

/// The number of payload bytes up to the end of the picture region's size:
/// three version bytes, the frame's width and height in macro blocks in two
/// bytes each, the picture region's width and height in three bytes each.
pub open spec fn ident_header_len() -> nat {
    13
}

/// The identification header that the payload of a first Theora packet
/// spells. The version and the frame size in macro blocks are passed over;
/// the picture region's width and height are big-endian, of three bytes.
pub open spec fn ident_header(packet: Seq<u8>) -> Outcome<IdentHeader> {
    if packet.len() < ident_header_len() {
        Outcome::ShortRead
    } else {
        Outcome::Value(
            IdentHeader {
                picture_region_width: be_uint(packet, 7, 3) as u32,
                picture_region_height: be_uint(packet, 10, 3) as u32,
            },
        )
    }
}

/// Reads the Theora identification header from the payload that follows
/// the magic of the stream's first packet.
#[allow(unused_variables)]
pub fn read_header_ident(packet: &[u8]) -> (r: Result<IdentHeader, OggMetadataError>)
    ensures
        outcome_of(r) == ident_header(packet@),
        r matches Ok(hdr) ==> hdr.picture_region_width == 65536 * packet@[7] + 256 * packet@[8]
            + packet@[9] && hdr.picture_region_height == 65536 * packet@[10] + 256 * packet@[11]
            + packet@[12],
{
    proof {
        lemma_uint_bounds(packet@, 7);
        lemma_uint_bounds(packet@, 10);
        reveal_with_fuel(be_uint, 4);
    }
    // Major, minor and revision parts of the version
    let vmaj: u8 = match read_u8(packet, 0) {
        Ok(v) => v,
        Err(err) => {
            return Err(OggMetadataError::from(err));
        },
    };
    let vmin: u8 = match read_u8(packet, 1) {
        Ok(v) => v,
        Err(err) => {
            return Err(OggMetadataError::from(err));
        },
    };
    let vrev: u8 = match read_u8(packet, 2) {
        Ok(v) => v,
        Err(err) => {
            return Err(OggMetadataError::from(err));
        },
    };
    // Width and height of the frame in macro blocks
    let fmbw: u16 = match read_u16_be(packet, 3) {
        Ok(v) => v,
        Err(err) => {
            return Err(OggMetadataError::from(err));
        },
    };
    let fmbh: u16 = match read_u16_be(packet, 5) {
        Ok(v) => v,
        Err(err) => {
            return Err(OggMetadataError::from(err));
        },
    };
    // Width of the picture region in pixels
    let picw: u64 = match read_uint_be(packet, 7, 3) {
        Ok(v) => v,
        Err(err) => {
            return Err(OggMetadataError::from(err));
        },
    };
    // Height of the picture region in pixels
    let pich: u64 = match read_uint_be(packet, 10, 3) {
        Ok(v) => v,
        Err(err) => {
            return Err(OggMetadataError::from(err));
        },
    };
    Ok(IdentHeader { picture_region_width: picw as u32, picture_region_height: pich as u32 })
}

} // verus!
