//! Packets as the packet source hands them over, and what is kept of a
//! logical stream between its first packet and its last.

use vstd::prelude::*;
use vstd::slice::slice_subrange;
use crate::error::{OggMetadataError, outcome_of};
use crate::format::{format_of, parse_format, OggFormat};
use crate::magic::{identified, identify_packet_data_by_magic, BareOggFormat};

verus! {

/// One packet of a logical stream, with what its page says of it.
#[derive(Debug, PartialEq, Eq)]
pub struct Packet {
    /// The data the packet contains.
    pub data: Vec<u8>,
    /// Whether this packet is the first one of its logical stream.
    pub first_packet: bool,
    /// Whether this packet is the last one of its logical stream.
    pub last_packet: bool,
    /// Absolute granule position of the page the packet ended in. What it
    /// counts is defined by the codec.
    pub absgp_page: u64,
    /// Serial number of the logical stream the packet belongs to.
    pub stream_serial: u32,
}

/// A packet as a mathematical value.
pub struct PacketView {
    pub data: Seq<u8>,
    pub first_packet: bool,
    pub last_packet: bool,
    pub absgp_page: u64,
    pub stream_serial: u32,
}

impl View for Packet {
    type V = PacketView;

    open spec fn view(&self) -> PacketView {
        PacketView {
            data: self.data@,
            first_packet: self.first_packet,
            last_packet: self.last_packet,
            absgp_page: self.absgp_page,
            stream_serial: self.stream_serial,
        }
    }
}

/// What is known of a logical stream from its first packet: its codec and
/// the payload that follows the magic.
pub struct StreamView {
    pub format: BareOggFormat,
    pub payload: Seq<u8>,
}

/// The stream that a first packet with `data` opens; `None` where the data
/// opens with no known magic.
pub open spec fn stream_of(data: Seq<u8>) -> Option<StreamView> {
    match identified(data) {
        Some((offset, format)) => Some(StreamView { format, payload: data.skip(offset as int) }),
        None => None,
    }
}

/// The metadata of `stream`, given the granule position of its last
/// packet where that was found.
pub open spec fn finalized(stream: StreamView, last_packet_absgp: Option<u64>) -> crate::error::Outcome<
    OggFormat,
> {
    format_of(stream.payload, stream.format, last_packet_absgp)
}

/// An identified logical stream: the codec that its magic names, and the
/// packet that carried the identification header, with the offset of the
/// header's payload in it.
pub struct StreamState {
    format: BareOggFormat,
    payload_offset: usize,
    packet: Packet,
}

impl View for StreamState {
    type V = StreamView;

    closed spec fn view(&self) -> StreamView {
        StreamView {
            format: self.format,
            payload: self.packet.data@.skip(self.payload_offset as int),
        }
    }
}

impl StreamState {
    /// The payload starts within the packet.
    #[verifier::type_invariant]
    spec fn payload_in_packet(self) -> bool {
        self.payload_offset <= self.packet.data@.len()
    }

    /// Identifies the stream that `packet` opens. Returns `None` where the
    /// packet's data opens with no known magic.
    pub fn identify(packet: Packet) -> (r: Option<StreamState>)
        ensures
            r is Some <==> stream_of(packet@.data) is Some,
            r matches Some(stream) ==> Some(stream@) == stream_of(packet@.data),
    {
        match identify_packet_data_by_magic(packet.data.as_slice()) {
            Some((payload_offset, format)) => Some(StreamState { format, payload_offset, packet }),
            None => None,
        }
    }

    /// The codec of the stream.
    pub fn format(&self) -> (r: BareOggFormat)
        ensures
            r == self@.format,
    {
        self.format
    }

    /// Assembles the stream's metadata, with the granule position of its
    /// last packet where that was found.
    pub fn finalize(&self, last_packet_absgp: Option<u64>) -> (r: Result<OggFormat, OggMetadataError>)
        ensures
            outcome_of(r) == finalized(self@, last_packet_absgp),
    {
        proof {
            use_type_invariant(self);
        }
        let data = self.packet.data.as_slice();
        let payload = slice_subrange(data, self.payload_offset, data.len());
        assert(payload@ =~= self.packet.data@.skip(self.payload_offset as int));
        parse_format(payload, self.format, last_packet_absgp)
    }
}

} // verus!
