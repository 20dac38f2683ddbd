//! What the metadata of every audio codec offers.

use vstd::prelude::*;

verus! {

/// Metadata of an audio stream.
pub trait AudioMetadata {
    /// The number of output channels of the stream.
    spec fn output_channel_count(&self) -> u8;

    fn get_output_channel_count(&self) -> (r: u8)
        ensures
            r == self.output_channel_count(),
    ;
}

} // verus!
