//! The resolution of an Ogg file's formats as a state machine over
//! mathematical values.
//!
//! The machine asks a packet source for one thing at a time, the next
//! packet or a seek towards the end of the file, and moves on with the
//! answer. A file with one logical stream is resolved from its first
//! packet and, for the codecs that carry a length, from the last packet
//! found behind a seek to shortly before the end. A file that opens with
//! a Skeleton stream is resolved in three phases: every stream that
//! starts while the Skeleton stream lasts is recorded, one seek to
//! shortly before the end follows, and the packets behind it give each
//! recorded stream its end. The last phase is best effort: where the
//! source fails in it, the streams that are still open are listed without
//! a length.

use vstd::prelude::*;
use ogg::OggReadError;
use crate::error::{OggMetadataError, Outcome};
use crate::format::OggFormat;
use crate::magic::{needs_length, BareOggFormat};
use crate::stream::{finalized, stream_of, PacketView, StreamView};
use vstd::std_specs::convert::FromSpec;

verus! {

/// How far before the end of the file the last packet of the only stream
/// is looked for: 150 KiB hold at least one whole page, unless there is
/// unused space between pages.
pub const SINGLE_STREAM_WINDOW: u64 = 150 * 1024;

/// How far before the end of the file the last packets of the streams of
/// a multiplexed file are looked for. A guess: a larger window costs more
/// reading and finds the ends of more streams.
pub const MULTI_STREAM_WINDOW: u64 = 200 * 1024;

/// The streams that are recorded and not yet ended, by serial number.
pub type Streams = Map<u32, StreamView>;

/// What the machine waits for while it reads packets.
pub enum ReadingView {
    /// The first packet of the file.
    FirstPacket,
    /// The last packet of the file's only stream.
    LastPacket { stream: StreamView },
    /// The packets that come while the Skeleton stream with the serial
    /// `skeleton_serial` lasts.
    Collect { skeleton_serial: u32, found: Seq<OggFormat>, streams: Streams },
    /// The last packets of the recorded streams.
    TailScan { found: Seq<OggFormat>, streams: Streams },
}

/// What a seek towards the end of the file is made for.
pub enum GoalView {
    /// The length of the file's only stream.
    Single { stream: StreamView },
    /// The lengths of the streams recorded from a multiplexed file.
    Multi { found: Seq<OggFormat>, streams: Streams },
}

/// How far a seek has come.
pub enum SeekStage {
    /// The end of the file is being located.
    FindEnd,
    /// The source is being placed `back` bytes before the end.
    Rewind { back: u64 },
}

/// What the machine waits for while the source seeks.
pub struct SeekingView {
    pub goal: GoalView,
    pub stage: SeekStage,
}

/// How a resolution ends.
pub enum Ending {
    /// With the formats of the streams, in this order.
    Listed(Seq<OggFormat>),
    /// With this error.
    Failed(OggMetadataError),
    /// With a read error, for an identification header that is cut short.
    Truncated,
    /// With `found`, followed by the streams in `unresolved` without a
    /// length, one after the other in some order; or with the error of
    /// the first of them whose header cannot be read.
    Partial { found: Seq<OggFormat>, unresolved: Streams },
}

/// Where the machine stands: what it needs next, or how it ended.
pub enum StepView {
    Read(ReadingView),
    Seek(SeekingView),
    Done(Ending),
}

/// The width of the window before the end of the file that is searched
/// for `goal`.
pub open spec fn window(goal: GoalView) -> u64 {
    match goal {
        GoalView::Single { .. } => SINGLE_STREAM_WINDOW,
        GoalView::Multi { .. } => MULTI_STREAM_WINDOW,
    }
}

/// How many bytes before the end of the file the source is asked to seek.
pub open spec fn seek_distance(state: SeekingView) -> u64 {
    match state.stage {
        SeekStage::FindEnd => 0,
        SeekStage::Rewind { back } => back,
    }
}

/// The end of a resolution with the one format `outcome`, or with the
/// failure to read it.
pub open spec fn ending_of(found: Seq<OggFormat>, outcome: Outcome<OggFormat>) -> Ending {
    match outcome {
        Outcome::Value(format) => Ending::Listed(found.push(format)),
        Outcome::Unrecognized => Ending::Failed(OggMetadataError::UnrecognizedFormat),
        Outcome::ShortRead => Ending::Truncated,
    }
}

/// The machine's first state.
pub open spec fn initial() -> StepView {
    StepView::Read(ReadingView::FirstPacket)
}

/// The step that follows the first packet of the file.
pub open spec fn after_first_packet(packet: PacketView) -> StepView {
    match stream_of(packet.data) {
        None => StepView::Done(Ending::Listed(seq![OggFormat::Unknown])),
        Some(stream) => if needs_length(stream.format) {
            StepView::Seek(
                SeekingView { goal: GoalView::Single { stream }, stage: SeekStage::FindEnd },
            )
        } else if stream.format == BareOggFormat::Skeleton {
            StepView::Read(
                ReadingView::Collect {
                    skeleton_serial: packet.stream_serial,
                    found: seq![OggFormat::Skeleton],
                    streams: Map::empty(),
                },
            )
        } else {
            StepView::Done(ending_of(Seq::empty(), finalized(stream, None)))
        },
    }
}

/// The step that follows a packet read in search of the last packet of
/// the file's only stream.
pub open spec fn after_scanned_packet(stream: StreamView, packet: PacketView) -> StepView {
    if packet.last_packet {
        StepView::Done(ending_of(Seq::empty(), finalized(stream, Some(packet.absgp_page))))
    } else {
        StepView::Read(ReadingView::LastPacket { stream })
    }
}

/// The step that follows a packet read while the Skeleton stream lasts.
///
/// The last packet of the Skeleton stream ends the phase. Of the other
/// packets, each one that opens a stream has the stream recorded under
/// its serial number, or listed as unknown where its magic is not known.
pub open spec fn after_collected_packet(
    skeleton_serial: u32,
    found: Seq<OggFormat>,
    streams: Streams,
    packet: PacketView,
) -> StepView {
    if packet.stream_serial == skeleton_serial && packet.last_packet {
        StepView::Seek(
            SeekingView { goal: GoalView::Multi { found, streams }, stage: SeekStage::FindEnd },
        )
    } else if !packet.first_packet {
        StepView::Read(ReadingView::Collect { skeleton_serial, found, streams })
    } else {
        match stream_of(packet.data) {
            None => StepView::Read(
                ReadingView::Collect {
                    skeleton_serial,
                    found: found.push(OggFormat::Unknown),
                    streams,
                },
            ),
            Some(stream) => StepView::Read(
                ReadingView::Collect {
                    skeleton_serial,
                    found,
                    streams: streams.insert(packet.stream_serial, stream),
                },
            ),
        }
    }
}

/// The state in which the last packets of `streams` are looked for, or
/// the end of the resolution where none is left to look for.
pub open spec fn tail_scan(found: Seq<OggFormat>, streams: Streams) -> StepView {
    if streams.is_empty() {
        StepView::Done(Ending::Listed(found))
    } else {
        StepView::Read(ReadingView::TailScan { found, streams })
    }
}

/// The step that follows a packet read in search of the last packets of
/// the recorded streams.
///
/// Only the last packet of a recorded stream counts: it ends that stream
/// with its granule position. A Skeleton stream among the recorded ones
/// is invalid.
pub open spec fn after_tail_packet(
    found: Seq<OggFormat>,
    streams: Streams,
    packet: PacketView,
) -> StepView {
    if !packet.last_packet || !streams.contains_key(packet.stream_serial) {
        StepView::Read(ReadingView::TailScan { found, streams })
    } else {
        let stream = streams[packet.stream_serial];
        if stream.format == BareOggFormat::Skeleton {
            StepView::Done(Ending::Failed(OggMetadataError::UnrecognizedFormat))
        } else {
            match finalized(stream, Some(packet.absgp_page)) {
                Outcome::Value(format) => tail_scan(
                    found.push(format),
                    streams.remove(packet.stream_serial),
                ),
                Outcome::Unrecognized => StepView::Done(
                    Ending::Failed(OggMetadataError::UnrecognizedFormat),
                ),
                Outcome::ShortRead => StepView::Done(Ending::Truncated),
            }
        }
    }
}

/// The step that follows the source's answer to a request for a packet.
///
/// A failure of the source is fatal, but in the search for the last
/// packets of the recorded streams, where it ends the search.
pub open spec fn after_packet(
    state: ReadingView,
    answer: Result<PacketView, OggReadError>,
) -> StepView {
    match answer {
        Err(err) => match state {
            ReadingView::TailScan { found, streams } => StepView::Done(
                Ending::Partial { found, unresolved: streams },
            ),
            _ => StepView::Done(Ending::Failed(OggMetadataError::from_spec(err))),
        },
        Ok(packet) => match state {
            ReadingView::FirstPacket => after_first_packet(packet),
            ReadingView::LastPacket { stream } => after_scanned_packet(stream, packet),
            ReadingView::Collect { skeleton_serial, found, streams } => after_collected_packet(
                skeleton_serial,
                found,
                streams,
                packet,
            ),
            ReadingView::TailScan { found, streams } => after_tail_packet(found, streams, packet),
        },
    }
}

/// The step that follows the source's answer to a request for a seek: the
/// position it came to, counted from the start of the file.
///
/// With the end of the file located, the source is sent back from it by
/// the width of the window, or to the start of a file that is shorter.
/// A failure of the source is fatal for a single stream; for a
/// multiplexed file it leaves every recorded stream without a length.
pub open spec fn after_seek(state: SeekingView, answer: Result<u64, std::io::Error>) -> StepView {
    match answer {
        Err(err) => match state.goal {
            GoalView::Single { .. } => StepView::Done(
                Ending::Failed(OggMetadataError::ReadError(err)),
            ),
            GoalView::Multi { found, streams } => StepView::Done(
                Ending::Partial { found, unresolved: streams },
            ),
        },
        Ok(position) => match state.stage {
            SeekStage::FindEnd => StepView::Seek(
                SeekingView {
                    goal: state.goal,
                    stage: SeekStage::Rewind {
                        back: if position <= window(state.goal) {
                            position
                        } else {
                            window(state.goal)
                        },
                    },
                },
            ),
            SeekStage::Rewind { .. } => match state.goal {
                GoalView::Single { stream } => StepView::Read(ReadingView::LastPacket { stream }),
                GoalView::Multi { found, streams } => tail_scan(found, streams),
            },
        },
    }
}

/// The step reached from `step` when the source answers the requests for
/// packets with `answers`, one after the other. Answers that come after
/// the machine has stopped reading are not looked at.
pub open spec fn read_all(step: StepView, answers: Seq<Result<PacketView, OggReadError>>) -> StepView
    decreases answers.len(),
{
    if answers.len() == 0 {
        step
    } else {
        match step {
            StepView::Read(state) => read_all(after_packet(state, answers[0]), answers.drop_first()),
            _ => step,
        }
    }
}

/// Whether `order` names every stream of `streams` once.
pub open spec fn is_listing(order: Seq<u32>, streams: Streams) -> bool {
    order.no_duplicates() && order.to_set() == streams.dom()
}

/// The end of a resolution that lists, behind `found`, the streams of
/// `unresolved` in the given order, each without a length.
pub open spec fn listed_in_order(found: Seq<OggFormat>, unresolved: Streams, order: Seq<u32>) -> Ending
    decreases order.len(),
{
    if order.len() == 0 {
        Ending::Listed(found)
    } else {
        match finalized(unresolved[order[0]], None) {
            Outcome::Value(format) => listed_in_order(
                found.push(format),
                unresolved,
                order.drop_first(),
            ),
            Outcome::Unrecognized => Ending::Failed(OggMetadataError::UnrecognizedFormat),
            Outcome::ShortRead => Ending::Truncated,
        }
    }
}

/// Whether `result` is an end that `ending` allows, where `ending` says
/// what is returned up to the I/O error of a header cut short.
pub open spec fn ends_plainly(result: Result<Seq<OggFormat>, OggMetadataError>, ending: Ending) -> bool {
    match ending {
        Ending::Listed(formats) => result == Ok::<Seq<OggFormat>, OggMetadataError>(formats),
        Ending::Failed(err) => result == Err::<Seq<OggFormat>, OggMetadataError>(err),
        Ending::Truncated => result is Err && result->Err_0 is ReadError,
        Ending::Partial { .. } => false,
    }
}

/// Whether `result` is an end that `ending` allows.
pub open spec fn ends_in(result: Result<Seq<OggFormat>, OggMetadataError>, ending: Ending) -> bool {
    match ending {
        Ending::Partial { found, unresolved } => exists|order: Seq<u32>|
            is_listing(order, unresolved) && ends_plainly(
                result,
                #[trigger] listed_in_order(found, unresolved, order),
            ),
        _ => ends_plainly(result, ending),
    }
}

} // verus!
