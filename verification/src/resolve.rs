//! The resolution of an Ogg file's formats, one answer of the packet
//! source at a time.
//!
//! The caller owns the packet source. It starts with `Reading::new`,
//! and then does what each `Step` asks for: it reads the next packet for a
//! `Step::Read` and hands the outcome to `Reading::packet`; it seeks to
//! `Seeking::bytes_before_end` bytes before the end of the file for a
//! `Step::Seek` and hands the outcome to `Seeking::sought`; at
//! `Step::Done` it has the result.

use vstd::prelude::*;
use vstd::std_specs::iter::IteratorSpec;
use std::collections::HashMap;
use ogg::OggReadError;
use crate::error::{OggMetadataError, outcome_of};
use crate::format::OggFormat;
use crate::magic::{needs_last_packet_absgp, BareOggFormat};
use crate::model::{
    after_packet, after_seek, ends_in, ends_plainly, ending_of, is_listing, listed_in_order,
    seek_distance, tail_scan, Ending, GoalView, ReadingView, SeekStage, SeekingView, StepView,
    Streams, MULTI_STREAM_WINDOW, SINGLE_STREAM_WINDOW,
};
use crate::stream::{finalized, Packet, PacketView, StreamState, StreamView};

verus! {

broadcast use vstd::std_specs::hash::group_hash_axioms;

/// The recorded streams as mathematical values.
pub closed spec fn streams_view(streams: Map<u32, StreamState>) -> Streams {
    Map::new(|serial: u32| streams.contains_key(serial), |serial: u32| streams[serial]@)
}

/// The formats as a mathematical value.
pub open spec fn result_view(result: Result<Vec<OggFormat>, OggMetadataError>) -> Result<
    Seq<OggFormat>,
    OggMetadataError,
> {
    match result {
        Ok(formats) => Ok(formats@),
        Err(err) => Err(err),
    }
}

/// The source's answer to a request for a packet as a mathematical value.
pub open spec fn answer_view(answer: Result<Packet, OggReadError>) -> Result<
    PacketView,
    OggReadError,
> {
    match answer {
        Ok(packet) => Ok(packet@),
        Err(err) => Err(err),
    }
}

enum ReadPhase {
    FirstPacket,
    LastPacket { stream: StreamState },
    Collect { skeleton_serial: u32, found: Vec<OggFormat>, streams: HashMap<u32, StreamState> },
    TailScan { found: Vec<OggFormat>, streams: HashMap<u32, StreamState> },
}

enum SeekGoal {
    Single { stream: StreamState },
    Multi { found: Vec<OggFormat>, streams: HashMap<u32, StreamState> },
}

/// The resolution while it waits for the next packet of the source.
pub struct Reading {
    phase: ReadPhase,
}

/// The resolution while it waits for the source to seek.
pub struct Seeking {
    goal: SeekGoal,
    stage: SeekStage,
}

/// What the resolution needs next of the packet source, or its result.
pub enum Step {
    /// The next packet is to be read and handed to `Reading::packet`.
    Read(Reading),
    /// The source is to seek and the position handed to `Seeking::sought`.
    Seek(Seeking),
    /// The resolution is over.
    Done(Result<Vec<OggFormat>, OggMetadataError>),
}

impl View for Reading {
    type V = ReadingView;

    closed spec fn view(&self) -> ReadingView {
        match self.phase {
            ReadPhase::FirstPacket => ReadingView::FirstPacket,
            ReadPhase::LastPacket { stream } => ReadingView::LastPacket { stream: stream@ },
            ReadPhase::Collect { skeleton_serial, found, streams } => ReadingView::Collect {
                skeleton_serial,
                found: found@,
                streams: streams_view(streams@),
            },
            ReadPhase::TailScan { found, streams } => ReadingView::TailScan {
                found: found@,
                streams: streams_view(streams@),
            },
        }
    }
}

impl SeekGoal {
    spec fn view(&self) -> GoalView {
        match *self {
            SeekGoal::Single { stream } => GoalView::Single { stream: stream@ },
            SeekGoal::Multi { found, streams } => GoalView::Multi {
                found: found@,
                streams: streams_view(streams@),
            },
        }
    }
}

impl View for Seeking {
    type V = SeekingView;

    closed spec fn view(&self) -> SeekingView {
        SeekingView { goal: self.goal.view(), stage: self.stage }
    }
}

impl Step {
    /// Whether the step is the one that the model names: the same state,
    /// or a result that the model's ending allows.
    pub open spec fn models(self, step: StepView) -> bool {
        match (self, step) {
            (Step::Read(state), StepView::Read(view)) => state@ == view,
            (Step::Seek(state), StepView::Seek(view)) => state@ == view,
            (Step::Done(result), StepView::Done(ending)) => ends_in(result_view(result), ending),
            _ => false,
        }
    }
}

proof fn lemma_streams_view_insert(streams: Map<u32, StreamState>, serial: u32, stream: StreamState)
    ensures
        streams_view(streams.insert(serial, stream)) == streams_view(streams).insert(
            serial,
            stream@,
        ),
{
    assert(streams_view(streams.insert(serial, stream)) =~= streams_view(streams).insert(
        serial,
        stream@,
    ));
}

proof fn lemma_streams_view_remove(streams: Map<u32, StreamState>, serial: u32)
    ensures
        streams_view(streams.remove(serial)) == streams_view(streams).remove(serial),
{
    assert(streams_view(streams.remove(serial)) =~= streams_view(streams).remove(serial));
}

proof fn lemma_streams_view_dom(streams: Map<u32, StreamState>)
    ensures
        streams_view(streams).dom() == streams.dom(),
        streams.is_empty() <==> streams_view(streams).is_empty(),
        forall|serial: u32|
            streams.contains_key(serial) ==> #[trigger] streams_view(streams)[serial]
                == streams[serial]@,
{
    assert(streams_view(streams).dom() =~= streams.dom());
}

/// Lists, behind `found`, every stream that was recorded and not ended,
/// without a length.
fn finalize_leftovers(found: Vec<OggFormat>, streams: HashMap<u32, StreamState>) -> (r: Result<
    Vec<OggFormat>,
    OggMetadataError,
>)
    ensures
        ends_in(
            result_view(r),
            Ending::Partial { found: found@, unresolved: streams_view(streams@) },
        ),
{
    let mut res = found;
    let ghost unresolved = streams_view(streams@);
    let iter = streams.iter();
    let ghost items = iter.remaining();
    let ghost order = Seq::new(items.len(), |i: int| *items[i].0);
    proof {
        lemma_streams_view_dom(streams@);
        assert(order.no_duplicates()) by {
            assert forall|i: int, j: int|
                0 <= i < order.len() && 0 <= j < order.len() && i != j implies order[i]
                != order[j] by {
                if order[i] == order[j] {
                    assert(streams@.contains_key(*items[i].0) && streams@[*items[i].0]
                        == *items[i].1);
                    assert(streams@.contains_key(*items[j].0) && streams@[*items[j].0]
                        == *items[j].1);
                    assert(items[i] == items[j]);
                }
            }
        }
        assert(order.to_set() =~= unresolved.dom()) by {
            assert forall|serial: u32|
                order.to_set().contains(serial) <==> unresolved.dom().contains(serial) by {
                if unresolved.dom().contains(serial) {
                    let item = (&serial, &streams@[serial]);
                    assert(items.contains(item));
                    let i = choose|i: int| 0 <= i < items.len() && items[i] == item;
                    assert(order[i] == serial);
                }
                if order.to_set().contains(serial) {
                    let i = choose|i: int| 0 <= i < order.len() && order[i] == serial;
                    assert(streams@.contains_key(*items[i].0));
                }
            }
        }
        assert(order.skip(0) =~= order);
    }
    for item in it: iter
        invariant
            it.seq() == items,
            items == streams.iter().remaining(),
            order == Seq::new(items.len(), |i: int| *items[i].0),
            unresolved == streams_view(streams@),
            is_listing(order, unresolved),
            listed_in_order(found@, unresolved, order) == listed_in_order(
                res@,
                unresolved,
                order.skip(it.index()),
            ),
    {
        let (serial, stream) = item;
        let ghost rest = order.skip(it.index());
        proof {
            assert(rest.len() > 0 && rest[0] == *serial);
            assert(streams@.contains_key(*items[it.index()].0) && streams@[*items[it.index()].0]
                == *items[it.index()].1);
            assert(unresolved[rest[0]] == stream@);
            assert(rest.drop_first() =~= order.skip(it.index() + 1));
        }
        match stream.finalize(None) {
            Ok(format) => {
                res.push(format);
            },
            Err(err) => {
                return Err(err);
            },
        }
    }
    Ok(res)
}

/// Ends the resolution with the metadata of `stream` behind `found`.
fn finish(found: Vec<OggFormat>, stream: &StreamState, last_packet_absgp: Option<u64>) -> (r:
    Result<Vec<OggFormat>, OggMetadataError>)
    ensures
        ends_plainly(result_view(r), ending_of(found@, finalized(stream@, last_packet_absgp))),
{
    let mut res = found;
    match stream.finalize(last_packet_absgp) {
        Ok(format) => {
            res.push(format);
            Ok(res)
        },
        Err(err) => Err(err),
    }
}

/// Starts the seek to shortly before the end of the file: the end is
/// located first, so that a file shorter than the window is read from its
/// start.
fn seek_before_end(goal: SeekGoal) -> (next: Step)
    ensures
        next.models(
            StepView::Seek(SeekingView { goal: goal.view(), stage: SeekStage::FindEnd }),
        ),
{
    Step::Seek(Seeking { goal, stage: SeekStage::FindEnd })
}

/// Starts the search for the last packet of the file's only stream, whose
/// granule position gives the stream's length.
fn get_absgp_of_last_packet(stream: StreamState) -> (next: Step)
    ensures
        next.models(
            StepView::Seek(
                SeekingView { goal: GoalView::Single { stream: stream@ }, stage: SeekStage::FindEnd },
            ),
        ),
{
    seek_before_end(SeekGoal::Single { stream })
}

/// Reads on for the last packets of `streams`, or ends the resolution
/// where none is left.
fn scan_tail(found: Vec<OggFormat>, streams: HashMap<u32, StreamState>) -> (next: Step)
    ensures
        next.models(tail_scan(found@, streams_view(streams@))),
{
    proof {
        lemma_streams_view_dom(streams@);
    }
    if streams.is_empty() {
        Step::Done(Ok(found))
    } else {
        Step::Read(Reading { phase: ReadPhase::TailScan { found, streams } })
    }
}

/// Takes the first packet of the file.
fn first_packet(packet: Packet) -> (next: Step)
    ensures
        next.models(after_packet(ReadingView::FirstPacket, Ok(packet@))),
{
    let skeleton_serial: u32 = packet.stream_serial;
    let stream = match StreamState::identify(packet) {
        Some(stream) => stream,
        None => {
            let mut res: Vec<OggFormat> = Vec::new();
            res.push(OggFormat::Unknown);
            assert(res@ =~= seq![OggFormat::Unknown]);
            return Step::Done(Ok(res));
        },
    };
    if needs_last_packet_absgp(stream.format()) {
        return get_absgp_of_last_packet(stream);
    }
    let res = match finish(Vec::new(), &stream, None) {
        Ok(res) => res,
        Err(err) => {
            return Step::Done(Err(err));
        },
    };
    if stream.format() == BareOggFormat::Skeleton {
        proof {
            assert(streams_view(Map::empty()) =~= Map::<u32, StreamView>::empty());
            assert(res@ =~= seq![OggFormat::Skeleton]);
        }
        Step::Read(
            Reading { phase: ReadPhase::Collect { skeleton_serial, found: res, streams: HashMap::new() } },
        )
    } else {
        Step::Done(Ok(res))
    }
}

/// Takes a packet read in search of the last packet of the only stream.
fn scanned_packet(stream: StreamState, packet: Packet) -> (next: Step)
    ensures
        next.models(after_packet(ReadingView::LastPacket { stream: stream@ }, Ok(packet@))),
{
    if packet.last_packet {
        Step::Done(finish(Vec::new(), &stream, Some(packet.absgp_page)))
    } else {
        Step::Read(Reading { phase: ReadPhase::LastPacket { stream } })
    }
}

/// Takes a packet read while the Skeleton stream lasts.
fn collected_packet(
    skeleton_serial: u32,
    found: Vec<OggFormat>,
    streams: HashMap<u32, StreamState>,
    packet: Packet,
) -> (next: Step)
    ensures
        next.models(
            after_packet(
                ReadingView::Collect {
                    skeleton_serial,
                    found: found@,
                    streams: streams_view(streams@),
                },
                Ok(packet@),
            ),
        ),
{
    let mut found = found;
    let mut streams = streams;
    if packet.stream_serial == skeleton_serial && packet.last_packet {
        // The Skeleton stream has ended: now the ends of the others.
        return seek_before_end(SeekGoal::Multi { found, streams });
    }
    if packet.first_packet {
        let serial: u32 = packet.stream_serial;
        match StreamState::identify(packet) {
            Some(stream) => {
                proof {
                    lemma_streams_view_insert(streams@, serial, stream);
                }
                streams.insert(serial, stream);
            },
            None => {
                found.push(OggFormat::Unknown);
            },
        }
    }
    Step::Read(Reading { phase: ReadPhase::Collect { skeleton_serial, found, streams } })
}

/// Takes a packet read in search of the last packets of the recorded
/// streams.
fn tail_packet(found: Vec<OggFormat>, streams: HashMap<u32, StreamState>, packet: Packet) -> (next:
    Step)
    ensures
        next.models(
            after_packet(
                ReadingView::TailScan { found: found@, streams: streams_view(streams@) },
                Ok(packet@),
            ),
        ),
{
    let mut found = found;
    let mut streams = streams;
    proof {
        lemma_streams_view_remove(streams@, packet.stream_serial);
        lemma_streams_view_dom(streams@);
    }
    // Only the last packets are of interest.
    if !packet.last_packet {
        return Step::Read(Reading { phase: ReadPhase::TailScan { found, streams } });
    }
    let ghost before = streams@;
    let stream = match streams.remove(&packet.stream_serial) {
        Some(stream) => stream,
        None => {
            assert(streams@ =~= before);
            return Step::Read(Reading { phase: ReadPhase::TailScan { found, streams } });
        },
    };
    if stream.format() == BareOggFormat::Skeleton {
        // Skeleton inside Skeleton is invalid.
        return Step::Done(Err(OggMetadataError::UnrecognizedFormat));
    }
    match stream.finalize(Some(packet.absgp_page)) {
        Ok(format) => {
            found.push(format);
            scan_tail(found, streams)
        },
        Err(err) => Step::Done(Err(err)),
    }
}

impl Reading {
    /// The resolution at its start: it waits for the first packet of the
    /// file.
    pub fn new() -> (state: Reading)
        ensures
            state@ == ReadingView::FirstPacket,
    {
        Reading { phase: ReadPhase::FirstPacket }
    }

    /// Moves on with the outcome of reading the next packet.
    ///
    /// A failure of the source ends the resolution with `UnrecognizedFormat`,
    /// or with `ReadError` where the source met an I/O error; but while the
    /// last packets of several streams are looked for, it only ends the
    /// search, and the streams that are still open are listed without a
    /// length.
    pub fn packet(self, answer: Result<Packet, OggReadError>) -> (next: Step)
        ensures
            next.models(after_packet(self@, answer_view(answer))),
    {
        let packet = match answer {
            Ok(packet) => packet,
            Err(err) => {
                return match self.phase {
                    ReadPhase::TailScan { found, streams } => Step::Done(
                        finalize_leftovers(found, streams),
                    ),
                    _ => Step::Done(Err(OggMetadataError::from(err))),
                };
            },
        };
        match self.phase {
            ReadPhase::FirstPacket => first_packet(packet),
            ReadPhase::LastPacket { stream } => scanned_packet(stream, packet),
            ReadPhase::Collect { skeleton_serial, found, streams } => collected_packet(
                skeleton_serial,
                found,
                streams,
                packet,
            ),
            ReadPhase::TailScan { found, streams } => tail_packet(found, streams, packet),
        }
    }
}

impl Seeking {
    /// The source is never sent back further than the window is wide.
    #[verifier::type_invariant]
    spec fn within_window(self) -> bool {
        self.stage matches SeekStage::Rewind { back } ==> back <= crate::model::window(
            self.goal.view(),
        )
    }

    /// How many bytes before the end of the file the source is to seek.
    pub fn bytes_before_end(&self) -> (back: u64)
        ensures
            back == seek_distance(self@),
            back <= MULTI_STREAM_WINDOW,
    {
        proof {
            use_type_invariant(self);
        }
        match self.stage {
            SeekStage::FindEnd => 0,
            SeekStage::Rewind { back } => back,
        }
    }

    /// Moves on with the outcome of the seek: the position that the source
    /// came to, counted from the start of the file.
    ///
    /// A failure of the source ends the resolution of a single stream with
    /// `ReadError`; in a multiplexed file the recorded streams are then
    /// listed without a length.
    pub fn sought(self, answer: Result<u64, std::io::Error>) -> (next: Step)
        ensures
            next.models(after_seek(self@, answer)),
    {
        let position: u64 = match answer {
            Ok(position) => position,
            Err(err) => {
                return match self.goal {
                    SeekGoal::Single { .. } => Step::Done(Err(OggMetadataError::from(err))),
                    SeekGoal::Multi { found, streams } => Step::Done(
                        finalize_leftovers(found, streams),
                    ),
                };
            },
        };
        match self.stage {
            SeekStage::FindEnd => {
                let offs: u64 = match self.goal {
                    SeekGoal::Single { .. } => SINGLE_STREAM_WINDOW,
                    SeekGoal::Multi { .. } => MULTI_STREAM_WINDOW,
                };
                let back: u64 = if position <= offs {
                    position
                } else {
                    offs
                };
                Step::Seek(Seeking { goal: self.goal, stage: SeekStage::Rewind { back } })
            },
            SeekStage::Rewind { .. } => match self.goal {
                SeekGoal::Single { stream } => Step::Read(
                    Reading { phase: ReadPhase::LastPacket { stream } },
                ),
                SeekGoal::Multi { found, streams } => scan_tail(found, streams),
            },
        }
    }
}

} // verus!
