//! What holds of every resolution, proved of the model that the resolver
//! follows step by step.

use vstd::prelude::*;
use ogg::OggReadError;
use crate::error::{OggMetadataError, Outcome};
use crate::format::{format_of, opus_length, OggFormat};
use crate::magic::{has_magic, lemma_identified_iff_magic, needs_length, BareOggFormat};
use crate::model::{
    after_packet, after_seek, ending_of, ends_in, ends_plainly, is_listing, listed_in_order,
    read_all, seek_distance, tail_scan, window, Ending, GoalView, ReadingView, SeekStage,
    SeekingView, StepView, Streams, MULTI_STREAM_WINDOW, SINGLE_STREAM_WINDOW,
};
use crate::opus;
use crate::stream::{finalized, stream_of, PacketView, StreamView};
use crate::vorbis;
use vstd::std_specs::convert::FromSpec;

verus! {

/// The answers of a source that reads `packets` one after the other
/// without a failure.
pub open spec fn delivered(packets: Seq<PacketView>) -> Seq<Result<PacketView, OggReadError>> {
    packets.map_values(|packet: PacketView| Ok::<PacketView, OggReadError>(packet))
}

/// A resolution that does not wait for a packet looks at no answer.
pub proof fn lemma_read_all_stops(step: StepView, answers: Seq<Result<PacketView, OggReadError>>)
    requires
        !(step is Read),
    ensures
        read_all(step, answers) == step,
{
}

/// Answers taken one run after the other lead where the runs lead in
/// turn.
pub proof fn lemma_read_all_concat(
    step: StepView,
    first: Seq<Result<PacketView, OggReadError>>,
    then: Seq<Result<PacketView, OggReadError>>,
)
    ensures
        read_all(step, first + then) == read_all(read_all(step, first), then),
    decreases first.len(),
{
    if first.len() == 0 {
        assert(first + then =~= then);
    } else {
        match step {
            StepView::Read(state) => {
                assert((first + then).drop_first() =~= first.drop_first() + then);
                assert((first + then)[0] == first[0]);
                lemma_read_all_concat(after_packet(state, first[0]), first.drop_first(), then);
            },
            _ => {
                lemma_read_all_stops(step, then);
            },
        }
    }
}

/// The source is sent to the start of the window before the end of the
/// file: as many bytes before the end as the window is wide, or to the
/// start of a file that is shorter than the window.
pub proof fn lemma_seek_goes_to_window_start(goal: GoalView, end: u64)
    ensures
        after_seek(SeekingView { goal, stage: SeekStage::FindEnd }, Ok(end)) is Seek,
        after_seek(SeekingView { goal, stage: SeekStage::FindEnd }, Ok(end))->Seek_0.goal == goal,
        end - seek_distance(after_seek(SeekingView { goal, stage: SeekStage::FindEnd }, Ok(end))->Seek_0)
            == if end >= window(goal) {
            end - window(goal)
        } else {
            0
        },
{
}

/// A length, where the metadata holds one, stems from the granule position
/// of the stream's last packet: it is that position for Vorbis, that
/// position less the pre-skip for Opus where the position reaches the
/// pre-skip, and absent where no last packet was found.
pub proof fn lemma_length_stems_from_last_packet(
    payload: Seq<u8>,
    bare_format: BareOggFormat,
    last_packet_absgp: Option<u64>,
)
    ensures
        format_of(payload, bare_format, last_packet_absgp) matches Outcome::Value(
            OggFormat::Vorbis(metadata),
        ) ==> metadata.length_in_samples == last_packet_absgp,
        format_of(payload, bare_format, last_packet_absgp) matches Outcome::Value(
            OggFormat::Opus(metadata),
        ) ==> metadata.length_in_48khz_samples == opus_length(
            last_packet_absgp,
            opus::ident_header(payload)->Value_0.pre_skip,
        ),
        last_packet_absgp is None ==> match format_of(payload, bare_format, last_packet_absgp) {
            Outcome::Value(OggFormat::Vorbis(metadata)) => metadata.length_in_samples is None,
            Outcome::Value(OggFormat::Opus(metadata)) => metadata.length_in_48khz_samples is None,
            _ => true,
        },
{
}

/// The search for the last packet of a single stream ends at the first
/// packet that is flagged as the last of its stream, with the metadata
/// that this packet's granule position gives.
pub proof fn lemma_last_packet_found(stream: StreamView, packets: Seq<PacketView>, last: int)
    requires
        0 <= last < packets.len(),
        packets[last].last_packet,
        forall|i: int| 0 <= i < last ==> !(#[trigger] packets[i]).last_packet,
    ensures
        read_all(StepView::Read(ReadingView::LastPacket { stream }), delivered(packets))
            == StepView::Done(
            ending_of(Seq::empty(), finalized(stream, Some(packets[last].absgp_page))),
        ),
    decreases packets.len(),
{
    let state = ReadingView::LastPacket { stream };
    let answers = delivered(packets);
    assert(answers.drop_first() =~= delivered(packets.drop_first()));
    if last == 0 {
        lemma_read_all_stops(after_packet(state, answers[0]), answers.drop_first());
    } else {
        assert(!packets[0].last_packet);
        assert forall|i: int| 0 <= i < last - 1 implies !(#[trigger] packets.drop_first()[i]).last_packet by {
            assert(!packets[i + 1].last_packet);
        }
        lemma_last_packet_found(stream, packets.drop_first(), last - 1);
    }
}

/// Where the source fails before a packet flagged as the last of its
/// stream has come, the resolution of a single stream fails with the
/// source's error: it never ends with a length.
pub proof fn lemma_last_packet_missed(stream: StreamView, packets: Seq<PacketView>, err: OggReadError)
    requires
        forall|i: int| 0 <= i < packets.len() ==> !(#[trigger] packets[i]).last_packet,
    ensures
        read_all(
            StepView::Read(ReadingView::LastPacket { stream }),
            delivered(packets).push(Err(err)),
        ) == StepView::Done(Ending::Failed(OggMetadataError::from_spec(err))),
    decreases packets.len(),
{
    let state = ReadingView::LastPacket { stream };
    let answers = delivered(packets).push(Err(err));
    if packets.len() == 0 {
        lemma_read_all_stops(after_packet(state, answers[0]), answers.drop_first());
    } else {
        assert(!packets[0].last_packet);
        assert(answers.drop_first() =~= delivered(packets.drop_first()).push(Err(err)));
        assert forall|i: int| 0 <= i < packets.drop_first().len() implies !(
        #[trigger] packets.drop_first()[i]).last_packet by {
            assert(!packets[i + 1].last_packet);
        }
        lemma_last_packet_missed(stream, packets.drop_first(), err);
    }
}

/// A file whose first packet opens with no known magic is resolved at
/// once, without a seek and without an error, as one unknown stream.
pub proof fn lemma_unknown_first_packet(packet: PacketView)
    requires
        forall|format: BareOggFormat| !has_magic(packet.data, format),
    ensures
        after_packet(ReadingView::FirstPacket, Ok(packet)) == StepView::Done(
            Ending::Listed(seq![OggFormat::Unknown]),
        ),
{
    lemma_identified_iff_magic(packet.data);
}

/// A file with a single Vorbis or Opus stream is resolved in three moves:
/// the end of the file is located, the source is sent to the start of the
/// window before it, and the packets from there on are read up to the
/// first one that is the last of its stream. The result is the one entry
/// that the stream's identification header and that packet's granule
/// position give.
pub proof fn lemma_single_stream_resolution(
    packet: PacketView,
    end: u64,
    position: u64,
    packets: Seq<PacketView>,
    last: int,
)
    requires
        stream_of(packet.data) is Some,
        needs_length(stream_of(packet.data)->0.format),
        0 <= last < packets.len(),
        packets[last].last_packet,
        forall|i: int| 0 <= i < last ==> !(#[trigger] packets[i]).last_packet,
    ensures
        ({
            let stream = stream_of(packet.data)->0;
            let find_end = after_packet(ReadingView::FirstPacket, Ok(packet));
            let rewind = after_seek(find_end->Seek_0, Ok(end));
            let scan = after_seek(rewind->Seek_0, Ok(position));
            &&& find_end is Seek && seek_distance(find_end->Seek_0) == 0
            &&& rewind is Seek && seek_distance(rewind->Seek_0) == if end
                <= SINGLE_STREAM_WINDOW {
                end
            } else {
                SINGLE_STREAM_WINDOW
            }
            &&& read_all(scan, delivered(packets)) == StepView::Done(
                ending_of(Seq::empty(), finalized(stream, Some(packets[last].absgp_page))),
            )
        }),
{
    lemma_last_packet_found(stream_of(packet.data)->0, packets, last);
}

/// Whether `packet` is the last packet of the stream `serial`.
pub open spec fn is_end_of(packet: PacketView, serial: u32) -> bool {
    packet.last_packet && packet.stream_serial == serial
}

/// Whether the last packet of the stream `serial` is among `packets`.
pub open spec fn ends_stream(packets: Seq<PacketView>, serial: u32) -> bool {
    exists|i: int| 0 <= i < packets.len() && is_end_of(#[trigger] packets[i], serial)
}

/// The granule position of the first packet among `packets` that is the
/// last packet of the stream `serial`.
pub open spec fn end_of_stream(packets: Seq<PacketView>, serial: u32) -> u64
    decreases packets.len(),
{
    if packets.len() == 0 {
        0
    } else if is_end_of(packets[0], serial) {
        packets[0].absgp_page
    } else {
        end_of_stream(packets.drop_first(), serial)
    }
}

/// The recorded streams whose last packet is among `packets`.
pub open spec fn ended(streams: Streams, packets: Seq<PacketView>) -> Set<u32> {
    Set::new(|serial: u32| streams.contains_key(serial) && ends_stream(packets, serial))
}

/// The metadata of the recorded stream `serial`, with the length that its
/// last packet among `packets` gives.
pub open spec fn resolved(streams: Streams, packets: Seq<PacketView>, serial: u32) -> Outcome<
    OggFormat,
> {
    finalized(streams[serial], Some(end_of_stream(packets, serial)))
}

/// Whether every recorded stream that ends among `packets` can be listed:
/// it is no Skeleton stream, and its identification header can be read.
pub open spec fn resolvable(streams: Streams, packets: Seq<PacketView>) -> bool {
    forall|serial: u32| #[trigger]
        ended(streams, packets).contains(serial) ==> streams[serial].format
            != BareOggFormat::Skeleton && resolved(streams, packets, serial) is Value
}

/// Whether `formats` lists `found` and behind it one entry for each
/// recorded stream that ends among `packets`, with the length that the
/// stream's last packet gives.
pub open spec fn lists_ended(
    formats: Seq<OggFormat>,
    found: Seq<OggFormat>,
    streams: Streams,
    packets: Seq<PacketView>,
) -> bool {
    &&& formats.len() == found.len() + ended(streams, packets).len()
    &&& formats.take(found.len() as int) == found
    &&& forall|serial: u32| #[trigger]
        ended(streams, packets).contains(serial) ==> exists|i: int|
            found.len() <= i < formats.len() && Outcome::Value(#[trigger] formats[i]) == resolved(
                streams,
                packets,
                serial,
            )
}

/// Whether `step` is where the search for the last packets of `streams`
/// stands after `packets`: the streams that ended among them are listed
/// behind `found`; the search is over where every stream ended, and goes
/// on for the others where not.
pub open spec fn scanned(
    step: StepView,
    found: Seq<OggFormat>,
    streams: Streams,
    packets: Seq<PacketView>,
) -> bool {
    let open = streams.remove_keys(ended(streams, packets));
    match step {
        StepView::Done(Ending::Listed(formats)) => open.is_empty() && lists_ended(
            formats,
            found,
            streams,
            packets,
        ),
        StepView::Read(ReadingView::TailScan { found: formats, streams: unresolved }) => unresolved
            == open && !open.is_empty() && lists_ended(formats, found, streams, packets),
        _ => false,
    }
}

proof fn lemma_ended_is_finite(streams: Streams, packets: Seq<PacketView>)
    requires
        streams.dom().finite(),
    ensures
        ended(streams, packets).finite(),
        ended(streams, packets).len() <= streams.dom().len(),
{
    vstd::set_lib::lemma_len_subset(ended(streams, packets), streams.dom());
}

/// A packet that ends no recorded stream changes nothing of what the
/// packets behind it end.
proof fn lemma_skip_packet(streams: Streams, packets: Seq<PacketView>)
    requires
        packets.len() > 0,
        !(packets[0].last_packet && streams.contains_key(packets[0].stream_serial)),
    ensures
        ended(streams, packets.drop_first()) == ended(streams, packets),
        forall|serial: u32|
            streams.contains_key(serial) ==> #[trigger] end_of_stream(packets, serial)
                == end_of_stream(packets.drop_first(), serial),
{
    let rest = packets.drop_first();
    assert forall|serial: u32|
        ended(streams, rest).contains(serial) <==> ended(streams, packets).contains(serial) by {
        if ended(streams, rest).contains(serial) {
            let i = choose|i: int| 0 <= i < rest.len() && is_end_of(#[trigger] rest[i], serial);
            assert(is_end_of(packets[i + 1], serial));
        }
        if ended(streams, packets).contains(serial) {
            let i = choose|i: int|
                0 <= i < packets.len() && is_end_of(#[trigger] packets[i], serial);
            assert(i != 0);
            assert(is_end_of(rest[i - 1], serial));
        }
    }
    assert(ended(streams, rest) =~= ended(streams, packets));
}

/// A packet that ends the recorded stream `packets[0].stream_serial`
/// leaves to the packets behind it the ends of the other streams.
proof fn lemma_take_packet(streams: Streams, packets: Seq<PacketView>)
    requires
        packets.len() > 0,
        packets[0].last_packet,
        streams.contains_key(packets[0].stream_serial),
    ensures
        ended(streams, packets) == ended(
            streams.remove(packets[0].stream_serial),
            packets.drop_first(),
        ).insert(packets[0].stream_serial),
        !ended(streams.remove(packets[0].stream_serial), packets.drop_first()).contains(
            packets[0].stream_serial,
        ),
        end_of_stream(packets, packets[0].stream_serial) == packets[0].absgp_page,
        forall|serial: u32|
            serial != packets[0].stream_serial ==> #[trigger] end_of_stream(packets, serial)
                == end_of_stream(packets.drop_first(), serial),
{
    let rest = packets.drop_first();
    let first = packets[0].stream_serial;
    let others = streams.remove(first);
    assert(is_end_of(packets[0], first));
    assert forall|serial: u32|
        ended(streams, packets).contains(serial) <==> ended(others, rest).insert(first).contains(
            serial,
        ) by {
        if ended(others, rest).contains(serial) {
            let i = choose|i: int| 0 <= i < rest.len() && is_end_of(#[trigger] rest[i], serial);
            assert(is_end_of(packets[i + 1], serial));
        }
        if ended(streams, packets).contains(serial) && serial != first {
            let i = choose|i: int|
                0 <= i < packets.len() && is_end_of(#[trigger] packets[i], serial);
            assert(i != 0);
            assert(is_end_of(rest[i - 1], serial));
        }
    }
    assert(ended(streams, packets) =~= ended(others, rest).insert(first));
}

/// The search for the last packets of the recorded streams lists every
/// stream whose last packet it meets, with the length that this packet
/// gives, and is over as soon as every recorded stream has ended.
pub proof fn lemma_tail_scan_lists_ended_streams(
    found: Seq<OggFormat>,
    streams: Streams,
    packets: Seq<PacketView>,
)
    requires
        streams.dom().finite(),
        resolvable(streams, packets),
    ensures
        scanned(read_all(tail_scan(found, streams), delivered(packets)), found, streams, packets),
    decreases packets.len(),
{
    let answers = delivered(packets);
    let step = read_all(tail_scan(found, streams), answers);
    lemma_ended_is_finite(streams, packets);
    if streams.is_empty() {
        lemma_read_all_stops(tail_scan(found, streams), answers);
        assert(ended(streams, packets) =~= Set::<u32>::empty());
        assert(streams.remove_keys(ended(streams, packets)) =~= streams);
        assert(found.take(found.len() as int) =~= found);
    } else if packets.len() == 0 {
        assert(ended(streams, packets) =~= Set::<u32>::empty());
        assert(streams.remove_keys(ended(streams, packets)) =~= streams);
        assert(found.take(found.len() as int) =~= found);
    } else {
        let packet = packets[0];
        let rest = packets.drop_first();
        let state = ReadingView::TailScan { found, streams };
        assert(answers.drop_first() =~= delivered(rest));
        assert(answers[0] == Ok::<PacketView, OggReadError>(packet));
        assert(step == read_all(after_packet(state, answers[0]), delivered(rest)));
        if !(packet.last_packet && streams.contains_key(packet.stream_serial)) {
            lemma_skip_packet(streams, packets);
            assert(after_packet(state, answers[0]) == tail_scan(found, streams));
            assert(resolvable(streams, rest)) by {
                assert forall|serial: u32| #[trigger]
                    ended(streams, rest).contains(serial) implies streams[serial].format
                    != BareOggFormat::Skeleton && resolved(streams, rest, serial) is Value by {
                    assert(ended(streams, packets).contains(serial));
                    assert(resolved(streams, rest, serial) == resolved(streams, packets, serial));
                }
            }
            lemma_tail_scan_lists_ended_streams(found, streams, rest);
            match step {
                StepView::Done(Ending::Listed(formats)) => {
                    lemma_lists_ended_carries_over(formats, found, found, streams, streams, packets);
                },
                StepView::Read(ReadingView::TailScan { found: formats, streams: unresolved }) => {
                    lemma_lists_ended_carries_over(formats, found, found, streams, streams, packets);
                },
                _ => {},
            }
        } else {
            let first = packet.stream_serial;
            let others = streams.remove(first);
            lemma_take_packet(streams, packets);
            assert(ended(streams, packets).contains(first));
            let format = resolved(streams, packets, first)->Value_0;
            assert(after_packet(state, answers[0]) == tail_scan(found.push(format), others));
            assert(resolvable(others, rest)) by {
                assert forall|serial: u32| #[trigger]
                    ended(others, rest).contains(serial) implies others[serial].format
                    != BareOggFormat::Skeleton && resolved(others, rest, serial) is Value by {
                    assert(ended(streams, packets).contains(serial));
                    assert(resolved(others, rest, serial) == resolved(streams, packets, serial));
                }
            }
            lemma_ended_is_finite(others, rest);
            lemma_tail_scan_lists_ended_streams(found.push(format), others, rest);
            assert(others.remove_keys(ended(others, rest)) =~= streams.remove_keys(
                ended(streams, packets),
            ));
            match step {
                StepView::Done(Ending::Listed(formats)) => {
                    lemma_lists_ended_carries_over(
                        formats,
                        found.push(format),
                        found,
                        others,
                        streams,
                        packets,
                    );
                },
                StepView::Read(ReadingView::TailScan { found: formats, streams: unresolved }) => {
                    lemma_lists_ended_carries_over(
                        formats,
                        found.push(format),
                        found,
                        others,
                        streams,
                        packets,
                    );
                },
                _ => {},
            }
        }
    }
}

/// What is listed of the packets behind the first one is what is listed
/// of them all, where the first packet's own stream, if it ended one, is
/// the last entry of `before`.
proof fn lemma_lists_ended_carries_over(
    formats: Seq<OggFormat>,
    before: Seq<OggFormat>,
    found: Seq<OggFormat>,
    others: Streams,
    streams: Streams,
    packets: Seq<PacketView>,
)
    requires
        packets.len() > 0,
        streams.dom().finite(),
        lists_ended(formats, before, others, packets.drop_first()),
        ({
            ||| {
                &&& before == found
                &&& others == streams
                &&& !(packets[0].last_packet && streams.contains_key(packets[0].stream_serial))
            }
            ||| {
                &&& packets[0].last_packet
                &&& streams.contains_key(packets[0].stream_serial)
                &&& others == streams.remove(packets[0].stream_serial)
                &&& resolved(streams, packets, packets[0].stream_serial) is Value
                &&& before == found.push(
                    resolved(streams, packets, packets[0].stream_serial)->Value_0,
                )
            }
        }),
    ensures
        lists_ended(formats, found, streams, packets),
{
    let rest = packets.drop_first();
    lemma_ended_is_finite(others, rest);
    if before == found && others == streams && !(packets[0].last_packet && streams.contains_key(
        packets[0].stream_serial,
    )) {
        lemma_skip_packet(streams, packets);
        assert forall|serial: u32| #[trigger]
            ended(streams, packets).contains(serial) implies exists|i: int|
            found.len() <= i < formats.len() && Outcome::Value(#[trigger] formats[i]) == resolved(
                streams,
                packets,
                serial,
            ) by {
            assert(ended(others, rest).contains(serial));
            assert(resolved(others, rest, serial) == resolved(streams, packets, serial));
        }
    } else {
        let first = packets[0].stream_serial;
        lemma_take_packet(streams, packets);
        assert(formats.take(found.len() as int) =~= before.take(found.len() as int)) by {
            assert(formats.take(before.len() as int) == before);
            assert(formats.take(found.len() as int) =~= formats.take(before.len() as int).take(
                found.len() as int,
            ));
        }
        assert(before.take(found.len() as int) =~= found);
        assert(formats[found.len() as int] == before[found.len() as int]) by {
            assert(formats.take(before.len() as int)[found.len() as int] == formats[found.len() as int]);
        }
        assert forall|serial: u32| #[trigger]
            ended(streams, packets).contains(serial) implies exists|i: int|
            found.len() <= i < formats.len() && Outcome::Value(#[trigger] formats[i]) == resolved(
                streams,
                packets,
                serial,
            ) by {
            if serial == first {
                assert(Outcome::Value(formats[found.len() as int]) == resolved(
                    streams,
                    packets,
                    serial,
                ));
            } else {
                assert(ended(others, rest).contains(serial));
                assert(resolved(others, rest, serial) == resolved(streams, packets, serial));
                let i = choose|i: int|
                    before.len() <= i < formats.len() && Outcome::Value(#[trigger] formats[i])
                        == resolved(others, rest, serial);
                assert(found.len() <= i < formats.len() && Outcome::Value(formats[i]) == resolved(
                    streams,
                    packets,
                    serial,
                ));
            }
        }
    }
}

/// Where the Skeleton stream has ended and every recorded stream ends
/// behind the seek to the window before the end of the file, the
/// resolution lists `found` and one entry for each recorded stream, with
/// the length that the stream's last packet gives.
pub proof fn lemma_streams_within_window_are_listed(
    skeleton_end: PacketView,
    found: Seq<OggFormat>,
    streams: Streams,
    end: u64,
    position: u64,
    packets: Seq<PacketView>,
)
    requires
        skeleton_end.last_packet,
        streams.dom().finite(),
        resolvable(streams, packets),
        forall|serial: u32| streams.contains_key(serial) ==> ends_stream(packets, serial),
    ensures
        ({
            let collect = ReadingView::Collect {
                skeleton_serial: skeleton_end.stream_serial,
                found,
                streams,
            };
            let find_end = after_packet(collect, Ok(skeleton_end));
            let rewind = after_seek(find_end->Seek_0, Ok(end));
            let scan = after_seek(rewind->Seek_0, Ok(position));
            let step = read_all(scan, delivered(packets));
            &&& find_end is Seek && seek_distance(find_end->Seek_0) == 0
            &&& rewind is Seek && seek_distance(rewind->Seek_0) == if end
                <= MULTI_STREAM_WINDOW {
                end
            } else {
                MULTI_STREAM_WINDOW
            }
            &&& step is Done && step->Done_0 is Listed
            &&& step->Done_0->Listed_0.len() == found.len() + streams.dom().len()
            &&& lists_ended(step->Done_0->Listed_0, found, streams, packets)
        }),
{
    lemma_tail_scan_lists_ended_streams(found, streams, packets);
    assert(ended(streams, packets) =~= streams.dom());
    assert(streams.remove_keys(ended(streams, packets)) =~= Map::<u32, StreamView>::empty());
}

/// Where the source fails in the search for the last packets of the
/// recorded streams, the resolution does not fail: the streams that ended
/// before the failure are listed with their lengths, and the others are
/// left to be listed without one.
pub proof fn lemma_streams_beyond_window_are_kept(
    found: Seq<OggFormat>,
    streams: Streams,
    packets: Seq<PacketView>,
    err: OggReadError,
)
    requires
        streams.dom().finite(),
        resolvable(streams, packets),
    ensures
        match read_all(tail_scan(found, streams), delivered(packets).push(Err(err))) {
            StepView::Done(Ending::Listed(formats)) => {
                &&& forall|serial: u32| streams.contains_key(serial) ==> ends_stream(packets, serial)
                &&& lists_ended(formats, found, streams, packets)
            },
            StepView::Done(Ending::Partial { found: formats, unresolved }) => {
                &&& unresolved == streams.remove_keys(ended(streams, packets))
                &&& lists_ended(formats, found, streams, packets)
            },
            _ => false,
        },
{
    let failure = seq![Err::<PacketView, OggReadError>(err)];
    let step = read_all(tail_scan(found, streams), delivered(packets));
    lemma_tail_scan_lists_ended_streams(found, streams, packets);
    assert(delivered(packets).push(Err(err)) =~= delivered(packets) + failure);
    lemma_read_all_concat(tail_scan(found, streams), delivered(packets), failure);
    match step {
        StepView::Read(state) => {
            lemma_read_all_stops(after_packet(state, failure[0]), failure.drop_first());
        },
        _ => {
            lemma_read_all_stops(step, failure);
            assert forall|serial: u32| streams.contains_key(serial) implies ends_stream(
                packets,
                serial,
            ) by {
                if !ends_stream(packets, serial) {
                    assert(streams.remove_keys(ended(streams, packets)).contains_key(serial));
                }
            }
        },
    }
}

/// What a listing of `order` holds: every stream of `order` behind
/// `found`, in that order and without a length; it fails only where the
/// identification header of one of them cannot be read.
proof fn lemma_listed_in_order(found: Seq<OggFormat>, unresolved: Streams, order: Seq<u32>)
    ensures
        match listed_in_order(found, unresolved, order) {
            Ending::Listed(formats) => {
                &&& formats.len() == found.len() + order.len()
                &&& formats.take(found.len() as int) == found
                &&& forall|j: int|
                    0 <= j < order.len() ==> Outcome::Value(#[trigger] formats[found.len() + j])
                        == finalized(unresolved[order[j]], None)
            },
            Ending::Failed(err) => err is UnrecognizedFormat && exists|j: int|
                0 <= j < order.len() && !(finalized(unresolved[#[trigger] order[j]], None) is Value),
            Ending::Truncated => exists|j: int|
                0 <= j < order.len() && !(finalized(unresolved[#[trigger] order[j]], None) is Value),
            Ending::Partial { .. } => false,
        },
    decreases order.len(),
{
    if order.len() == 0 {
        assert(found.take(found.len() as int) =~= found);
    } else {
        match finalized(unresolved[order[0]], None) {
            Outcome::Value(format) => {
                let rest = order.drop_first();
                lemma_listed_in_order(found.push(format), unresolved, rest);
                match listed_in_order(found.push(format), unresolved, rest) {
                    Ending::Listed(formats) => {
                        assert(formats.take(found.len() as int) =~= formats.take(
                            found.len() as int + 1,
                        ).take(found.len() as int));
                        assert(found.push(format).take(found.len() as int) =~= found);
                        assert(formats.take(found.len() as int + 1)[found.len() as int]
                            == formats[found.len() as int]);
                        assert forall|j: int| 0 <= j < order.len() implies Outcome::Value(
                            #[trigger] formats[found.len() + j],
                        ) == finalized(unresolved[order[j]], None) by {
                            if j > 0 {
                                assert(rest[j - 1] == order[j]);
                                assert(formats[found.len() + 1 + (j - 1)] == formats[found.len()
                                    + j]);
                            }
                        }
                    },
                    Ending::Failed(err) => {
                        let j = choose|j: int|
                            0 <= j < rest.len() && !(finalized(unresolved[#[trigger] rest[j]], None)
                                is Value);
                        assert(order[j + 1] == rest[j]);
                    },
                    Ending::Truncated => {
                        let j = choose|j: int|
                            0 <= j < rest.len() && !(finalized(unresolved[#[trigger] rest[j]], None)
                                is Value);
                        assert(order[j + 1] == rest[j]);
                    },
                    Ending::Partial { .. } => {},
                }
            },
            _ => {
                assert(!(finalized(unresolved[order[0]], None) is Value));
            },
        }
    }
}

/// A resolution whose search for the last packets was cut short lists
/// behind `found` every stream that was left open, each once and without
/// a length. It fails only where the identification header of one of them
/// cannot be read.
pub proof fn lemma_open_streams_are_listed_without_length(
    result: Result<Seq<OggFormat>, OggMetadataError>,
    found: Seq<OggFormat>,
    unresolved: Streams,
)
    requires
        unresolved.dom().finite(),
        ends_in(result, Ending::Partial { found, unresolved }),
    ensures
        (forall|serial: u32|
            unresolved.contains_key(serial) ==> #[trigger] finalized(unresolved[serial], None)
                is Value) ==> result is Ok,
        result matches Ok(formats) ==> {
            &&& formats.len() == found.len() + unresolved.dom().len()
            &&& formats.take(found.len() as int) == found
            &&& forall|serial: u32| #[trigger]
                unresolved.contains_key(serial) ==> exists|i: int|
                    found.len() <= i < formats.len() && Outcome::Value(#[trigger] formats[i])
                        == finalized(unresolved[serial], None)
        },
{
    let order = choose|order: Seq<u32>|
        is_listing(order, unresolved) && ends_plainly(
            result,
            #[trigger] listed_in_order(found, unresolved, order),
        );
    lemma_listed_in_order(found, unresolved, order);
    order.unique_seq_to_set();
    match listed_in_order(found, unresolved, order) {
        Ending::Listed(formats) => {
            assert forall|serial: u32| #[trigger] unresolved.contains_key(serial) implies exists|
                i: int,
            |
                found.len() <= i < formats.len() && Outcome::Value(#[trigger] formats[i])
                    == finalized(unresolved[serial], None) by {
                assert(order.to_set().contains(serial));
                let j = choose|j: int| 0 <= j < order.len() && order[j] == serial;
                assert(Outcome::Value(formats[found.len() + j]) == finalized(
                    unresolved[order[j]],
                    None,
                ));
            }
        },
        Ending::Failed(err) => {
            let j = choose|j: int|
                0 <= j < order.len() && !(finalized(unresolved[#[trigger] order[j]], None)
                    is Value);
            assert(order.to_set().contains(order[j]));
            assert(unresolved.contains_key(order[j]));
        },
        Ending::Truncated => {
            let j = choose|j: int|
                0 <= j < order.len() && !(finalized(unresolved[#[trigger] order[j]], None)
                    is Value);
            assert(order.to_set().contains(order[j]));
            assert(unresolved.contains_key(order[j]));
        },
        Ending::Partial { .. } => {},
    }
}

/// A Skeleton stream inside a Skeleton file is invalid: where the search
/// for the last packets meets the last packet of a recorded stream that
/// is itself a Skeleton stream, the resolution fails with
/// `UnrecognizedFormat`.
pub proof fn lemma_nested_skeleton_is_rejected(
    found: Seq<OggFormat>,
    streams: Streams,
    packets: Seq<PacketView>,
    at: int,
)
    requires
        streams.dom().finite(),
        0 <= at < packets.len(),
        packets[at].last_packet,
        streams.contains_key(packets[at].stream_serial),
        streams[packets[at].stream_serial].format == BareOggFormat::Skeleton,
        !ends_stream(packets.take(at), packets[at].stream_serial),
        resolvable(streams, packets.take(at)),
    ensures
        read_all(tail_scan(found, streams), delivered(packets)) == StepView::Done(
            Ending::Failed(OggMetadataError::UnrecognizedFormat),
        ),
{
    let before = packets.take(at);
    let behind = packets.skip(at);
    let nested = packets[at].stream_serial;
    let step = read_all(tail_scan(found, streams), delivered(before));
    lemma_tail_scan_lists_ended_streams(found, streams, before);
    assert(delivered(packets) =~= delivered(before) + delivered(behind));
    lemma_read_all_concat(tail_scan(found, streams), delivered(before), delivered(behind));
    assert(streams.remove_keys(ended(streams, before)).contains_key(nested));
    match step {
        StepView::Read(state) => {
            assert(delivered(behind)[0] == Ok::<PacketView, OggReadError>(packets[at]));
            lemma_read_all_stops(
                after_packet(state, delivered(behind)[0]),
                delivered(behind).drop_first(),
            );
        },
        _ => {},
    }
}

} // verus!
