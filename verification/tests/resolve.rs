use ogg::OggReadError;
use ogg_metadata::resolve::{Reading, Seeking, Step};
use ogg_metadata::stream::Packet;
use ogg_metadata::{OggFormat, OggMetadataError, OpusMetadata, TheoraMetadata, VorbisMetadata};
use std::io::{Error, ErrorKind};

const VORBIS: &[u8] = b"\x01vorbis\0\0\0\0\x02\x44\xac\0\0";
const VORBIS_BAD_VERSION: &[u8] = b"\x01vorbis\x01\0\0\0\x02\x44\xac\0\0";
const OPUS: &[u8] = b"OpusHead\x01\x02\x38\x01";
const THEORA: &[u8] = b"\x80theora\x03\x02\x01\0\x14\0\x0f\0\x01\x40\0\0\xf0";
const SPEEX: &[u8] = b"Speex   1.2";
const SKELETON: &[u8] = b"fishead\0\x04\0\0\0";

fn vorbis(length: Option<u64>) -> OggFormat {
    OggFormat::Vorbis(VorbisMetadata { channels: 2, sample_rate: 44100, length_in_samples: length })
}

fn opus(length: Option<u64>) -> OggFormat {
    OggFormat::Opus(OpusMetadata { output_channels: 2, length_in_48khz_samples: length })
}

fn first(data: &[u8], serial: u32) -> Result<Packet, OggReadError> {
    Ok(Packet {
        data: data.to_vec(),
        first_packet: true,
        last_packet: false,
        absgp_page: 0,
        stream_serial: serial,
    })
}

fn middle(serial: u32, absgp: u64) -> Result<Packet, OggReadError> {
    Ok(Packet {
        data: vec![0; 40],
        first_packet: false,
        last_packet: false,
        absgp_page: absgp,
        stream_serial: serial,
    })
}

fn last(serial: u32, absgp: u64) -> Result<Packet, OggReadError> {
    Ok(Packet {
        data: vec![0; 40],
        first_packet: false,
        last_packet: true,
        absgp_page: absgp,
        stream_serial: serial,
    })
}

fn end_of_file() -> Result<Packet, OggReadError> {
    Err(OggReadError::ReadError(Error::new(ErrorKind::UnexpectedEof, "end")))
}

fn reading(step: Step) -> Reading {
    match step {
        Step::Read(state) => state,
        Step::Seek(_) => panic!("a seek is asked for where a read was expected"),
        Step::Done(_) => panic!("the resolution is over where a read was expected"),
    }
}

fn seeking(step: Step) -> Seeking {
    match step {
        Step::Seek(state) => state,
        Step::Read(_) => panic!("a read is asked for where a seek was expected"),
        Step::Done(_) => panic!("the resolution is over where a seek was expected"),
    }
}

fn done(step: Step) -> Result<Vec<OggFormat>, OggMetadataError> {
    match step {
        Step::Done(result) => result,
        Step::Read(_) => panic!("a read is asked for where the end was expected"),
        Step::Seek(_) => panic!("a seek is asked for where the end was expected"),
    }
}

/// Answers the two seeks for a file of `file_len` bytes and checks that
/// the second one goes `back` bytes before the end.
fn seek_back(step: Step, file_len: u64, back: u64) -> Step {
    let find_end = seeking(step);
    assert_eq!(find_end.bytes_before_end(), 0);
    let rewind = seeking(find_end.sought(Ok(file_len)));
    assert_eq!(rewind.bytes_before_end(), back);
    rewind.sought(Ok(file_len - back))
}

/// Reads the streams that a Skeleton file announces.
fn collect(announced: Vec<Result<Packet, OggReadError>>) -> Step {
    let mut state = reading(Reading::new().packet(first(SKELETON, 1)));
    for packet in announced {
        state = reading(state.packet(packet));
    }
    state.packet(last(1, 0))
}

#[test]
fn unknown_magic_gives_one_unknown_entry() {
    let step = Reading::new().packet(first(b"fLaC\0\0\0\x22", 7));
    assert_eq!(done(step).unwrap(), vec![OggFormat::Unknown]);
}

#[test]
fn empty_first_packet_is_unknown() {
    let step = Reading::new().packet(first(b"", 7));
    assert_eq!(done(step).unwrap(), vec![OggFormat::Unknown]);
}

#[test]
fn failing_first_read_is_fatal() {
    let step = Reading::new().packet(end_of_file());
    assert!(matches!(done(step), Err(OggMetadataError::ReadError(_))));
    let step = Reading::new().packet(Err(OggReadError::NoCapturePatternFound));
    assert!(matches!(done(step), Err(OggMetadataError::UnrecognizedFormat)));
}

#[test]
fn vorbis_stream_gets_its_length_from_the_last_packet() {
    let step = Reading::new().packet(first(VORBIS, 7));
    let step = seek_back(step, 1_000_000, 150 * 1024);
    let step = reading(step).packet(middle(7, 400_000));
    let step = reading(step).packet(middle(7, 420_000));
    let step = reading(step).packet(last(7, 441_000));
    assert_eq!(done(step).unwrap(), vec![vorbis(Some(441_000))]);
}

#[test]
fn opus_stream_length_leaves_out_the_pre_skip() {
    let step = Reading::new().packet(first(OPUS, 7));
    let step = seek_back(step, 1_000_000, 150 * 1024);
    let step = reading(step).packet(last(7, 48_312));
    assert_eq!(done(step).unwrap(), vec![opus(Some(48_000))]);
}

#[test]
fn first_last_packet_met_decides_the_length() {
    let step = Reading::new().packet(first(VORBIS, 7));
    let step = seek_back(step, 300_000, 150 * 1024);
    let step = reading(step).packet(middle(7, 10));
    // The scan does not look at the serial: the file has one stream.
    let step = reading(step).packet(last(9, 12_345));
    assert_eq!(done(step).unwrap(), vec![vorbis(Some(12_345))]);
}

#[test]
fn short_file_is_scanned_from_its_start() {
    let step = Reading::new().packet(first(VORBIS, 7));
    let step = seek_back(step, 1000, 1000);
    let step = reading(step).packet(first(VORBIS, 7));
    let step = reading(step).packet(last(7, 5));
    assert_eq!(done(step).unwrap(), vec![vorbis(Some(5))]);
}

#[test]
fn file_of_the_width_of_the_window_is_scanned_from_its_start() {
    let step = Reading::new().packet(first(OPUS, 7));
    let step = seek_back(step, 150 * 1024, 150 * 1024);
    assert!(matches!(step, Step::Read(_)));
    let step = Reading::new().packet(first(OPUS, 7));
    let step = seek_back(step, 150 * 1024 + 1, 150 * 1024);
    assert!(matches!(step, Step::Read(_)));
    let step = Reading::new().packet(first(OPUS, 7));
    let step = seek_back(step, 0, 0);
    assert!(matches!(step, Step::Read(_)));
}

#[test]
fn single_stream_without_last_packet_fails() {
    let step = Reading::new().packet(first(VORBIS, 7));
    let step = seek_back(step, 1_000_000, 150 * 1024);
    let step = reading(step).packet(middle(7, 400_000));
    let step = reading(step).packet(end_of_file());
    assert!(matches!(done(step), Err(OggMetadataError::ReadError(_))));
}

#[test]
fn single_stream_seek_failure_is_fatal() {
    let step = Reading::new().packet(first(VORBIS, 7));
    let step = seeking(step).sought(Err(Error::new(ErrorKind::Other, "seek")));
    match done(step) {
        Err(OggMetadataError::ReadError(err)) => assert_eq!(err.kind(), ErrorKind::Other),
        _ => panic!("a read error was expected"),
    }
    let step = Reading::new().packet(first(OPUS, 7));
    let step = seeking(step).sought(Ok(500));
    let step = seeking(step).sought(Err(Error::new(ErrorKind::InvalidInput, "seek")));
    match done(step) {
        Err(OggMetadataError::ReadError(err)) => assert_eq!(err.kind(), ErrorKind::InvalidInput),
        _ => panic!("a read error was expected"),
    }
}

#[test]
fn invalid_header_of_single_stream_fails_after_the_scan() {
    let step = Reading::new().packet(first(VORBIS_BAD_VERSION, 7));
    let step = seek_back(step, 1_000_000, 150 * 1024);
    let step = reading(step).packet(last(7, 441_000));
    assert!(matches!(done(step), Err(OggMetadataError::UnrecognizedFormat)));
}

#[test]
fn short_header_of_single_stream_is_a_read_error() {
    let step = Reading::new().packet(first(b"OpusHead\x01\x02", 7));
    let step = seek_back(step, 1_000_000, 150 * 1024);
    let step = reading(step).packet(last(7, 441_000));
    assert!(matches!(done(step), Err(OggMetadataError::ReadError(_))));
}

#[test]
fn theora_and_speex_need_no_seek() {
    let step = Reading::new().packet(first(THEORA, 7));
    assert_eq!(
        done(step).unwrap(),
        vec![OggFormat::Theora(TheoraMetadata { pixels_width: 320, pixels_height: 240 })]
    );
    let step = Reading::new().packet(first(SPEEX, 7));
    assert_eq!(done(step).unwrap(), vec![OggFormat::Speex]);
}

#[test]
fn short_theora_header_is_a_read_error() {
    let step = Reading::new().packet(first(b"\x80theora\x03\x02\x01", 7));
    assert!(matches!(done(step), Err(OggMetadataError::ReadError(_))));
}

#[test]
fn skeleton_file_lists_every_stream_with_its_length() {
    let step = collect(vec![first(VORBIS, 2), first(OPUS, 3), middle(2, 0), middle(1, 0)]);
    let step = seek_back(step, 5_000_000, 200 * 1024);
    let step = reading(step).packet(middle(2, 440_000));
    let step = reading(step).packet(last(3, 48_312));
    let step = reading(step).packet(middle(2, 440_500));
    let step = reading(step).packet(last(2, 441_000));
    assert_eq!(
        done(step).unwrap(),
        vec![OggFormat::Skeleton, opus(Some(48_000)), vorbis(Some(441_000))]
    );
}

#[test]
fn unknown_stream_in_skeleton_file_is_listed_at_once() {
    let step = collect(vec![first(VORBIS, 2), first(b"BBCD\0", 4), first(THEORA, 5)]);
    let step = seek_back(step, 5_000_000, 200 * 1024);
    let step = reading(step).packet(last(4, 9));
    let step = reading(step).packet(last(5, 9));
    let step = reading(step).packet(last(2, 441_000));
    assert_eq!(
        done(step).unwrap(),
        vec![
            OggFormat::Skeleton,
            OggFormat::Unknown,
            OggFormat::Theora(TheoraMetadata { pixels_width: 320, pixels_height: 240 }),
            vorbis(Some(441_000)),
        ]
    );
}

#[test]
fn stream_ending_before_the_window_has_no_length() {
    let step = collect(vec![first(VORBIS, 2), first(OPUS, 3)]);
    let step = seek_back(step, 5_000_000, 200 * 1024);
    let step = reading(step).packet(middle(3, 40_000));
    let step = reading(step).packet(last(3, 48_312));
    let step = reading(step).packet(end_of_file());
    assert_eq!(
        done(step).unwrap(),
        vec![OggFormat::Skeleton, opus(Some(48_000)), vorbis(None)]
    );
}

#[test]
fn streams_without_end_are_all_listed_without_length() {
    let step = collect(vec![first(VORBIS, 2), first(OPUS, 3), first(SPEEX, 4)]);
    let step = seek_back(step, 5_000_000, 200 * 1024);
    let step = reading(step).packet(Err(OggReadError::InvalidData));
    let formats = done(step).unwrap();
    assert_eq!(formats.len(), 4);
    assert_eq!(formats[0], OggFormat::Skeleton);
    assert!(formats[1..].contains(&vorbis(None)));
    assert!(formats[1..].contains(&opus(None)));
    assert!(formats[1..].contains(&OggFormat::Speex));
}

#[test]
fn failing_seek_in_skeleton_file_costs_only_the_lengths() {
    let step = collect(vec![first(OPUS, 3)]);
    let step = seeking(step).sought(Err(Error::new(ErrorKind::Other, "seek")));
    assert_eq!(done(step).unwrap(), vec![OggFormat::Skeleton, opus(None)]);
    let step = collect(vec![first(VORBIS, 2)]);
    let step = seeking(step).sought(Ok(1_000_000));
    let step = seeking(step).sought(Err(Error::new(ErrorKind::Other, "seek")));
    assert_eq!(done(step).unwrap(), vec![OggFormat::Skeleton, vorbis(None)]);
}

#[test]
fn failing_read_while_skeleton_lasts_is_fatal() {
    let state = reading(Reading::new().packet(first(SKELETON, 1)));
    let state = reading(state.packet(first(VORBIS, 2)));
    assert!(matches!(done(state.packet(end_of_file())), Err(OggMetadataError::ReadError(_))));
    let state = reading(Reading::new().packet(first(SKELETON, 1)));
    assert!(matches!(
        done(state.packet(Err(OggReadError::HashMismatch(1, 2)))),
        Err(OggMetadataError::UnrecognizedFormat)
    ));
}

#[test]
fn skeleton_file_without_streams_lists_the_skeleton() {
    let step = collect(vec![]);
    let step = seek_back(step, 4000, 4000);
    assert_eq!(done(step).unwrap(), vec![OggFormat::Skeleton]);
}

#[test]
fn multiplexed_file_is_searched_in_a_wider_window() {
    let step = collect(vec![first(VORBIS, 2)]);
    let step = seek_back(step, 204_801, 204_800);
    assert!(matches!(step, Step::Read(_)));
    let step = collect(vec![first(VORBIS, 2)]);
    let step = seek_back(step, 204_799, 204_799);
    assert!(matches!(step, Step::Read(_)));
}

#[test]
fn last_packet_of_another_stream_does_not_end_the_skeleton() {
    let state = reading(Reading::new().packet(first(SKELETON, 1)));
    let state = reading(state.packet(last(9, 0)));
    let state = reading(state.packet(first(OPUS, 3)));
    let step = seek_back(state.packet(last(1, 0)), 1_000_000, 200 * 1024);
    let step = reading(step).packet(last(3, 312));
    assert_eq!(done(step).unwrap(), vec![OggFormat::Skeleton, opus(Some(0))]);
}

#[test]
fn tail_scan_passes_over_packets_that_end_no_recorded_stream() {
    let step = collect(vec![first(VORBIS, 2)]);
    let step = seek_back(step, 1_000_000, 200 * 1024);
    let step = reading(step).packet(last(9, 77));
    let step = reading(step).packet(middle(2, 78));
    let step = reading(step).packet(first(OPUS, 10));
    let step = reading(step).packet(last(2, 79));
    assert_eq!(done(step).unwrap(), vec![OggFormat::Skeleton, vorbis(Some(79))]);
}

#[test]
fn stream_announced_twice_is_recorded_once() {
    let step = collect(vec![first(VORBIS, 2), first(OPUS, 2)]);
    let step = seek_back(step, 1_000_000, 200 * 1024);
    let step = reading(step).packet(last(2, 48_312));
    assert_eq!(done(step).unwrap(), vec![OggFormat::Skeleton, opus(Some(48_000))]);
}

#[test]
fn nested_skeleton_is_unrecognized() {
    let step = collect(vec![first(VORBIS, 2), first(SKELETON, 3)]);
    let step = seek_back(step, 1_000_000, 200 * 1024);
    let step = reading(step).packet(last(2, 441_000));
    let step = reading(step).packet(last(3, 0));
    assert!(matches!(done(step), Err(OggMetadataError::UnrecognizedFormat)));
}

#[test]
fn nested_skeleton_without_end_stays_listed() {
    let step = collect(vec![first(SKELETON, 3)]);
    let step = seek_back(step, 1_000_000, 200 * 1024);
    let step = reading(step).packet(middle(3, 0));
    let step = reading(step).packet(end_of_file());
    assert_eq!(done(step).unwrap(), vec![OggFormat::Skeleton, OggFormat::Skeleton]);
}

#[test]
fn invalid_header_met_in_the_tail_scan_is_fatal() {
    let step = collect(vec![first(VORBIS_BAD_VERSION, 2), first(OPUS, 3)]);
    let step = seek_back(step, 1_000_000, 200 * 1024);
    let step = reading(step).packet(last(2, 441_000));
    assert!(matches!(done(step), Err(OggMetadataError::UnrecognizedFormat)));
}

#[test]
fn invalid_header_of_a_stream_without_end_is_fatal() {
    let step = collect(vec![first(VORBIS_BAD_VERSION, 2)]);
    let step = seek_back(step, 1_000_000, 200 * 1024);
    let step = reading(step).packet(end_of_file());
    assert!(matches!(done(step), Err(OggMetadataError::UnrecognizedFormat)));
    let step = collect(vec![first(b"\x80theora\x03", 2)]);
    let step = seek_back(step, 1_000_000, 200 * 1024);
    let step = reading(step).packet(end_of_file());
    assert!(matches!(done(step), Err(OggMetadataError::ReadError(_))));
}
