use ogg_metadata::{
    parse_format, BareOggFormat, OggFormat, OggMetadataError, OpusMetadata, TheoraMetadata,
    VorbisMetadata,
};

const VORBIS: [u8; 9] = [0, 0, 0, 0, 2, 0x44, 0xac, 0, 0];
const OPUS: [u8; 4] = [1, 2, 0x38, 0x01];
const THEORA: [u8; 13] = [3, 2, 1, 0, 20, 0, 15, 0, 0x01, 0x40, 0, 0, 0xf0];

#[test]
fn vorbis_length_is_the_last_granule_position() {
    let format = parse_format(&VORBIS, BareOggFormat::Vorbis, Some(441000)).unwrap();
    assert_eq!(
        format,
        OggFormat::Vorbis(VorbisMetadata {
            channels: 2,
            sample_rate: 44100,
            length_in_samples: Some(441000),
        })
    );
}

#[test]
fn vorbis_without_last_packet_has_no_length() {
    let format = parse_format(&VORBIS, BareOggFormat::Vorbis, None).unwrap();
    assert_eq!(
        format,
        OggFormat::Vorbis(VorbisMetadata {
            channels: 2,
            sample_rate: 44100,
            length_in_samples: None,
        })
    );
}

#[test]
fn opus_length_leaves_out_the_pre_skip() {
    let format = parse_format(&OPUS, BareOggFormat::Opus, Some(48312)).unwrap();
    assert_eq!(
        format,
        OggFormat::Opus(OpusMetadata {
            output_channels: 2,
            length_in_48khz_samples: Some(48000),
        })
    );
}

#[test]
fn opus_length_of_only_the_pre_skip_is_zero() {
    let format = parse_format(&OPUS, BareOggFormat::Opus, Some(312)).unwrap();
    assert_eq!(
        format,
        OggFormat::Opus(OpusMetadata { output_channels: 2, length_in_48khz_samples: Some(0) })
    );
}

#[test]
fn opus_position_below_pre_skip_gives_no_length() {
    for absgp in [0u64, 1, 311] {
        let format = parse_format(&OPUS, BareOggFormat::Opus, Some(absgp)).unwrap();
        assert_eq!(
            format,
            OggFormat::Opus(OpusMetadata { output_channels: 2, length_in_48khz_samples: None })
        );
    }
}

#[test]
fn opus_largest_position_does_not_overflow() {
    let format = parse_format(&OPUS, BareOggFormat::Opus, Some(u64::MAX)).unwrap();
    assert_eq!(
        format,
        OggFormat::Opus(OpusMetadata {
            output_channels: 2,
            length_in_48khz_samples: Some(u64::MAX - 312),
        })
    );
}

#[test]
fn opus_without_last_packet_has_no_length() {
    let format = parse_format(&OPUS, BareOggFormat::Opus, None).unwrap();
    assert_eq!(
        format,
        OggFormat::Opus(OpusMetadata { output_channels: 2, length_in_48khz_samples: None })
    );
}

#[test]
fn theora_has_the_picture_size() {
    let expected =
        OggFormat::Theora(TheoraMetadata { pixels_width: 320, pixels_height: 240 });
    assert_eq!(parse_format(&THEORA, BareOggFormat::Theora, None).unwrap(), expected);
    assert_eq!(parse_format(&THEORA, BareOggFormat::Theora, Some(77)).unwrap(), expected);
}

#[test]
fn speex_and_skeleton_are_detected_only() {
    assert_eq!(parse_format(&[], BareOggFormat::Speex, None).unwrap(), OggFormat::Speex);
    assert_eq!(parse_format(&[1, 2, 3], BareOggFormat::Speex, Some(5)).unwrap(), OggFormat::Speex);
    assert_eq!(parse_format(&[], BareOggFormat::Skeleton, None).unwrap(), OggFormat::Skeleton);
    assert_eq!(
        parse_format(&[9; 40], BareOggFormat::Skeleton, Some(5)).unwrap(),
        OggFormat::Skeleton
    );
}

#[test]
fn invalid_versions_are_unrecognized() {
    let vorbis = [1u8, 0, 0, 0, 2, 0x44, 0xac, 0, 0];
    let opus = [0x10u8, 2, 0x38, 0x01];
    assert!(matches!(
        parse_format(&vorbis, BareOggFormat::Vorbis, Some(1)),
        Err(OggMetadataError::UnrecognizedFormat)
    ));
    assert!(matches!(
        parse_format(&opus, BareOggFormat::Opus, Some(1)),
        Err(OggMetadataError::UnrecognizedFormat)
    ));
}

#[test]
fn short_headers_are_read_errors() {
    assert!(matches!(
        parse_format(&VORBIS[..8], BareOggFormat::Vorbis, Some(1)),
        Err(OggMetadataError::ReadError(_))
    ));
    assert!(matches!(
        parse_format(&OPUS[..3], BareOggFormat::Opus, None),
        Err(OggMetadataError::ReadError(_))
    ));
    assert!(matches!(
        parse_format(&THEORA[..12], BareOggFormat::Theora, None),
        Err(OggMetadataError::ReadError(_))
    ));
}
