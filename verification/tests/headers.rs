use ogg_metadata::{opus, theora, vorbis, AudioMetadata, OggMetadataError};

fn vorbis_payload(version: u32, channels: u8, sample_rate: u32) -> Vec<u8> {
    let mut payload = Vec::new();
    payload.extend_from_slice(&version.to_le_bytes());
    payload.push(channels);
    payload.extend_from_slice(&sample_rate.to_le_bytes());
    payload.extend_from_slice(&[0; 14]);
    payload
}

#[test]
fn vorbis_header_is_read() {
    let hdr = vorbis::read_header_ident(&vorbis_payload(0, 2, 44100)).unwrap();
    assert_eq!(hdr.channels, 2);
    assert_eq!(hdr.sample_rate, 44100);
}

#[test]
fn vorbis_header_bytes_are_little_endian() {
    let payload = [0, 0, 0, 0, 6, 0x78, 0x56, 0x34, 0x12];
    let hdr = vorbis::read_header_ident(&payload).unwrap();
    assert_eq!(hdr, vorbis::IdentHeader { channels: 6, sample_rate: 0x12345678 });
}

#[test]
fn vorbis_header_of_nine_bytes_suffices() {
    let payload = vorbis_payload(0, 1, 8000);
    let hdr = vorbis::read_header_ident(&payload[..9]).unwrap();
    assert_eq!(hdr, vorbis::IdentHeader { channels: 1, sample_rate: 8000 });
}

#[test]
fn vorbis_version_other_than_zero_is_unrecognized() {
    for version in [1u32, 2, 0x100, 0x0100_0000, u32::MAX] {
        let r = vorbis::read_header_ident(&vorbis_payload(version, 2, 44100));
        assert!(matches!(r, Err(OggMetadataError::UnrecognizedFormat)));
    }
}

#[test]
fn vorbis_bad_version_wins_over_missing_fields() {
    let r = vorbis::read_header_ident(&[1, 0, 0, 0]);
    assert!(matches!(r, Err(OggMetadataError::UnrecognizedFormat)));
}

#[test]
fn vorbis_short_header_is_a_read_error() {
    let payload = vorbis_payload(0, 2, 44100);
    for len in 0..9 {
        let r = vorbis::read_header_ident(&payload[..len]);
        assert!(matches!(r, Err(OggMetadataError::ReadError(_))), "length {}", len);
    }
}

#[test]
fn short_read_is_an_unexpected_end() {
    match vorbis::read_header_ident(&[0, 0]) {
        Err(OggMetadataError::ReadError(err)) => {
            assert_eq!(err.kind(), std::io::ErrorKind::UnexpectedEof)
        }
        _ => panic!("a read error was expected"),
    }
}

#[test]
fn opus_header_is_read() {
    let hdr = opus::read_header_ident(&[1, 2, 0x38, 0x01, 0x80, 0xbb, 0, 0]).unwrap();
    assert_eq!(hdr.output_channels, 2);
    assert_eq!(hdr.pre_skip, 312);
}

#[test]
fn opus_fields_round_trip() {
    for version in 0u8..16 {
        for channels in [0u8, 1, 2, 8, 255] {
            for pre_skip in [0u16, 1, 255, 256, 312, 3840, 0x8000, u16::MAX] {
                let bytes = pre_skip.to_le_bytes();
                let payload = [version, channels, bytes[0], bytes[1]];
                let hdr = opus::read_header_ident(&payload).unwrap();
                assert_eq!(hdr, opus::IdentHeader { output_channels: channels, pre_skip });
            }
        }
    }
}

#[test]
fn opus_major_version_above_zero_is_unrecognized() {
    for version in 16u8..=255 {
        let r = opus::read_header_ident(&[version, 2, 0x38, 0x01]);
        assert!(matches!(r, Err(OggMetadataError::UnrecognizedFormat)));
    }
}

#[test]
fn opus_bad_version_wins_over_missing_fields() {
    let r = opus::read_header_ident(&[16]);
    assert!(matches!(r, Err(OggMetadataError::UnrecognizedFormat)));
}

#[test]
fn opus_short_header_is_a_read_error() {
    let payload = [15u8, 2, 0x38, 0x01];
    for len in 0..4 {
        let r = opus::read_header_ident(&payload[..len]);
        assert!(matches!(r, Err(OggMetadataError::ReadError(_))), "length {}", len);
    }
}

#[test]
fn theora_header_is_read() {
    let payload = [3, 2, 1, 0, 20, 0, 15, 0, 0x01, 0x40, 0, 0, 0xf0, 0, 0];
    let hdr = theora::read_header_ident(&payload).unwrap();
    assert_eq!(hdr.picture_region_width, 320);
    assert_eq!(hdr.picture_region_height, 240);
}

#[test]
fn theora_sizes_are_big_endian_of_three_bytes() {
    let payload = [9, 9, 9, 0xff, 0xff, 0xff, 0xff, 0x80, 0x74, 0xfa, 0x12, 0x34, 0x56];
    let hdr = theora::read_header_ident(&payload).unwrap();
    assert_eq!(
        hdr,
        theora::IdentHeader { picture_region_width: 8418554, picture_region_height: 0x123456 }
    );
}

#[test]
fn theora_largest_sizes_are_read() {
    let payload = [0, 0, 0, 0, 0, 0, 0, 0xff, 0xff, 0xff, 0xff, 0xff, 0xff];
    let hdr = theora::read_header_ident(&payload).unwrap();
    assert_eq!(hdr.picture_region_width, 0xff_ffff);
    assert_eq!(hdr.picture_region_height, 0xff_ffff);
}

#[test]
fn theora_version_is_not_checked() {
    let payload = [255, 255, 255, 0, 1, 0, 1, 0, 0, 16, 0, 0, 16];
    let hdr = theora::read_header_ident(&payload).unwrap();
    assert_eq!(hdr, theora::IdentHeader { picture_region_width: 16, picture_region_height: 16 });
}

#[test]
fn theora_short_header_is_a_read_error() {
    let payload = [3u8, 2, 1, 0, 20, 0, 15, 0, 0x01, 0x40, 0, 0, 0xf0];
    for len in 0..13 {
        let r = theora::read_header_ident(&payload[..len]);
        assert!(matches!(r, Err(OggMetadataError::ReadError(_))), "length {}", len);
    }
}

#[test]
fn channel_count_comes_from_the_metadata() {
    let vorbis = ogg_metadata::VorbisMetadata {
        channels: 2,
        sample_rate: 44100,
        length_in_samples: Some(441000),
    };
    let opus = ogg_metadata::OpusMetadata { output_channels: 6, length_in_48khz_samples: None };
    assert_eq!(vorbis.get_output_channel_count(), 2);
    assert_eq!(opus.get_output_channel_count(), 6);
}
