use ogg::OggReadError;
use ogg_metadata::OggMetadataError;
use std::io::{Error, ErrorKind};

#[test]
fn io_error_becomes_read_error() {
    let err = OggMetadataError::from(Error::new(ErrorKind::PermissionDenied, "no"));
    match err {
        OggMetadataError::ReadError(inner) => assert_eq!(inner.kind(), ErrorKind::PermissionDenied),
        _ => panic!("a read error was expected"),
    }
}

#[test]
fn read_error_of_the_source_keeps_its_io_error() {
    let source = OggReadError::ReadError(Error::new(ErrorKind::UnexpectedEof, "end"));
    match OggMetadataError::from(source) {
        OggMetadataError::ReadError(inner) => assert_eq!(inner.kind(), ErrorKind::UnexpectedEof),
        _ => panic!("a read error was expected"),
    }
}

#[test]
fn other_errors_of_the_source_are_unrecognized() {
    let sources = vec![
        OggReadError::NoCapturePatternFound,
        OggReadError::InvalidStreamStructVer(3),
        OggReadError::HashMismatch(1, 2),
        OggReadError::InvalidData,
    ];
    for source in sources {
        assert!(matches!(OggMetadataError::from(source), OggMetadataError::UnrecognizedFormat));
    }
}

#[test]
fn errors_describe_themselves() {
    assert_eq!(
        OggMetadataError::UnrecognizedFormat.description(),
        "Unrecognized or invalid format"
    );
    let err = OggMetadataError::ReadError(Error::new(ErrorKind::Other, "x"));
    assert_eq!(err.description(), "I/O error");
}

#[test]
fn only_read_errors_have_a_cause() {
    assert!(OggMetadataError::UnrecognizedFormat.cause().is_none());
    let err = OggMetadataError::ReadError(Error::new(ErrorKind::TimedOut, "x"));
    assert_eq!(err.cause().unwrap().kind(), ErrorKind::TimedOut);
}
