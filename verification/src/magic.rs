//! Detection of the codec of a logical stream from the magic bytes that
//! open its first packet.

use vstd::prelude::*;

verus! {

/// The codecs that can be told apart by their magic, without any metadata.
#[derive(Debug, Copy, Clone, PartialEq, Eq, Structural)]
pub enum BareOggFormat {
    Vorbis,
    Opus,
    Theora,
    Speex,
    Skeleton,
}

/// The magic sequence that opens the first packet of a stream of `format`.
pub open spec fn magic(format: BareOggFormat) -> Seq<u8> {
    match format {
        // 0x01 "vorbis"
        BareOggFormat::Vorbis => seq![0x01u8, 0x76, 0x6f, 0x72, 0x62, 0x69, 0x73],
        // "OpusHead"
        BareOggFormat::Opus => seq![0x4fu8, 0x70, 0x75, 0x73, 0x48, 0x65, 0x61, 0x64],
        // 0x80 "theora"
        BareOggFormat::Theora => seq![0x80u8, 0x74, 0x68, 0x65, 0x6f, 0x72, 0x61],
        // "Speex   "
        BareOggFormat::Speex => seq![0x53u8, 0x70, 0x65, 0x65, 0x78, 0x20, 0x20, 0x20],
        // "fishead\0"
        BareOggFormat::Skeleton => seq![0x66u8, 0x69, 0x73, 0x68, 0x65, 0x61, 0x64, 0x00],
    }
}

/// Whether `data` opens with the magic of `format`.
pub open spec fn has_magic(data: Seq<u8>, format: BareOggFormat) -> bool {
    magic(format).is_prefix_of(data)
}

/// The codec whose magic opens `data`, together with the number of bytes
/// to skip to reach the payload behind the magic; `None` where no magic
/// matches.
pub open spec fn identified(data: Seq<u8>) -> Option<(usize, BareOggFormat)> {
    if has_magic(data, BareOggFormat::Vorbis) {
        Some((7usize, BareOggFormat::Vorbis))
    } else if has_magic(data, BareOggFormat::Opus) {
        Some((8usize, BareOggFormat::Opus))
    } else if has_magic(data, BareOggFormat::Theora) {
        Some((7usize, BareOggFormat::Theora))
    } else if has_magic(data, BareOggFormat::Speex) {
        Some((8usize, BareOggFormat::Speex))
    } else if has_magic(data, BareOggFormat::Skeleton) {
        Some((8usize, BareOggFormat::Skeleton))
    } else {
        None
    }
}

/// No two magic sequences open the same data: a byte sequence matches at
/// most one codec.
pub proof fn lemma_magic_unambiguous(data: Seq<u8>, a: BareOggFormat, b: BareOggFormat)
    requires
        has_magic(data, a),
        has_magic(data, b),
    ensures
        a == b,
{
    assert(magic(a)[0] == data[0]);
    assert(magic(b)[0] == data[0]);
}

/// Detection is total and exact: data is identified as a codec exactly
/// where it opens with that codec's magic, the payload then starts right
/// behind the magic, and data that opens with no magic is not identified.
pub proof fn lemma_identified_iff_magic(data: Seq<u8>)
    ensures
        forall|format: BareOggFormat|
            has_magic(data, format) <==> #[trigger] identified(data) == Some(
                (magic(format).len() as usize, format),
            ),
        identified(data) is None <==> forall|format: BareOggFormat| !has_magic(data, format),
        data.len() == 0 ==> identified(data) is None,
{
    assert forall|format: BareOggFormat|
        has_magic(data, format) <==> #[trigger] identified(data) == Some(
            (magic(format).len() as usize, format),
        ) by {
        if has_magic(data, format) {
            if has_magic(data, BareOggFormat::Vorbis) {
                lemma_magic_unambiguous(data, format, BareOggFormat::Vorbis);
            } else if has_magic(data, BareOggFormat::Opus) {
                lemma_magic_unambiguous(data, format, BareOggFormat::Opus);
            } else if has_magic(data, BareOggFormat::Theora) {
                lemma_magic_unambiguous(data, format, BareOggFormat::Theora);
            } else if has_magic(data, BareOggFormat::Speex) {
                lemma_magic_unambiguous(data, format, BareOggFormat::Speex);
            } else if has_magic(data, BareOggFormat::Skeleton) {
                lemma_magic_unambiguous(data, format, BareOggFormat::Skeleton);
            }
        }
    }
}

/// Whether `data` starts with the bytes of `prefix`.
fn starts_with(data: &[u8], prefix: &[u8]) -> (r: bool)
    ensures
        r == prefix@.is_prefix_of(data@),
{
    if data.len() < prefix.len() {
        return false;
    }
    let mut i: usize = 0;
    while i < prefix.len()
        invariant
            i <= prefix.len() <= data.len(),
            forall|j: int| 0 <= j < i ==> data@[j] == prefix@[j],
        decreases prefix.len() - i,
    {
        if data[i] != prefix[i] {
            assert(data@.subrange(0, prefix@.len() as int)[i as int] != prefix@[i as int]);
            return false;
        }
        i += 1;
    }
    assert(data@.subrange(0, prefix@.len() as int) =~= prefix@);
    true
}

/// Identifies the codec of a stream from the data of its first packet.
///
/// Returns the matched codec and the offset at which the codec's own
/// header payload begins, or `None` if the data is empty or opens with
/// none of the known magic sequences.
pub fn identify_packet_data_by_magic(pck_data: &[u8]) -> (r: Option<(usize, BareOggFormat)>)
    ensures
        r == identified(pck_data@),
        r matches Some((offset, format)) ==> has_magic(pck_data@, format) && offset == magic(
            format,
        ).len() && offset <= pck_data@.len(),
        r is None ==> forall|format: BareOggFormat| !has_magic(pck_data@, format),
{
    let vorbis_magic: [u8; 7] = [0x01, 0x76, 0x6f, 0x72, 0x62, 0x69, 0x73];
    let opus_magic: [u8; 8] = [0x4f, 0x70, 0x75, 0x73, 0x48, 0x65, 0x61, 0x64];
    let theora_magic: [u8; 7] = [0x80, 0x74, 0x68, 0x65, 0x6f, 0x72, 0x61];
    let speex_magic: [u8; 8] = [0x53, 0x70, 0x65, 0x65, 0x78, 0x20, 0x20, 0x20];
    let skeleton_magic: [u8; 8] = [0x66, 0x69, 0x73, 0x68, 0x65, 0x61, 0x64, 0x00];
    proof {
        lemma_identified_iff_magic(pck_data@);
        assert(vorbis_magic@ =~= magic(BareOggFormat::Vorbis));
        assert(opus_magic@ =~= magic(BareOggFormat::Opus));
        assert(theora_magic@ =~= magic(BareOggFormat::Theora));
        assert(speex_magic@ =~= magic(BareOggFormat::Speex));
        assert(skeleton_magic@ =~= magic(BareOggFormat::Skeleton));
    }
    if pck_data.len() < 1 {
        return None;
    }
    let first: u8 = pck_data[0];
    if first == 0x01 && starts_with(pck_data, vorbis_magic.as_slice()) {
        Some((vorbis_magic.len(), BareOggFormat::Vorbis))
    } else if first == 0x4f && starts_with(pck_data, opus_magic.as_slice()) {
        Some((opus_magic.len(), BareOggFormat::Opus))
    } else if first == 0x80 && starts_with(pck_data, theora_magic.as_slice()) {
        Some((theora_magic.len(), BareOggFormat::Theora))
    } else if first == 0x53 && starts_with(pck_data, speex_magic.as_slice()) {
        Some((speex_magic.len(), BareOggFormat::Speex))
    } else if first == 0x66 && starts_with(pck_data, skeleton_magic.as_slice()) {
        Some((skeleton_magic.len(), BareOggFormat::Skeleton))
    } else {
        assert(magic(BareOggFormat::Vorbis)[0] == 0x01);
        assert(magic(BareOggFormat::Opus)[0] == 0x4f);
        assert(magic(BareOggFormat::Theora)[0] == 0x80);
        assert(magic(BareOggFormat::Speex)[0] == 0x53);
        assert(magic(BareOggFormat::Skeleton)[0] == 0x66);
        None
    }
}

/// Returns whether the rich metadata of the codec holds a length, which
/// takes the granule position of the stream's last packet to fill.
pub fn needs_last_packet_absgp(bare_format: BareOggFormat) -> (r: bool)
    ensures
        r == needs_length(bare_format),
{
    match bare_format {
        BareOggFormat::Vorbis => true,
        BareOggFormat::Opus => true,
        BareOggFormat::Theora => false,
        BareOggFormat::Speex => false,
        BareOggFormat::Skeleton => false,
    }
}

/// The codecs whose granule position counts samples, so that the last
/// packet's position gives the length of the stream: Vorbis and Opus.
pub open spec fn needs_length(format: BareOggFormat) -> bool {
    format == BareOggFormat::Vorbis || format == BareOggFormat::Opus
}

} // verus!
