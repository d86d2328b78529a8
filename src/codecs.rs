use vstd::prelude::*;

verus! {

/// What gzip encoding yields for the bytes at the given level, `None` where it fails.
pub uninterp spec fn gzip_encoded(data: Seq<u8>, level: u32) -> Option<Seq<u8>>;

/// What gzip decoding yields for the bytes, `None` where they are no gzip stream.
pub uninterp spec fn gzip_decoded(data: Seq<u8>) -> Option<Seq<u8>>;

/// What LZ4 frame encoding yields for the bytes, `None` where it fails.
pub uninterp spec fn lz4_encoded(data: Seq<u8>) -> Option<Seq<u8>>;

/// What LZ4 frame decoding yields for the bytes, `None` where they are no LZ4 frame.
pub uninterp spec fn lz4_decoded(data: Seq<u8>) -> Option<Seq<u8>>;

/// What Snappy frame encoding yields for the bytes, `None` where it fails.
pub uninterp spec fn snappy_encoded(data: Seq<u8>) -> Option<Seq<u8>>;

/// What Snappy frame decoding yields for the bytes, `None` where they are no Snappy stream.
pub uninterp spec fn snappy_decoded(data: Seq<u8>) -> Option<Seq<u8>>;

/// Relies on flate2's `write::GzEncoder` (with `Compression::new(level)`,
/// `write_all`, `finish`) to gzip the bytes into memory; its decoder
/// gives back what it encoded.
#[verifier::external_body]
pub(crate) fn gzip_encode(data: &[u8], level: u32) -> (r: Option<Vec<u8>>)
    requires
        level <= 9,
    ensures
        match r {
            Some(v) => gzip_encoded(data@, level) == Some(v@) && gzip_decoded(v@) == Some(data@),
            None => gzip_encoded(data@, level) is None,
        },
{
    let mut encoder = flate2::write::GzEncoder::new(Vec::new(), flate2::Compression::new(level));
    match std::io::Write::write_all(&mut encoder, data) {
        Ok(()) => encoder.finish().ok(),
        Err(_) => None,
    }
}

/// Relies on flate2's `read::GzDecoder` (read to the end) to gunzip the bytes.
#[verifier::external_body]
pub(crate) fn gzip_decode(data: &[u8]) -> (r: Option<Vec<u8>>)
    ensures
        match r {
            Some(v) => gzip_decoded(data@) == Some(v@),
            None => gzip_decoded(data@) is None,
        },
{
    let mut out = Vec::new();
    match std::io::Read::read_to_end(&mut flate2::read::GzDecoder::new(data), &mut out) {
        Ok(_) => Some(out),
        Err(_) => None,
    }
}

/// Relies on lz4_flex's `frame::FrameEncoder` (`write_all`, `finish`) to
/// encode the bytes as one LZ4 frame; its `FrameDecoder` gives back what it encoded.
#[verifier::external_body]
pub(crate) fn lz4_encode(data: &[u8]) -> (r: Option<Vec<u8>>)
    ensures
        match r {
            Some(v) => lz4_encoded(data@) == Some(v@) && lz4_decoded(v@) == Some(data@),
            None => lz4_encoded(data@) is None,
        },
{
    let mut encoder = lz4_flex::frame::FrameEncoder::new(Vec::new());
    match std::io::Write::write_all(&mut encoder, data) {
        Ok(()) => encoder.finish().ok(),
        Err(_) => None,
    }
}

/// Relies on lz4_flex's `frame::FrameDecoder` (read to the end) to decode LZ4 frames.
#[verifier::external_body]
pub(crate) fn lz4_decode(data: &[u8]) -> (r: Option<Vec<u8>>)
    ensures
        match r {
            Some(v) => lz4_decoded(data@) == Some(v@),
            None => lz4_decoded(data@) is None,
        },
{
    let mut out = Vec::new();
    match std::io::Read::read_to_end(&mut lz4_flex::frame::FrameDecoder::new(data), &mut out) {
        Ok(_) => Some(out),
        Err(_) => None,
    }
}

/// Relies on snap's `write::FrameEncoder` (`write_all`, `into_inner`) to
/// encode the bytes in the Snappy frame format; its `read::FrameDecoder` gives
/// back what it encoded.
#[verifier::external_body]
pub(crate) fn snappy_encode(data: &[u8]) -> (r: Option<Vec<u8>>)
    ensures
        match r {
            Some(v) => snappy_encoded(data@) == Some(v@) && snappy_decoded(v@) == Some(data@),
            None => snappy_encoded(data@) is None,
        },
{
    let mut encoder = snap::write::FrameEncoder::new(Vec::new());
    match std::io::Write::write_all(&mut encoder, data) {
        Ok(()) => encoder.into_inner().ok(),
        Err(_) => None,
    }
}

/// Relies on snap's `read::FrameDecoder` (read to the end) to decode the Snappy frame format.
#[verifier::external_body]
pub(crate) fn snappy_decode(data: &[u8]) -> (r: Option<Vec<u8>>)
    ensures
        match r {
            Some(v) => snappy_decoded(data@) == Some(v@),
            None => snappy_decoded(data@) is None,
        },
{
    let mut out = Vec::new();
    match std::io::Read::read_to_end(&mut snap::read::FrameDecoder::new(data), &mut out) {
        Ok(_) => Some(out),
        Err(_) => None,
    }
}

} // verus!
