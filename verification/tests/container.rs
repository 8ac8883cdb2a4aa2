use poe_bundle::err::BundleError;
use poe_bundle::size_of;
use poe_bundle::unpack;
use poe_bundle::Codec;
use poe_bundle::CodecError;

/// Codec stub that echoes its input, zero-padded or truncated to the
/// requested length.
struct EchoCodec;

impl Codec for EchoCodec {
    fn decompress(&self, src: &[u8], expected_len: usize) -> Result<Vec<u8>, CodecError> {
        let mut v = src.to_vec();
        v.resize(expected_len, 0u8);
        Ok(v)
    }
}

/// Codec stub that always reports a failure.
struct FailCodec;

impl Codec for FailCodec {
    fn decompress(&self, _src: &[u8], _expected_len: usize) -> Result<Vec<u8>, CodecError> {
        Err(CodecError)
    }
}

/// Codec stub that hands back one byte too many.
struct WrongLenCodec;

impl Codec for WrongLenCodec {
    fn decompress(&self, _src: &[u8], expected_len: usize) -> Result<Vec<u8>, CodecError> {
        Ok(vec![7u8; expected_len + 1])
    }
}

fn container(
    uncompressed: u64,
    chunk_count: u32,
    chunk_unpacked: u64,
    chunk_sizes: &[u32],
    payload: &[u8],
) -> Vec<u8> {
    let mut b: Vec<u8> = Vec::new();
    b.extend_from_slice(&0u32.to_le_bytes()); // total size uncompressed (informational)
    b.extend_from_slice(&0u32.to_le_bytes()); // total size compressed (informational)
    b.extend_from_slice(&0u32.to_le_bytes()); // head size (informational)
    b.extend_from_slice(&0u32.to_le_bytes()); // first chunk encoding (informational)
    b.extend_from_slice(&0u32.to_le_bytes()); // reserved
    b.extend_from_slice(&uncompressed.to_le_bytes()); // authoritative output length
    b.extend_from_slice(&0u64.to_le_bytes()); // compressed size (informational)
    b.extend_from_slice(&chunk_count.to_le_bytes());
    b.extend_from_slice(&chunk_unpacked.to_le_bytes());
    b.extend_from_slice(&0u32.to_le_bytes()); // reserved
    b.extend_from_slice(&0u32.to_le_bytes()); // reserved
    b.extend_from_slice(&0u32.to_le_bytes()); // reserved
    b.extend_from_slice(&0u32.to_le_bytes()); // reserved
    assert_eq!(b.len(), 64);
    for s in chunk_sizes {
        b.extend_from_slice(&s.to_le_bytes());
    }
    b.extend_from_slice(payload);
    b
}

#[test]
fn scenario_single_chunk_padded() {
    // uncompressedSize=10, chunkCount=1, chunkUnpackedSize=10, chunkSizes=[5];
    // the echo codec zero-pads its 5-byte input to 10 bytes.
    let c = container(10, 1, 10, &[5], b"abcde");
    let out = unpack(&c, &EchoCodec).unwrap();
    assert_eq!(out.len(), 10);
    assert_eq!(out, b"abcde\0\0\0\0\0".to_vec());
}

#[test]
fn round_trip_multi_chunk() {
    // Three chunks of nominal size 4 covering 10 bytes: the last produces
    // the 2-byte remainder. With the echo codec the output is the
    // concatenation of each chunk's expected-length echo.
    let payload = b"0123ABCDxy";
    let c = container(10, 3, 4, &[4, 4, 2], payload);
    let out = unpack(&c, &EchoCodec).unwrap();
    assert_eq!(out.len(), 10);
    assert_eq!(out, payload.to_vec());
}

#[test]
fn round_trip_excess_chunk_capacity() {
    // One chunk whose nominal size exceeds the declared output: the chunk
    // produces only the declared 3 bytes.
    let c = container(3, 1, 8, &[3], b"xyz");
    let out = unpack(&c, &EchoCodec).unwrap();
    assert_eq!(out, b"xyz".to_vec());
}

#[test]
fn size_query_idempotent_and_matches_unpack() {
    let c = container(10, 1, 10, &[5], b"abcde");
    let s1 = size_of(&c).unwrap();
    let s2 = size_of(&c).unwrap();
    let s3 = size_of(&c).unwrap();
    assert_eq!(s1, s2);
    assert_eq!(s2, s3);
    let out = unpack(&c, &EchoCodec).unwrap();
    assert_eq!(out.len() as u64, s1);
}

#[test]
fn truncated_header_rejected() {
    let c = vec![0u8; 63];
    assert_eq!(size_of(&c), Err(BundleError::TruncatedHeader));
    assert_eq!(unpack(&c, &EchoCodec), Err(BundleError::TruncatedHeader));
    let empty: Vec<u8> = Vec::new();
    assert_eq!(unpack(&empty, &EchoCodec), Err(BundleError::TruncatedHeader));
}

#[test]
fn inconsistent_header_rejected() {
    // One chunk of nominal size 5 cannot cover 10 declared bytes.
    let c = container(10, 1, 5, &[5], b"abcde");
    assert_eq!(unpack(&c, &EchoCodec), Err(BundleError::InconsistentHeader));
}

#[test]
fn truncated_chunk_table_rejected() {
    // Five chunks declared but no chunk-size table follows the header.
    let c = container(0, 5, 1, &[], b"");
    assert_eq!(unpack(&c, &EchoCodec), Err(BundleError::TruncatedChunkTable));
}

#[test]
fn chunk_out_of_bounds_rejected() {
    // The single chunk claims 100 compressed bytes; only 3 are present.
    let c = container(3, 1, 3, &[100], b"abc");
    assert_eq!(unpack(&c, &EchoCodec), Err(BundleError::ChunkOutOfBounds));
}

#[test]
fn codec_failure_surfaces() {
    let c = container(10, 1, 10, &[5], b"abcde");
    assert_eq!(unpack(&c, &FailCodec), Err(BundleError::CodecFailure));
}

#[test]
fn wrong_length_codec_result_is_a_failure() {
    let c = container(10, 1, 10, &[5], b"abcde");
    assert_eq!(unpack(&c, &WrongLenCodec), Err(BundleError::CodecFailure));
}

#[test]
fn empty_container_unpacks_to_nothing() {
    let c = container(0, 0, 0, &[], b"");
    assert_eq!(size_of(&c), Ok(0));
    assert_eq!(unpack(&c, &EchoCodec), Ok(Vec::new()));
}
