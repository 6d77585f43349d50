//! Payload compression: which payloads are worth compressing, and the
//! compression and decompression of byte buffers with the codecs of
//! `async-compression`.

use std::io::Cursor;
use tokio::io::{AsyncReadExt, BufReader};
use async_compression::tokio::bufread::{
    BrotliDecoder, BrotliEncoder, GzipDecoder, GzipEncoder, Lz4Decoder, Lz4Encoder, ZstdDecoder,
    ZstdEncoder,
};
use async_compression::Level;
use vstd::prelude::*;
use crate::bytes::copy_bytes;

verus! {

/// The compression algorithms a node may apply to payloads.
#[derive(Debug, Clone, Copy, PartialEq, Eq, Hash, Structural)]
pub enum CompressionAlgorithm {
    NoCompression,
    Gzip,
    Zstd,
    Lz4,
    Brotli,
}

/// The quality a compressor is asked for.
#[derive(Debug, Clone, Copy, PartialEq, Eq, Hash, Structural)]
pub enum CompressionLevel {
    Fastest,
    Best,
    Default,
    Precise(i32),
}

impl Default for CompressionAlgorithm {
    fn default() -> (r: Self)
        ensures
            r == CompressionAlgorithm::NoCompression,
    {
        CompressionAlgorithm::NoCompression
    }
}

impl Default for CompressionLevel {
    fn default() -> (r: Self)
        ensures
            r == CompressionLevel::Default,
    {
        CompressionLevel::Default
    }
}

/// The lower-case name of an algorithm.
pub open spec fn algorithm_name(a: CompressionAlgorithm) -> Seq<char> {
    match a {
        CompressionAlgorithm::NoCompression => "none"@,
        CompressionAlgorithm::Gzip => "gzip"@,
        CompressionAlgorithm::Zstd => "zstd"@,
        CompressionAlgorithm::Lz4 => "lz4"@,
        CompressionAlgorithm::Brotli => "brotli"@,
    }
}

impl CompressionAlgorithm {
    /// The algorithm's name, as it is displayed.
    pub fn to_string(&self) -> (r: String)
        ensures
            r@ == algorithm_name(*self),
    {
        match self {
            CompressionAlgorithm::NoCompression => String::from_str("none"),
            CompressionAlgorithm::Gzip => String::from_str("gzip"),
            CompressionAlgorithm::Zstd => String::from_str("zstd"),
            CompressionAlgorithm::Lz4 => String::from_str("lz4"),
            CompressionAlgorithm::Brotli => String::from_str("brotli"),
        }
    }
}

/// The smallest payload, in bytes, that an algorithm is applied to.
pub open spec fn min_compress_size(a: CompressionAlgorithm) -> usize {
    match a {
        CompressionAlgorithm::NoCompression => usize::MAX,
        CompressionAlgorithm::Lz4 => 256,
        CompressionAlgorithm::Zstd => 512,
        CompressionAlgorithm::Gzip => 512,
        CompressionAlgorithm::Brotli => 1024,
    }
}

/// Whether a payload of `data_size` bytes is compressed with `algorithm`.
pub open spec fn compresses(data_size: int, algorithm: CompressionAlgorithm) -> bool {
    algorithm != CompressionAlgorithm::NoCompression && data_size >= min_compress_size(algorithm)
}

/// The smallest payload size for which `algorithm` is worth applying.
pub fn get_min_compress_size(algorithm: CompressionAlgorithm) -> (r: usize)
    ensures
        r == min_compress_size(algorithm),
{
    match algorithm {
        CompressionAlgorithm::NoCompression => usize::MAX,
        CompressionAlgorithm::Lz4 => 256,
        CompressionAlgorithm::Zstd => 512,
        CompressionAlgorithm::Gzip => 512,
        CompressionAlgorithm::Brotli => 1024,
    }
}

/// Whether a payload of `data_size` bytes should be compressed with `algorithm`.
pub fn should_compress(data_size: usize, algorithm: CompressionAlgorithm) -> (r: bool)
    ensures
        r == compresses(data_size as int, algorithm),
{
    algorithm != CompressionAlgorithm::NoCompression && data_size >= get_min_compress_size(algorithm)
}


/// The outcome of a codec run over an in-memory buffer, as plain values.
pub open spec fn outcome_view(r: &Result<Vec<u8>, String>) -> Result<Seq<u8>, Seq<char>> {
    match r {
        Ok(v) => Ok(v@),
        Err(e) => Err(e@),
    }
}

/// What the gzip encoder of `async-compression` produces from `data` at `level`.
pub uninterp spec fn gzip_compressed(data: Seq<u8>, level: CompressionLevel) -> Result<Seq<u8>, Seq<char>>;

/// What the zstd encoder of `async-compression` produces from `data` at `level`.
pub uninterp spec fn zstd_compressed(data: Seq<u8>, level: CompressionLevel) -> Result<Seq<u8>, Seq<char>>;

/// What the lz4 encoder of `async-compression`, built with its default settings, produces from `data`.
pub uninterp spec fn lz4_compressed(data: Seq<u8>) -> Result<Seq<u8>, Seq<char>>;

/// What the brotli encoder of `async-compression` produces from `data` at `level`.
pub uninterp spec fn brotli_compressed(data: Seq<u8>, level: CompressionLevel) -> Result<Seq<u8>, Seq<char>>;

/// What the gzip decoder of `async-compression` produces from `data`.
pub uninterp spec fn gzip_decompressed(data: Seq<u8>) -> Result<Seq<u8>, Seq<char>>;

/// What the zstd decoder of `async-compression` produces from `data`.
pub uninterp spec fn zstd_decompressed(data: Seq<u8>) -> Result<Seq<u8>, Seq<char>>;

/// What the lz4 decoder of `async-compression` produces from `data`.
pub uninterp spec fn lz4_decompressed(data: Seq<u8>) -> Result<Seq<u8>, Seq<char>>;

/// What the brotli decoder of `async-compression` produces from `data`.
pub uninterp spec fn brotli_decompressed(data: Seq<u8>) -> Result<Seq<u8>, Seq<char>>;

/// `outcome` is `Ok(x)` whenever `data` is what the gzip encoder made of `x`.
pub open spec fn inverts_gzip(data: Seq<u8>, outcome: Result<Seq<u8>, Seq<char>>) -> bool {
    forall|x: Seq<u8>, l: CompressionLevel|
        #[trigger] gzip_compressed(x, l) == Ok::<Seq<u8>, Seq<char>>(data) ==> outcome == Ok::<Seq<u8>, Seq<char>>(x)
}

/// `outcome` is `Ok(x)` whenever `data` is what the zstd encoder made of `x`.
pub open spec fn inverts_zstd(data: Seq<u8>, outcome: Result<Seq<u8>, Seq<char>>) -> bool {
    forall|x: Seq<u8>, l: CompressionLevel|
        #[trigger] zstd_compressed(x, l) == Ok::<Seq<u8>, Seq<char>>(data) ==> outcome == Ok::<Seq<u8>, Seq<char>>(x)
}

/// `outcome` is `Ok(x)` whenever `data` is what the lz4 encoder made of `x`.
pub open spec fn inverts_lz4(data: Seq<u8>, outcome: Result<Seq<u8>, Seq<char>>) -> bool {
    forall|x: Seq<u8>| #[trigger] lz4_compressed(x) == Ok::<Seq<u8>, Seq<char>>(data) ==> outcome == Ok::<Seq<u8>, Seq<char>>(x)
}

/// `outcome` is `Ok(x)` whenever `data` is what the brotli encoder made of `x`.
pub open spec fn inverts_brotli(data: Seq<u8>, outcome: Result<Seq<u8>, Seq<char>>) -> bool {
    forall|x: Seq<u8>, l: CompressionLevel|
        #[trigger] brotli_compressed(x, l) == Ok::<Seq<u8>, Seq<char>>(data) ==> outcome == Ok::<Seq<u8>, Seq<char>>(x)
}

/// Runs `GzipEncoder::with_quality` over `data` to the end. The contract
/// claims only that the outcome (bytes, or the error's message) is a
/// function of `data` and `level`.
#[verifier::external_body]
fn gzip_encode(data: &[u8], level: CompressionLevel) -> (r: Result<Vec<u8>, String>)
    ensures
        outcome_view(&r) == gzip_compressed(data@, level),
{
    let level = match level {
        CompressionLevel::Fastest => Level::Fastest,
        CompressionLevel::Best => Level::Best,
        CompressionLevel::Default => Level::Default,
        CompressionLevel::Precise(q) => Level::Precise(q),
    };
    let mut encoder = GzipEncoder::with_quality(BufReader::new(Cursor::new(data)), level);
    let mut out = Vec::new();
    futures::executor::block_on(encoder.read_to_end(&mut out)).map(|_| out).map_err(|e| e.to_string())
}

/// Runs `ZstdEncoder::with_quality` over `data` to the end. The contract
/// claims only that the outcome is a function of `data` and `level`.
#[verifier::external_body]
fn zstd_encode(data: &[u8], level: CompressionLevel) -> (r: Result<Vec<u8>, String>)
    ensures
        outcome_view(&r) == zstd_compressed(data@, level),
{
    let level = match level {
        CompressionLevel::Fastest => Level::Fastest,
        CompressionLevel::Best => Level::Best,
        CompressionLevel::Default => Level::Default,
        CompressionLevel::Precise(q) => Level::Precise(q),
    };
    let mut encoder = ZstdEncoder::with_quality(BufReader::new(Cursor::new(data)), level);
    let mut out = Vec::new();
    futures::executor::block_on(encoder.read_to_end(&mut out)).map(|_| out).map_err(|e| e.to_string())
}

/// Runs `Lz4Encoder::new` over `data` to the end. The contract claims only
/// that the outcome is a function of `data`.
#[verifier::external_body]
fn lz4_encode(data: &[u8]) -> (r: Result<Vec<u8>, String>)
    ensures
        outcome_view(&r) == lz4_compressed(data@),
{
    let mut encoder = Lz4Encoder::new(BufReader::new(Cursor::new(data)));
    let mut out = Vec::new();
    futures::executor::block_on(encoder.read_to_end(&mut out)).map(|_| out).map_err(|e| e.to_string())
}

/// Runs `BrotliEncoder::with_quality` over `data` to the end. The contract
/// claims only that the outcome is a function of `data` and `level`.
#[verifier::external_body]
fn brotli_encode(data: &[u8], level: CompressionLevel) -> (r: Result<Vec<u8>, String>)
    ensures
        outcome_view(&r) == brotli_compressed(data@, level),
{
    let level = match level {
        CompressionLevel::Fastest => Level::Fastest,
        CompressionLevel::Best => Level::Best,
        CompressionLevel::Default => Level::Default,
        CompressionLevel::Precise(q) => Level::Precise(q),
    };
    let mut encoder = BrotliEncoder::with_quality(BufReader::new(Cursor::new(data)), level);
    let mut out = Vec::new();
    futures::executor::block_on(encoder.read_to_end(&mut out)).map(|_| out).map_err(|e| e.to_string())
}

/// Runs `GzipDecoder::new` over `data` to the end. The contract claims that
/// the outcome is a function of `data`, and that a buffer the gzip encoder
/// produced from `x` decodes to `x` (the codec is lossless).
#[verifier::external_body]
fn gzip_decode(data: &[u8]) -> (r: Result<Vec<u8>, String>)
    ensures
        outcome_view(&r) == gzip_decompressed(data@),
        inverts_gzip(data@, outcome_view(&r)),
{
    let mut decoder = GzipDecoder::new(BufReader::new(Cursor::new(data)));
    let mut out = Vec::new();
    futures::executor::block_on(decoder.read_to_end(&mut out)).map(|_| out).map_err(|e| e.to_string())
}

/// Runs `ZstdDecoder::new` over `data` to the end. The contract claims that
/// the outcome is a function of `data`, and that a buffer the zstd encoder
/// produced from `x` decodes to `x`.
#[verifier::external_body]
fn zstd_decode(data: &[u8]) -> (r: Result<Vec<u8>, String>)
    ensures
        outcome_view(&r) == zstd_decompressed(data@),
        inverts_zstd(data@, outcome_view(&r)),
{
    let mut decoder = ZstdDecoder::new(BufReader::new(Cursor::new(data)));
    let mut out = Vec::new();
    futures::executor::block_on(decoder.read_to_end(&mut out)).map(|_| out).map_err(|e| e.to_string())
}

/// Runs `Lz4Decoder::new` over `data` to the end. The contract claims that
/// the outcome is a function of `data`, and that a buffer the lz4 encoder
/// produced from `x` decodes to `x`.
#[verifier::external_body]
fn lz4_decode(data: &[u8]) -> (r: Result<Vec<u8>, String>)
    ensures
        outcome_view(&r) == lz4_decompressed(data@),
        inverts_lz4(data@, outcome_view(&r)),
{
    let mut decoder = Lz4Decoder::new(BufReader::new(Cursor::new(data)));
    let mut out = Vec::new();
    futures::executor::block_on(decoder.read_to_end(&mut out)).map(|_| out).map_err(|e| e.to_string())
}

/// Runs `BrotliDecoder::new` over `data` to the end. The contract claims
/// that the outcome is a function of `data`, and that a buffer the brotli
/// encoder produced from `x` decodes to `x`.
#[verifier::external_body]
fn brotli_decode(data: &[u8]) -> (r: Result<Vec<u8>, String>)
    ensures
        outcome_view(&r) == brotli_decompressed(data@),
        inverts_brotli(data@, outcome_view(&r)),
{
    let mut decoder = BrotliDecoder::new(BufReader::new(Cursor::new(data)));
    let mut out = Vec::new();
    futures::executor::block_on(decoder.read_to_end(&mut out)).map(|_| out).map_err(|e| e.to_string())
}

/// What `compress_data` gives for `data`: the data itself when the algorithm
/// is off or the payload is below the algorithm's threshold, else the
/// codec's output.
pub open spec fn compressed(data: Seq<u8>, algorithm: CompressionAlgorithm, level: CompressionLevel) -> Result<Seq<u8>, Seq<char>> {
    if !compresses(data.len() as int, algorithm) {
        Ok(data)
    } else {
        match algorithm {
            CompressionAlgorithm::NoCompression => Ok(data),
            CompressionAlgorithm::Gzip => gzip_compressed(data, level),
            CompressionAlgorithm::Zstd => zstd_compressed(data, level),
            CompressionAlgorithm::Lz4 => lz4_compressed(data),
            CompressionAlgorithm::Brotli => brotli_compressed(data, level),
        }
    }
}

/// `outcome` is `Ok(x)` whenever `data` is what `compress_data` made of a
/// payload `x` that it actually compressed (or of any `x` with compression off).
pub open spec fn restores_compressed(data: Seq<u8>, algorithm: CompressionAlgorithm, outcome: Result<Seq<u8>, Seq<char>>) -> bool {
    forall|x: Seq<u8>, level: CompressionLevel|
        (algorithm == CompressionAlgorithm::NoCompression || compresses(x.len() as int, algorithm))
            && #[trigger] compressed(x, algorithm, level) == Ok::<Seq<u8>, Seq<char>>(data)
            ==> outcome == Ok::<Seq<u8>, Seq<char>>(x)
}

/// What the codec of `algorithm` makes of `x` at `level`, whatever the
/// size of `x` (with compression off, `x` itself).
pub open spec fn encoded(x: Seq<u8>, algorithm: CompressionAlgorithm, level: CompressionLevel) -> Result<Seq<u8>, Seq<char>> {
    match algorithm {
        CompressionAlgorithm::NoCompression => Ok(x),
        CompressionAlgorithm::Gzip => gzip_compressed(x, level),
        CompressionAlgorithm::Zstd => zstd_compressed(x, level),
        CompressionAlgorithm::Lz4 => lz4_compressed(x),
        CompressionAlgorithm::Brotli => brotli_compressed(x, level),
    }
}

/// `outcome` is `Ok(x)` whenever `data` is what the codec of `algorithm`
/// made of a payload `x` of any length.
pub open spec fn restores_encoded(data: Seq<u8>, algorithm: CompressionAlgorithm, outcome: Result<Seq<u8>, Seq<char>>) -> bool {
    forall|x: Seq<u8>, level: CompressionLevel|
        #[trigger] encoded(x, algorithm, level) == Ok::<Seq<u8>, Seq<char>>(data) ==> outcome == Ok::<Seq<u8>, Seq<char>>(x)
}

/// Whether the decoder of `algorithm` gives back, on `data`, every payload
/// that its encoder turned into `data`.
pub open spec fn decoder_lossless(data: Seq<u8>, algorithm: CompressionAlgorithm) -> bool {
    match algorithm {
        CompressionAlgorithm::NoCompression => true,
        CompressionAlgorithm::Gzip => inverts_gzip(data, gzip_decompressed(data)),
        CompressionAlgorithm::Zstd => inverts_zstd(data, zstd_decompressed(data)),
        CompressionAlgorithm::Lz4 => inverts_lz4(data, lz4_decompressed(data)),
        CompressionAlgorithm::Brotli => inverts_brotli(data, brotli_decompressed(data)),
    }
}

/// What `decompress_data` gives for `data`.
pub open spec fn decompressed(data: Seq<u8>, algorithm: CompressionAlgorithm) -> Result<Seq<u8>, Seq<char>> {
    match algorithm {
        CompressionAlgorithm::NoCompression => Ok(data),
        CompressionAlgorithm::Gzip => gzip_decompressed(data),
        CompressionAlgorithm::Zstd => zstd_decompressed(data),
        CompressionAlgorithm::Lz4 => lz4_decompressed(data),
        CompressionAlgorithm::Brotli => brotli_decompressed(data),
    }
}

/// Decompression is the codec's decoder, whatever the payload's size:
/// with a lossless decoder, the codec's output for a payload `x` of any
/// length, even below the compression threshold, decompresses to `x`; the
/// outcome on any data is the decoder's outcome; and with compression off
/// the data comes back as it is.
pub proof fn lemma_decompression_undoes_codec(
    x: Seq<u8>,
    data: Seq<u8>,
    algorithm: CompressionAlgorithm,
    level: CompressionLevel,
)
    ensures
        encoded(x, algorithm, level) == Ok::<Seq<u8>, Seq<char>>(data) && decoder_lossless(data, algorithm)
            ==> decompressed(data, algorithm) == Ok::<Seq<u8>, Seq<char>>(x),
        algorithm == CompressionAlgorithm::NoCompression ==> decompressed(data, algorithm) == Ok::<Seq<u8>, Seq<char>>(data),
        algorithm == CompressionAlgorithm::Gzip ==> decompressed(data, algorithm) == gzip_decompressed(data),
        algorithm == CompressionAlgorithm::Zstd ==> decompressed(data, algorithm) == zstd_decompressed(data),
        algorithm == CompressionAlgorithm::Lz4 ==> decompressed(data, algorithm) == lz4_decompressed(data),
        algorithm == CompressionAlgorithm::Brotli ==> decompressed(data, algorithm) == brotli_decompressed(data),
{
    if encoded(x, algorithm, level) == Ok::<Seq<u8>, Seq<char>>(data) && decoder_lossless(data, algorithm) {
        match algorithm {
            CompressionAlgorithm::NoCompression => {},
            CompressionAlgorithm::Gzip => { assert(gzip_compressed(x, level) == Ok::<Seq<u8>, Seq<char>>(data)); },
            CompressionAlgorithm::Zstd => { assert(zstd_compressed(x, level) == Ok::<Seq<u8>, Seq<char>>(data)); },
            CompressionAlgorithm::Lz4 => { assert(lz4_compressed(x) == Ok::<Seq<u8>, Seq<char>>(data)); },
            CompressionAlgorithm::Brotli => { assert(brotli_compressed(x, level) == Ok::<Seq<u8>, Seq<char>>(data)); },
        }
    }
}

/// Compresses `data` with `algorithm` at `level`; payloads below the
/// algorithm's threshold, and every payload when compression is off, come
/// back unchanged.
pub fn compress_data(data: &[u8], algorithm: CompressionAlgorithm, level: CompressionLevel) -> (r: Result<Vec<u8>, String>)
    ensures
        outcome_view(&r) == compressed(data@, algorithm, level),
        !compresses(data@.len() as int, algorithm) ==> r is Ok && r->Ok_0@ == data@,
{
    if algorithm == CompressionAlgorithm::NoCompression || data.len() < get_min_compress_size(algorithm) {
        return Ok(copy_bytes(data));
    }
    match algorithm {
        CompressionAlgorithm::NoCompression => Ok(copy_bytes(data)),
        CompressionAlgorithm::Gzip => gzip_encode(data, level),
        CompressionAlgorithm::Zstd => zstd_encode(data, level),
        CompressionAlgorithm::Lz4 => lz4_encode(data),
        CompressionAlgorithm::Brotli => brotli_encode(data, level),
    }
}

/// Decompresses `data` that was compressed with `algorithm`; with
/// compression off the data comes back unchanged. Whatever `compress_data`
/// compressed with an algorithm decompresses back to the payload it was given.
pub fn decompress_data(data: &[u8], algorithm: CompressionAlgorithm) -> (r: Result<Vec<u8>, String>)
    ensures
        outcome_view(&r) == decompressed(data@, algorithm),
        restores_compressed(data@, algorithm, outcome_view(&r)),
        restores_encoded(data@, algorithm, outcome_view(&r)),
        decoder_lossless(data@, algorithm),
{
    match algorithm {
        CompressionAlgorithm::NoCompression => Ok(copy_bytes(data)),
        CompressionAlgorithm::Gzip => gzip_decode(data),
        CompressionAlgorithm::Zstd => zstd_decode(data),
        CompressionAlgorithm::Lz4 => lz4_decode(data),
        CompressionAlgorithm::Brotli => brotli_decode(data),
    }
}

} // verus!
