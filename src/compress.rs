use vstd::prelude::*;

verus! {

/// The error type of zstd's calls, `std::io::Error`, carried through unread.
#[verifier::external_type_specification]
#[verifier::external_body]
pub struct ExIoError(std::io::Error);

/// The zstd frame that compressing `data` at `level` produces.
pub uninterp spec fn zstd_frame(data: Seq<u8>, level: i32) -> Seq<u8>;

/// The highest compression level of the bundled zstd (`ZSTD_MAX_CLEVEL`).
pub const ZSTD_MAX_LEVEL: i32 = 22;

/// Relies on `zstd::compression_level_range`: the top of the range is
/// `ZSTD_maxCLevel()`, which the bundled zstd 1.5.7 fixes at 22.
#[verifier::external_body]
fn max_compression_level() -> (r: i32)
    ensures
        r == ZSTD_MAX_LEVEL,
{
    *zstd::compression_level_range().end()
}

/// Relies on `zstd::bulk::compress`: a fresh context, a level that zstd clamps
/// into range, no dictionary and an output buffer of `compress_bound` size, so
/// it succeeds; the frame depends on the data and the level alone.
#[verifier::external_body]
fn zstd_compress(data: &[u8], level: i32) -> (r: Result<Vec<u8>, std::io::Error>)
    ensures
        r is Ok,
        r matches Ok(v) ==> v@ == zstd_frame(data@, level),
{
    zstd::bulk::compress(data, level)
}

/// Why an artifact could not be compressed.
#[derive(Debug, Clone, Copy, PartialEq, Eq, Structural)]
pub enum CompressionError {
    /// The compressor could not be set up or did not finish.
    CompressorFailed,
}

/// Compresses an artifact at the given level.
pub fn compress_with_level(data: &Vec<u8>, level: i32) -> (r: Result<Vec<u8>, CompressionError>)
    ensures
        (r matches Ok(v) && v@ == zstd_frame(data@, level)),
{
    match zstd_compress(data.as_slice(), level) {
        Ok(v) => Ok(v),
        Err(_) => Err(CompressionError::CompressorFailed),
    }
}

/// Compresses an artifact at the highest level that zstd offers.
pub fn compress_artifact(data: &Vec<u8>) -> (r: Result<Vec<u8>, CompressionError>)
    ensures
        (r matches Ok(v) && v@ == zstd_frame(data@, ZSTD_MAX_LEVEL)),
{
    let level = max_compression_level();
    compress_with_level(data, level)
}

} // verus!
