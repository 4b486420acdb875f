//! The payload codec: a bundle's tar archive is stored zstd-compressed.
use vstd::prelude::*;
use vstd::string::*;
use crate::error::LynxError;
use crate::text::concat;

verus! {

/// What zstd's frame decoder produces from `data`, or `None` where it
/// reports an error.
pub uninterp spec fn zstd_decompressed(data: Seq<u8>) -> Option<Seq<u8>>;

/// What zstd's frame encoder produces from `data` at compression `level`,
/// or `None` where it reports an error.
pub uninterp spec fn zstd_compressed(data: Seq<u8>, level: int) -> Option<Seq<u8>>;

/// `zstd::stream::decode_all` on an in-memory frame. The result is named by
/// `zstd_decompressed`; the error is carried as its message.
#[verifier::external_body]
pub(crate) fn zstd_decode_all(data: &[u8]) -> (r: Result<Vec<u8>, String>)
    ensures
        r is Ok <==> zstd_decompressed(data@) is Some,
        r matches Ok(v) ==> zstd_decompressed(data@) == Some(v@),
{
    zstd::stream::decode_all(data).map_err(|e| e.to_string())
}

/// `zstd::stream::encode_all` on in-memory bytes. The result is named by
/// `zstd_compressed`, and, zstd being lossless, decoding what it produced
/// gives back `data`. The error is carried as its message.
#[verifier::external_body]
pub(crate) fn zstd_encode_all(data: &[u8], level: i32) -> (r: Result<Vec<u8>, String>)
    ensures
        r is Ok <==> zstd_compressed(data@, level as int) is Some,
        r matches Ok(v) ==> zstd_compressed(data@, level as int) == Some(v@),
        r matches Ok(v) ==> zstd_decompressed(v@) == Some(data@),
{
    zstd::stream::encode_all(data, level).map_err(|e| e.to_string())
}

/// The compression level that bundles are written with.
pub const BUNDLE_COMPRESSION_LEVEL: i32 = 3;

/// Compresses a bundle's tar archive. On failure the error is
/// `LynxError::Compression` with zstd's message.
pub fn compress_payload(tar_bytes: &[u8]) -> (r: Result<Vec<u8>, LynxError>)
    ensures
        r is Ok <==> zstd_compressed(tar_bytes@, 3) is Some,
        r matches Ok(v) ==> zstd_compressed(tar_bytes@, 3) == Some(v@),
        // what a bundle is written as is read back unchanged
        r matches Ok(v) ==> zstd_decompressed(v@) == Some(tar_bytes@),
        r matches Err(e) ==> e is Compression,
{
    match zstd_encode_all(tar_bytes, BUNDLE_COMPRESSION_LEVEL) {
        Ok(v) => Ok(v),
        Err(msg) => Err(LynxError::Compression(msg)),
    }
}

/// Decompresses a bundle back into its tar archive. On failure the error is
/// `LynxError::Extract` with the message `Cannot init zstd decoder: ` and
/// zstd's message.
pub fn decompress_payload(data: &[u8]) -> (r: Result<Vec<u8>, LynxError>)
    ensures
        r is Ok <==> zstd_decompressed(data@) is Some,
        r matches Ok(v) ==> zstd_decompressed(data@) == Some(v@),
        r matches Err(e) ==> exists|m: Seq<char>| e@ == crate::error::ErrorView::Extract(
            "Cannot init zstd decoder: "@ + m,
        ),
{
    match zstd_decode_all(data) {
        Ok(v) => Ok(v),
        Err(msg) => {
            let m = concat("Cannot init zstd decoder: ", msg.as_str());
            assert(m@ == "Cannot init zstd decoder: "@ + msg@);
            Err(LynxError::Extract(m))
        },
    }
}

} // verus!
