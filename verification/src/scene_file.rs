use vstd::prelude::*;

verus! {

/// The effort that a scene file is compressed with, the highest there is.
pub const COMPRESSION_LEVEL: u8 = 10;

/// `miniz_oxide::inflate::DecompressError`, what the decoder fails with. It
/// is carried from the decoder to [`unpack`] and not looked into.
#[verifier::external_type_specification]
#[verifier::external_body]
pub struct ExDecompressError(miniz_oxide::inflate::DecompressError);

/// The raw DEFLATE stream that `miniz_oxide` makes of `data` at `level`.
pub uninterp spec fn deflated(data: Seq<u8>, level: u8) -> Seq<u8>;

/// What `miniz_oxide` reads out of the raw DEFLATE stream `packed`, or
/// `None` where it rejects it.
pub uninterp spec fn inflated(packed: Seq<u8>) -> Option<Seq<u8>>;

/// Calls `miniz_oxide::deflate::compress_to_vec`. The stream depends on
/// `data` and `level` alone. That the crate's own decoder reads `data` back
/// out of it is what the crate documents as its round trip; it is taken on
/// trust here.
#[verifier::external_body]
fn compress_to_vec(data: &[u8], level: u8) -> (packed: Vec<u8>)
    ensures
        packed@ == deflated(data@, level),
        inflated(packed@) == Some(data@),
{
    miniz_oxide::deflate::compress_to_vec(data, level)
}

/// Calls `miniz_oxide::inflate::decompress_to_vec`, which decodes without a
/// limit on the output and fails on a stream that is malformed or cut short.
#[verifier::external_body]
fn decompress_to_vec(packed: &[u8]) -> (data: Result<
    Vec<u8>,
    miniz_oxide::inflate::DecompressError,
>)
    ensures
        match data {
            Ok(bytes) => inflated(packed@) == Some(bytes@),
            Err(_) => inflated(packed@) is None,
        },
{
    miniz_oxide::inflate::decompress_to_vec(packed)
}

/// The contents of a scene file for the encoded scene `encoded`.
pub fn pack(encoded: &[u8]) -> (contents: Vec<u8>)
    ensures
        contents@ == deflated(encoded@, COMPRESSION_LEVEL),
        inflated(contents@) == Some(encoded@),
{
    compress_to_vec(encoded, COMPRESSION_LEVEL)
}

/// The encoded scene inside the contents of a scene file, or `None` where
/// the contents are no such file.
pub fn unpack(contents: &[u8]) -> (encoded: Option<Vec<u8>>)
    ensures
        match encoded {
            Some(bytes) => inflated(contents@) == Some(bytes@),
            None => inflated(contents@) is None,
        },
{
    match decompress_to_vec(contents) {
        Ok(bytes) => Some(bytes),
        Err(_) => None,
    }
}

} // verus!
