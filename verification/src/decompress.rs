//! LZMA decompression for hour files.
//!
//! The feed serves each hour as a bare LZMA stream without container
//! framing. Decoding is deterministic in the input bytes; the library
//! names the decoded form and checks everything downstream of it.

use vstd::prelude::*;

verus! {

/// Errors that can occur during decompression.
#[derive(Debug, Clone)]
pub enum DecompressError {
    /// LZMA decompression failed; holds the decoder's message.
    LzmaError(String),
    /// Empty input data.
    EmptyInput,
}

/// The bytes an LZMA stream decodes to, or `None` when the stream is
/// malformed. The decoder's result depends on the input alone.
pub uninterp spec fn lzma_plain(compressed: Seq<u8>) -> Option<Seq<u8>>;

/// Relies on lzma_rs::lzma_decompress: decodes the whole input stream
/// into the output buffer, deterministically in the input bytes, and
/// fails on a malformed stream.
#[verifier::external_body]
fn lzma_decode(compressed: &Vec<u8>) -> (r: Result<Vec<u8>, String>)
    ensures
        r is Ok <==> lzma_plain(compressed@) is Some,
        r matches Ok(v) ==> lzma_plain(compressed@) == Some(v@),
{
    let mut output: Vec<u8> = Vec::new();
    let mut reader = std::io::BufReader::new(std::io::Cursor::new(compressed.as_slice()));
    match lzma_rs::lzma_decompress(&mut reader, &mut output) {
        Ok(()) => Ok(output),
        Err(e) => Err(e.to_string()),
    }
}

/// Decompresses an LZMA-compressed hour file.
///
/// Empty input fails distinctly; a malformed stream fails with the
/// decoder's message; otherwise the result is the decoded byte sequence.
pub fn decompress_bi5(compressed: &Vec<u8>) -> (r: Result<Vec<u8>, DecompressError>)
    ensures
        r matches Err(DecompressError::EmptyInput) <==> compressed@.len() == 0,
        r is Ok <==> compressed@.len() > 0 && lzma_plain(compressed@) is Some,
        r matches Ok(v) ==> Some(v@) == lzma_plain(compressed@),
{
    if compressed.len() == 0 {
        return Err(DecompressError::EmptyInput);
    }
    match lzma_decode(compressed) {
        Ok(v) => Ok(v),
        Err(m) => Err(DecompressError::LzmaError(m)),
    }
}

} // verus!
