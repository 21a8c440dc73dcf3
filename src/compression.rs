use std::io::Read;
use std::io::Write;
use vstd::prelude::*;
use vstd::slice::slice_to_vec;

verus! {

/// The compression selector a caller picks.
#[derive(Clone, Copy, Debug, PartialEq, Eq, Structural)]
pub enum CompressionType {
    Uncompressed,
    Zlib,
}

#[derive(Clone, Copy, Debug, PartialEq, Eq, Structural)]
pub enum CompressionError {
    CompressionFailed,
    DecompressionFailed,
}

/// The compression strategy resolved from a `CompressionType`.
#[derive(Clone, Copy, Debug, PartialEq, Eq, Structural)]
pub enum Compression {
    Uncompressed,
    Zlib,
}

/// The zlib stream that the default compression level writes for `b`.
pub uninterp spec fn zlib_deflate(b: Seq<u8>) -> Seq<u8>;

/// What inflating the zlib stream at the front of `b` gives, if `b` starts with one.
pub uninterp spec fn zlib_inflate(b: Seq<u8>) -> Option<Seq<u8>>;

/// Relies on flate2::write::ZlibEncoder at flate2::Compression::default(): the stream it
/// writes for `data`; writing into a `Vec` at that level does not fail.
#[verifier::external_body]
fn zlib_compress(data: &[u8]) -> (r: Option<Vec<u8>>)
    ensures
        r is Some,
        r matches Some(c) ==> c@ == zlib_deflate(data@),
{
    let mut encoder = flate2::write::ZlibEncoder::new(Vec::new(), flate2::Compression::default());
    encoder.write_all(data).ok()?;
    encoder.finish().ok()
}

/// Relies on flate2::read::ZlibDecoder read to the end: it inflates a zlib stream, fails on
/// a malformed or truncated one, and gives back what the encoder was given.
#[verifier::external_body]
fn zlib_decompress(data: &[u8]) -> (r: Option<Vec<u8>>)
    ensures
        r matches Some(p) ==> zlib_inflate(data@) == Some(p@),
        r is None <==> zlib_inflate(data@) is None,
        r is None ==> forall|x: Seq<u8>| data@ != #[trigger] zlib_deflate(x),
        r matches Some(p) ==> forall|x: Seq<u8>| data@ == #[trigger] zlib_deflate(x) ==> p@ == x,
{
    let mut decoder = flate2::read::ZlibDecoder::new(data);
    let mut out = Vec::new();
    decoder.read_to_end(&mut out).ok()?;
    Some(out)
}

impl Compression {
    /// The strategy a selector stands for.
    pub open spec fn of_kind(kind: CompressionType) -> Compression {
        match kind {
            CompressionType::Uncompressed => Compression::Uncompressed,
            CompressionType::Zlib => Compression::Zlib,
        }
    }

    /// What `compress` makes of `b`.
    pub open spec fn packed(self, b: Seq<u8>) -> Seq<u8> {
        match self {
            Compression::Uncompressed => b,
            Compression::Zlib => zlib_deflate(b),
        }
    }

    /// What `decompress` makes of `b`; `None` where it fails.
    pub open spec fn unpacked(self, b: Seq<u8>) -> Option<Seq<u8>> {
        match self {
            Compression::Uncompressed => Some(b),
            Compression::Zlib => zlib_inflate(b),
        }
    }

    pub fn new(compression_type: CompressionType) -> (r: Self)
        ensures
            r == Self::of_kind(compression_type),
    {
        match compression_type {
            CompressionType::Uncompressed => Compression::Uncompressed,
            CompressionType::Zlib => Compression::Zlib,
        }
    }

    /// Compresses `data`: a copy for `Uncompressed`, a zlib stream for `Zlib`.
    pub fn compress(&self, data: &[u8]) -> (r: Result<Vec<u8>, CompressionError>)
        ensures
            r matches Ok(c) && c@ == self.packed(data@),
    {
        match self {
            Compression::Uncompressed => Ok(slice_to_vec(data)),
            Compression::Zlib => match zlib_compress(data) {
                Some(c) => Ok(c),
                None => Err(CompressionError::CompressionFailed),
            },
        }
    }

    /// Decompresses `data`. Whatever `compress` made of some `x` comes back as `x`.
    pub fn decompress(&self, data: &[u8]) -> (r: Result<Vec<u8>, CompressionError>)
        ensures
            match self.unpacked(data@) {
                Some(p) => r matches Ok(v) && v@ == p,
                None => r == Err::<Vec<u8>, CompressionError>(CompressionError::DecompressionFailed),
            },
            forall|x: Seq<u8>| data@ == #[trigger] self.packed(x) ==> (r matches Ok(v) && v@ == x),
    {
        match self {
            Compression::Uncompressed => Ok(slice_to_vec(data)),
            Compression::Zlib => match zlib_decompress(data) {
                Some(p) => Ok(p),
                None => Err(CompressionError::DecompressionFailed),
            },
        }
    }
}

} // verus!
