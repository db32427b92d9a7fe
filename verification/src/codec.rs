use vstd::prelude::*;

verus! {

/// What fully reading the first entry of a zip archive yields, or
/// `None` when the bytes are not a readable archive.
pub uninterp spec fn unzipped_first(data: Seq<u8>) -> Option<Seq<u8>>;

/// What decompressing an LZMA stream yields, or `None` when the
/// stream is malformed.
pub uninterp spec fn lzma_decoded(data: Seq<u8>) -> Option<Seq<u8>>;

/// The CRC-32 checksum of a byte sequence.
pub uninterp spec fn crc32_of(data: Seq<u8>) -> u32;

/// Relies on zip::ZipArchive: reading the first entry of an archive
/// depends on the archive bytes alone.
#[verifier::external_body]
pub(crate) fn unzip_first_entry(data: &[u8]) -> (r: Result<Vec<u8>, String>)
    ensures
        r is Ok <==> unzipped_first(data@) is Some,
        r is Ok ==> r->Ok_0@ == unzipped_first(data@)->Some_0,
{
    let cursor = std::io::Cursor::new(data);
    let mut archive = zip::ZipArchive::new(cursor).map_err(|e| e.to_string())?;
    let mut entry = archive.by_index(0).map_err(|e| e.to_string())?;
    let mut out = Vec::new();
    std::io::Read::read_to_end(&mut entry, &mut out).map_err(|e| e.to_string())?;
    Ok(out)
}

/// Relies on lzma_rs::lzma_decompress: the result depends on the
/// stream bytes alone.
#[verifier::external_body]
pub(crate) fn lzma_decompress(data: &[u8]) -> (r: Result<Vec<u8>, String>)
    ensures
        r is Ok <==> lzma_decoded(data@) is Some,
        r is Ok ==> r->Ok_0@ == lzma_decoded(data@)->Some_0,
{
    let mut input = std::io::Cursor::new(data);
    let mut out = Vec::new();
    lzma_rs::lzma_decompress(&mut input, &mut out).map_err(|e| e.to_string())?;
    Ok(out)
}

/// Relies on crc32fast::hash: the checksum depends on the bytes alone.
#[verifier::external_body]
pub(crate) fn crc32(data: &[u8]) -> (r: u32)
    ensures
        r == crc32_of(data@),
{
    crc32fast::hash(data)
}

} // verus!
