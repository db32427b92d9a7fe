use vstd::prelude::*;
use vstd::bytes::{spec_u32_from_le_bytes, u32_from_le_bytes};
use vstd::slice::slice_subrange;
use crate::codec::{crc32, crc32_of, lzma_decoded, lzma_decompress, unzip_first_entry, unzipped_first};
use crate::crypto::{decrypt_cbc_with_iv_extraction, iv_extracted_plain};
use crate::error::ChunkError;

verus! {

/// First magic byte of the LZMA single-chunk container, `'V'`.
pub const VZ_MAGIC_0: u8 = 0x56;

/// Second magic byte of the LZMA single-chunk container, `'Z'`.
pub const VZ_MAGIC_1: u8 = 0x5A;

/// First magic byte of the zip container, `'P'`.
pub const PK_MAGIC_0: u8 = 0x50;

/// Second magic byte of the zip container, `'K'`.
pub const PK_MAGIC_1: u8 = 0x4B;

/// The LZMA stream of a container: everything between the two magic
/// bytes and the eight-byte tail.
pub open spec fn vz_stream(p: Seq<u8>) -> Seq<u8> {
    p.subrange(2, p.len() - 8)
}

/// The container's declared CRC-32 of the decompressed output, stored
/// little-endian in the first half of the tail.
pub open spec fn vz_tail_crc(p: Seq<u8>) -> u32 {
    spec_u32_from_le_bytes(p.subrange(p.len() - 8, p.len() - 4))
}

/// The container's declared decompressed length, stored little-endian
/// in the second half of the tail.
pub open spec fn vz_tail_len(p: Seq<u8>) -> u32 {
    spec_u32_from_le_bytes(p.subrange(p.len() - 4, p.len() as int))
}

/// What decoding an LZMA single-chunk container yields: the stream is
/// decompressed, truncated to the declared length, and checked against
/// the declared CRC-32; `None` on any failure.
pub open spec fn vz_decoded(p: Seq<u8>) -> Option<Seq<u8>> {
    if p.len() < 10 {
        None
    } else {
        match lzma_decoded(vz_stream(p)) {
            Option::None => None,
            Option::Some(out) => {
                let n = vz_tail_len(p) as int;
                if out.len() < n {
                    None
                } else if crc32_of(out.take(n)) != vz_tail_crc(p) {
                    None
                } else {
                    Some(out.take(n))
                }
            },
        }
    }
}

/// What decoding a chunk plaintext yields once the container codec is
/// selected by the two-byte magic; `None` on an unknown magic or any
/// container failure.
pub open spec fn container_decoded(p: Seq<u8>) -> Option<Seq<u8>> {
    if p.len() < 2 {
        None
    } else if p[0] == VZ_MAGIC_0 && p[1] == VZ_MAGIC_1 {
        vz_decoded(p)
    } else if p[0] == PK_MAGIC_0 && p[1] == PK_MAGIC_1 {
        unzipped_first(p)
    } else {
        None
    }
}

/// What the whole chunk pipeline yields from a raw encrypted body and a
/// depot key: decrypt with the embedded IV, then decode the container.
pub open spec fn chunk_decoded(body: Seq<u8>, key: Seq<u8>) -> Option<Seq<u8>> {
    match iv_extracted_plain(body, key) {
        Option::None => None,
        Option::Some(p) => container_decoded(p),
    }
}

/// Decodes an LZMA single-chunk container: decompresses the stream,
/// truncates to the declared length and verifies the declared CRC-32.
pub fn vz_decompress(data: &[u8]) -> (r: Result<Vec<u8>, ChunkError>)
    requires
        data@.len() >= 2,
        data@[0] == VZ_MAGIC_0,
        data@[1] == VZ_MAGIC_1,
    ensures
        r is Ok <==> vz_decoded(data@) is Some,
        r is Ok ==> r->Ok_0@ == vz_decoded(data@)->Some_0,
        data@.len() < 10 ==> r == Err::<Vec<u8>, ChunkError>(ChunkError::FormatError),
        data@.len() >= 10 && lzma_decoded(vz_stream(data@)) is None ==> r matches Err(
            ChunkError::LzmaError(_),
        ),
{
    if data.len() < 10 {
        return Err(ChunkError::FormatError);
    }
    let stream = slice_subrange(data, 2, data.len() - 8);
    let mut out = match lzma_decompress(stream) {
        Ok(v) => v,
        Err(m) => {
            return Err(ChunkError::LzmaError(m));
        },
    };
    let tail_crc = u32_from_le_bytes(slice_subrange(data, data.len() - 8, data.len() - 4));
    let tail_len = u32_from_le_bytes(slice_subrange(data, data.len() - 4, data.len()));
    if out.len() < tail_len as usize {
        return Err(ChunkError::FormatError);
    }
    out.truncate(tail_len as usize);
    proof {
        assert(out@ =~= lzma_decoded(vz_stream(data@))->Some_0.take(vz_tail_len(data@) as int));
    }
    if crc32(out.as_slice()) != tail_crc {
        return Err(ChunkError::TailCrcMismatch);
    }
    Ok(out)
}

/// Transforms one raw encrypted chunk body into plaintext bytes:
/// decrypts with the embedded IV, then decompresses according to the
/// two-byte container magic.
pub fn decrypt_and_decompress(data: &[u8], depot_key: &[u8; 32]) -> (r: Result<
    Vec<u8>,
    ChunkError,
>)
    ensures
        r is Ok <==> chunk_decoded(data@, depot_key@) is Some,
        r is Ok ==> r->Ok_0@ == chunk_decoded(data@, depot_key@)->Some_0,
        iv_extracted_plain(data@, depot_key@) is None ==> r == Err::<Vec<u8>, ChunkError>(
            ChunkError::CryptoError,
        ),
        ({
            let p = iv_extracted_plain(data@, depot_key@);
            p is Some && (p->Some_0.len() < 2 || !(p->Some_0[0] == VZ_MAGIC_0 && p->Some_0[1]
                == VZ_MAGIC_1) && !(p->Some_0[0] == PK_MAGIC_0 && p->Some_0[1] == PK_MAGIC_1))
                ==> r == Err::<Vec<u8>, ChunkError>(ChunkError::FormatError)
        }),
{
    let plain = match decrypt_cbc_with_iv_extraction(data, depot_key) {
        Ok(v) => v,
        Err(_) => {
            return Err(ChunkError::CryptoError);
        },
    };
    if plain.len() < 2 {
        return Err(ChunkError::FormatError);
    }
    let b0 = plain[0];
    let b1 = plain[1];
    if b0 == VZ_MAGIC_0 && b1 == VZ_MAGIC_1 {
        vz_decompress(plain.as_slice())
    } else if b0 == PK_MAGIC_0 && b1 == PK_MAGIC_1 {
        match unzip_first_entry(plain.as_slice()) {
            Ok(v) => Ok(v),
            Err(m) => Err(ChunkError::ArchiveError(m)),
        }
    } else {
        Err(ChunkError::FormatError)
    }
}

} // verus!
