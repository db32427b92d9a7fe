use vstd::prelude::*;
use crate::codec::{crc32, crc32_of};
use crate::crypto::{base64_encode, base64_of};
use crate::error::ChunkError;
use crate::file::ChunkData;

verus! {

/// The chunk's addressable identifier on the edge: base64 (standard
/// alphabet, padded) of its SHA.
pub fn chunk_id(chunk: &ChunkData) -> (r: String)
    ensures
        r@ == base64_of(chunk.sha@),
{
    base64_encode(chunk.sha.as_slice())
}

/// Verifies a decoded chunk against its descriptor: the length must
/// equal the recorded plaintext size and the CRC-32 must match.
pub fn verify_chunk(data: &[u8], chunk: &ChunkData) -> (r: Result<(), ChunkError>)
    ensures
        r is Ok <==> data@.len() == chunk.original_size && crc32_of(data@) == chunk.crc,
        data@.len() != chunk.original_size ==> r == Err::<(), ChunkError>(
            ChunkError::ChunkSizeMismatch,
        ),
        data@.len() == chunk.original_size && crc32_of(data@) != chunk.crc ==> r == Err::<
            (),
            ChunkError,
        >(ChunkError::ChunkCrcMismatch),
{
    if data.len() != chunk.original_size as usize {
        return Err(ChunkError::ChunkSizeMismatch);
    }
    if crc32(data) != chunk.crc {
        return Err(ChunkError::ChunkCrcMismatch);
    }
    Ok(())
}

/// Start of the part of `[off, off + size)` selected by a range
/// starting at `s`.
pub open spec fn window_lo(off: int, s: int) -> int {
    if s > off {
        s
    } else {
        off
    }
}

/// End of the part of `[off, off + size)` selected by a range ending
/// at `e`.
pub open spec fn window_hi(off: int, size: int, e: int) -> int {
    if e < off + size {
        e
    } else {
        off + size
    }
}

/// The part of a chunk a download range selects: how many bytes of the
/// decoded chunk to skip, how many to write, and the absolute position
/// to write them at.  `None` when the chunk lies entirely outside the
/// range; without a range the whole chunk is written at its offset.
pub fn chunk_write_window(chunk: &ChunkData, range: Option<(u64, u64)>) -> (r: Option<
    (u64, u64, u64),
>)
    requires
        range matches Some(se) ==> se.0 <= se.1,
    ensures
        range is None ==> r == Some::<(u64, u64, u64)>(
            (0, chunk.original_size as u64, chunk.offset),
        ),
        ({
            let off = chunk.offset as int;
            let size = chunk.original_size as int;
            range matches Some(se) ==> {
                let lo = window_lo(off, se.0 as int);
                let hi = window_hi(off, size, se.1 as int);
                if lo < hi {
                    r == Some::<(u64, u64, u64)>(((lo - off) as u64, (hi - lo) as u64, lo as u64))
                } else {
                    r is None
                }
            }
        }),
{
    match range {
        None => Some((0, chunk.original_size as u64, chunk.offset)),
        Some((s, e)) => {
            let off = chunk.offset as u128;
            let end = off + (chunk.original_size as u128);
            let lo = if (s as u128) > off {
                s as u128
            } else {
                off
            };
            let hi = if (e as u128) < end {
                e as u128
            } else {
                end
            };
            if lo < hi {
                Some(((lo - off) as u64, (hi - lo) as u64, lo as u64))
            } else {
                None
            }
        },
    }
}

} // verus!
