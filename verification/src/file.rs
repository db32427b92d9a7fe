use vstd::prelude::*;
use vstd::string::StrSliceExecFns;

verus! {

/// Flag bit marking a manifest entry as a directory rather than a
/// regular file.
pub const FLAG_DIRECTORY: u32 = 64;

/// One compressed, encrypted, independently addressable slice of a
/// file.
#[derive(Debug)]
pub struct ChunkData {
    /// SHA-1 of the chunk; its base64 encoding addresses the chunk on
    /// the edge.
    pub sha: Vec<u8>,
    /// CRC-32 of the decoded chunk bytes.
    pub crc: u32,
    /// Absolute offset of the chunk in the reconstructed file.
    pub offset: u64,
    /// Plaintext, uncompressed size.
    pub original_size: u32,
    /// Size as stored and transferred.
    pub compressed_size: u32,
}

/// The plain values of one chunk: SHA, CRC, offset, plaintext size,
/// stored size.
pub type ChunkEntry = (Seq<u8>, u32, u64, u32, u32);

/// The plain values of one file: name, size, flags, name SHA, content
/// SHA, link target, chunks.
pub type FileEntry = (Seq<char>, u64, u32, Seq<u8>, Seq<u8>, Seq<char>, Seq<ChunkEntry>);

/// The plain values of a chunk, in field order.
pub open spec fn chunk_as_entry(c: ChunkData) -> ChunkEntry {
    (c.sha@, c.crc, c.offset, c.original_size, c.compressed_size)
}

/// One file of a depot manifest.
#[derive(Debug)]
pub struct ManifestFile {
    /// Depot the file belongs to.
    pub depot_id: u32,
    /// File name; base64-encoded ciphertext while the manifest's names
    /// are encrypted.
    pub filename: String,
    /// Logical file size in bytes.
    pub size: u64,
    /// Flags bitfield.
    pub flags: u32,
    /// SHA-1 of the file name.
    pub sha_filename: Vec<u8>,
    /// SHA-1 of the file content; advisory, not checked by downloads.
    pub sha_content: Vec<u8>,
    /// Chunks in file order.
    pub chunks: Vec<ChunkData>,
    /// Symbolic-link target; empty when the entry is not a link.
    pub linktarget: String,
}

/// The plain values of a file, in field order, with its chunk list
/// flattened to plain values.
pub open spec fn file_as_entry(f: ManifestFile) -> FileEntry {
    (
        f.filename@,
        f.size,
        f.flags,
        f.sha_filename@,
        f.sha_content@,
        f.linktarget@,
        f.chunks@.map_values(|c: ChunkData| chunk_as_entry(c)),
    )
}

/// Sum of the chunks' plaintext sizes.
pub open spec fn sum_original(chunks: Seq<ChunkData>) -> int
    decreases chunks.len(),
{
    if chunks.len() == 0 {
        0
    } else {
        sum_original(chunks.drop_last()) + chunks.last().original_size
    }
}

/// Adjacent chunks `i` and `i + 1` are in order and do not overlap.
pub open spec fn ordered_pair(chunks: Seq<ChunkData>, i: int) -> bool {
    chunks[i].offset < chunks[i + 1].offset && chunks[i].offset + chunks[i].original_size
        <= chunks[i + 1].offset
}

/// Chunks are strictly ordered by offset and do not overlap.
pub open spec fn chunks_ordered(chunks: Seq<ChunkData>) -> bool {
    forall|i: int| 0 <= i < chunks.len() - 1 ==> #[trigger] ordered_pair(chunks, i)
}

impl ManifestFile {
    /// A regular file: not a directory and not a symbolic link.
    pub open spec fn is_regular(self) -> bool {
        self.flags & FLAG_DIRECTORY == 0 && self.linktarget@.len() == 0
    }

    /// The layout invariant: chunks are strictly ordered by offset
    /// without overlap, and for a regular file their plaintext sizes
    /// sum to the file size.
    pub open spec fn wf(self) -> bool {
        &&& chunks_ordered(self.chunks@)
        &&& self.is_regular() ==> sum_original(self.chunks@) == self.size
    }
}

proof fn lemma_sum_original_take(chunks: Seq<ChunkData>, i: int)
    requires
        0 <= i < chunks.len(),
    ensures
        sum_original(chunks.take(i + 1)) == sum_original(chunks.take(i)) + chunks[i].original_size,
{
    assert(chunks.take(i + 1).drop_last() =~= chunks.take(i));
    assert(chunks.take(i + 1).last() == chunks[i]);
}

/// Sum of the plaintext sizes of plain-value chunks.
pub open spec fn entry_sum_original(chunks: Seq<ChunkEntry>) -> int
    decreases chunks.len(),
{
    if chunks.len() == 0 {
        0
    } else {
        entry_sum_original(chunks.drop_last()) + chunks.last().3
    }
}

/// Adjacent plain-value chunks `i` and `i + 1` are in order and do not
/// overlap.
pub open spec fn entry_ordered_pair(chunks: Seq<ChunkEntry>, i: int) -> bool {
    chunks[i].2 < chunks[i + 1].2 && chunks[i].2 + chunks[i].3 <= chunks[i + 1].2
}

/// Plain-value chunks are strictly ordered by offset without overlap.
pub open spec fn entry_chunks_ordered(chunks: Seq<ChunkEntry>) -> bool {
    forall|i: int| 0 <= i < chunks.len() - 1 ==> #[trigger] entry_ordered_pair(chunks, i)
}

/// The layout invariant stated on the plain values of a file.
pub open spec fn entry_wf(t: FileEntry) -> bool {
    &&& entry_chunks_ordered(t.6)
    &&& (t.2 & FLAG_DIRECTORY == 0 && t.5.len() == 0) ==> entry_sum_original(t.6) == t.1
}

proof fn lemma_sum_original_map(chunks: Seq<ChunkData>)
    ensures
        entry_sum_original(chunks.map_values(|c: ChunkData| chunk_as_entry(c))) == sum_original(
            chunks,
        ),
    decreases chunks.len(),
{
    let m = chunks.map_values(|c: ChunkData| chunk_as_entry(c));
    if chunks.len() > 0 {
        lemma_sum_original_map(chunks.drop_last());
        assert(m.drop_last() =~= chunks.drop_last().map_values(|c: ChunkData| chunk_as_entry(c)));
        assert(m.last() == chunk_as_entry(chunks.last()));
    }
}

/// A file satisfies the layout invariant exactly when its plain values
/// do.
pub proof fn lemma_wf_as_entry(f: ManifestFile)
    ensures
        f.wf() <==> entry_wf(file_as_entry(f)),
{
    let m = f.chunks@.map_values(|c: ChunkData| chunk_as_entry(c));
    lemma_sum_original_map(f.chunks@);
    assert forall|i: int| 0 <= i < m.len() - 1 implies #[trigger] entry_ordered_pair(m, i)
        == ordered_pair(f.chunks@, i) by {
        assert(m[i] == chunk_as_entry(f.chunks@[i]));
        assert(m[i + 1] == chunk_as_entry(f.chunks@[i + 1]));
    }
    assert(entry_chunks_ordered(m) <==> chunks_ordered(f.chunks@)) by {
        if entry_chunks_ordered(m) {
            assert forall|i: int| 0 <= i < f.chunks@.len() - 1 implies #[trigger] ordered_pair(
                f.chunks@,
                i,
            ) by {
                assert(entry_ordered_pair(m, i));
            }
        }
        if chunks_ordered(f.chunks@) {
            assert forall|i: int| 0 <= i < m.len() - 1 implies #[trigger] entry_ordered_pair(
                m,
                i,
            ) by {
                assert(ordered_pair(f.chunks@, i));
            }
        }
    }
}

/// Checks the layout invariant of one file.
pub fn check_file_layout(f: &ManifestFile) -> (r: bool)
    ensures
        r == f.wf(),
{
    let n = f.chunks.len();
    let mut sum: u128 = 0;
    let mut i: usize = 0;
    while i < n
        invariant
            n == f.chunks@.len(),
            0 <= i <= n,
            sum == sum_original(f.chunks@.take(i as int)),
            sum <= i * 0x1_0000_0000,
            chunks_ordered(f.chunks@.take(i as int)),
        decreases n - i,
    {
        let c = &f.chunks[i];
        if i > 0 {
            let prev = &f.chunks[i - 1];
            if !(prev.offset < c.offset && (prev.offset as u128) + (prev.original_size as u128)
                <= (c.offset as u128)) {
                proof {
                    assert(!ordered_pair(f.chunks@, i as int - 1));
                    assert(!chunks_ordered(f.chunks@));
                }
                return false;
            }
        }
        proof {
            lemma_sum_original_take(f.chunks@, i as int);
            let s1 = f.chunks@.take(i as int + 1);
            assert forall|j: int| 0 <= j < s1.len() - 1 implies #[trigger] ordered_pair(
                s1,
                j,
            ) by {
                let s0 = f.chunks@.take(i as int);
                assert(s1[j] == f.chunks@[j]);
                assert(s1[j + 1] == f.chunks@[j + 1]);
                if j < i as int - 1 {
                    assert(ordered_pair(s0, j));
                    assert(s0[j] == f.chunks@[j]);
                    assert(s0[j + 1] == f.chunks@[j + 1]);
                }
            }
            assert(chunks_ordered(s1));
        }
        sum = sum + (c.original_size as u128);
        i = i + 1;
    }
    proof {
        assert(f.chunks@.take(n as int) =~= f.chunks@);
    }
    if f.flags & FLAG_DIRECTORY == 0 && f.linktarget.as_str().unicode_len() == 0 {
        sum == (f.size as u128)
    } else {
        true
    }
}

} // verus!
