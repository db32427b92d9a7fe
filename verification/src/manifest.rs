use vstd::prelude::*;
use vstd::bytes::{
    lemma_auto_spec_u32_to_from_le_bytes, spec_u32_from_le_bytes, spec_u32_to_le_bytes,
    u32_to_le_bytes,
};
use vstd::slice::slice_to_vec;
use crate::error::ManifestError;
use crate::file::{
    check_file_layout, entry_wf, file_as_entry, lemma_wf_as_entry, ChunkData, FileEntry,
    ManifestFile,
};
use crate::codec::{unzip_first_entry, unzipped_first};
use crate::crypto::{
    base64_decode, base64_of, bytes_to_string, decrypt_cbc_with_iv_extraction,
    iv_extracted_plain, utf8_decoded,
};
use crate::reader::ByteReader;
use steam_vent_proto_common::protobuf::Message;
use steam_vent_proto_steam::content_manifest::{
    ContentManifestMetadata, ContentManifestPayload, ContentManifestSignature,
};

verus! {

/// Magic announcing the payload section (file table, chunk table).
pub const PROTOBUF_PAYLOAD_MAGIC: u32 = 0x71F617D0;

/// Magic announcing the metadata section.
pub const PROTOBUF_METADATA_MAGIC: u32 = 0x1F4812BE;

/// Magic announcing the signature section.
pub const PROTOBUF_SIGNATURE_MAGIC: u32 = 0x1B81B817;

/// Magic announcing the end of the manifest; no body follows it.
pub const PROTOBUF_ENDOFMANIFEST_MAGIC: u32 = 0x32C415AB;

/// The unsigned 32-bit little-endian value at offset `i`.
pub open spec fn u32_at(s: Seq<u8>, i: int) -> u32 {
    spec_u32_from_le_bytes(s.subrange(i, i + 4))
}

/// A framed section sits at offset `i`: the expected magic, a length
/// word, and that many bytes of body, all within the stream.
pub open spec fn section_at(s: Seq<u8>, i: int, magic: u32) -> bool {
    &&& i + 8 <= s.len()
    &&& u32_at(s, i) == magic
    &&& i + 8 + u32_at(s, i + 4) <= s.len()
}

/// The body of the framed section at offset `i`.
pub open spec fn section_body(s: Seq<u8>, i: int) -> Seq<u8> {
    s.subrange(i + 8, i + 8 + u32_at(s, i + 4))
}

/// The offset just past the framed section at offset `i`.
pub open spec fn section_end(s: Seq<u8>, i: int) -> int {
    i + 8 + u32_at(s, i + 4)
}

/// Offset of the metadata section, once the payload section is framed.
pub open spec fn metadata_pos(s: Seq<u8>) -> int {
    section_end(s, 0)
}

/// Offset of the signature section, once the first two are framed.
pub open spec fn signature_pos(s: Seq<u8>) -> int {
    section_end(s, metadata_pos(s))
}

/// Offset of the end-of-manifest magic, once the first three are framed.
pub open spec fn end_pos(s: Seq<u8>) -> int {
    section_end(s, signature_pos(s))
}

/// The stream holds the strictly ordered sequence of four framed
/// sections: payload, metadata, signature, end-of-manifest marker.
pub open spec fn frames_well_formed(s: Seq<u8>) -> bool {
    &&& section_at(s, 0, PROTOBUF_PAYLOAD_MAGIC)
    &&& section_at(s, metadata_pos(s), PROTOBUF_METADATA_MAGIC)
    &&& section_at(s, signature_pos(s), PROTOBUF_SIGNATURE_MAGIC)
    &&& end_pos(s) + 4 <= s.len()
    &&& u32_at(s, end_pos(s)) == PROTOBUF_ENDOFMANIFEST_MAGIC
}

/// The payload section's body of a well-framed stream.
pub open spec fn payload_bytes(s: Seq<u8>) -> Seq<u8> {
    section_body(s, 0)
}

/// The metadata section's body of a well-framed stream.
pub open spec fn metadata_bytes(s: Seq<u8>) -> Seq<u8> {
    section_body(s, metadata_pos(s))
}

/// The signature section's body of a well-framed stream.
pub open spec fn signature_bytes(s: Seq<u8>) -> Seq<u8> {
    section_body(s, signature_pos(s))
}

/// Reads one framed section: checks the magic, then reads the
/// length-prefixed body.
fn read_section(r: &mut ByteReader<'_>, magic: u32, expecting: &str) -> (res: Result<
    Vec<u8>,
    ManifestError,
>)
    requires
        old(r).wf(),
    ensures
        final(r).wf(),
        final(r).buf() == old(r).buf(),
        res is Ok <==> section_at(old(r).buf(), old(r).pos(), magic),
        res is Ok ==> {
            &&& res->Ok_0@ == section_body(old(r).buf(), old(r).pos())
            &&& final(r).pos() == section_end(old(r).buf(), old(r).pos())
        },
        old(r).remaining() >= 4 && u32_at(old(r).buf(), old(r).pos()) != magic ==> (res matches Err(
            ManifestError::MagicMismatch(m),
        ) && m@ == expecting@),
        old(r).remaining() < 4 ==> res == Err::<Vec<u8>, ManifestError>(
            ManifestError::TruncatedFrame,
        ),
        old(r).remaining() >= 4 && u32_at(old(r).buf(), old(r).pos()) == magic && !section_at(
            old(r).buf(),
            old(r).pos(),
            magic,
        ) ==> res == Err::<Vec<u8>, ManifestError>(ManifestError::TruncatedFrame),
{
    let m = match r.read_u32_le() {
        Ok(v) => v,
        Err(_) => {
            return Err(ManifestError::TruncatedFrame);
        },
    };
    if m != magic {
        return Err(ManifestError::MagicMismatch(expecting.to_owned()));
    }
    match r.read_length_prefixed() {
        Ok(body) => Ok(body),
        Err(_) => Err(ManifestError::TruncatedFrame),
    }
}

/// Splits a decompressed manifest stream into its three protobuf
/// section bodies, checking the four magics in order.
pub fn decode_sections(data: &[u8]) -> (r: Result<(Vec<u8>, Vec<u8>, Vec<u8>), ManifestError>)
    ensures
        r is Ok <==> frames_well_formed(data@),
        r is Ok ==> {
            &&& r->Ok_0.0@ == payload_bytes(data@)
            &&& r->Ok_0.1@ == metadata_bytes(data@)
            &&& r->Ok_0.2@ == signature_bytes(data@)
        },
        data@.len() >= 4 && u32_at(data@, 0) != PROTOBUF_PAYLOAD_MAGIC ==> (r matches Err(
            ManifestError::MagicMismatch(m),
        ) && m@ == "expecting protobuf payload"@),
        r is Err ==> (r->Err_0 is MagicMismatch || r->Err_0 is TruncatedFrame),
{
    let mut reader = ByteReader::new(data);
    let payload = read_section(&mut reader, PROTOBUF_PAYLOAD_MAGIC, "expecting protobuf payload")?;
    let metadata = read_section(
        &mut reader,
        PROTOBUF_METADATA_MAGIC,
        "expecting protobuf metadata",
    )?;
    let signature = read_section(
        &mut reader,
        PROTOBUF_SIGNATURE_MAGIC,
        "expecting protobuf signature",
    )?;
    let end = match reader.read_u32_le() {
        Ok(v) => v,
        Err(_) => {
            return Err(ManifestError::TruncatedFrame);
        },
    };
    if end != PROTOBUF_ENDOFMANIFEST_MAGIC {
        return Err(ManifestError::MagicMismatch("expecting end of manifest".to_owned()));
    }
    Ok((payload, metadata, signature))
}

/// The framed encoding of three section bodies: each of the first
/// three magics followed by a length word and the body, then the
/// end-of-manifest magic.
pub open spec fn sections_encoded(p: Seq<u8>, m: Seq<u8>, s: Seq<u8>) -> Seq<u8> {
    spec_u32_to_le_bytes(PROTOBUF_PAYLOAD_MAGIC) + spec_u32_to_le_bytes(p.len() as u32) + p
        + spec_u32_to_le_bytes(PROTOBUF_METADATA_MAGIC) + spec_u32_to_le_bytes(m.len() as u32) + m
        + spec_u32_to_le_bytes(PROTOBUF_SIGNATURE_MAGIC) + spec_u32_to_le_bytes(s.len() as u32)
        + s + spec_u32_to_le_bytes(PROTOBUF_ENDOFMANIFEST_MAGIC)
}

/// Frames three section bodies as a manifest stream.
pub fn encode_sections(payload: &[u8], metadata: &[u8], signature: &[u8]) -> (r: Vec<u8>)
    requires
        payload@.len() <= u32::MAX,
        metadata@.len() <= u32::MAX,
        signature@.len() <= u32::MAX,
    ensures
        r@ == sections_encoded(payload@, metadata@, signature@),
{
    let mut out: Vec<u8> = Vec::new();
    out.append(&mut u32_to_le_bytes(PROTOBUF_PAYLOAD_MAGIC));
    out.append(&mut u32_to_le_bytes(payload.len() as u32));
    out.append(&mut slice_to_vec(payload));
    out.append(&mut u32_to_le_bytes(PROTOBUF_METADATA_MAGIC));
    out.append(&mut u32_to_le_bytes(metadata.len() as u32));
    out.append(&mut slice_to_vec(metadata));
    out.append(&mut u32_to_le_bytes(PROTOBUF_SIGNATURE_MAGIC));
    out.append(&mut u32_to_le_bytes(signature.len() as u32));
    out.append(&mut slice_to_vec(signature));
    out.append(&mut u32_to_le_bytes(PROTOBUF_ENDOFMANIFEST_MAGIC));
    out
}

/// Decoding inverts encoding: a stream framed from three bodies is
/// well formed and yields back exactly those bodies, section-ordered.
pub proof fn lemma_sections_round_trip(p: Seq<u8>, m: Seq<u8>, s: Seq<u8>)
    requires
        p.len() <= u32::MAX,
        m.len() <= u32::MAX,
        s.len() <= u32::MAX,
    ensures
        frames_well_formed(sections_encoded(p, m, s)),
        payload_bytes(sections_encoded(p, m, s)) == p,
        metadata_bytes(sections_encoded(p, m, s)) == m,
        signature_bytes(sections_encoded(p, m, s)) == s,
{
    lemma_auto_spec_u32_to_from_le_bytes();
    let enc = sections_encoded(p, m, s);
    let p_end = 8 + p.len() as int;
    let m_end = p_end + 8 + m.len() as int;
    let s_end = m_end + 8 + s.len() as int;
    assert(enc.len() == s_end + 4);
    assert(enc.subrange(0, 4) =~= spec_u32_to_le_bytes(PROTOBUF_PAYLOAD_MAGIC));
    assert(enc.subrange(4, 8) =~= spec_u32_to_le_bytes(p.len() as u32));
    assert(enc.subrange(8, p_end) =~= p);
    assert(u32_at(enc, 0) == PROTOBUF_PAYLOAD_MAGIC);
    assert(u32_at(enc, 4) == p.len() as u32);
    assert(section_at(enc, 0, PROTOBUF_PAYLOAD_MAGIC));
    assert(metadata_pos(enc) == p_end);
    assert(enc.subrange(p_end, p_end + 4) =~= spec_u32_to_le_bytes(PROTOBUF_METADATA_MAGIC));
    assert(enc.subrange(p_end + 4, p_end + 8) =~= spec_u32_to_le_bytes(m.len() as u32));
    assert(enc.subrange(p_end + 8, m_end) =~= m);
    assert(u32_at(enc, p_end) == PROTOBUF_METADATA_MAGIC);
    assert(u32_at(enc, p_end + 4) == m.len() as u32);
    assert(section_at(enc, p_end, PROTOBUF_METADATA_MAGIC));
    assert(signature_pos(enc) == m_end);
    assert(enc.subrange(m_end, m_end + 4) =~= spec_u32_to_le_bytes(PROTOBUF_SIGNATURE_MAGIC));
    assert(enc.subrange(m_end + 4, m_end + 8) =~= spec_u32_to_le_bytes(s.len() as u32));
    assert(enc.subrange(m_end + 8, s_end) =~= s);
    assert(u32_at(enc, m_end) == PROTOBUF_SIGNATURE_MAGIC);
    assert(u32_at(enc, m_end + 4) == s.len() as u32);
    assert(section_at(enc, m_end, PROTOBUF_SIGNATURE_MAGIC));
    assert(end_pos(enc) == s_end);
    assert(enc.subrange(s_end, s_end + 4) =~= spec_u32_to_le_bytes(
        PROTOBUF_ENDOFMANIFEST_MAGIC,
    ));
    assert(u32_at(enc, s_end) == PROTOBUF_ENDOFMANIFEST_MAGIC);
    assert(payload_bytes(enc) == enc.subrange(8, p_end));
    assert(metadata_bytes(enc) == enc.subrange(p_end + 8, m_end));
    assert(signature_bytes(enc) == enc.subrange(m_end + 8, s_end));
}

#[verifier::external_type_specification]
#[verifier::external_body]
pub struct ExContentManifestPayload(ContentManifestPayload);

/// The plain values of the file mappings a parsed payload message
/// holds, in mapping order.
pub uninterp spec fn payload_entries(p: ContentManifestPayload) -> Seq<FileEntry>;

/// What parsing a payload section as a protobuf message yields, as the
/// plain values of its file mappings; `None` when the bytes are not a
/// valid message.
pub uninterp spec fn payload_parsed(b: Seq<u8>) -> Option<Seq<FileEntry>>;

/// What parsing a metadata section yields: depot id, manifest GID,
/// creation time, filenames-encrypted flag, original size, compressed
/// size; `None` when the bytes are not a valid message.
pub uninterp spec fn metadata_parsed(b: Seq<u8>) -> Option<(u32, u64, u32, bool, u64, u64)>;

/// Whether a signature section parses as a protobuf message; its
/// contents are ignored.
pub uninterp spec fn signature_parses(b: Seq<u8>) -> bool;

/// Relies on protobuf's parse_from_bytes for ContentManifestPayload:
/// the result depends on the section bytes alone.
#[verifier::external_body]
fn parse_payload(data: &[u8]) -> (r: Result<ContentManifestPayload, String>)
    ensures
        r is Ok <==> payload_parsed(data@) is Some,
        r is Ok ==> payload_entries(r->Ok_0) == payload_parsed(data@)->Some_0,
{
    ContentManifestPayload::parse_from_bytes(data).map_err(|e| e.to_string())
}

/// Relies on Vec::len of the parsed payload's mapping list.
#[verifier::external_body]
fn payload_len(p: &ContentManifestPayload) -> (r: usize)
    ensures
        r == payload_entries(*p).len(),
{
    p.mappings.len()
}

/// Relies on the generated field accessors of one payload mapping;
/// the body only moves the mapping's plain values into the library's
/// file type.
#[verifier::external_body]
fn payload_file_at(p: &ContentManifestPayload, i: usize, depot_id: u32) -> (r: ManifestFile)
    requires
        i < payload_entries(*p).len(),
    ensures
        file_as_entry(r) == payload_entries(*p)[i as int],
        r.depot_id == depot_id,
{
    let m = &p.mappings[i];
    let chunks = m.chunks.iter().map(|c| ChunkData {
        sha: c.sha().to_vec(), crc: c.crc(), offset: c.offset(),
        original_size: c.cb_original(), compressed_size: c.cb_compressed(),
    }).collect();
    ManifestFile {
        depot_id, filename: m.filename().to_string(), size: m.size(), flags: m.flags(),
        sha_filename: m.sha_filename().to_vec(), sha_content: m.sha_content().to_vec(),
        chunks, linktarget: m.linktarget().to_string(),
    }
}

/// Relies on protobuf's parse_from_bytes for ContentManifestMetadata:
/// the result depends on the section bytes alone; the body only reads
/// the message's scalar fields.
#[verifier::external_body]
fn parse_metadata(data: &[u8]) -> (r: Result<(u32, u64, u32, bool, u64, u64), String>)
    ensures
        r is Ok <==> metadata_parsed(data@) is Some,
        r is Ok ==> r->Ok_0 == metadata_parsed(data@)->Some_0,
{
    let m = ContentManifestMetadata::parse_from_bytes(data).map_err(|e| e.to_string())?;
    Ok((
        m.depot_id(),
        m.gid_manifest(),
        m.creation_time(),
        m.filenames_encrypted(),
        m.cb_disk_original(),
        m.cb_disk_compressed(),
    ))
}

/// Relies on protobuf's parse_from_bytes for ContentManifestSignature:
/// whether the bytes parse depends on the bytes alone; the parsed
/// message itself is ignored.
#[verifier::external_body]
fn parse_signature(data: &[u8]) -> (r: Result<(), String>)
    ensures
        r is Ok <==> signature_parses(data@),
{
    ContentManifestSignature::parse_from_bytes(data).map(|_| ()).map_err(|e| e.to_string())
}

/// All decoding stages of a manifest blob succeed: the archive opens,
/// the stream is well framed, and the three protobuf sections parse.
pub open spec fn decode_stages_ok(data: Seq<u8>) -> bool {
    &&& unzipped_first(data) is Some
    &&& frames_well_formed(unzipped_first(data)->Some_0)
    &&& payload_parsed(payload_bytes(unzipped_first(data)->Some_0)) is Some
    &&& metadata_parsed(metadata_bytes(unzipped_first(data)->Some_0)) is Some
    &&& signature_parses(signature_bytes(unzipped_first(data)->Some_0))
}

/// The plain file values a manifest blob decodes to.
pub open spec fn decoded_entries(data: Seq<u8>) -> Seq<FileEntry> {
    payload_parsed(payload_bytes(unzipped_first(data)->Some_0))->Some_0
}

/// The metadata values a manifest blob decodes to.
pub open spec fn decoded_meta(data: Seq<u8>) -> (u32, u64, u32, bool, u64, u64) {
    metadata_parsed(metadata_bytes(unzipped_first(data)->Some_0))->Some_0
}

/// A manifest blob decodes successfully: every stage succeeds and
/// every file satisfies the layout invariant.
pub open spec fn decode_ok(data: Seq<u8>) -> bool {
    &&& decode_stages_ok(data)
    &&& forall|i: int|
        0 <= i < decoded_entries(data).len() ==> entry_wf(#[trigger] decoded_entries(data)[i])
}

/// A name is canonical base64: it is the encoding of some byte string.
pub open spec fn name_is_base64(name: Seq<char>) -> bool {
    exists|b: Seq<u8>| base64_of(b) == name
}

/// The byte string a canonical base64 name encodes.
pub open spec fn b64_preimage(name: Seq<char>) -> Seq<u8> {
    choose|b: Seq<u8>| base64_of(b) == name
}

/// What decrypting one encrypted file name yields: base64-decode,
/// decrypt with the embedded IV, and decode as UTF-8; `None` on any
/// failure.
pub open spec fn name_decrypted(name: Seq<char>, key: Seq<u8>) -> Option<Seq<char>> {
    if name_is_base64(name) {
        match iv_extracted_plain(b64_preimage(name), key) {
            Option::None => Option::<Seq<char>>::None,
            Option::Some(p) => utf8_decoded(p),
        }
    } else {
        Option::None
    }
}

/// The error one failing file name yields, named after the first stage
/// that fails.
pub open spec fn name_failure(name: Seq<char>, key: Seq<u8>) -> ManifestError {
    if !name_is_base64(name) {
        ManifestError::Base64Error
    } else if iv_extracted_plain(b64_preimage(name), key) is None {
        ManifestError::CryptoError
    } else {
        ManifestError::Utf8Error
    }
}

/// Two files that agree everywhere except possibly in their name.
pub open spec fn same_but_name(a: ManifestFile, b: ManifestFile) -> bool {
    &&& a.depot_id == b.depot_id
    &&& a.size == b.size
    &&& a.flags == b.flags
    &&& a.sha_filename == b.sha_filename
    &&& a.sha_content == b.sha_content
    &&& a.chunks == b.chunks
    &&& a.linktarget == b.linktarget
}

/// An immutable catalogue of the files and chunks of one depot at one
/// build.
#[derive(Debug)]
pub struct DepotManifest {
    depot_id: u32,
    manifest_gid: u64,
    creatime_time: u32,
    filenames_encrypted: bool,
    original_size: u64,
    compressed_size: u64,
    files: Vec<ManifestFile>,
}

impl DepotManifest {
    /// Depot the manifest describes.
    pub closed spec fn spec_depot_id(self) -> u32 {
        self.depot_id
    }

    /// Globally unique identifier of the manifest.
    pub closed spec fn spec_manifest_gid(self) -> u64 {
        self.manifest_gid
    }

    /// Creation timestamp recorded in the metadata.
    pub closed spec fn spec_creatime_time(self) -> u32 {
        self.creatime_time
    }

    /// Whether file names are still base64-encoded ciphertext.
    pub closed spec fn spec_filenames_encrypted(self) -> bool {
        self.filenames_encrypted
    }

    /// Total plaintext size recorded in the metadata.
    pub closed spec fn spec_original_size(self) -> u64 {
        self.original_size
    }

    /// Total stored size recorded in the metadata.
    pub closed spec fn spec_compressed_size(self) -> u64 {
        self.compressed_size
    }

    /// The file table.
    pub closed spec fn spec_files(self) -> Seq<ManifestFile> {
        self.files@
    }

    /// Every file of the manifest satisfies the layout invariant.
    pub open spec fn wf(self) -> bool {
        forall|i: int| 0 <= i < self.spec_files().len() ==> (#[trigger] self.spec_files()[i]).wf()
    }

    pub fn depot_id(&self) -> (r: u32)
        ensures
            r == self.spec_depot_id(),
    {
        self.depot_id
    }

    pub fn manifest_gid(&self) -> (r: u64)
        ensures
            r == self.spec_manifest_gid(),
    {
        self.manifest_gid
    }

    pub fn creatime_time(&self) -> (r: u32)
        ensures
            r == self.spec_creatime_time(),
    {
        self.creatime_time
    }

    pub fn filenames_encrypted(&self) -> (r: bool)
        ensures
            r == self.spec_filenames_encrypted(),
    {
        self.filenames_encrypted
    }

    pub fn original_size(&self) -> (r: u64)
        ensures
            r == self.spec_original_size(),
    {
        self.original_size
    }

    pub fn compressed_size(&self) -> (r: u64)
        ensures
            r == self.spec_compressed_size(),
    {
        self.compressed_size
    }

    pub fn files(&self) -> (r: &Vec<ManifestFile>)
        ensures
            r@ == self.spec_files(),
    {
        &self.files
    }

    /// Decrypts every file name in place: each name is base64-decoded,
    /// decrypted with the embedded IV under the depot key, and decoded
    /// as UTF-8.  Any failing name aborts the pass and leaves the
    /// manifest unchanged; a manifest whose names are not encrypted is
    /// returned unchanged.
    pub fn decrypt_filenames(&mut self, key: [u8; 32]) -> (r: Result<(), ManifestError>)
        ensures
            r is Ok <==> (!old(self).spec_filenames_encrypted() || forall|i: int|
                0 <= i < old(self).spec_files().len() ==> name_decrypted(
                    (#[trigger] old(self).spec_files()[i]).filename@,
                    key@,
                ) is Some),
            !old(self).spec_filenames_encrypted() ==> *final(self) == *old(self),
            r is Err ==> *final(self) == *old(self),
            r is Ok && old(self).spec_filenames_encrypted() ==> {
                &&& !final(self).spec_filenames_encrypted()
                &&& final(self).spec_depot_id() == old(self).spec_depot_id()
                &&& final(self).spec_manifest_gid() == old(self).spec_manifest_gid()
                &&& final(self).spec_creatime_time() == old(self).spec_creatime_time()
                &&& final(self).spec_original_size() == old(self).spec_original_size()
                &&& final(self).spec_compressed_size() == old(self).spec_compressed_size()
                &&& final(self).spec_files().len() == old(self).spec_files().len()
                &&& forall|i: int|
                    0 <= i < old(self).spec_files().len() ==> same_but_name(
                        #[trigger] final(self).spec_files()[i],
                        old(self).spec_files()[i],
                    )
                &&& forall|i: int|
                    0 <= i < old(self).spec_files().len() ==> (
                    #[trigger] final(self).spec_files()[i]).filename@ == name_decrypted(
                        old(self).spec_files()[i].filename@,
                        key@,
                    )->Some_0
            },
            r is Err ==> exists|k: int|
                {
                    &&& 0 <= k < old(self).spec_files().len()
                    &&& name_decrypted(
                        (#[trigger] old(self).spec_files()[k]).filename@,
                        key@,
                    ) is None
                    &&& forall|j: int|
                        0 <= j < k ==> name_decrypted(
                            (#[trigger] old(self).spec_files()[j]).filename@,
                            key@,
                        ) is Some
                    &&& r->Err_0 == name_failure(old(self).spec_files()[k].filename@, key@)
                },
    {
        if !self.filenames_encrypted {
            return Ok(());
        }
        let n = self.files.len();
        let mut names: Vec<String> = Vec::new();
        let mut i: usize = 0;
        while i < n
            invariant
                old(self).spec_filenames_encrypted(),
                *self == *old(self),
                n == self.files@.len(),
                0 <= i <= n,
                names@.len() == i,
                forall|j: int|
                    0 <= j < i ==> name_decrypted(
                        (#[trigger] self.files@[j]).filename@,
                        key@,
                    ) is Some,
                forall|j: int|
                    0 <= j < i ==> (#[trigger] names@[j])@ == name_decrypted(
                        self.files@[j].filename@,
                        key@,
                    )->Some_0,
            decreases n - i,
        {
            let name = &self.files[i].filename;
            let ghost nv = name@;
            proof {
                assert(old(self).spec_files()[i as int].filename@ == nv);
            }
            let cipher = match base64_decode(name.as_str()) {
                Ok(v) => v,
                Err(_) => {
                    proof {
                        assert(!name_is_base64(nv));
                        assert(name_decrypted(
                            (old(self).spec_files()[i as int]).filename@,
                            key@,
                        ) is None);
                    }
                    return Err(ManifestError::Base64Error);
                },
            };
            proof {
                assert(name_is_base64(nv));
                assert(b64_preimage(nv) == cipher@);
            }
            let plain = match decrypt_cbc_with_iv_extraction(cipher.as_slice(), &key) {
                Ok(v) => v,
                Err(_) => {
                    proof {
                        assert(name_decrypted(
                            (old(self).spec_files()[i as int]).filename@,
                            key@,
                        ) is None);
                    }
                    return Err(ManifestError::CryptoError);
                },
            };
            let ghost pv = plain@;
            let text = match bytes_to_string(plain) {
                Ok(v) => v,
                Err(_) => {
                    proof {
                        assert(pv == iv_extracted_plain(b64_preimage(nv), key@)->Some_0);
                        assert(name_decrypted(
                            (old(self).spec_files()[i as int]).filename@,
                            key@,
                        ) is None);
                    }
                    return Err(ManifestError::Utf8Error);
                },
            };
            names.push(text);
            i = i + 1;
        }
        let ghost orig = self.files@;
        let ghost decrypted = names@;
        let mut i: usize = n;
        while i > 0
            invariant
                old(self).spec_filenames_encrypted(),
                self.depot_id == old(self).spec_depot_id(),
                self.manifest_gid == old(self).spec_manifest_gid(),
                self.creatime_time == old(self).spec_creatime_time(),
                self.filenames_encrypted == old(self).spec_filenames_encrypted(),
                self.original_size == old(self).spec_original_size(),
                self.compressed_size == old(self).spec_compressed_size(),
                orig == old(self).spec_files(),
                n == orig.len(),
                decrypted.len() == n,
                self.files@.len() == n,
                0 <= i <= n,
                names@ == decrypted.take(i as int),
                forall|j: int| 0 <= j < i ==> #[trigger] self.files@[j] == orig[j],
                forall|j: int|
                    i <= j < n ==> same_but_name(#[trigger] self.files@[j], orig[j])
                        && self.files@[j].filename == decrypted[j],
                forall|j: int|
                    0 <= j < n ==> name_decrypted(
                        (#[trigger] orig[j]).filename@,
                        key@,
                    ) is Some,
                forall|j: int|
                    0 <= j < n ==> (#[trigger] decrypted[j])@ == name_decrypted(
                        orig[j].filename@,
                        key@,
                    )->Some_0,
            decreases i,
        {
            i = i - 1;
            proof {
                assert(decrypted.take(i as int + 1).last() == decrypted[i as int]);
                assert(decrypted.take(i as int + 1).drop_last() =~= decrypted.take(i as int));
            }
            let name = names.pop().unwrap();
            self.files[i].filename = name;
        }
        self.filenames_encrypted = false;
        Ok(())
    }

    /// Decodes a manifest blob: opens the surrounding archive, splits
    /// the framed sections, parses the three protobuf bodies, and
    /// builds the file table, checking the layout invariant of every
    /// file.  Encrypted file names are left base64-encoded.
    pub fn deserialize(data: &[u8]) -> (r: Result<DepotManifest, ManifestError>)
        ensures
            r is Ok <==> decode_ok(data@),
            r is Ok ==> {
                let m = r->Ok_0;
                let meta = decoded_meta(data@);
                let entries = decoded_entries(data@);
                &&& m.spec_depot_id() == meta.0
                &&& m.spec_manifest_gid() == meta.1
                &&& m.spec_creatime_time() == meta.2
                &&& m.spec_filenames_encrypted() == meta.3
                &&& m.spec_original_size() == meta.4
                &&& m.spec_compressed_size() == meta.5
                &&& m.spec_files().len() == entries.len()
                &&& forall|i: int|
                    0 <= i < entries.len() ==> file_as_entry(#[trigger] m.spec_files()[i])
                        == entries[i]
                &&& forall|i: int|
                    0 <= i < entries.len() ==> (#[trigger] m.spec_files()[i]).depot_id == meta.0
                &&& m.wf()
            },
            unzipped_first(data@) is None ==> r matches Err(ManifestError::ArchiveError(_)),
            ({
                let s = unzipped_first(data@)->Some_0;
                unzipped_first(data@) is Some && s.len() >= 4 && u32_at(s, 0)
                    != PROTOBUF_PAYLOAD_MAGIC ==> (r matches Err(ManifestError::MagicMismatch(m))
                    && m@ == "expecting protobuf payload"@)
            }),
            unzipped_first(data@) is Some && !frames_well_formed(unzipped_first(data@)->Some_0)
                ==> r is Err && (r->Err_0 is MagicMismatch || r->Err_0 is TruncatedFrame),
            unzipped_first(data@) is Some && frames_well_formed(unzipped_first(data@)->Some_0)
                && !decode_stages_ok(data@) ==> r matches Err(ManifestError::ProtobufDecode(_)),
            decode_stages_ok(data@) && !decode_ok(data@) ==> r == Err::<DepotManifest,
                ManifestError,
            >(ManifestError::FileLayout),
    {
        let stream = match unzip_first_entry(data) {
            Ok(v) => v,
            Err(m) => {
                return Err(ManifestError::ArchiveError(m));
            },
        };
        let (payload, metadata, signature) = decode_sections(stream.as_slice())?;
        let payload_msg = match parse_payload(payload.as_slice()) {
            Ok(v) => v,
            Err(m) => {
                return Err(ManifestError::ProtobufDecode(m));
            },
        };
        let meta = match parse_metadata(metadata.as_slice()) {
            Ok(v) => v,
            Err(m) => {
                return Err(ManifestError::ProtobufDecode(m));
            },
        };
        match parse_signature(signature.as_slice()) {
            Ok(_) => (),
            Err(m) => {
                return Err(ManifestError::ProtobufDecode(m));
            },
        };
        let n = payload_len(&payload_msg);
        let mut files: Vec<ManifestFile> = Vec::new();
        let ghost entries = decoded_entries(data@);
        let mut i: usize = 0;
        while i < n
            invariant
                decode_stages_ok(data@),
                entries == decoded_entries(data@),
                meta == decoded_meta(data@),
                n == entries.len(),
                entries == payload_entries(payload_msg),
                0 <= i <= n,
                files@.len() == i,
                forall|j: int|
                    0 <= j < i ==> file_as_entry(#[trigger] files@[j]) == entries[j],
                forall|j: int| 0 <= j < i ==> (#[trigger] files@[j]).depot_id == meta.0,
                forall|j: int| 0 <= j < i ==> (#[trigger] files@[j]).wf(),
                forall|j: int| 0 <= j < i ==> entry_wf(#[trigger] entries[j]),
            decreases n - i,
        {
            let f = payload_file_at(&payload_msg, i, meta.0);
            if !check_file_layout(&f) {
                proof {
                    lemma_wf_as_entry(f);
                }
                return Err(ManifestError::FileLayout);
            }
            proof {
                lemma_wf_as_entry(f);
            }
            files.push(f);
            i = i + 1;
        }
        Ok(DepotManifest {
            depot_id: meta.0,
            manifest_gid: meta.1,
            creatime_time: meta.2,
            filenames_encrypted: meta.3,
            original_size: meta.4,
            compressed_size: meta.5,
            files,
        })
    }
}

} // verus!
