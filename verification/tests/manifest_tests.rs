use std::io::Write;

use aes::cipher::block_padding::Pkcs7;
use aes::cipher::{BlockCipherEncrypt, BlockModeEncrypt, KeyInit, KeyIvInit};
use base64::Engine;
use steam_vent_proto_common::protobuf::Message;
use steam_vent_proto_steam::content_manifest::content_manifest_payload::file_mapping;
use steam_vent_proto_steam::content_manifest::content_manifest_payload::FileMapping;
use steam_vent_proto_steam::content_manifest::{
    ContentManifestMetadata, ContentManifestPayload, ContentManifestSignature,
};

use steam_cdn::error::ManifestError;
use steam_cdn::manifest::{decode_sections, encode_sections, DepotManifest};

fn chunk_proto(sha: &[u8], crc: u32, offset: u64, original: u32, compressed: u32) -> file_mapping::ChunkData {
    let mut c = file_mapping::ChunkData::new();
    c.set_sha(sha.to_vec());
    c.set_crc(crc);
    c.set_offset(offset);
    c.set_cb_original(original);
    c.set_cb_compressed(compressed);
    c
}

fn sample_payload(filenames: &[String]) -> ContentManifestPayload {
    let mut payload = ContentManifestPayload::new();
    for (i, name) in filenames.iter().enumerate() {
        let mut m = FileMapping::new();
        m.set_filename(name.clone());
        m.set_size(30);
        m.set_flags(0);
        m.set_sha_filename(vec![1u8; 20]);
        m.set_sha_content(vec![2u8; 20]);
        m.set_linktarget(String::new());
        m.chunks.push(chunk_proto(&[i as u8; 20], 7 + i as u32, 0, 10, 12));
        m.chunks.push(chunk_proto(&[9u8; 20], 8, 10, 20, 18));
        payload.mappings.push(m);
    }
    payload
}

fn sample_metadata(encrypted: bool) -> ContentManifestMetadata {
    let mut meta = ContentManifestMetadata::new();
    meta.set_depot_id(2347771);
    meta.set_gid_manifest(9071851182114336641);
    meta.set_creation_time(1700000000);
    meta.set_filenames_encrypted(encrypted);
    meta.set_cb_disk_original(30);
    meta.set_cb_disk_compressed(30);
    meta
}

fn build_stream(filenames: &[String], encrypted: bool) -> Vec<u8> {
    let payload = sample_payload(filenames).write_to_bytes().unwrap();
    let metadata = sample_metadata(encrypted).write_to_bytes().unwrap();
    let signature = ContentManifestSignature::new().write_to_bytes().unwrap();
    encode_sections(&payload, &metadata, &signature)
}

fn zip_blob(stream: &[u8]) -> Vec<u8> {
    let mut cursor = std::io::Cursor::new(Vec::new());
    let mut writer = zip::ZipWriter::new(&mut cursor);
    writer
        .start_file("z", zip::write::SimpleFileOptions::default())
        .unwrap();
    writer.write_all(stream).unwrap();
    writer.finish().unwrap();
    cursor.into_inner()
}

fn encrypt_with_embedded_iv(plain: &[u8], key: &[u8; 32], iv: &[u8; 16]) -> Vec<u8> {
    let cipher_body = cbc::Encryptor::<aes::Aes256>::new_from_slices(key, iv)
        .unwrap()
        .encrypt_padded_vec::<Pkcs7>(plain);
    let ecb = aes::Aes256::new_from_slice(key).unwrap();
    let mut block = aes::Block::default();
    block.copy_from_slice(iv);
    ecb.encrypt_block(&mut block);
    let mut out = block.to_vec();
    out.extend_from_slice(&cipher_body);
    out
}

#[test]
fn frames_round_trip_section_ordered() {
    let bodies: [&[u8]; 3] = [b"alpha", b"", b"some signature bytes"];
    let stream = encode_sections(bodies[0], bodies[1], bodies[2]);
    let (p, m, s) = decode_sections(&stream).unwrap();
    assert_eq!(p, bodies[0]);
    assert_eq!(m, bodies[1]);
    assert_eq!(s, bodies[2]);
}

#[test]
fn deserialize_reads_fields_back() {
    let blob = zip_blob(&build_stream(&["client.dll".to_string()], false));
    let manifest = DepotManifest::deserialize(&blob).unwrap();
    assert_eq!(manifest.depot_id(), 2347771);
    assert_eq!(manifest.manifest_gid(), 9071851182114336641);
    assert_eq!(manifest.creatime_time(), 1700000000);
    assert!(!manifest.filenames_encrypted());
    assert_eq!(manifest.original_size(), 30);
    assert_eq!(manifest.compressed_size(), 30);
    let files = manifest.files();
    assert_eq!(files.len(), 1);
    assert_eq!(files[0].filename, "client.dll");
    assert_eq!(files[0].size, 30);
    assert_eq!(files[0].depot_id, 2347771);
    assert_eq!(files[0].chunks.len(), 2);
    assert_eq!(files[0].chunks[0].sha, vec![0u8; 20]);
    assert_eq!(files[0].chunks[0].crc, 7);
    assert_eq!(files[0].chunks[1].offset, 10);
    assert_eq!(files[0].chunks[1].original_size, 20);
}

#[test]
fn first_magic_bit_flip_is_magic_mismatch() {
    let mut stream = build_stream(&["client.dll".to_string()], false);
    stream[0] ^= 1;
    let blob = zip_blob(&stream);
    match DepotManifest::deserialize(&blob) {
        Err(ManifestError::MagicMismatch(m)) => {
            assert_eq!(m, "expecting protobuf payload");
        },
        other => panic!("expected a magic mismatch, got {:?}", other),
    }
}

#[test]
fn truncated_signature_length_is_truncated_frame() {
    let stream = build_stream(&["client.dll".to_string()], false);
    // Locate the signature section and inflate its length word so the
    // declared body overruns the stream.
    let payload_len = u32::from_le_bytes(stream[4..8].try_into().unwrap()) as usize;
    let meta_pos = 8 + payload_len;
    let meta_len = u32::from_le_bytes(stream[meta_pos + 4..meta_pos + 8].try_into().unwrap()) as usize;
    let sig_pos = meta_pos + 8 + meta_len;
    let mut bad = stream.clone();
    bad[sig_pos + 4..sig_pos + 8].copy_from_slice(&u32::MAX.to_le_bytes());
    let blob = zip_blob(&bad);
    match DepotManifest::deserialize(&blob) {
        Err(ManifestError::TruncatedFrame) => (),
        other => panic!("expected a truncated frame, got {:?}", other),
    }
}

#[test]
fn garbage_blob_is_archive_error() {
    match DepotManifest::deserialize(b"not a zip archive at all") {
        Err(ManifestError::ArchiveError(_)) => (),
        other => panic!("expected an archive error, got {:?}", other),
    }
}

#[test]
fn encrypted_names_stay_base64_without_key() {
    let key = [0x42u8; 32];
    let iv = [0x24u8; 16];
    let cipher_name = encrypt_with_embedded_iv(b"client.dll", &key, &iv);
    let b64_name = base64::engine::general_purpose::STANDARD.encode(&cipher_name);
    let blob = zip_blob(&build_stream(&[b64_name.clone()], true));
    let manifest = DepotManifest::deserialize(&blob).unwrap();
    assert!(manifest.filenames_encrypted());
    assert_eq!(manifest.files()[0].filename, b64_name);
}

#[test]
fn decrypt_filenames_recovers_utf8_names_and_clears_flag() {
    let key = [0x42u8; 32];
    let iv = [0x24u8; 16];
    let cipher_name = encrypt_with_embedded_iv(b"client.dll", &key, &iv);
    let b64_name = base64::engine::general_purpose::STANDARD.encode(&cipher_name);
    let blob = zip_blob(&build_stream(&[b64_name], true));
    let mut manifest = DepotManifest::deserialize(&blob).unwrap();
    manifest.decrypt_filenames(key).unwrap();
    assert!(!manifest.filenames_encrypted());
    assert_eq!(manifest.files()[0].filename, "client.dll");
}

#[test]
fn decrypt_filenames_rejects_names_that_are_not_base64() {
    let blob = zip_blob(&build_stream(&["not base64 !!".to_string()], true));
    let mut manifest = DepotManifest::deserialize(&blob).unwrap();
    match manifest.decrypt_filenames([0u8; 32]) {
        Err(ManifestError::Base64Error) => (),
        other => panic!("expected a base64 error, got {:?}", other),
    }
    assert!(manifest.filenames_encrypted());
}

#[test]
fn overlapping_chunks_are_rejected() {
    let mut payload = ContentManifestPayload::new();
    let mut m = FileMapping::new();
    m.set_filename("f".to_string());
    m.set_size(20);
    m.set_flags(0);
    m.chunks.push(chunk_proto(&[1u8; 20], 1, 0, 10, 10));
    m.chunks.push(chunk_proto(&[2u8; 20], 2, 5, 10, 10));
    payload.mappings.push(m);
    let stream = encode_sections(
        &payload.write_to_bytes().unwrap(),
        &sample_metadata(false).write_to_bytes().unwrap(),
        &ContentManifestSignature::new().write_to_bytes().unwrap(),
    );
    match DepotManifest::deserialize(&zip_blob(&stream)) {
        Err(ManifestError::FileLayout) => (),
        other => panic!("expected a file layout error, got {:?}", other),
    }
}

#[test]
fn directory_entries_skip_the_size_check() {
    let mut payload = ContentManifestPayload::new();
    let mut m = FileMapping::new();
    m.set_filename("dir".to_string());
    m.set_size(21);
    m.set_flags(64);
    m.chunks.push(chunk_proto(&[1u8; 20], 1, 0, 10, 10));
    payload.mappings.push(m);
    let stream = encode_sections(
        &payload.write_to_bytes().unwrap(),
        &sample_metadata(false).write_to_bytes().unwrap(),
        &ContentManifestSignature::new().write_to_bytes().unwrap(),
    );
    let manifest = DepotManifest::deserialize(&zip_blob(&stream)).unwrap();
    assert_eq!(manifest.files()[0].flags, 64);
}

#[test]
fn symlink_entries_skip_the_size_check() {
    let mut payload = ContentManifestPayload::new();
    let mut m = FileMapping::new();
    m.set_filename("link".to_string());
    m.set_size(21);
    m.set_flags(0);
    m.set_linktarget("client.dll".to_string());
    payload.mappings.push(m);
    let stream = encode_sections(
        &payload.write_to_bytes().unwrap(),
        &sample_metadata(false).write_to_bytes().unwrap(),
        &ContentManifestSignature::new().write_to_bytes().unwrap(),
    );
    let manifest = DepotManifest::deserialize(&zip_blob(&stream)).unwrap();
    assert_eq!(manifest.files()[0].linktarget, "client.dll");
}

#[test]
fn regular_file_sizes_must_sum() {
    let mut payload = ContentManifestPayload::new();
    let mut m = FileMapping::new();
    m.set_filename("f".to_string());
    m.set_size(21);
    m.set_flags(0);
    m.chunks.push(chunk_proto(&[1u8; 20], 1, 0, 10, 10));
    m.chunks.push(chunk_proto(&[2u8; 20], 2, 10, 10, 10));
    payload.mappings.push(m);
    let stream = encode_sections(
        &payload.write_to_bytes().unwrap(),
        &sample_metadata(false).write_to_bytes().unwrap(),
        &ContentManifestSignature::new().write_to_bytes().unwrap(),
    );
    match DepotManifest::deserialize(&zip_blob(&stream)) {
        Err(ManifestError::FileLayout) => (),
        other => panic!("expected a file layout error, got {:?}", other),
    }
}
