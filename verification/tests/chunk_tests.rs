use std::io::Write;

use base64::Engine;

use aes::cipher::block_padding::Pkcs7;
use aes::cipher::{BlockCipherEncrypt, BlockModeEncrypt, KeyInit, KeyIvInit};

use steam_cdn::chunk::decrypt_and_decompress;
use steam_cdn::crypto::decrypt_cbc_with_iv_extraction;
use steam_cdn::download::{chunk_id, chunk_write_window, verify_chunk};
use steam_cdn::error::ChunkError;
use steam_cdn::file::ChunkData;

fn encrypt_with_embedded_iv(plain: &[u8], key: &[u8; 32], iv: &[u8; 16]) -> Vec<u8> {
    let cipher_body = cbc::Encryptor::<aes::Aes256>::new_from_slices(key, iv)
        .unwrap()
        .encrypt_padded_vec::<Pkcs7>(plain);
    let ecb = aes::Aes256::new_from_slice(key).unwrap();
    let mut block = aes::Block::default();
    block.copy_from_slice(iv);
    ecb.encrypt_block(&mut block);
    let mut out = block.to_vec();
    out.extend_from_slice(&cipher_body);
    out
}

fn pk_container(content: &[u8]) -> Vec<u8> {
    let mut cursor = std::io::Cursor::new(Vec::new());
    let mut writer = zip::ZipWriter::new(&mut cursor);
    writer
        .start_file("c", zip::write::SimpleFileOptions::default())
        .unwrap();
    writer.write_all(content).unwrap();
    writer.finish().unwrap();
    cursor.into_inner()
}

fn vz_container(content: &[u8]) -> Vec<u8> {
    let mut stream = Vec::new();
    lzma_rs::lzma_compress(&mut std::io::Cursor::new(content), &mut stream).unwrap();
    let mut out = vec![0x56u8, 0x5A];
    out.extend_from_slice(&stream);
    out.extend_from_slice(&crc32fast::hash(content).to_le_bytes());
    out.extend_from_slice(&(content.len() as u32).to_le_bytes());
    out
}

#[test]
fn embedded_iv_decrypt_round_trip() {
    let key = [0x13u8; 32];
    let iv = [0x7Au8; 16];
    let plain = b"hello chunked world, this is plaintext";
    let body = encrypt_with_embedded_iv(plain, &key, &iv);
    let recovered = decrypt_cbc_with_iv_extraction(&body, &key).unwrap();
    assert_eq!(recovered, plain);
}

#[test]
fn short_ciphertext_is_rejected() {
    assert!(decrypt_cbc_with_iv_extraction(&[0u8; 15], &[0u8; 32]).is_err());
}

#[test]
fn pk_chunk_decodes() {
    let key = [0x55u8; 32];
    let iv = [0x01u8; 16];
    let content = b"the quick brown fox jumps over the lazy dog";
    let body = encrypt_with_embedded_iv(&pk_container(content), &key, &iv);
    let out = decrypt_and_decompress(&body, &key).unwrap();
    assert_eq!(out, content);
}

#[test]
fn vz_chunk_decodes() {
    let key = [0x66u8; 32];
    let iv = [0x02u8; 16];
    let content = b"compressible compressible compressible data data data";
    let body = encrypt_with_embedded_iv(&vz_container(content), &key, &iv);
    let out = decrypt_and_decompress(&body, &key).unwrap();
    assert_eq!(out, content);
}

#[test]
fn vz_chunk_with_wrong_tail_crc_is_rejected() {
    let key = [0x66u8; 32];
    let iv = [0x02u8; 16];
    let content = b"compressible compressible compressible data data data";
    let mut container = vz_container(content);
    let n = container.len();
    container[n - 8] ^= 0xFF;
    let body = encrypt_with_embedded_iv(&container, &key, &iv);
    match decrypt_and_decompress(&body, &key) {
        Err(ChunkError::TailCrcMismatch) => (),
        other => panic!("expected a tail CRC mismatch, got {:?}", other),
    }
}

#[test]
fn unknown_container_magic_is_format_error() {
    let key = [0x77u8; 32];
    let iv = [0x03u8; 16];
    let body = encrypt_with_embedded_iv(b"QQ not a container", &key, &iv);
    match decrypt_and_decompress(&body, &key) {
        Err(ChunkError::FormatError) => (),
        other => panic!("expected a format error, got {:?}", other),
    }
}

fn descriptor(sha: Vec<u8>, crc: u32, offset: u64, original_size: u32) -> ChunkData {
    ChunkData { sha, crc, offset, original_size, compressed_size: 0 }
}

#[test]
fn chunk_id_is_base64_of_sha() {
    let sha: Vec<u8> = (0u8..20).collect();
    let chunk = descriptor(sha.clone(), 0, 0, 0);
    let id = chunk_id(&chunk);
    assert_eq!(id, "AAECAwQFBgcICQoLDA0ODxAREhM=");
    let back = base64::engine::general_purpose::STANDARD.decode(&id).unwrap();
    assert_eq!(back, sha);
}

#[test]
fn verify_chunk_checks_size_then_crc() {
    let data = b"twelve bytes";
    let good = descriptor(vec![], crc32fast::hash(data), 0, data.len() as u32);
    assert!(verify_chunk(data, &good).is_ok());
    let short = descriptor(vec![], crc32fast::hash(data), 0, 11);
    assert!(matches!(verify_chunk(data, &short), Err(ChunkError::ChunkSizeMismatch)));
    let wrong = descriptor(vec![], !crc32fast::hash(data), 0, data.len() as u32);
    assert!(matches!(verify_chunk(data, &wrong), Err(ChunkError::ChunkCrcMismatch)));
}

#[test]
fn chunk_window_selects_overlap() {
    let chunk = descriptor(vec![], 0, 100, 50);
    assert_eq!(chunk_write_window(&chunk, None), Some((0, 50, 100)));
    // Range covering the whole chunk.
    assert_eq!(chunk_write_window(&chunk, Some((0, 1000))), Some((0, 50, 100)));
    // Range starting inside the chunk.
    assert_eq!(chunk_write_window(&chunk, Some((120, 1000))), Some((20, 30, 120)));
    // Range ending inside the chunk.
    assert_eq!(chunk_write_window(&chunk, Some((0, 130))), Some((0, 30, 100)));
    // Range strictly inside the chunk.
    assert_eq!(chunk_write_window(&chunk, Some((110, 120))), Some((10, 10, 110)));
    // Range entirely outside the chunk.
    assert_eq!(chunk_write_window(&chunk, Some((0, 100))), None);
    assert_eq!(chunk_write_window(&chunk, Some((150, 200))), None);
}
