use vstd::prelude::*;
use vstd::slice::slice_subrange;
use aes::cipher::block_padding::Pkcs7;
use aes::cipher::{BlockCipherDecrypt, BlockModeDecrypt, KeyInit, KeyIvInit};
use base64::Engine;

verus! {

/// What AES-256 single-block (ECB) decryption of a 16-byte block under a
/// 32-byte key yields.
pub uninterp spec fn aes256_block_dec(block: Seq<u8>, key: Seq<u8>) -> Seq<u8>;

/// What AES-256-CBC decryption with PKCS#7 unpadding yields, or `None`
/// when the ciphertext length is not a whole number of blocks or the
/// padding is malformed.
pub uninterp spec fn aes256_cbc_dec(ct: Seq<u8>, key: Seq<u8>, iv: Seq<u8>) -> Option<Seq<u8>>;

/// What base64 (standard alphabet, padded) makes of a byte sequence.
pub uninterp spec fn base64_of(bytes: Seq<u8>) -> Seq<char>;

/// What UTF-8 decoding makes of a byte sequence, or `None` when the
/// bytes are not valid UTF-8.
pub uninterp spec fn utf8_decoded(bytes: Seq<u8>) -> Option<Seq<char>>;

/// Relies on aes::Aes256 single-block decryption: the result is 16
/// bytes and depends on the block and key alone.
#[verifier::external_body]
fn aes256_decrypt_block(block: &[u8], key: &[u8; 32]) -> (r: Vec<u8>)
    requires
        block@.len() == 16,
    ensures
        r@ == aes256_block_dec(block@, key@),
        r@.len() == 16,
{
    let cipher = aes::Aes256::new_from_slice(key).unwrap();
    let mut b = aes::Block::default();
    b.copy_from_slice(block);
    cipher.decrypt_block(&mut b);
    b.to_vec()
}

/// Relies on cbc::Decryptor<aes::Aes256> with PKCS#7 unpadding: the
/// result depends on the ciphertext, key and IV alone, and decryption
/// fails exactly when the input length is not a whole number of blocks
/// or the padding is malformed.
#[verifier::external_body]
fn aes256_cbc_decrypt_raw(ct: &[u8], key: &[u8; 32], iv: &[u8]) -> (r: Result<Vec<u8>, ()>)
    requires
        iv@.len() == 16,
    ensures
        r is Ok <==> aes256_cbc_dec(ct@, key@, iv@) is Some,
        r is Ok ==> r->Ok_0@ == aes256_cbc_dec(ct@, key@, iv@)->Some_0,
{
    let dec = cbc::Decryptor::<aes::Aes256>::new_from_slices(key, iv).map_err(|_| ())?;
    dec.decrypt_padded_vec::<Pkcs7>(ct).map_err(|_| ())
}

/// Relies on base64's standard padded engine: the encoding depends on
/// the input bytes alone.
#[verifier::external_body]
pub(crate) fn base64_encode(data: &[u8]) -> (r: String)
    ensures
        r@ == base64_of(data@),
{
    base64::engine::general_purpose::STANDARD.encode(data)
}

/// Relies on base64's standard padded engine: it accepts exactly the
/// canonical encodings, and decoding an encoding returns the encoded
/// bytes.
#[verifier::external_body]
pub(crate) fn base64_decode(data: &str) -> (r: Result<Vec<u8>, ()>)
    ensures
        r is Ok ==> base64_of(r->Ok_0@) == data@,
        forall|b: Seq<u8>| base64_of(b) == data@ ==> r is Ok && r->Ok_0@ == b,
{
    base64::engine::general_purpose::STANDARD.decode(data).map_err(|_| ())
}

/// Relies on String::from_utf8: the result depends on the bytes alone,
/// and decoding fails exactly on byte sequences that are not UTF-8.
#[verifier::external_body]
pub(crate) fn bytes_to_string(v: Vec<u8>) -> (r: Result<String, ()>)
    ensures
        r is Ok <==> utf8_decoded(v@) is Some,
        r is Ok ==> r->Ok_0@ == utf8_decoded(v@)->Some_0,
{
    String::from_utf8(v).map_err(|_| ())
}

/// What decrypting a ciphertext whose first block is its own
/// ECB-encrypted IV yields: the first 16 bytes are single-block
/// decrypted to recover the IV, and the remainder is CBC-decrypted
/// under that IV.
pub open spec fn iv_extracted_plain(ct: Seq<u8>, key: Seq<u8>) -> Option<Seq<u8>> {
    if ct.len() < 16 {
        None
    } else {
        aes256_cbc_dec(ct.skip(16), key, aes256_block_dec(ct.take(16), key))
    }
}

/// Decrypts a ciphertext whose first 16 bytes are an AES-256-ECB
/// encrypted IV, then CBC-decrypts the remainder under that IV with
/// PKCS#7 unpadding.
pub fn decrypt_cbc_with_iv_extraction(data: &[u8], key: &[u8; 32]) -> (r: Result<Vec<u8>, ()>)
    ensures
        r is Ok <==> iv_extracted_plain(data@, key@) is Some,
        r is Ok ==> r->Ok_0@ == iv_extracted_plain(data@, key@)->Some_0,
{
    if data.len() < 16 {
        return Err(());
    }
    let iv = aes256_decrypt_block(slice_subrange(data, 0, 16), key);
    let r = aes256_cbc_decrypt_raw(slice_subrange(data, 16, data.len()), key, iv.as_slice());
    proof {
        assert(data@.subrange(0, 16) =~= data@.take(16));
        assert(data@.subrange(16, data@.len() as int) =~= data@.skip(16));
    }
    r
}

} // verus!
