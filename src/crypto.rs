//! Block cipher, stream cipher, digest and hex primitives.
//!
//! Every function here that reaches an outside crate does so through one small
//! wrapper whose contract is stated over the spec functions below.
use vstd::prelude::*;

use aes::cipher::generic_array::GenericArray;
use aes::cipher::{BlockDecrypt, BlockEncrypt, NewBlockCipher, NewCipher, StreamCipher};
use aes::{Aes128, Aes128Ctr};
use sha2::{Digest, Sha256};

verus! {

/// Size in bytes of an AES-128 key and of an AES block.
pub const AES_128_KEY_SIZE: usize = 16;

/// A 128-bit key or block.
pub type AesKey = [u8; AES_128_KEY_SIZE];

/// A 128-bit block from which a key is derived.
pub type KeySource = [u8; AES_128_KEY_SIZE];

/// AES-128 encryption of a single block `block` under `key`.
pub uninterp spec fn aes_encrypt_block(key: Seq<u8>, block: Seq<u8>) -> Seq<u8>;

/// AES-128 decryption of a single block `block` under `key`.
pub uninterp spec fn aes_decrypt_block(key: Seq<u8>, block: Seq<u8>) -> Seq<u8>;

/// The AES-128 counter-mode keystream of `len` bytes for `key` and the initial
/// counter block `nonce`.
pub uninterp spec fn aes_ctr_keystream(key: Seq<u8>, nonce: Seq<u8>, len: nat) -> Seq<u8>;

/// The SHA-256 digest of `data`.
pub uninterp spec fn sha256_digest(data: Seq<u8>) -> Seq<u8>;

/// Byte-wise exclusive or of `data` with the first `data.len()` bytes of `pad`.
pub open spec fn xor_bytes(data: Seq<u8>, pad: Seq<u8>) -> Seq<u8> {
    Seq::new(data.len(), |i: int| data[i] ^ pad[i])
}

/// Counter-mode transform of `data`: the data xored with the keystream.
pub open spec fn ctr_transform(key: Seq<u8>, nonce: Seq<u8>, data: Seq<u8>) -> Seq<u8> {
    xor_bytes(data, aes_ctr_keystream(key, nonce, data.len()))
}

/// An ASCII hexadecimal digit, in either case.
pub open spec fn is_hex_digit(c: u8) -> bool {
    (48 <= c <= 57) || (65 <= c <= 70) || (97 <= c <= 102)
}

/// The value of a hexadecimal digit.
pub open spec fn hex_digit_value(c: u8) -> int {
    if c <= 57 {
        c - 48
    } else if c <= 70 {
        c - 55
    } else {
        c - 87
    }
}

/// Text that decodes as hexadecimal: an even number of hex digits.
pub open spec fn is_hex_text(s: Seq<u8>) -> bool {
    &&& s.len() % 2 == 0
    &&& forall|i: int| 0 <= i < s.len() ==> is_hex_digit(#[trigger] s[i])
}

/// The bytes that hex text `s` stands for, two digits per byte, high digit first.
pub open spec fn hex_decoded(s: Seq<u8>) -> Seq<u8> {
    Seq::new(
        s.len() / 2,
        |i: int| (hex_digit_value(s[2 * i]) * 16 + hex_digit_value(s[2 * i + 1])) as u8,
    )
}

/// The lower-case hex digit for a value below 16.
pub open spec fn hex_char(v: int) -> char {
    seq!['0', '1', '2', '3', '4', '5', '6', '7', '8', '9', 'a', 'b', 'c', 'd', 'e', 'f'][v]
}

/// Lower-case hex text for `b`, two digits per byte, high digit first.
pub open spec fn hex_text(b: Seq<u8>) -> Seq<char> {
    Seq::new(
        2 * b.len(),
        |i: int|
            if i % 2 == 0 {
                hex_char(b[i / 2] as int / 16)
            } else {
                hex_char(b[i / 2] as int % 16)
            },
    )
}

/// Xoring twice with the same pad gives the data back.
pub proof fn lemma_xor_twice(data: Seq<u8>, pad: Seq<u8>)
    ensures
        xor_bytes(xor_bytes(data, pad), pad) == data,
{
    assert forall|i: int| 0 <= i < data.len() implies #[trigger] xor_bytes(
        xor_bytes(data, pad),
        pad,
    )[i] == data[i] by {
        let d = data[i];
        let p = pad[i];
        assert((d ^ p) ^ p == d) by (bit_vector);
    }
    assert(xor_bytes(xor_bytes(data, pad), pad) =~= data);
}

/// The counter-mode transform is its own inverse: applying it twice with the
/// same key and nonce gives the data back.
pub proof fn lemma_ctr_involution(key: Seq<u8>, nonce: Seq<u8>, data: Seq<u8>)
    ensures
        ctr_transform(key, nonce, ctr_transform(key, nonce, data)) == data,
{
    lemma_xor_twice(data, aes_ctr_keystream(key, nonce, data.len()));
}

#[verifier::external_type_specification]
#[verifier::external_body]
pub struct ExFromHexError(hex::FromHexError);

/// Relies on `BlockDecrypt::decrypt_block` of `aes::Aes128`: one block decrypted
/// under `key`; AES encryption under the same key maps the result back.
#[verifier::external_body]
pub(crate) fn decrypt_key(key: &AesKey, wrapped_key: &AesKey) -> (r: AesKey)
    ensures
        r@ == aes_decrypt_block(key@, wrapped_key@),
        aes_encrypt_block(key@, r@) == wrapped_key@,
{
    let cipher = Aes128::new(GenericArray::from_slice(key));
    let mut block = GenericArray::clone_from_slice(wrapped_key);
    cipher.decrypt_block(&mut block);
    let mut out = [0u8; 16];
    out.copy_from_slice(block.as_slice());
    out
}

/// Relies on `BlockEncrypt::encrypt_block` of `aes::Aes128`: one block encrypted
/// under `key`; AES decryption under the same key maps the result back.
#[verifier::external_body]
pub(crate) fn encrypt_key(key: &AesKey, block: &AesKey) -> (r: AesKey)
    ensures
        r@ == aes_encrypt_block(key@, block@),
        aes_decrypt_block(key@, r@) == block@,
{
    let cipher = Aes128::new(GenericArray::from_slice(key));
    let mut b = GenericArray::clone_from_slice(block);
    cipher.encrypt_block(&mut b);
    let mut out = [0u8; 16];
    out.copy_from_slice(b.as_slice());
    out
}

/// Relies on `StreamCipher::apply_keystream` of a fresh `aes::Aes128Ctr`: the data
/// is xored in place with the counter-mode keystream for `key` and `nonce`.
#[verifier::external_body]
pub fn aes_128_ctr_dec(data: &mut [u8], key: &AesKey, nonce: &AesKey)
    ensures
        final(data)@ == xor_bytes(old(data)@, aes_ctr_keystream(key@, nonce@, old(data)@.len())),
{
    let mut cipher = Aes128Ctr::new(GenericArray::from_slice(key), GenericArray::from_slice(nonce));
    cipher.apply_keystream(data);
}

/// Relies on `sha2::Sha256::digest`: the SHA-256 digest of `data`.
#[verifier::external_body]
pub(crate) fn sha256(data: &[u8]) -> (r: [u8; 32])
    ensures
        r@ == sha256_digest(data@),
{
    let digest = Sha256::digest(data);
    let mut out = [0u8; 32];
    out.copy_from_slice(digest.as_slice());
    out
}

/// Relies on `hex::decode`: decodes an even number of hex digits of either case,
/// and fails on any other text.
#[verifier::external_body]
pub(crate) fn hex_decode(text: &[u8]) -> (r: Result<Vec<u8>, hex::FromHexError>)
    ensures
        r.is_ok() == is_hex_text(text@),
        r.is_ok() ==> r.unwrap()@ == hex_decoded(text@),
{
    hex::decode(text)
}

/// Relies on `hex::encode`: two lower-case hex digits per byte.
#[verifier::external_body]
pub(crate) fn hex_encode(data: &[u8]) -> (r: String)
    ensures
        r@ == hex_text(data@),
{
    hex::encode(data)
}

} // verus!
