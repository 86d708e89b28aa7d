//! Message sealing: the nonce and associated data that bind a ciphertext to
//! its sender and position in the conversation.

use chacha20poly1305::aead::{Aead, Payload};
use chacha20poly1305::{Key, KeyInit, XChaCha20Poly1305, XNonce};
use sha2::{Digest, Sha256};
use vstd::prelude::*;

verus! {

/// The eight big-endian bytes of `x`, most significant first.
pub open spec fn u64_be_bytes(x: u64) -> Seq<u8> {
    seq![
        (x >> 56u64) as u8,
        (x >> 48u64) as u8,
        (x >> 40u64) as u8,
        (x >> 32u64) as u8,
        (x >> 24u64) as u8,
        (x >> 16u64) as u8,
        (x >> 8u64) as u8,
        x as u8,
    ]
}

/// The 24-byte extended nonce for a message: the sender's id and the message
/// counter, each big-endian, followed by eight zero bytes.
pub open spec fn nonce_bytes(sender_id: u64, counter: u64) -> Seq<u8> {
    u64_be_bytes(sender_id) + u64_be_bytes(counter) + Seq::new(8, |i: int| 0u8)
}

/// The associated data for a message: the sender's id and the message
/// counter, each big-endian.
pub open spec fn aad_bytes(sender_id: u64, counter: u64) -> Seq<u8> {
    u64_be_bytes(sender_id) + u64_be_bytes(counter)
}

/// Builds the nonce under which `sender_id`'s message number `counter` is sealed.
pub fn make_nonce(sender_id: u64, counter: u64) -> (nonce: [u8; 24])
    ensures
        nonce@ == nonce_bytes(sender_id, counter),
{
    let nonce: [u8; 24] = [
        (sender_id >> 56u64) as u8,
        (sender_id >> 48u64) as u8,
        (sender_id >> 40u64) as u8,
        (sender_id >> 32u64) as u8,
        (sender_id >> 24u64) as u8,
        (sender_id >> 16u64) as u8,
        (sender_id >> 8u64) as u8,
        sender_id as u8,
        (counter >> 56u64) as u8,
        (counter >> 48u64) as u8,
        (counter >> 40u64) as u8,
        (counter >> 32u64) as u8,
        (counter >> 24u64) as u8,
        (counter >> 16u64) as u8,
        (counter >> 8u64) as u8,
        counter as u8,
        0u8, 0u8, 0u8, 0u8, 0u8, 0u8, 0u8, 0u8,
    ];
    assert(nonce@ =~= nonce_bytes(sender_id, counter));
    nonce
}


/// Appends the big-endian bytes of `x` to `bytes`.
fn push_u64_be(bytes: &mut Vec<u8>, x: u64)
    ensures
        final(bytes)@ == old(bytes)@ + u64_be_bytes(x),
{
    bytes.push((x >> 56u64) as u8);
    bytes.push((x >> 48u64) as u8);
    bytes.push((x >> 40u64) as u8);
    bytes.push((x >> 32u64) as u8);
    bytes.push((x >> 24u64) as u8);
    bytes.push((x >> 16u64) as u8);
    bytes.push((x >> 8u64) as u8);
    bytes.push(x as u8);
    assert(bytes@ =~= old(bytes)@ + u64_be_bytes(x));
}

/// Builds the associated data that authenticates `sender_id` and `counter`
/// alongside a sealed message.
pub fn make_aad(sender_id: u64, counter: u64) -> (aad: Vec<u8>)
    ensures
        aad@ == aad_bytes(sender_id, counter),
{
    let mut aad: Vec<u8> = Vec::new();
    push_u64_be(&mut aad, sender_id);
    push_u64_be(&mut aad, counter);
    assert(aad@ =~= aad_bytes(sender_id, counter));
    aad
}

/// Distinct integers have distinct big-endian encodings.
pub proof fn lemma_u64_be_bytes_injective(x: u64, y: u64)
    requires
        u64_be_bytes(x) == u64_be_bytes(y),
    ensures
        x == y,
{
    let bx = u64_be_bytes(x);
    let by = u64_be_bytes(y);
    assert(bx[0] == by[0] && bx[1] == by[1] && bx[2] == by[2] && bx[3] == by[3]);
    assert(bx[4] == by[4] && bx[5] == by[5] && bx[6] == by[6] && bx[7] == by[7]);
    assert(x == y) by (bit_vector)
        requires
            (x >> 56u64) as u8 == (y >> 56u64) as u8,
            (x >> 48u64) as u8 == (y >> 48u64) as u8,
            (x >> 40u64) as u8 == (y >> 40u64) as u8,
            (x >> 32u64) as u8 == (y >> 32u64) as u8,
            (x >> 24u64) as u8 == (y >> 24u64) as u8,
            (x >> 16u64) as u8 == (y >> 16u64) as u8,
            (x >> 8u64) as u8 == (y >> 8u64) as u8,
            x as u8 == y as u8,
    ;
}

/// Two messages share a nonce only when they have the same sender and the
/// same counter: every (sender, counter) pair is sealed under its own nonce.
pub proof fn nonce_is_unique_per_sender_and_counter(s1: u64, c1: u64, s2: u64, c2: u64)
    requires
        nonce_bytes(s1, c1) == nonce_bytes(s2, c2),
    ensures
        s1 == s2,
        c1 == c2,
{
    let n1 = nonce_bytes(s1, c1);
    let n2 = nonce_bytes(s2, c2);
    assert(u64_be_bytes(s1) =~= n1.subrange(0, 8));
    assert(u64_be_bytes(s2) =~= n2.subrange(0, 8));
    assert(u64_be_bytes(c1) =~= n1.subrange(8, 16));
    assert(u64_be_bytes(c2) =~= n2.subrange(8, 16));
    lemma_u64_be_bytes_injective(s1, s2);
    lemma_u64_be_bytes_injective(c1, c2);
}

/// The associated data determines the sender and the counter it was made for.
pub proof fn aad_is_unique_per_sender_and_counter(s1: u64, c1: u64, s2: u64, c2: u64)
    requires
        aad_bytes(s1, c1) == aad_bytes(s2, c2),
    ensures
        s1 == s2,
        c1 == c2,
{
    let a1 = aad_bytes(s1, c1);
    let a2 = aad_bytes(s2, c2);
    assert(u64_be_bytes(s1) =~= a1.subrange(0, 8));
    assert(u64_be_bytes(s2) =~= a2.subrange(0, 8));
    assert(u64_be_bytes(c1) =~= a1.subrange(8, 16));
    assert(u64_be_bytes(c2) =~= a2.subrange(8, 16));
    lemma_u64_be_bytes_injective(s1, s2);
    lemma_u64_be_bytes_injective(c1, c2);
}


/// The error that the AEAD crate reports when a ciphertext does not open.
#[verifier::external_type_specification]
#[verifier::external_body]
pub struct ExAeadError(chacha20poly1305::aead::Error);

/// The error that the operating system's random source reports.
#[verifier::external_type_specification]
#[verifier::external_body]
pub struct ExRandomError(getrandom::Error);

/// What XChaCha20-Poly1305 produces when it seals `plaintext` under `key`,
/// `nonce` and associated data `aad` (the ciphertext with its tag appended).
pub uninterp spec fn xchacha20poly1305_seal(key: Seq<u8>, nonce: Seq<u8>, aad: Seq<u8>, plaintext: Seq<u8>) -> Seq<u8>;

/// What XChaCha20-Poly1305 recovers when it opens `ciphertext` under `key`,
/// `nonce` and associated data `aad`: the plaintext, or nothing when the tag
/// does not authenticate.
pub uninterp spec fn xchacha20poly1305_open(key: Seq<u8>, nonce: Seq<u8>, aad: Seq<u8>, ciphertext: Seq<u8>) -> Option<Seq<u8>>;

/// The SHA-256 digest of `data`.
pub uninterp spec fn sha256(data: Seq<u8>) -> Seq<u8>;

/// The largest plaintext (exclusive) that the cipher accepts, in bytes:
/// ChaCha20 runs out of block counter after `u32::MAX` blocks of 64 bytes.
pub const SEALABLE_LEN_LIMIT: u64 = 64 * 0xffff_ffff;

/// `SEALABLE_LEN_LIMIT` as an integer.
pub open spec fn sealable_len_limit() -> int {
    SEALABLE_LEN_LIMIT as int
}

/// Seals with `XChaCha20Poly1305::encrypt` (trait `aead::Aead`). The result is
/// the cipher's output for these four inputs, the plaintext's length plus the
/// 16-byte tag, and opening it under the same key, nonce and associated data
/// gives the plaintext back. The crate fails only when the plaintext reaches
/// `sealable_len_limit`, which `requires` rules out.
#[verifier::external_body]
fn xchacha20poly1305_encrypt(
    key: &[u8; 32],
    nonce: &[u8; 24],
    aad: &[u8],
    plaintext: &[u8],
) -> (ciphertext: Vec<u8>)
    requires
        plaintext@.len() < sealable_len_limit(),
    ensures
        ciphertext@ == xchacha20poly1305_seal(key@, nonce@, aad@, plaintext@),
        ciphertext@.len() == plaintext@.len() + 16,
        xchacha20poly1305_open(key@, nonce@, aad@, ciphertext@) == Some(plaintext@),
{
    let cipher = XChaCha20Poly1305::new(Key::from_slice(key));
    cipher.encrypt(XNonce::from_slice(nonce), Payload { msg: plaintext, aad }).expect(
        "plaintext below the cipher's limit",
    )
}

/// Opens with `XChaCha20Poly1305::decrypt` (trait `aead::Aead`). It succeeds
/// exactly when the cipher authenticates the input, and then returns what the
/// cipher recovers, 16 bytes shorter than the ciphertext; an input shorter
/// than a tag is always refused.
#[verifier::external_body]
fn xchacha20poly1305_decrypt(
    key: &[u8; 32],
    nonce: &[u8; 24],
    aad: &[u8],
    ciphertext: &[u8],
) -> (res: Result<Vec<u8>, chacha20poly1305::aead::Error>)
    ensures
        res is Ok <==> xchacha20poly1305_open(key@, nonce@, aad@, ciphertext@) is Some,
        res matches Ok(p) ==> xchacha20poly1305_open(key@, nonce@, aad@, ciphertext@) == Some(p@),
        res matches Ok(p) ==> p@.len() + 16 == ciphertext@.len(),
        ciphertext@.len() < 16 ==> res is Err,
{
    let cipher = XChaCha20Poly1305::new(Key::from_slice(key));
    cipher.decrypt(XNonce::from_slice(nonce), Payload { msg: ciphertext, aad })
}

/// Hashes with `Sha256::digest` (trait `sha2::Digest`): the result is the
/// SHA-256 digest of `data`.
#[verifier::external_body]
fn sha256_digest(data: &[u8]) -> (digest: [u8; 32])
    ensures
        digest@ == sha256(data@),
{
    Sha256::digest(data).into()
}

/// Fills 32 bytes with `getrandom::getrandom`. Nothing is promised of the
/// bytes (they come from the operating system), nor of when the call fails.
#[verifier::external_body]
fn os_random_bytes() -> (res: Result<[u8; 32], getrandom::Error>) {
    let mut bytes = [0u8; 32];
    match getrandom::getrandom(&mut bytes) {
        Ok(()) => Ok(bytes),
        Err(e) => Err(e),
    }
}

/// The ciphertext that `sender_id`'s message number `counter` becomes under
/// `key`.
pub open spec fn sealed_message(key: Seq<u8>, sender_id: u64, counter: u64, plaintext: Seq<u8>) -> Seq<u8> {
    xchacha20poly1305_seal(key, nonce_bytes(sender_id, counter), aad_bytes(sender_id, counter), plaintext)
}

/// What opening `ciphertext` as `sender_id`'s message number `counter` under
/// `key` recovers.
pub open spec fn opened_message(key: Seq<u8>, sender_id: u64, counter: u64, ciphertext: Seq<u8>) -> Option<Seq<u8>> {
    xchacha20poly1305_open(key, nonce_bytes(sender_id, counter), aad_bytes(sender_id, counter), ciphertext)
}

/// Seals `plaintext` as `sender_id`'s message number `counter`. Opening the
/// result with the same key, sender and counter gives `plaintext` back.
pub fn encrypt_message(key: &[u8; 32], sender_id: u64, counter: u64, plaintext: &[u8]) -> (ciphertext: Vec<u8>)
    requires
        plaintext@.len() < sealable_len_limit(),
    ensures
        ciphertext@ == sealed_message(key@, sender_id, counter, plaintext@),
        ciphertext@.len() == plaintext@.len() + 16,
        opened_message(key@, sender_id, counter, ciphertext@) == Some(plaintext@),
{
    let nonce = make_nonce(sender_id, counter);
    let aad = make_aad(sender_id, counter);
    xchacha20poly1305_encrypt(key, &nonce, aad.as_slice(), plaintext)
}

/// The text of the error that a ciphertext which does not open reports.
pub open spec fn open_failure_text() -> Seq<char> {
    seq!['a', 'e', 'a', 'd', ':', ':', 'E', 'r', 'r', 'o', 'r']
}

/// Opens `ciphertext` as `sender_id`'s message number `counter`: the
/// plaintext when it authenticates, else the error text.
pub fn decrypt_message(key: &[u8; 32], sender_id: u64, counter: u64, ciphertext: &[u8]) -> (res: Result<Vec<u8>, String>)
    ensures
        res is Ok <==> opened_message(key@, sender_id, counter, ciphertext@) is Some,
        res matches Ok(p) ==> opened_message(key@, sender_id, counter, ciphertext@) == Some(p@),
        res matches Err(e) ==> e@ == open_failure_text(),
        res matches Ok(p) ==> p@.len() + 16 == ciphertext@.len(),
        ciphertext@.len() < 16 ==> res is Err,
{
    let nonce = make_nonce(sender_id, counter);
    let aad = make_aad(sender_id, counter);
    match xchacha20poly1305_decrypt(key, &nonce, aad.as_slice(), ciphertext) {
        Ok(p) => Ok(p),
        Err(_) => {
            let text = String::from_str("aead::Error");
            proof {
                reveal_strlit("aead::Error");
            }
            assert(text@ =~= open_failure_text());
            Err(text)
        },
    }
}

/// The master key derived from 32 random bytes and the user's text: the
/// SHA-256 digest of the random bytes followed by the text's UTF-8 bytes.
pub open spec fn derived_key(random: Seq<u8>, user_input: Seq<char>) -> Seq<u8> {
    sha256(random + vstd::utf8::encode_utf8(user_input))
}

/// The key is the SHA-256 digest of all the random bytes followed by all the
/// UTF-8 bytes of the user's text: any byte string laid out that way hashes
/// to the derived key.
pub proof fn derived_key_hashes_random_then_whole_text(random: Seq<u8>, user_input: Seq<char>, data: Seq<u8>)
    requires
        data.len() == random.len() + vstd::utf8::encode_utf8(user_input).len(),
        forall|i: int| 0 <= i < random.len() ==> data[i] == random[i],
        forall|j: int|
            0 <= j < vstd::utf8::encode_utf8(user_input).len() ==> data[random.len() + j]
                == vstd::utf8::encode_utf8(user_input)[j],
    ensures
        derived_key(random, user_input) == sha256(data),
{
    let text = vstd::utf8::encode_utf8(user_input);
    assert forall|i: int| 0 <= i < data.len() implies data[i] == (random + text)[i] by {
        if i >= random.len() {
            let j = i - random.len();
            assert(data[random.len() + j] == text[j]);
        }
    }
    assert(data =~= random + text);
}

/// Derives a master key from `random` and `user_input`.
pub fn derive_key(random: &[u8; 32], user_input: &str) -> (key: [u8; 32])
    ensures
        key@ == derived_key(random@, user_input@),
{
    let mut data: Vec<u8> = Vec::new();
    let mut i: usize = 0;
    while i < 32
        invariant
            i <= 32,
            data@ == random@.subrange(0, i as int),
        decreases 32 - i,
    {
        data.push(random[i]);
        i = i + 1;
        assert(data@ =~= random@.subrange(0, i as int));
    }
    let text = user_input.as_bytes();
    let mut j: usize = 0;
    while j < text.len()
        invariant
            j <= text@.len(),
            text@ == vstd::utf8::encode_utf8(user_input@),
            data@ == random@ + text@.subrange(0, j as int),
        decreases text@.len() - j,
    {
        data.push(text[j]);
        j = j + 1;
        assert(data@ =~= random@ + text@.subrange(0, j as int));
    }
    assert(data@ =~= random@ + vstd::utf8::encode_utf8(user_input@));
    sha256_digest(data.as_slice())
}

/// Generates a fresh master key from operating-system randomness and
/// `user_input`; `None` when the operating system gives no randomness.
pub fn generate_key(user_input: &str) -> (key: Option<[u8; 32]>)
    ensures
        key matches Some(k) ==> exists|r: Seq<u8>| r.len() == 32 && k@ == #[trigger] derived_key(r, user_input@),
{
    match os_random_bytes() {
        Ok(random) => Some(derive_key(&random, user_input)),
        Err(_) => None,
    }
}

} // verus!
