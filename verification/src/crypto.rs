//! Cryptographic primitives: PKCE verifier/challenge generation,
//! constant-time comparison, password-based key derivation, and the
//! authenticated cipher that protects session records at rest.
//!
//! The hash, the key-derivation function, the base64 codecs and the
//! entropy source come from outside crates through trusted wrappers; all
//! logic built on them is verified.
use vstd::prelude::*;

use base64::Engine;
use sha2::Digest;

use vstd::arithmetic::div_mod::lemma_fundamental_div_mod;
use vstd::bytes::u64_to_le_bytes;
use vstd::slice::{slice_subrange, slice_to_vec};
use vstd::string::{StrSliceExecFns, StringExecFns};
use vstd::utf8::{
    encode_utf8, encode_utf8_decode_utf8, encode_utf8_valid_utf8, is_ascii_chars,
    is_ascii_chars_encode_utf8,
};

use crate::codec::spec_enc_u64;
use crate::session::PKCEChallenge;
use crate::AuthError;

verus! {

// ---------------------------------------------------------------------
// Named results of the outside crates' functions
// ---------------------------------------------------------------------
/// The SHA-256 digest of a byte sequence.
pub uninterp spec fn sha256_of(data: Seq<u8>) -> Seq<u8>;

/// The 32-byte Argon2id key derived from a password and a salt with the
/// default parameters.
pub uninterp spec fn argon2_key_of(password: Seq<u8>, salt: Seq<u8>) -> Seq<u8>;

/// Standard-alphabet, padded base64 of a byte sequence.
pub uninterp spec fn b64std_of(data: Seq<u8>) -> Seq<char>;

/// Standard-alphabet, padded base64 decoding; fails on text the encoder
/// cannot produce.
pub uninterp spec fn b64std_decode_of(s: Seq<char>) -> Option<Seq<u8>>;

/// URL-safe, unpadded base64 of a byte sequence.
pub uninterp spec fn b64url_of(data: Seq<u8>) -> Seq<char>;

// ---------------------------------------------------------------------
// Trusted wrappers
// ---------------------------------------------------------------------
/// Relies on sha2's SHA-256: the digest is a function of the input bytes
/// alone and is exactly 32 bytes long.
#[verifier::external_body]
pub fn sha256(data: &[u8]) -> (r: Vec<u8>)
    ensures
        r@ == sha256_of(data@),
        r@.len() == 32,
{
    let d = sha2::Sha256::digest(data);
    d.as_slice().to_vec()
}

/// Relies on argon2's `hash_password_into` with the default Argon2id
/// parameters: the 32-byte key is a function of password and salt alone.
/// With password and salt inside the documented length bounds it fails
/// only when the hashing backend cannot obtain working memory.
#[verifier::external_body]
pub(crate) fn argon2_derive(password: &[u8], salt: &[u8]) -> (r: Result<Vec<u8>, String>)
    requires
        password@.len() <= 0xFFFF_FFFF,
        8 <= salt@.len() <= 0xFFFF_FFFF,
    ensures
        match r {
            Ok(k) => k@ == argon2_key_of(password@, salt@) && k@.len() == 32,
            Err(_) => true,
        },
{
    let mut out = [0u8; 32];
    match argon2::Argon2::default().hash_password_into(password, salt, &mut out) {
        Ok(()) => Ok(out.to_vec()),
        Err(e) => Err(format!("{e}")),
    }
}

/// Relies on base64's STANDARD engine: the encoding is a function of the
/// bytes alone, and decoding the encoding returns the original bytes.
#[verifier::external_body]
pub fn b64std_encode(data: &[u8]) -> (r: String)
    ensures
        r@ == b64std_of(data@),
        b64std_decode_of(r@) == Option::Some(data@),
{
    base64::engine::general_purpose::STANDARD.encode(data)
}

/// Relies on the STANDARD engine's strict decode: the result is a
/// function of the input characters alone.
#[verifier::external_body]
pub fn b64std_decode(s: &str) -> (r: Option<Vec<u8>>)
    ensures
        match r {
            Option::Some(d) => b64std_decode_of(s@) == Option::Some(d@),
            Option::None => b64std_decode_of(s@) is None,
        },
{
    match base64::engine::general_purpose::STANDARD.decode(s.as_bytes()) {
        Ok(d) => Some(d),
        Err(_) => None,
    }
}

/// Relies on base64's URL_SAFE_NO_PAD engine: unpadded URL-safe base64,
/// a function of the bytes alone.
#[verifier::external_body]
pub fn b64url_encode(data: &[u8]) -> (r: String)
    ensures
        r@ == b64url_of(data@),
{
    base64::engine::general_purpose::URL_SAFE_NO_PAD.encode(data)
}

/// Relies on getrandom::fill: cryptographically secure random bytes from
/// the operating system.  Nothing can be promised of the values; failure
/// means the entropy source itself failed.
#[verifier::external_body]
pub(crate) fn random_bytes(len: usize) -> (r: Result<Vec<u8>, String>)
    ensures
        match r {
            Ok(b) => b@.len() == len,
            Err(_) => true,
        },
{
    let mut buf = vec![0u8; len];
    match getrandom::fill(&mut buf) {
        Ok(()) => Ok(buf),
        Err(e) => Err(format!("{e}")),
    }
}

/// Relies on uuid's `Builder::from_random_bytes` and the hyphenated
/// text form: a version-4 UUID built from the given sixteen bytes,
/// always 36 characters of text.
#[verifier::external_body]
fn uuid_v4_string(bytes: &[u8]) -> (r: String)
    requires
        bytes@.len() == 16,
    ensures
        r@.len() == 36,
{
    let mut b = [0u8; 16];
    b.copy_from_slice(bytes);
    uuid::Builder::from_random_bytes(b).into_uuid().to_string()
}

/// Draw a fresh random version-4 session id.  An entropy-source failure
/// is a CryptoError, never a crash.
pub fn new_session_id() -> (r: Result<String, AuthError>)
    ensures
        match r {
            Ok(s) => s@.len() == 36,
            Err(e) => e is CryptoError,
        },
{
    let raw = match random_bytes(16) {
        Ok(b) => b,
        Err(m) => {
            return Err(AuthError::CryptoError(m));
        },
    };
    Ok(uuid_v4_string(raw.as_slice()))
}

// ---------------------------------------------------------------------
// Constant-time comparison
// ---------------------------------------------------------------------
/// Byte-level constant-time equality: the whole buffers are always
/// walked, accumulating differences with bitwise or, so the running time
/// does not depend on where the first difference lies.
pub fn constant_time_eq_bytes(a: &[u8], b: &[u8]) -> (r: bool)
    ensures
        r == (a@ == b@),
{
    if a.len() != b.len() {
        return false;
    }
    let mut acc: u8 = 0;
    let mut i: usize = 0;
    while i < a.len()
        invariant
            a@.len() == b@.len(),
            i <= a@.len(),
            (acc == 0) <==> (forall|j: int| 0 <= j < i ==> a@[j] == b@[j]),
        decreases a@.len() - i,
    {
        let x = a[i];
        let y = b[i];
        let d = x ^ y;
        let acc2 = acc | d;
        proof {
            assert((x ^ y == 0) <==> (x == y)) by (bit_vector);
            assert(((acc | d) == 0) <==> (acc == 0 && d == 0)) by (bit_vector);
        }
        acc = acc2;
        i = i + 1;
    }
    proof {
        if acc == 0 {
            assert(a@ =~= b@);
        }
    }
    acc == 0
}

/// Constant-time equality of two strings, compared over their UTF-8
/// bytes.  Equal byte images mean equal strings because UTF-8 encoding is
/// injective.
pub fn constant_time_eq(a: &str, b: &str) -> (r: bool)
    ensures
        r == (a@ == b@),
{
    let r = constant_time_eq_bytes(a.as_bytes(), b.as_bytes());
    proof {
        encode_utf8_decode_utf8(a@);
        encode_utf8_decode_utf8(b@);
    }
    r
}

// ---------------------------------------------------------------------
// Secure random strings over the unreserved URL charset
// ---------------------------------------------------------------------
/// The unreserved URL-safe charset: ASCII letters, digits, `-`, `.`,
/// `_` and `~`.
pub open spec fn is_unreserved_char(c: char) -> bool {
    ||| 65 <= c as u32 <= 90
    ||| 97 <= c as u32 <= 122
    ||| 48 <= c as u32 <= 57
    ||| c as u32 == 45
    ||| c as u32 == 46
    ||| c as u32 == 95
    ||| c as u32 == 126
}

pub open spec fn all_unreserved(s: Seq<char>) -> bool {
    forall|i: int| 0 <= i < s.len() ==> is_unreserved_char(#[trigger] s[i])
}

/// Map a random byte onto the 66-character unreserved charset.
fn charset_byte(x: u8) -> (b: u8)
    ensures
        b < 128,
        is_unreserved_char(b as char),
{
    let i = x % 66;
    let b: u8 = if i < 26 {
        65 + i
    } else if i < 52 {
        97 + (i - 26)
    } else if i < 62 {
        48 + (i - 52)
    } else if i == 62 {
        45
    } else if i == 63 {
        46
    } else if i == 64 {
        95
    } else {
        126
    };
    proof {
        assert((b as char) as u32 == b as u32);
    }
    b
}

/// Draw a cryptographically secure random string of `length` characters
/// from the unreserved charset.  Fails only when the entropy source
/// fails, which is fatal to the operation.
pub fn generate_secure_random_string(length: usize) -> (r: Result<String, AuthError>)
    ensures
        match r {
            Ok(s) => s@.len() == length && all_unreserved(s@),
            Err(e) => e is CryptoError,
        },
{
    let raw = match random_bytes(length) {
        Ok(b) => b,
        Err(m) => {
            return Err(AuthError::CryptoError(m));
        },
    };
    let mut out: Vec<u8> = Vec::new();
    let mut i: usize = 0;
    while i < raw.len()
        invariant
            raw@.len() == length,
            i <= length,
            out@.len() == i,
            forall|j: int|
                0 <= j < i ==> #[trigger] out@[j] < 128 && is_unreserved_char(out@[j] as char),
        decreases raw@.len() - i,
    {
        out.push(charset_byte(raw[i]));
        i = i + 1;
    }
    let ghost gchars = Seq::new(out@.len(), |j: int| out@[j] as char);
    proof {
        assert(is_ascii_chars(gchars)) by {
            assert forall|j: int| 0 <= j < gchars.len() implies '\0' <= #[trigger] gchars[j]
                <= '\u{7f}' by {
                assert((out@[j] as char) as u32 == out@[j] as u32);
            }
        }
        is_ascii_chars_encode_utf8(gchars);
        assert forall|j: int| 0 <= j < gchars.len() implies #[trigger] encode_utf8(gchars)[j]
            == out@[j] by {
            assert((out@[j] as char) as u32 == out@[j] as u32);
            assert(gchars[j] as u8 == out@[j]);
        }
        assert(encode_utf8(gchars) =~= out@);
        encode_utf8_valid_utf8(gchars);
        encode_utf8_decode_utf8(gchars);
    }
    match crate::codec::string_from_utf8_checked(out) {
        Option::Some(s) => {
            proof {
                assert(s@ == gchars);
                assert(all_unreserved(s@)) by {
                    assert forall|j: int| 0 <= j < s@.len() implies is_unreserved_char(
                        #[trigger] s@[j],
                    ) by {
                        assert(s@[j] == out@[j] as char);
                        assert((out@[j] as char) as u32 == out@[j] as u32);
                    }
                }
            }
            Ok(s)
        },
        Option::None => Err(AuthError::CryptoError(String::from_str("invalid charset image"))),
    }
}

// ---------------------------------------------------------------------
// Authenticated cipher: a SHA-256 keystream in counter mode with an
// encrypt-then-mac tag, so tampering and wrong keys are detected.  The
// tag is a nested keyed hash, sha256(key || sha256(key || nonce ||
// ciphertext)): the outer application closes the construction against
// length extension.
// ---------------------------------------------------------------------
/// A sequence padded or cut to exactly 32 bytes.  The digest wrapper
/// guarantees 32 bytes, so on real digests this is the identity; it keeps
/// the specification functions length-correct.
pub open spec fn norm32(s: Seq<u8>) -> Seq<u8> {
    Seq::new(
        32,
        |i: int|
            if 0 <= i < s.len() {
                s[i]
            } else {
                0u8
            },
    )
}

/// Block `i` of the keystream for a key/nonce pair.
pub open spec fn keystream_block(key: Seq<u8>, nonce: Seq<u8>, i: u64) -> Seq<u8> {
    norm32(sha256_of(key + nonce + spec_enc_u64(i)))
}

/// The first `nblocks` keystream blocks, concatenated.
pub open spec fn keystream(key: Seq<u8>, nonce: Seq<u8>, nblocks: nat) -> Seq<u8>
    decreases nblocks,
{
    if nblocks == 0 {
        Seq::empty()
    } else {
        keystream(key, nonce, (nblocks - 1) as nat) + keystream_block(
            key,
            nonce,
            (nblocks - 1) as u64,
        )
    }
}

/// Keystream blocks needed to cover `len` bytes.
pub open spec fn blocks_for(len: nat) -> nat {
    len / 32 + if len % 32 == 0 {
        0nat
    } else {
        1nat
    }
}

/// Pointwise xor of `a` against a keystream at least as long.
pub open spec fn xor_seq(a: Seq<u8>, b: Seq<u8>) -> Seq<u8>
    recommends
        b.len() >= a.len(),
{
    Seq::new(a.len(), |i: int| a[i] ^ b[i])
}

/// The authenticity tag of a ciphertext: a nested keyed hash, so that a
/// holder of the blob cannot extend it into another blob with a valid
/// tag.
pub open spec fn mac_tag(key: Seq<u8>, nonce: Seq<u8>, cipher: Seq<u8>) -> Seq<u8> {
    norm32(sha256_of(key + norm32(sha256_of(key + nonce + cipher))))
}

/// The sealed form of a message: nonce, tag over the ciphertext, then the
/// ciphertext itself.
pub open spec fn spec_seal(key: Seq<u8>, nonce: Seq<u8>, msg: Seq<u8>) -> Seq<u8> {
    let cipher = xor_seq(msg, keystream(key, nonce, blocks_for(msg.len())));
    nonce + mac_tag(key, nonce, cipher) + cipher
}

/// Opening a sealed blob: recompute the tag over the ciphertext and
/// refuse the blob unless it matches; then strip the keystream.
pub open spec fn spec_unseal(key: Seq<u8>, blob: Seq<u8>) -> Option<Seq<u8>> {
    if blob.len() < 48 {
        Option::None
    } else {
        let nonce = blob.take(16);
        let tag = blob.subrange(16, 48);
        let cipher = blob.skip(48);
        if tag == mac_tag(key, nonce, cipher) {
            Option::Some(xor_seq(cipher, keystream(key, nonce, blocks_for(cipher.len()))))
        } else {
            Option::None
        }
    }
}

proof fn lemma_keystream_len(key: Seq<u8>, nonce: Seq<u8>, nblocks: nat)
    ensures
        keystream(key, nonce, nblocks).len() == 32 * nblocks,
    decreases nblocks,
{
    if nblocks > 0 {
        lemma_keystream_len(key, nonce, (nblocks - 1) as nat);
    }
}

proof fn lemma_blocks_for_covers(len: nat)
    ensures
        32 * blocks_for(len) >= len,
{
    lemma_fundamental_div_mod(len as int, 32);
}

fn append_copy(dst: &mut Vec<u8>, src: &Vec<u8>)
    ensures
        final(dst)@ == old(dst)@ + src@,
{
    let mut j: usize = 0;
    while j < src.len()
        invariant
            j <= src@.len(),
            dst@ == old(dst)@ + src@.take(j as int),
        decreases src@.len() - j,
    {
        let ghost pre = dst@;
        dst.push(src[j]);
        proof {
            assert(pre.push(src@[j as int]) =~= old(dst)@ + src@.take(j as int + 1));
        }
        j = j + 1;
    }
    proof {
        assert(src@.take(src@.len() as int) =~= src@);
    }
}

fn make_keystream(key: &Vec<u8>, nonce: &Vec<u8>, len: usize) -> (r: Vec<u8>)
    ensures
        r@ == keystream(key@, nonce@, blocks_for(len as nat)),
        r@.len() >= len,
{
    let nblocks: usize = len / 32 + if len % 32 == 0 {
        0
    } else {
        1
    };
    proof {
        assert(nblocks as nat == blocks_for(len as nat));
        lemma_blocks_for_covers(len as nat);
        lemma_keystream_len(key@, nonce@, blocks_for(len as nat));
    }
    let mut out: Vec<u8> = Vec::new();
    let mut i: usize = 0;
    while i < nblocks
        invariant
            i <= nblocks,
            out@ == keystream(key@, nonce@, i as nat),
            out@.len() == 32 * i,
        decreases nblocks - i,
    {
        let mut material: Vec<u8> = Vec::new();
        append_copy(&mut material, key);
        append_copy(&mut material, nonce);
        let mut ctr = u64_to_le_bytes(i as u64);
        material.append(&mut ctr);
        let block = sha256(material.as_slice());
        proof {
            assert(material@ =~= key@ + nonce@ + spec_enc_u64(i as u64));
            assert(norm32(block@) =~= block@);
            assert(block@ == keystream_block(key@, nonce@, i as u64));
            assert((i + 1) as nat - 1 == i as nat);
            assert(((i + 1) as nat - 1) as u64 == i as u64);
        }
        append_copy(&mut out, &block);
        i = i + 1;
        proof {
            assert(out@ == keystream(key@, nonce@, i as nat));
        }
    }
    out
}

fn xor_with(data: &Vec<u8>, ks: &Vec<u8>) -> (r: Vec<u8>)
    requires
        ks@.len() >= data@.len(),
    ensures
        r@ == xor_seq(data@, ks@),
{
    let mut out: Vec<u8> = Vec::new();
    let mut i: usize = 0;
    while i < data.len()
        invariant
            ks@.len() >= data@.len(),
            i <= data@.len(),
            out@.len() == i,
            forall|j: int| 0 <= j < i ==> out@[j] == (data@[j] ^ ks@[j]),
        decreases data@.len() - i,
    {
        out.push(data[i] ^ ks[i]);
        i = i + 1;
    }
    proof {
        assert(out@ =~= xor_seq(data@, ks@));
    }
    out
}

/// Encrypt and authenticate a message under a key and a fresh 16-byte
/// nonce.  The result is nonce, tag, ciphertext.
pub fn seal(key: &Vec<u8>, nonce: &Vec<u8>, msg: &Vec<u8>) -> (r: Vec<u8>)
    requires
        nonce@.len() == 16,
    ensures
        r@ == spec_seal(key@, nonce@, msg@),
{
    let ks = make_keystream(key, nonce, msg.len());
    let cipher = xor_with(msg, &ks);
    let tag = compute_tag(key, nonce, &cipher);
    let mut out: Vec<u8> = Vec::new();
    append_copy(&mut out, nonce);
    append_copy(&mut out, &tag);
    append_copy(&mut out, &cipher);
    proof {
        assert(out@ =~= spec_seal(key@, nonce@, msg@));
    }
    out
}

/// The nested keyed hash over key, nonce and ciphertext.
fn compute_tag(key: &Vec<u8>, nonce: &Vec<u8>, cipher: &Vec<u8>) -> (r: Vec<u8>)
    ensures
        r@ == mac_tag(key@, nonce@, cipher@),
        r@.len() == 32,
{
    let mut inner_material: Vec<u8> = Vec::new();
    append_copy(&mut inner_material, key);
    append_copy(&mut inner_material, nonce);
    append_copy(&mut inner_material, cipher);
    let inner = sha256(inner_material.as_slice());
    let mut outer_material: Vec<u8> = Vec::new();
    append_copy(&mut outer_material, key);
    append_copy(&mut outer_material, &inner);
    let tag = sha256(outer_material.as_slice());
    proof {
        assert(inner_material@ =~= key@ + nonce@ + cipher@);
        assert(norm32(inner@) =~= inner@);
        assert(outer_material@ =~= key@ + norm32(sha256_of(key@ + nonce@ + cipher@)));
        assert(norm32(tag@) =~= tag@);
    }
    tag
}

/// Check the tag of a sealed blob and, when it matches, strip the
/// keystream.  A wrong key or a tampered blob fails the tag check.
pub fn unseal(key: &Vec<u8>, blob: &Vec<u8>) -> (r: Option<Vec<u8>>)
    ensures
        match r {
            Option::Some(m) => spec_unseal(key@, blob@) == Option::Some(m@),
            Option::None => spec_unseal(key@, blob@) is None,
        },
{
    if blob.len() < 48 {
        return Option::None;
    }
    let nonce = slice_to_vec(slice_subrange(blob.as_slice(), 0, 16));
    let tag = slice_to_vec(slice_subrange(blob.as_slice(), 16, 48));
    let cipher = slice_to_vec(slice_subrange(blob.as_slice(), 48, blob.len()));
    let expect = compute_tag(key, &nonce, &cipher);
    proof {
        assert(nonce@ =~= blob@.take(16));
        assert(tag@ =~= blob@.subrange(16, 48));
        assert(cipher@ =~= blob@.skip(48));
    }
    if constant_time_eq_bytes(tag.as_slice(), expect.as_slice()) {
        let ks = make_keystream(key, &nonce, cipher.len());
        let plain = xor_with(&cipher, &ks);
        Option::Some(plain)
    } else {
        Option::None
    }
}

/// Pointwise xor with the same keystream twice gives the message back.
proof fn lemma_xor_cancel(a: Seq<u8>, b: Seq<u8>)
    requires
        b.len() >= a.len(),
    ensures
        xor_seq(xor_seq(a, b), b) == a,
{
    assert forall|i: int| 0 <= i < a.len() implies xor_seq(xor_seq(a, b), b)[i] == a[i] by {
        let x = a[i];
        let y = b[i];
        assert((x ^ y) ^ y == x) by (bit_vector);
    }
    assert(xor_seq(xor_seq(a, b), b) =~= a);
}

/// The cipher round-trips: opening a sealed message under the same key
/// yields the message, whatever the nonce was.
pub proof fn lemma_unseal_seal(key: Seq<u8>, nonce: Seq<u8>, msg: Seq<u8>)
    requires
        nonce.len() == 16,
    ensures
        spec_unseal(key, spec_seal(key, nonce, msg)) == Option::Some(msg),
{
    let ks = keystream(key, nonce, blocks_for(msg.len()));
    lemma_keystream_len(key, nonce, blocks_for(msg.len()));
    lemma_blocks_for_covers(msg.len());
    let cipher = xor_seq(msg, ks);
    let blob = spec_seal(key, nonce, msg);
    assert(blob.len() == 48 + msg.len());
    assert(blob.take(16) =~= nonce);
    assert(blob.subrange(16, 48) =~= mac_tag(key, nonce, cipher));
    assert(blob.skip(48) =~= cipher);
    lemma_xor_cancel(msg, ks);
}

// ---------------------------------------------------------------------
// PKCE
// ---------------------------------------------------------------------
/// The challenge that belongs to a verifier: unpadded URL-safe base64 of
/// the verifier's SHA-256 digest.
pub open spec fn challenge_of(verifier: Seq<char>) -> Seq<char> {
    b64url_of(sha256_of(encode_utf8(verifier)))
}

/// Challenges expire ten minutes after issue, in milliseconds.
pub open spec fn challenge_ttl_millis() -> int {
    600_000
}

/// Draw a fresh 64-character verifier and compute its challenge.  Fails
/// only on entropy-source failure, which is fatal to the operation.
pub fn generate_pkce_challenge(now_ms: i64) -> (r: Result<PKCEChallenge, AuthError>)
    requires
        now_ms + challenge_ttl_millis() <= i64::MAX,
    ensures
        match r {
            Ok(p) => {
                &&& p@.verifier.len() == 64
                &&& all_unreserved(p@.verifier)
                &&& p@.challenge == challenge_of(p@.verifier)
                &&& p@.method == "S256"@
                &&& p@.expires_at == now_ms + challenge_ttl_millis()
            },
            Err(e) => e is CryptoError,
        },
{
    let verifier = match generate_secure_random_string(64) {
        Ok(v) => v,
        Err(e) => {
            return Err(e);
        },
    };
    let digest = sha256(verifier.as_str().as_bytes());
    let challenge = b64url_encode(digest.as_slice());
    Ok(
        PKCEChallenge {
            verifier,
            challenge,
            method: String::from_str("S256"),
            expires_at: now_ms + 600_000,
        },
    )
}

/// When PKCE verification succeeds: exactly when the challenge is the
/// one that belongs to the verifier.
pub open spec fn pkce_verifies(verifier: Seq<char>, challenge: Seq<char>) -> bool {
    challenge == challenge_of(verifier)
}

/// Every generated challenge verifies against its own verifier: a
/// challenge record whose challenge is the one its verifier determines
/// passes the verification predicate.
pub proof fn lemma_generated_challenge_verifies(verifier: Seq<char>, challenge: Seq<char>)
    requires
        challenge == challenge_of(verifier),
    ensures
        pkce_verifies(verifier, challenge),
{
}

/// Recompute the challenge for a verifier and compare it with the stored
/// challenge in constant time.
pub fn verify_pkce_challenge(verifier: &str, challenge: &str) -> (r: Result<bool, AuthError>)
    ensures
        r matches Ok(b) && b == pkce_verifies(verifier@, challenge@),
{
    let digest = sha256(verifier.as_bytes());
    let computed = b64url_encode(digest.as_slice());
    Ok(constant_time_eq(computed.as_str(), challenge))
}

} // verus!
