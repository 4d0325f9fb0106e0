//! Encryption for USB/IP messages: X25519 key exchange, HKDF-SHA256 session
//! key derivation and AES-256-GCM with per-message 96-bit nonces.
//!
//! Sealed wire format: `[4-byte nonce length = 12][12-byte nonce][ciphertext || 16-byte tag]`.
use vstd::prelude::*;
use vstd::string::StringExecFns;
use vstd::string::StringSliceAdditionalSpecFns;
use crate::codec::{
    be32, be32_at, lemma_be32_roundtrip, parse_unsigned, parse_unsigned_exec, push_be32,
    push_bytes, read_be32, take_array,
};
use ring::aead::LessSafeKey;
use ring::agreement::EphemeralPrivateKey;
use ring::rand::SecureRandom;

verus! {

/// Why a cryptographic operation failed.
#[derive(Debug, Clone, Copy, PartialEq, Eq, Structural)]
pub enum CryptoError {
    KeyGeneration,
    KeyAgreement,
    KeyDerivation,
    Encryption,
    Decryption,
    InvalidNonce,
}

impl CryptoError {
    /// The message of this error, as it appears in logs.
    pub fn to_string(&self) -> (r: String)
        ensures
            r@ == (match *self {
                CryptoError::KeyGeneration => "key generation failed"@,
                CryptoError::KeyAgreement => "key agreement failed"@,
                CryptoError::KeyDerivation => "key derivation failed"@,
                CryptoError::Encryption => "encryption failed"@,
                CryptoError::Decryption => "decryption failed"@,
                CryptoError::InvalidNonce => "invalid nonce"@,
            }),
    {
        match self {
            CryptoError::KeyGeneration => "key generation failed".to_owned(),
            CryptoError::KeyAgreement => "key agreement failed".to_owned(),
            CryptoError::KeyDerivation => "key derivation failed".to_owned(),
            CryptoError::Encryption => "encryption failed".to_owned(),
            CryptoError::Decryption => "decryption failed".to_owned(),
            CryptoError::InvalidNonce => "invalid nonce".to_owned(),
        }
    }
}

pub type CryptoResult<T> = Result<T, CryptoError>;

/// Maximum ciphertext overhead: 4-byte nonce prefix plus the 16-byte tag.
pub const ENCRYPTION_OVERHEAD: usize = 20;

#[verifier::external_type_specification]
#[verifier::external_body]
pub struct ExEphemeralPrivateKey(ring::agreement::EphemeralPrivateKey);

#[verifier::external_type_specification]
#[verifier::external_body]
pub struct ExUnspecified(ring::error::Unspecified);

// ─── Trusted calls into ring ─────────────────────────────────────

/// `ring::agreement::EphemeralPrivateKey::generate` for X25519 with a fresh
/// `SystemRandom`, then `compute_public_key`. The key is random: only the
/// 32-byte length of an X25519 public key is stated.
#[verifier::external_body]
fn x25519_generate() -> (r: Result<(Vec<u8>, EphemeralPrivateKey), ring::error::Unspecified>)
    ensures
        r matches Ok((p, _)) ==> p@.len() == 32,
{
    let rng = ring::rand::SystemRandom::new();
    let private_key = EphemeralPrivateKey::generate(&ring::agreement::X25519, &rng)?;
    let public_key = private_key.compute_public_key()?;
    Ok((public_key.as_ref().to_vec(), private_key))
}

/// `ring::agreement::agree_ephemeral` with an X25519 peer key; the key
/// material is copied out. A peer key that is not 32 bytes is rejected and
/// the shared secret is 32 bytes; its value depends on the private key,
/// which is opaque here, so it is not stated.
#[verifier::external_body]
fn x25519_agree(private_key: EphemeralPrivateKey, peer: &[u8]) -> (r: Result<
    Vec<u8>,
    ring::error::Unspecified,
>)
    ensures
        peer@.len() != 32 ==> r is Err,
        r matches Ok(s) ==> s@.len() == 32,
{
    let peer_key = ring::agreement::UnparsedPublicKey::new(&ring::agreement::X25519, peer);
    ring::agreement::agree_ephemeral(private_key, &peer_key, |km| km.to_vec())
}

/// The 32 bytes of HKDF-SHA256 output keying material for a salt, input
/// keying material and info.
pub uninterp spec fn hkdf_sha256_32(salt: Seq<u8>, ikm: Seq<u8>, info: Seq<u8>) -> Seq<u8>;

/// HKDF-SHA256 through `ring::hkdf`: `Salt::new`, `extract`, `expand`
/// and `fill` into 32 bytes (the AES-256-GCM key length). Expansion to 32 bytes never fails (ring only
/// refuses more than 255 hash lengths), and the output is a function of
/// the three inputs.
#[verifier::external_body]
fn hkdf_sha256_expand(salt: &[u8], ikm: &[u8], info: &[u8]) -> (r: Result<
    [u8; 32],
    ring::error::Unspecified,
>)
    ensures
        r matches Ok(k) ==> k@ == hkdf_sha256_32(salt@, ikm@, info@),
        r is Ok,
{
    let prk = ring::hkdf::Salt::new(ring::hkdf::HKDF_SHA256, salt).extract(ikm);
    let info_slices: &[&[u8]] = &[info];
    let okm = prk.expand(info_slices, &ring::aead::AES_256_GCM)?;
    let mut out = [0u8; 32];
    okm.fill(&mut out)?;
    Ok(out)
}

/// The longest input ring's AES-GCM seals or opens: 2^32 - 2 blocks of 16
/// bytes (its 32-bit block counter; on 32-bit targets every slice is
/// shorter).
pub const AES_GCM_MAX_INPUT: u64 = 68719476704;

/// What AES-256-GCM opening gives for a key, a nonce and
/// ciphertext-and-tag, with empty associated data: the plaintext, or
/// `None` when the input does not authenticate.
pub uninterp spec fn aes256_gcm_open(key: Seq<u8>, nonce: Seq<u8>, sealed: Seq<u8>) -> Option<
    Seq<u8>,
>;

/// AES-256-GCM sealing under a raw key: `UnboundKey::new` and
/// `LessSafeKey::new` on the key bytes, then `seal_in_place_append_tag`
/// with an empty AAD on a copy of the plaintext. It succeeds exactly for a
/// 32-byte key and a plaintext of at most `AES_GCM_MAX_INPUT` bytes; the
/// result is the ciphertext followed by the 16-byte tag, and opening it
/// under the same key and nonce gives the plaintext back.
#[verifier::external_body]
fn aead_seal_raw(key_bytes: &[u8], nonce: [u8; 12], plaintext: &[u8]) -> (r: Result<
    Vec<u8>,
    ring::error::Unspecified,
>)
    ensures
        key_bytes@.len() != 32 ==> r is Err,
        plaintext@.len() > AES_GCM_MAX_INPUT ==> r is Err,
        key_bytes@.len() == 32 && plaintext@.len() <= AES_GCM_MAX_INPUT ==> r is Ok,
        r matches Ok(c) ==> c@.len() == plaintext@.len() + 16,
        r matches Ok(c) ==> aes256_gcm_open(key_bytes@, nonce@, c@) == Some(plaintext@),
{
    let unbound = ring::aead::UnboundKey::new(&ring::aead::AES_256_GCM, key_bytes)?;
    let key = LessSafeKey::new(unbound);
    let mut buf = plaintext.to_vec();
    key.seal_in_place_append_tag(
        ring::aead::Nonce::assume_unique_for_key(nonce),
        ring::aead::Aad::empty(),
        &mut buf,
    )?;
    Ok(buf)
}

/// AES-256-GCM opening under a raw key: `UnboundKey::new` and
/// `LessSafeKey::new` on the key bytes, then `open_in_place` with an empty
/// AAD on a copy of ciphertext-and-tag; the plaintext is copied out. A key
/// that is not 32 bytes, or input shorter than the tag, is rejected; under
/// a 32-byte key the outcome is the named opening of the input.
#[verifier::external_body]
fn aead_open_raw(key_bytes: &[u8], nonce: [u8; 12], sealed: &[u8]) -> (r: Result<
    Vec<u8>,
    ring::error::Unspecified,
>)
    ensures
        key_bytes@.len() != 32 ==> r is Err,
        sealed@.len() < 16 ==> r is Err,
        r matches Ok(p) ==> p@.len() + 16 == sealed@.len(),
        r matches Ok(p) ==> aes256_gcm_open(key_bytes@, nonce@, sealed@) == Some(p@),
        key_bytes@.len() == 32 && aes256_gcm_open(key_bytes@, nonce@, sealed@) is Some ==> r is Ok,
{
    let unbound = ring::aead::UnboundKey::new(&ring::aead::AES_256_GCM, key_bytes)?;
    let key = LessSafeKey::new(unbound);
    let mut buf = sealed.to_vec();
    let plaintext = key.open_in_place(
        ring::aead::Nonce::assume_unique_for_key(nonce),
        ring::aead::Aad::empty(),
        &mut buf,
    )?;
    Ok(plaintext.to_vec())
}

/// Twelve bytes from `ring::rand::SystemRandom::fill`; random, so nothing
/// is stated of them.
#[verifier::external_body]
fn random_nonce() -> Result<[u8; 12], ring::error::Unspecified> {
    let mut nonce = [0u8; 12];
    ring::rand::SystemRandom::new().fill(&mut nonce)?;
    Ok(nonce)
}

} // verus!

verus! {

// ─── Hex text ─────────────────────────────────────────────────────

/// The lower-case hex digit for `n < 16`.
pub open spec fn hex_char(n: nat) -> char {
    if n < 10 {
        (48 + n) as char
    } else {
        (87 + n) as char
    }
}

/// Two lower-case hex digits per byte, most significant first.
pub open spec fn hex_chars(b: Seq<u8>) -> Seq<char>
    decreases b.len(),
{
    if b.len() == 0 {
        Seq::empty()
    } else {
        seq![hex_char((b[0] / 16) as nat), hex_char((b[0] % 16) as nat)] + hex_chars(
            b.drop_first(),
        )
    }
}

/// One string holding the hex digit for `n`.
fn hex_digit_str(n: u8) -> (r: &'static str)
    requires
        n < 16,
    ensures
        r@ == seq![hex_char(n as nat)],
{
    proof {
        reveal_strlit("0");
        reveal_strlit("1");
        reveal_strlit("2");
        reveal_strlit("3");
        reveal_strlit("4");
        reveal_strlit("5");
        reveal_strlit("6");
        reveal_strlit("7");
        reveal_strlit("8");
        reveal_strlit("9");
        reveal_strlit("a");
        reveal_strlit("b");
        reveal_strlit("c");
        reveal_strlit("d");
        reveal_strlit("e");
        reveal_strlit("f");
    }
    match n {
        0 => "0",
        1 => "1",
        2 => "2",
        3 => "3",
        4 => "4",
        5 => "5",
        6 => "6",
        7 => "7",
        8 => "8",
        9 => "9",
        10 => "a",
        11 => "b",
        12 => "c",
        13 => "d",
        14 => "e",
        _ => "f",
    }
}

/// Lower-case hex text of `bytes`, two digits per byte.
pub fn hex_encode(bytes: &[u8]) -> (r: String)
    ensures
        r@ == hex_chars(bytes@),
{
    let mut out = String::new();
    let mut i: usize = 0;
    assert(bytes@.skip(0) =~= bytes@);
    while i < bytes.len()
        invariant
            i <= bytes@.len(),
            hex_chars(bytes@) == out@ + hex_chars(bytes@.skip(i as int)),
        decreases bytes@.len() - i,
    {
        let b = bytes[i];
        assert(bytes@.skip(i as int).drop_first() =~= bytes@.skip(i + 1));
        assert(bytes@.skip(i as int)[0] == b);
        out.append(hex_digit_str(b / 16));
        out.append(hex_digit_str(b % 16));
        i = i + 1;
    }
    assert(bytes@.skip(i as int) =~= Seq::<u8>::empty());
    assert(out@ =~= out@ + hex_chars(Seq::<u8>::empty()));
    out
}

/// The bytes denoted by consecutive two-digit hex pairs of `b`.
pub open spec fn hex_pairs(b: Seq<u8>) -> Option<Seq<u8>>
    decreases b.len(),
{
    if b.len() < 2 {
        Some(Seq::empty())
    } else {
        match parse_unsigned(b.subrange(0, 2), 16, 255) {
            None => None,
            Some(v) => match hex_pairs(b.subrange(2, b.len() as int)) {
                None => None,
                Some(rest) => Some(seq![v as u8] + rest),
            },
        }
    }
}

/// What hex text of byte length `b.len()` decodes to: nothing for an odd
/// length, else each pair read as a radix-16 `u8` (a pair may start with
/// `+`, as `u8::from_str_radix` allows).
pub open spec fn hex_decode_spec(b: Seq<u8>) -> Option<Seq<u8>> {
    if b.len() % 2 != 0 {
        None
    } else {
        hex_pairs(b)
    }
}

/// Every even byte offset of `s` is a character boundary (always true of
/// ASCII text).
pub open spec fn even_offsets_are_boundaries(s: &str) -> bool {
    forall|i: int|
        0 <= i <= s.spec_bytes().len() && i % 2 == 0 ==> vstd::utf8::is_char_boundary(
            #[trigger] s.spec_bytes(),
            i,
        )
}

/// Decode hex text into bytes; `None` for odd length or a pair that is not
/// a hex number.
///
/// Text whose pairs would split a multi-byte character is outside the
/// contract (slicing it there panics).
pub fn hex_decode(s: &str) -> (r: Option<Vec<u8>>)
    requires
        even_offsets_are_boundaries(s),
    ensures
        r matches Some(v) ==> hex_decode_spec(s.spec_bytes()) == Some(v@),
        r is None ==> hex_decode_spec(s.spec_bytes()) is None,
{
    let b = s.as_bytes();
    let n = b.len();
    if n % 2 != 0 {
        return None;
    }
    let mut out: Vec<u8> = Vec::new();
    let mut i: usize = 0;
    assert(b@.subrange(0, n as int) =~= b@);
    while i < n
        invariant
            n == b@.len(),
            b@ == s.spec_bytes(),
            n % 2 == 0,
            i <= n,
            i % 2 == 0,
            hex_pairs(b@) == (match hex_pairs(b@.subrange(i as int, n as int)) {
                None => None,
                Some(rest) => Some(out@ + rest),
            }),
        decreases n - i,
    {
        let pair = &b[i..i + 2];
        let ghost tail = b@.subrange(i as int, n as int);
        assert(tail.subrange(0, 2) =~= pair@);
        assert(tail.subrange(2, tail.len() as int) =~= b@.subrange(i + 2, n as int));
        match parse_unsigned_exec(pair, 16, 255) {
            None => {
                assert(tail.len() >= 2);
                assert(parse_unsigned(tail.subrange(0, 2), 16, 255) is None);
                assert(hex_pairs(tail) is None);
                return None;
            },
            Some(v) => {
                let ghost before = out@;
                out.push(v as u8);
                proof {
                    match hex_pairs(b@.subrange(i + 2, n as int)) {
                        None => {},
                        Some(rest) => {
                            assert(out@ + rest =~= before + (seq![v as u8] + rest));
                        },
                    }
                }
            },
        }
        i = i + 2;
    }
    assert(b@.subrange(n as int, n as int) =~= Seq::<u8>::empty());
    assert(out@ + Seq::<u8>::empty() =~= out@);
    Some(out)
}

} // verus!

verus! {

/// ASCII code of the lower-case hex digit for `n < 16`.
pub open spec fn hex_byte(n: nat) -> u8 {
    if n < 10 {
        (48 + n) as u8
    } else {
        (87 + n) as u8
    }
}

/// ASCII bytes of the hex text of `b`.
pub open spec fn hex_text_bytes(b: Seq<u8>) -> Seq<u8>
    decreases b.len(),
{
    if b.len() == 0 {
        Seq::empty()
    } else {
        seq![hex_byte((b[0] / 16) as nat), hex_byte((b[0] % 16) as nat)] + hex_text_bytes(
            b.drop_first(),
        )
    }
}

proof fn lemma_hex_chars_ascii(b: Seq<u8>)
    ensures
        hex_chars(b).len() == 2 * b.len(),
        vstd::utf8::is_ascii_chars(hex_chars(b)),
        forall|i: int|
            0 <= i < hex_chars(b).len() ==> (#[trigger] hex_chars(b)[i]) as u8
                == hex_text_bytes(b)[i],
        hex_text_bytes(b).len() == 2 * b.len(),
    decreases b.len(),
{
    if b.len() > 0 {
        lemma_hex_chars_ascii(b.drop_first());
        let hi = (b[0] / 16) as nat;
        let lo = (b[0] % 16) as nat;
        let head = seq![hex_char(hi), hex_char(lo)];
        let rest = hex_chars(b.drop_first());
        assert(hex_chars(b) == head + rest);
        assert forall|i: int| 0 <= i < hex_chars(b).len() implies (#[trigger] hex_chars(b)[i])
            as u8 == hex_text_bytes(b)[i] by {
            if i >= 2 {
                assert(hex_chars(b)[i] == rest[i - 2]);
                assert(hex_text_bytes(b)[i] == hex_text_bytes(b.drop_first())[i - 2]);
            }
        }
        assert forall|i: int| 0 <= i < hex_chars(b).len() implies '\0' <= #[trigger] hex_chars(
            b,
        )[i] <= '\u{7f}' by {
            if i >= 2 {
                assert(hex_chars(b)[i] == rest[i - 2]);
            }
        }
    }
}

/// The UTF-8 bytes of the hex text of `b` are its ASCII digit codes.
pub proof fn lemma_hex_text_bytes(b: Seq<u8>)
    ensures
        vstd::utf8::encode_utf8(hex_chars(b)) == hex_text_bytes(b),
{
    lemma_hex_chars_ascii(b);
    vstd::utf8::is_ascii_chars_encode_utf8(hex_chars(b));
    assert(vstd::utf8::encode_utf8(hex_chars(b)) =~= hex_text_bytes(b));
}

proof fn lemma_hex_pair(hi: nat, lo: nat)
    requires
        hi < 16,
        lo < 16,
    ensures
        parse_unsigned(seq![hex_byte(hi), hex_byte(lo)], 16, 255) == Some(16 * hi + lo),
{
    let s = seq![hex_byte(hi), hex_byte(lo)];
    assert(crate::codec::unsigned_digits(s) == s);
    assert(s.drop_last() =~= seq![hex_byte(hi)]);
    assert(seq![hex_byte(hi)].drop_last() =~= Seq::<u8>::empty());
    assert(crate::codec::digits_value(Seq::<u8>::empty(), 16) == 0);
    assert(crate::codec::digit_value(hex_byte(hi)) == hi);
    assert(crate::codec::digit_value(hex_byte(lo)) == lo);
    assert(crate::codec::digits_value(seq![hex_byte(hi)], 16) == hi);
    assert(crate::codec::digits_value(s, 16) == hi * 16 + lo);
}

/// Hex text of any bytes decodes back to those bytes.
pub proof fn law_hex_roundtrip(b: Seq<u8>)
    ensures
        hex_decode_spec(vstd::utf8::encode_utf8(hex_chars(b))) == Some(b),
    decreases b.len(),
{
    lemma_hex_text_bytes(b);
    lemma_hex_chars_ascii(b);
    lemma_hex_pairs_roundtrip(b);
}

proof fn lemma_hex_pairs_roundtrip(b: Seq<u8>)
    ensures
        hex_pairs(hex_text_bytes(b)) == Some(b),
        hex_text_bytes(b).len() == 2 * b.len(),
    decreases b.len(),
{
    lemma_hex_chars_ascii(b);
    if b.len() > 0 {
        lemma_hex_pairs_roundtrip(b.drop_first());
        let t = hex_text_bytes(b);
        let hi = (b[0] / 16) as nat;
        let lo = (b[0] % 16) as nat;
        lemma_hex_pair(hi, lo);
        assert(t.subrange(0, 2) =~= seq![hex_byte(hi), hex_byte(lo)]);
        assert(t.subrange(2, t.len() as int) =~= hex_text_bytes(b.drop_first()));
        assert(((16 * hi + lo) as u8) == b[0]);
        assert(seq![b[0]] + b.drop_first() =~= b);
    } else {
        assert(hex_text_bytes(b) =~= Seq::<u8>::empty());
    }
}

} // verus!

verus! {

// ─── Key generation and agreement ─────────────────────────────────

/// Generate an X25519 ephemeral key pair: the 32-byte public key and the
/// private key handle, which [`agree`] consumes.
pub fn generate_key_pair() -> (r: CryptoResult<(Vec<u8>, EphemeralPrivateKey)>)
    ensures
        r matches Ok((p, _)) ==> p@.len() == 32,
        r matches Err(e) ==> e == CryptoError::KeyGeneration,
{
    match x25519_generate() {
        Ok(pair) => Ok(pair),
        Err(_) => Err(CryptoError::KeyGeneration),
    }
}

/// Generate a key pair, returning the public key as lower-case hex.
pub fn generate_key_pair_hex() -> (r: CryptoResult<(String, EphemeralPrivateKey)>)
    ensures
        r matches Ok((h, _)) ==> h@.len() == 64,
        r matches Err(e) ==> e == CryptoError::KeyGeneration,
{
    let (pub_bytes, priv_key) = generate_key_pair()?;
    let h = hex_encode(pub_bytes.as_slice());
    proof {
        lemma_hex_chars_ascii(pub_bytes@);
    }
    Ok((h, priv_key))
}

/// X25519 key agreement; consumes the private key and returns the 32-byte
/// shared secret. A peer key that is not 32 bytes long is rejected.
pub fn agree(private_key: EphemeralPrivateKey, peer_public_key_bytes: &[u8]) -> (r: CryptoResult<
    Vec<u8>,
>)
    ensures
        peer_public_key_bytes@.len() != 32 ==> r == Err::<Vec<u8>, CryptoError>(
            CryptoError::KeyAgreement,
        ),
        r matches Ok(s) ==> s@.len() == 32,
        r matches Err(e) ==> e == CryptoError::KeyAgreement,
{
    match x25519_agree(private_key, peer_public_key_bytes) {
        Ok(s) => Ok(s),
        Err(_) => Err(CryptoError::KeyAgreement),
    }
}

/// HKDF salt: `"USBIP-PASSTHROUGH-V1"`.
pub open spec fn session_salt() -> Seq<u8> {
    seq![85u8, 83, 66, 73, 80, 45, 80, 65, 83, 83, 84, 72, 82, 79, 85, 71, 72, 45, 86, 49]
}

/// HKDF info: `"usbip-session-key"`.
pub open spec fn session_info() -> Seq<u8> {
    seq![117u8, 115, 98, 105, 112, 45, 115, 101, 115, 115, 105, 111, 110, 45, 107, 101, 121]
}

fn session_salt_bytes() -> (r: [u8; 20])
    ensures
        r@ == session_salt(),
{
    let r: [u8; 20] = [85, 83, 66, 73, 80, 45, 80, 65, 83, 83, 84, 72, 82, 79, 85, 71, 72, 45, 86, 49];
    assert(r@ =~= session_salt());
    r
}

fn session_info_bytes() -> (r: [u8; 17])
    ensures
        r@ == session_info(),
{
    let r: [u8; 17] = [117, 115, 98, 105, 112, 45, 115, 101, 115, 115, 105, 111, 110, 45, 107, 101, 121];
    assert(r@ =~= session_info());
    r
}

/// The 32-byte session key derived from a shared secret.
pub open spec fn session_key_bytes(shared_secret: Seq<u8>) -> Seq<u8> {
    hkdf_sha256_32(session_salt(), shared_secret, session_info())
}

/// An AES-256-GCM session key: its 32 raw bytes.
#[derive(Clone)]
pub struct SessionKey {
    bytes: [u8; 32],
}

impl View for SessionKey {
    type V = Seq<u8>;

    closed spec fn view(&self) -> Seq<u8> {
        self.bytes@
    }
}

impl SessionKey {
    /// The key made of these 32 bytes.
    pub fn from_bytes(bytes: [u8; 32]) -> (k: Self)
        ensures
            k@ == bytes@,
            k@.len() == 32,
    {
        SessionKey { bytes }
    }

    /// The key's bytes.
    pub fn as_bytes(&self) -> (b: &[u8])
        ensures
            b@ == self@,
            b@.len() == 32,
    {
        self.bytes.as_slice()
    }
}

/// Derive the AES-256-GCM session key from the ECDH shared secret with
/// HKDF-SHA256 (salt `"USBIP-PASSTHROUGH-V1"`, info `"usbip-session-key"`):
/// the key is the one [`derive_session_key_to_bytes`] writes.
pub fn derive_session_key(shared_secret: &[u8]) -> (r: CryptoResult<SessionKey>)
    ensures
        r is Ok,
        r matches Ok(k) ==> k@ == session_key_bytes(shared_secret@),
{
    let mut key_bytes = [0u8; 32];
    derive_session_key_to_bytes(shared_secret, &mut key_bytes)?;
    Ok(SessionKey::from_bytes(key_bytes))
}

/// Write the 32-byte session key derived from `shared_secret` into `out`.
pub fn derive_session_key_to_bytes(shared_secret: &[u8], out: &mut [u8; 32]) -> (r: CryptoResult<()>)
    ensures
        r is Ok,
        final(out)@ == session_key_bytes(shared_secret@),
{
    let salt = session_salt_bytes();
    let info = session_info_bytes();
    match hkdf_sha256_expand(salt.as_slice(), shared_secret, info.as_slice()) {
        Ok(k) => {
            *out = k;
            Ok(())
        },
        Err(_) => Err(CryptoError::KeyDerivation),
    }
}

/// Derive raw session key bytes from a private key and a hex-encoded peer
/// public key: hex that does not decode gives `KeyDerivation`, a peer key
/// that is not 32 bytes gives `KeyAgreement`; otherwise the key is the
/// session key of the agreed 32-byte secret.
pub fn derive_session_key_hex(private_key: EphemeralPrivateKey, peer_public_key_hex: &str) -> (r:
    CryptoResult<Vec<u8>>)
    requires
        even_offsets_are_boundaries(peer_public_key_hex),
    ensures
        hex_decode_spec(peer_public_key_hex.spec_bytes()) is None ==> r == Err::<
            Vec<u8>,
            CryptoError,
        >(CryptoError::KeyDerivation),
        hex_decode_spec(peer_public_key_hex.spec_bytes()) matches Some(p) && p.len() != 32 ==> r
            == Err::<Vec<u8>, CryptoError>(CryptoError::KeyAgreement),
        r matches Ok(k) ==> exists|s: Seq<u8>| s.len() == 32 && k@ == session_key_bytes(s),
{
    let pub_bytes = match hex_decode(peer_public_key_hex) {
        Some(b) => b,
        None => return Err(CryptoError::KeyDerivation),
    };
    let shared_secret = agree(private_key, pub_bytes.as_slice())?;
    let mut key_bytes = [0u8; 32];
    derive_session_key_to_bytes(shared_secret.as_slice(), &mut key_bytes)?;
    let mut v: Vec<u8> = Vec::new();
    push_bytes(&mut v, key_bytes.as_slice());
    assert(v@ =~= session_key_bytes(shared_secret@));
    Ok(v)
}

} // verus!

verus! {

// ─── Sealed message framing ───────────────────────────────────────

/// Wire bytes of a sealed message: nonce length 12 (big-endian u32), the
/// nonce, then ciphertext-and-tag.
pub open spec fn sealed_frame(nonce: Seq<u8>, sealed: Seq<u8>) -> Seq<u8> {
    be32(12) + nonce + sealed
}

/// How [`split_sealed_frame`] reads wire bytes: fewer than 32 bytes is a
/// decryption failure, a nonce length other than 12 is an invalid nonce,
/// otherwise bytes 4..16 are the nonce and the rest is ciphertext-and-tag.
pub open spec fn split_sealed_frame_spec(wire: Seq<u8>) -> Result<(Seq<u8>, Seq<u8>), CryptoError> {
    if wire.len() < 32 {
        Err(CryptoError::Decryption)
    } else if be32_at(wire, 0) != 12 {
        Err(CryptoError::InvalidNonce)
    } else {
        Ok((wire.subrange(4, 16), wire.subrange(16, wire.len() as int)))
    }
}

/// Frame a nonce and ciphertext-and-tag for the wire.
pub fn frame_sealed(nonce: &[u8; 12], sealed: &[u8]) -> (r: Vec<u8>)
    ensures
        r@ == sealed_frame(nonce@, sealed@),
{
    let mut result: Vec<u8> = Vec::new();
    push_be32(&mut result, 12);
    push_bytes(&mut result, nonce.as_slice());
    push_bytes(&mut result, sealed);
    assert(result@ =~= sealed_frame(nonce@, sealed@));
    result
}

/// Split wire bytes into nonce and ciphertext-and-tag.
pub fn split_sealed_frame(wire: &[u8]) -> (r: CryptoResult<([u8; 12], &[u8])>)
    ensures
        match (r, split_sealed_frame_spec(wire@)) {
            (Ok((n, c)), Ok((sn, sc))) => n@ == sn && c@ == sc,
            (Err(e), Err(se)) => e == se,
            _ => false,
        },
{
    if wire.len() < 4 + 12 + 16 {
        return Err(CryptoError::Decryption);
    }
    let nonce_len = read_be32(wire, 0);
    if nonce_len != 12 {
        return Err(CryptoError::InvalidNonce);
    }
    let nonce: [u8; 12] = take_array(wire, 4);
    Ok((nonce, &wire[16..wire.len()]))
}

/// Framing a nonce with at least a tag's worth of sealed bytes and
/// splitting the frame gives both back.
pub proof fn law_sealed_frame_roundtrip(nonce: Seq<u8>, sealed: Seq<u8>)
    requires
        nonce.len() == 12,
        sealed.len() >= 16,
    ensures
        split_sealed_frame_spec(sealed_frame(nonce, sealed)) == Ok::<(Seq<u8>, Seq<u8>), CryptoError>(
            (nonce, sealed),
        ),
{
    let w = sealed_frame(nonce, sealed);
    lemma_be32_roundtrip(12);
    assert(w.subrange(0, 4) =~= be32(12));
    assert(be32_at(w, 0) == be32_at(be32(12), 0));
    assert(w.subrange(4, 16) =~= nonce);
    assert(w.subrange(16, w.len() as int) =~= sealed);
}

// ─── Encrypt / decrypt ────────────────────────────────────────────

/// Whether `wire` is an encryption of `plaintext` under `key`: the sealed
/// frame of a 12-byte nonce and a ciphertext-and-tag, 16 bytes longer than
/// the plaintext, that opens to the plaintext under the key and nonce.
pub open spec fn encrypts_to(key: Seq<u8>, plaintext: Seq<u8>, wire: Seq<u8>) -> bool {
    exists|n: Seq<u8>, c: Seq<u8>|
        {
            &&& n.len() == 12
            &&& c.len() == plaintext.len() + 16
            &&& #[trigger] aes256_gcm_open(key, n, c) == Some(plaintext)
            &&& wire == sealed_frame(n, c)
        }
}

/// Whether `wire` decrypts to `plaintext` under the 32-byte `key`: its
/// frame splits into a nonce and a ciphertext-and-tag that opens to the
/// plaintext.
pub open spec fn opens_to(key: Seq<u8>, wire: Seq<u8>, plaintext: Seq<u8>) -> bool {
    &&& key.len() == 32
    &&& split_sealed_frame_spec(wire) matches Ok((n, c)) && aes256_gcm_open(key, n, c) == Some(
        plaintext,
    )
}

/// Encrypt with AES-256-GCM under an explicit nonce: the sealed frame of
/// the nonce and a ciphertext-and-tag 16 bytes longer than the plaintext
/// that opens to the plaintext under the key and nonce. Only a plaintext
/// longer than `AES_GCM_MAX_INPUT` bytes fails, with `Encryption`.
pub fn encrypt_with_nonce(key: &SessionKey, plaintext: &[u8], nonce_bytes: &[u8; 12]) -> (r:
    CryptoResult<Vec<u8>>)
    ensures
        r is Ok <==> plaintext@.len() <= AES_GCM_MAX_INPUT,
        r matches Ok(w) ==> exists|c: Seq<u8>|
            {
                &&& c.len() == plaintext@.len() + 16
                &&& #[trigger] aes256_gcm_open(key@, nonce_bytes@, c) == Some(plaintext@)
                &&& w@ == sealed_frame(nonce_bytes@, c)
            },
        r matches Ok(w) ==> encrypts_to(key@, plaintext@, w@),
        r matches Err(e) ==> e == CryptoError::Encryption,
{
    match aead_seal_raw(key.as_bytes(), *nonce_bytes, plaintext) {
        Ok(sealed) => Ok(frame_sealed(nonce_bytes, sealed.as_slice())),
        Err(_) => Err(CryptoError::Encryption),
    }
}

/// Encrypt under a fresh random nonce; same wire format as
/// [`encrypt_with_nonce`]. Which nonce is drawn is not stated, and drawing
/// it may fail.
pub fn encrypt(key: &SessionKey, plaintext: &[u8]) -> (r: CryptoResult<Vec<u8>>)
    ensures
        r matches Ok(w) ==> encrypts_to(key@, plaintext@, w@),
        plaintext@.len() > AES_GCM_MAX_INPUT ==> r is Err,
        r matches Err(e) ==> e == CryptoError::Encryption,
{
    let nonce_bytes = match random_nonce() {
        Ok(n) => n,
        Err(_) => return Err(CryptoError::Encryption),
    };
    encrypt_with_nonce(key, plaintext, &nonce_bytes)
}

/// Encrypt under a fresh random nonce; same as [`encrypt`].
pub fn encrypt_message(key: &SessionKey, plaintext: &[u8]) -> (r: CryptoResult<Vec<u8>>)
    ensures
        r matches Ok(w) ==> encrypts_to(key@, plaintext@, w@),
        plaintext@.len() > AES_GCM_MAX_INPUT ==> r is Err,
        r matches Err(e) ==> e == CryptoError::Encryption,
{
    encrypt(key, plaintext)
}

/// Encrypt with a raw 32-byte key under a fresh random nonce; any other key
/// length fails with `Encryption`.
pub fn encrypt_with_key_bytes(key_bytes: &[u8], plaintext: &[u8]) -> (r: CryptoResult<Vec<u8>>)
    ensures
        key_bytes@.len() != 32 ==> r == Err::<Vec<u8>, CryptoError>(CryptoError::Encryption),
        r matches Ok(w) ==> encrypts_to(key_bytes@, plaintext@, w@),
        r matches Err(e) ==> e == CryptoError::Encryption,
{
    if key_bytes.len() != 32 {
        return Err(CryptoError::Encryption);
    }
    let nonce = match random_nonce() {
        Ok(n) => n,
        Err(_) => return Err(CryptoError::Encryption),
    };
    match aead_seal_raw(key_bytes, nonce, plaintext) {
        Ok(sealed) => Ok(frame_sealed(&nonce, sealed.as_slice())),
        Err(_) => Err(CryptoError::Encryption),
    }
}

/// Decrypt a sealed frame: frame errors as [`split_sealed_frame_spec`]
/// says; otherwise the frame's ciphertext is opened under the key and the
/// frame's nonce, and input that does not authenticate gives `Decryption`.
/// What encrypting a plaintext under the same key gave decrypts to that
/// plaintext.
pub fn decrypt(key: &SessionKey, wire_data: &[u8]) -> (r: CryptoResult<Vec<u8>>)
    ensures
        split_sealed_frame_spec(wire_data@) matches Err(e) ==> r == Err::<Vec<u8>, CryptoError>(e),
        r matches Ok(p) ==> p@.len() + 32 == wire_data@.len(),
        r matches Ok(p) ==> opens_to(key@, wire_data@, p@),
        forall|p: Seq<u8>| #[trigger] opens_to(key@, wire_data@, p) ==> (r matches Ok(q) && q@ == p),
        r matches Err(e) ==> e == CryptoError::Decryption || e == CryptoError::InvalidNonce,
        split_sealed_frame_spec(wire_data@) matches Ok((n, c)) ==> (r is Err <==> aes256_gcm_open(
            key@,
            n,
            c,
        ) is None),
{
    decrypt_with_key_bytes(key.as_bytes(), wire_data)
}

/// Decrypt with a raw 32-byte key; any other key length fails with
/// `Decryption`. What encrypting a plaintext under the same key gave
/// decrypts to that plaintext.
pub fn decrypt_with_key_bytes(key_bytes: &[u8], wire_data: &[u8]) -> (r: CryptoResult<Vec<u8>>)
    ensures
        key_bytes@.len() != 32 ==> r == Err::<Vec<u8>, CryptoError>(CryptoError::Decryption),
        key_bytes@.len() == 32 ==> (split_sealed_frame_spec(wire_data@) matches Err(e) ==> r
            == Err::<Vec<u8>, CryptoError>(e)),
        r matches Ok(p) ==> p@.len() + 32 == wire_data@.len(),
        r matches Err(e) ==> e == CryptoError::Decryption || e == CryptoError::InvalidNonce,
        r matches Ok(p) ==> opens_to(key_bytes@, wire_data@, p@),
        forall|p: Seq<u8>| #[trigger] opens_to(key_bytes@, wire_data@, p) ==> (r matches Ok(q) && q@ == p),
        key_bytes@.len() == 32 ==> (split_sealed_frame_spec(wire_data@) matches Ok((n, c)) ==> (r is Err
            <==> aes256_gcm_open(key_bytes@, n, c) is None)),
{
    if key_bytes.len() != 32 {
        return Err(CryptoError::Decryption);
    }
    let (nonce, sealed) = split_sealed_frame(wire_data)?;
    match aead_open_raw(key_bytes, nonce, sealed) {
        Ok(p) => Ok(p),
        Err(_) => Err(CryptoError::Decryption),
    }
}

/// With a session key, decryption undoes encryption: what `encrypt`,
/// `encrypt_message` or `encrypt_with_nonce` gave under the key decrypts,
/// under that key, to the plaintext.
pub proof fn law_session_decrypt_undoes_encrypt(key: SessionKey, plaintext: Seq<u8>, wire: Seq<u8>)
    requires
        encrypts_to(key@, plaintext, wire),
    ensures
        opens_to(key@, wire, plaintext),
{
    law_decrypt_undoes_encrypt(key@, plaintext, wire);
}

/// Decryption undoes encryption: what encrypting a plaintext under a
/// 32-byte key gave decrypts, under that key, to the plaintext.
pub proof fn law_decrypt_undoes_encrypt(key: Seq<u8>, plaintext: Seq<u8>, wire: Seq<u8>)
    requires
        key.len() == 32,
        encrypts_to(key, plaintext, wire),
    ensures
        opens_to(key, wire, plaintext),
{
    let (n, c) = choose|n: Seq<u8>, c: Seq<u8>|
        {
            &&& n.len() == 12
            &&& c.len() == plaintext.len() + 16
            &&& #[trigger] aes256_gcm_open(key, n, c) == Some(plaintext)
            &&& wire == sealed_frame(n, c)
        };
    law_sealed_frame_roundtrip(n, c);
}

} // verus!
