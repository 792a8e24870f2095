use hkdf::Hkdf;
use hmac::{Hmac, Mac};
use rand::rngs::OsRng;
use rand::RngCore;
use sha2::{Digest, Sha256};
use vstd::prelude::*;
use x25519_dalek::{EphemeralSecret, PublicKey};

verus! {

// ---------------------------------------------------------------------------
// Names for what the hash and key-derivation primitives compute. Each is a
// fixed function of its arguments; nothing about its value is assumed beyond
// what the wrappers below state.
// ---------------------------------------------------------------------------

/// The SHA-256 digest of `data`.
pub uninterp spec fn sha256(data: Seq<u8>) -> Seq<u8>;

/// The first 32 bytes of HKDF-SHA256 output keying material for `salt`, `ikm`, `info`.
pub uninterp spec fn hkdf_sha256_32(salt: Seq<u8>, ikm: Seq<u8>, info: Seq<u8>) -> Seq<u8>;

/// The HMAC-SHA256 tag of `msg` under `key`.
pub uninterp spec fn hmac_sha256(key: Seq<u8>, msg: Seq<u8>) -> Seq<u8>;

/// The X25519 private half of a key pair, produced and consumed by `x25519_dalek`.
#[verifier::external_type_specification]
#[verifier::external_body]
pub struct ExEphemeralSecret(x25519_dalek::EphemeralSecret);

/// Calls `sha2::Sha256::digest`; the result is the digest of `data`, by name.
#[verifier::external_body]
fn sha256_digest(data: &[u8]) -> (h: [u8; 32])
    ensures
        h@ == sha256(data@),
{
    let digest = Sha256::digest(data);
    let mut h = [0u8; 32];
    h.copy_from_slice(&digest);
    h
}

/// Calls `hmac::Hmac::<Sha256>::new_from_slice` (which accepts keys of any length),
/// `update` with `msg` and `finalize`; the tag is named by `hmac_sha256`.
#[verifier::external_body]
pub(crate) fn hmac_sha256_tag(key: &[u8; 32], msg: &[u8; 32]) -> (tag: [u8; 32])
    ensures
        tag@ == hmac_sha256(key@, msg@),
{
    let mut mac = <Hmac<Sha256> as Mac>::new_from_slice(&key[..]).expect("HMAC accepts any key length");
    mac.update(&msg[..]);
    let out = mac.finalize().into_bytes();
    let mut tag = [0u8; 32];
    tag.copy_from_slice(&out);
    tag
}

/// Calls `rand::rngs::OsRng::fill_bytes` on a 32-byte buffer. The bytes come from the
/// operating system's generator, so nothing is stated of them.
#[verifier::external_body]
pub(crate) fn random_nonce() -> (nonce: [u8; 32]) {
    let mut nonce = [0u8; 32];
    OsRng.fill_bytes(&mut nonce);
    nonce
}

/// Lowercase hexadecimal digit for `n < 16`.
pub open spec fn hex_digit(n: u8) -> char {
    if n < 10 {
        (48 + n) as char
    } else {
        (87 + n) as char
    }
}

/// Lowercase hexadecimal rendering of `b`: two digits per byte, high nibble first.
pub open spec fn hex_lower(b: Seq<u8>) -> Seq<char>
    decreases b.len(),
{
    if b.len() == 0 {
        Seq::empty()
    } else {
        seq![hex_digit(b[0] / 16), hex_digit(b[0] % 16)] + hex_lower(b.drop_first())
    }
}

/// Calls `hex::encode`, which writes each byte as two lowercase hexadecimal digits,
/// high nibble first (its `BytesToHexChars` iterator over `HEX_CHARS_LOWER`).
#[verifier::external_body]
fn hex_encode(data: &[u8]) -> (s: String)
    ensures
        s@ == hex_lower(data@),
{
    hex::encode(data)
}

/// Lexicographic order on byte strings, as `<` orders byte arrays and slices.
pub open spec fn lex_lt(a: Seq<u8>, b: Seq<u8>) -> bool
    decreases a.len(),
{
    if a.len() == 0 || b.len() == 0 {
        a.len() < b.len()
    } else if a[0] != b[0] {
        a[0] < b[0]
    } else {
        lex_lt(a.drop_first(), b.drop_first())
    }
}

/// The bytes hashed into the pairing salt: the two public keys, smaller one first.
pub open spec fn salt_input(pub1: Seq<u8>, pub2: Seq<u8>) -> Seq<u8> {
    if lex_lt(pub1, pub2) {
        pub1 + pub2
    } else {
        pub2 + pub1
    }
}

/// The salt that both ends of a pairing derive from their two public keys.
pub open spec fn salt_of(pub1: Seq<u8>, pub2: Seq<u8>) -> Seq<u8> {
    sha256(salt_input(pub1, pub2))
}

proof fn lemma_lex_lt_skip(a: Seq<u8>, b: Seq<u8>, i: int)
    requires
        0 <= i < a.len(),
        a.len() == b.len(),
        a[i] == b[i],
    ensures
        lex_lt(a.skip(i), b.skip(i)) == lex_lt(a.skip(i + 1), b.skip(i + 1)),
{
    assert(a.skip(i).drop_first() =~= a.skip(i + 1));
    assert(b.skip(i).drop_first() =~= b.skip(i + 1));
}

/// `<` on two 32-byte arrays.
fn bytes_less(a: &[u8; 32], b: &[u8; 32]) -> (r: bool)
    ensures
        r == lex_lt(a@, b@),
{
    let mut i: usize = 0;
    assert(a@.skip(0) =~= a@);
    assert(b@.skip(0) =~= b@);
    while i < 32
        invariant
            0 <= i <= 32,
            a@.len() == 32,
            b@.len() == 32,
            lex_lt(a@, b@) == lex_lt(a@.skip(i as int), b@.skip(i as int)),
        decreases 32 - i,
    {
        if a[i] != b[i] {
            return a[i] < b[i];
        }
        proof {
            lemma_lex_lt_skip(a@, b@, i as int);
        }
        i = i + 1;
    }
    false
}

/// The 29 context bytes `Netover v1 shared-secret hash` appended before hashing a shared secret.
pub open spec fn hash_context() -> Seq<u8> {
    seq![
        78u8, 101, 116, 111, 118, 101, 114, 32, 118, 49, 32, 115, 104, 97, 114, 101, 100, 45,
        115, 101, 99, 114, 101, 116, 32, 104, 97, 115, 104,
    ]
}

/// The lowercase hexadecimal fingerprint that `bytes_to_string` gives for `bytes`.
pub open spec fn fingerprint_of(bytes: Seq<u8>) -> Seq<char> {
    hex_lower(sha256(bytes + hash_context()))
}

fn hash_context_bytes() -> (v: Vec<u8>)
    ensures
        v@ == hash_context(),
{
    let v: Vec<u8> = vec![
        78u8, 101, 116, 111, 118, 101, 114, 32, 118, 49, 32, 115, 104, 97, 114, 101, 100, 45,
        115, 101, 99, 114, 101, 116, 32, 104, 97, 115, 104,
    ];
    assert(v@ =~= hash_context());
    v
}

/// The pairing salt: SHA-256 of both public keys, the lexicographically smaller first,
/// so that both ends compute the same salt.
pub fn derive_salt(pub1: &[u8; 32], pub2: &[u8; 32]) -> (salt: [u8; 32])
    ensures
        salt@ == salt_of(pub1@, pub2@),
{
    let mut combined: Vec<u8> = Vec::with_capacity(64);
    if bytes_less(pub1, pub2) {
        combined.extend_from_slice(pub1.as_slice());
        combined.extend_from_slice(pub2.as_slice());
    } else {
        combined.extend_from_slice(pub2.as_slice());
        combined.extend_from_slice(pub1.as_slice());
    }
    assert(combined@ =~= salt_input(pub1@, pub2@));
    sha256_digest(combined.as_slice())
}

/// The fingerprint shown to the user for a shared secret: lowercase hex of
/// SHA-256 over the secret followed by the context `Netover v1 shared-secret hash`.
pub fn bytes_to_string(bytes: &[u8]) -> (s: String)
    ensures
        s@ == fingerprint_of(bytes@),
        s@.len() == 64,
{
    let mut data: Vec<u8> = Vec::new();
    data.extend_from_slice(bytes);
    let ctx = hash_context_bytes();
    data.extend_from_slice(ctx.as_slice());
    assert(data@ =~= bytes@ + hash_context());
    let digest = sha256_digest(data.as_slice());
    proof {
        lemma_hex_lower_len(digest@);
    }
    hex_encode(digest.as_slice())
}

/// Two hexadecimal digits per byte, all of them ASCII.
pub proof fn lemma_hex_lower_len(b: Seq<u8>)
    ensures
        hex_lower(b).len() == 2 * b.len(),
        vstd::utf8::is_ascii_chars(hex_lower(b)),
    decreases b.len(),
{
    if b.len() > 0 {
        lemma_hex_lower_len(b.drop_first());
        let rest = hex_lower(b.drop_first());
        let head = seq![hex_digit(b[0] / 16), hex_digit(b[0] % 16)];
        assert(hex_lower(b) == head + rest);
        assert forall|i: int| 0 <= i < hex_lower(b).len() implies '\0' <= #[trigger] hex_lower(b)[i] <= '\u{7f}' by {
            if i >= 2 {
                assert(hex_lower(b)[i] == rest[i - 2]);
            }
        }
    }
}

/// Calls `hkdf::Hkdf::<Sha256>::new(Some(salt), shared_secret)` and `expand(context, ..)`
/// into 32 bytes, which cannot fail at that length; the key is named by `hkdf_sha256_32`.
#[verifier::external_body]
pub fn derive_hkdf_key(shared_secret: &[u8; 32], salt: &[u8; 32], context: &[u8]) -> (okm: [u8; 32])
    ensures
        okm@ == hkdf_sha256_32(salt@, shared_secret@, context@),
{
    let hkdf = Hkdf::<Sha256>::new(Some(&salt[..]), &shared_secret[..]);
    let mut okm = [0u8; 32];
    hkdf.expand(context, &mut okm).expect("32 bytes is a valid HKDF-SHA256 length");
    okm
}

/// Calls `x25519_dalek::EphemeralSecret::random_from_rng(OsRng)` and returns the secret
/// with the bytes of its public key (`PublicKey::from(&secret).to_bytes()`). The secret is
/// random, so nothing is stated of either value.
#[verifier::external_body]
pub fn generate_x25519() -> (pair: (EphemeralSecret, [u8; 32])) {
    let secret = EphemeralSecret::random_from_rng(OsRng);
    let public = PublicKey::from(&secret);
    (secret, public.to_bytes())
}

/// Calls `EphemeralSecret::diffie_hellman` with `PublicKey::from(public)` and returns the
/// shared secret's bytes. The secret is opaque, so nothing is stated of the result.
#[verifier::external_body]
pub fn compute_shared(secret: EphemeralSecret, public: [u8; 32]) -> (shared: [u8; 32]) {
    secret.diffie_hellman(&PublicKey::from(public)).to_bytes()
}

// ---------------------------------------------------------------------------
// The salt does not depend on which end lists its key first.
// ---------------------------------------------------------------------------

proof fn lemma_lex_lt_asymmetric(a: Seq<u8>, b: Seq<u8>)
    requires
        lex_lt(a, b),
    ensures
        !lex_lt(b, a),
    decreases a.len(),
{
    if a.len() > 0 && b.len() > 0 && a[0] == b[0] {
        lemma_lex_lt_asymmetric(a.drop_first(), b.drop_first());
    }
}

proof fn lemma_lex_lt_total(a: Seq<u8>, b: Seq<u8>)
    requires
        a.len() == b.len(),
        a != b,
    ensures
        lex_lt(a, b) || lex_lt(b, a),
    decreases a.len(),
{
    if a.len() == 0 {
        assert(a =~= b);
    } else if a[0] == b[0] {
        if a.drop_first() == b.drop_first() {
            assert(a =~= seq![a[0]] + a.drop_first());
            assert(b =~= seq![b[0]] + b.drop_first());
        }
        lemma_lex_lt_total(a.drop_first(), b.drop_first());
    }
}

/// Both ends of a pairing derive the same salt: the order in which the two
/// public keys are given does not matter.
pub proof fn law_salt_symmetric(pub1: Seq<u8>, pub2: Seq<u8>)
    requires
        pub1.len() == pub2.len(),
    ensures
        salt_input(pub1, pub2) == salt_input(pub2, pub1),
        salt_of(pub1, pub2) == salt_of(pub2, pub1),
{
    if pub1 == pub2 {
    } else if lex_lt(pub1, pub2) {
        lemma_lex_lt_asymmetric(pub1, pub2);
    } else {
        lemma_lex_lt_total(pub1, pub2);
        lemma_lex_lt_asymmetric(pub2, pub1);
    }
}

/// `lex_lt` is `<` on byte strings of one length: at the first position where they
/// differ, the string whose byte is smaller as an unsigned number is the smaller one.
pub proof fn law_lex_lt_first_difference(a: Seq<u8>, b: Seq<u8>, i: int)
    requires
        a.len() == b.len(),
        0 <= i < a.len(),
        forall|j: int| 0 <= j < i ==> a[j] == b[j],
        a[i] < b[i],
    ensures
        lex_lt(a, b),
        !lex_lt(b, a),
    decreases i,
{
    if i > 0 {
        assert forall|j: int| 0 <= j < i - 1 implies a.drop_first()[j] == b.drop_first()[j] by {
            assert(a.drop_first()[j] == a[j + 1] && b.drop_first()[j] == b[j + 1]);
        }
        assert(a.drop_first()[i - 1] == a[i] && b.drop_first()[i - 1] == b[i]);
        assert(a[0] == b[0]);
        law_lex_lt_first_difference(a.drop_first(), b.drop_first(), i - 1);
    }
}

/// The salt hashes the smaller public key first: when `pub1` is below `pub2` at their
/// first differing byte (compared as unsigned numbers), the hashed bytes are `pub1`
/// then `pub2`, and either way round the salt is the same.
pub proof fn law_salt_smaller_key_first(pub1: Seq<u8>, pub2: Seq<u8>, i: int)
    requires
        pub1.len() == pub2.len(),
        0 <= i < pub1.len(),
        forall|j: int| 0 <= j < i ==> pub1[j] == pub2[j],
        pub1[i] < pub2[i],
    ensures
        salt_input(pub1, pub2) == pub1 + pub2,
        salt_input(pub2, pub1) == pub1 + pub2,
        salt_of(pub1, pub2) == sha256(pub1 + pub2),
        salt_of(pub2, pub1) == sha256(pub1 + pub2),
{
    law_lex_lt_first_difference(pub1, pub2, i);
}

/// Byte `i` of the data is written as characters `2 i` and `2 i + 1` of its hex
/// rendering, the high nibble first, each a digit `0`-`9` or a lowercase `a`-`f`.
pub proof fn law_hex_lower_positions(b: Seq<u8>, i: int)
    requires
        0 <= i < b.len(),
    ensures
        hex_lower(b).len() == 2 * b.len(),
        hex_lower(b)[2 * i] == hex_digit(b[i] / 16),
        hex_lower(b)[2 * i + 1] == hex_digit(b[i] % 16),
        b[i] / 16 < 10 ==> hex_lower(b)[2 * i] as int == 48 + b[i] / 16,
        b[i] / 16 >= 10 ==> hex_lower(b)[2 * i] as int == 97 + (b[i] / 16 - 10),
        b[i] % 16 < 10 ==> hex_lower(b)[2 * i + 1] as int == 48 + b[i] % 16,
        b[i] % 16 >= 10 ==> hex_lower(b)[2 * i + 1] as int == 97 + (b[i] % 16 - 10),
    decreases i,
{
    lemma_hex_lower_len(b);
    let head = seq![hex_digit(b[0] / 16), hex_digit(b[0] % 16)];
    assert(hex_lower(b) == head + hex_lower(b.drop_first()));
    if i > 0 {
        law_hex_lower_positions(b.drop_first(), i - 1);
        assert(b.drop_first()[i - 1] == b[i]);
        assert(hex_lower(b)[2 * i] == hex_lower(b.drop_first())[2 * (i - 1)]);
        assert(hex_lower(b)[2 * i + 1] == hex_lower(b.drop_first())[2 * (i - 1) + 1]);
    }
}

} // verus!
