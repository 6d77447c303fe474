//! Device identity and Ed25519 signing of tile batches.
//!
//! Each node holds an Ed25519 keypair, stored base64-encoded in its database.
//! The device id is derived from the public key with FNV-1a (16 lowercase hex
//! digits). Outgoing batches are signed over their canonical JSON bytes and the
//! hub verifies the signature before merging.
use vstd::prelude::*;
use ed25519_dalek::Signer;
use ed25519_dalek::Verifier;
use rand::rngs::OsRng;
use crate::error::Error;
use crate::text::concat;
use crate::tile::unix_now_secs;
use crate::text::digit_char;
use crate::text::exec_digit_char;
use crate::text::string_from_chars;

verus! {

// ── Device id: FNV-1a over the public key, as 16 hex digits ───────────────────

pub const FNV_OFFSET_BASIS: u64 = 0xcbf29ce484222325;

pub const FNV_PRIME: u64 = 0x100000001b3;

/// 64-bit FNV-1a of `bytes`: xor each byte in, then multiply by the prime
/// modulo 2^64.
pub open spec fn fnv1a(bytes: Seq<u8>) -> u64
    decreases bytes.len(),
{
    if bytes.len() == 0 {
        FNV_OFFSET_BASIS
    } else {
        vstd::wrapping::u64_specs::wrapping_mul(
            fnv1a(bytes.drop_last()) ^ (bytes.last() as u64),
            FNV_PRIME,
        )
    }
}

/// The lowercase hex digit of `d < 16`.
pub open spec fn hex_digit(d: nat) -> char {
    if d < 10 {
        digit_char(d)
    } else if d == 10 {
        'a'
    } else if d == 11 {
        'b'
    } else if d == 12 {
        'c'
    } else if d == 13 {
        'd'
    } else if d == 14 {
        'e'
    } else {
        'f'
    }
}

/// The last `width` hex digits of `n`, zero-padded on the left (what
/// `{:0width$x}` prints when `n < 16^width`).
pub open spec fn hex_fixed(n: nat, width: nat) -> Seq<char>
    decreases width,
{
    if width == 0 {
        seq![]
    } else {
        hex_fixed(n / 16, (width - 1) as nat).push(hex_digit(n % 16))
    }
}

pub open spec fn is_lower_hex(c: char) -> bool {
    ('0' <= c <= '9') || ('a' <= c <= 'f')
}

/// The device id of a public key.
pub open spec fn device_id_of(public_key: Seq<u8>) -> Seq<char> {
    hex_fixed(fnv1a(public_key) as nat, 16)
}

pub proof fn lemma_hex_fixed(n: nat, width: nat)
    ensures
        hex_fixed(n, width).len() == width,
        forall|i: int| 0 <= i < width ==> is_lower_hex(#[trigger] hex_fixed(n, width)[i]),
    decreases width,
{
    if width > 0 {
        lemma_hex_fixed(n / 16, (width - 1) as nat);
        let d = n % 16;
        assert(is_lower_hex(hex_digit(d)));
        assert forall|i: int| 0 <= i < width implies is_lower_hex(
            #[trigger] hex_fixed(n, width)[i],
        ) by {
            if i < width - 1 {
                assert(hex_fixed(n, width)[i] == hex_fixed(n / 16, (width - 1) as nat)[i]);
            }
        }
    }
}

fn exec_hex_digit(d: u64) -> (c: char)
    requires
        d < 16,
    ensures
        c == hex_digit(d as nat),
{
    if d < 10 {
        exec_digit_char(d)
    } else if d == 10 {
        'a'
    } else if d == 11 {
        'b'
    } else if d == 12 {
        'c'
    } else if d == 13 {
        'd'
    } else if d == 14 {
        'e'
    } else {
        'f'
    }
}

fn push_hex_fixed(out: &mut Vec<char>, n: u64, width: usize)
    ensures
        final(out)@ == old(out)@ + hex_fixed(n as nat, width as nat),
    decreases width,
{
    if width > 0 {
        push_hex_fixed(out, n / 16, width - 1);
        let c = exec_hex_digit(n % 16);
        out.push(c);
    }
}

/// Derive a stable device id from a public key: the 64-bit FNV-1a hash of its
/// bytes, as 16 lowercase hex digits.
pub fn derive_device_id(pub_bytes: &[u8]) -> (id: String)
    ensures
        id@ == device_id_of(pub_bytes@),
        id@.len() == 16,
        forall|i: int| 0 <= i < 16 ==> is_lower_hex(#[trigger] id@[i]),
{
    let mut hash: u64 = FNV_OFFSET_BASIS;
    let mut k: usize = 0;
    while k < pub_bytes.len()
        invariant
            0 <= k <= pub_bytes.len(),
            hash == fnv1a(pub_bytes@.take(k as int)),
        decreases pub_bytes.len() - k,
    {
        let b = pub_bytes[k];
        assert(pub_bytes@.take(k + 1).drop_last() =~= pub_bytes@.take(k as int));
        hash = hash ^ (b as u64);
        hash = hash.wrapping_mul(FNV_PRIME);
        k = k + 1;
    }
    assert(pub_bytes@.take(pub_bytes.len() as int) =~= pub_bytes@);
    let mut v: Vec<char> = Vec::new();
    push_hex_fixed(&mut v, hash, 16);
    proof {
        assert(v@ =~= hex_fixed(hash as nat, 16));
        lemma_hex_fixed(hash as nat, 16);
    }
    string_from_chars(&v)
}

} // verus!

verus! {

// ── Outside items: base64 and Ed25519 ─────────────────────────────────────────

#[verifier::external_type_specification]
#[verifier::external_body]
pub struct ExDecodeError(base64::DecodeError);

#[verifier::external_type_specification]
#[verifier::external_body]
pub struct ExSignatureError(ed25519_dalek::SignatureError);

/// What the standard base64 engine (RFC 4648 alphabet, with padding) encodes
/// `bytes` to.
pub uninterp spec fn base64_encoding(bytes: Seq<u8>) -> Seq<char>;

/// What the standard base64 engine decodes `text` to, or `None` where it
/// refuses the text.
pub uninterp spec fn base64_decoding(text: Seq<char>) -> Option<Seq<u8>>;

/// The Ed25519 public key of a 32-byte secret seed (its compressed point).
pub uninterp spec fn ed25519_public_key(seed: Seq<u8>) -> Seq<u8>;

/// The Ed25519 signature that the key of `seed` makes over `msg`.
pub uninterp spec fn ed25519_signature(seed: Seq<u8>, msg: Seq<u8>) -> Seq<u8>;

/// Whether 32 bytes decompress to a curve point, i.e. form a verifying key.
pub uninterp spec fn ed25519_point_valid(key: Seq<u8>) -> bool;

/// Whether the verifying key `key` accepts `sig` as a signature of `msg`.
pub uninterp spec fn ed25519_accepts(key: Seq<u8>, msg: Seq<u8>, sig: Seq<u8>) -> bool;

/// `base64::Engine::encode` with the `STANDARD` engine. The result is named by
/// `base64_encoding` and no more is said of it.
#[verifier::external_body]
fn b64_encode(bytes: &[u8]) -> (text: String)
    ensures
        text@ == base64_encoding(bytes@),
{
    base64::Engine::encode(&base64::engine::general_purpose::STANDARD, bytes)
}

/// `base64::Engine::decode` with the `STANDARD` engine. Besides naming the
/// result, this states what the crate documents of the pair: text that
/// `encode` produced decodes back to the bytes it was made from.
#[verifier::external_body]
fn b64_decode(text: &str) -> (r: Result<Vec<u8>, base64::DecodeError>)
    ensures
        (r is Ok) == (base64_decoding(text@) is Some),
        r matches Ok(v) ==> base64_decoding(text@) == Some(v@),
        (exists|b: Seq<u8>| #[trigger] base64_encoding(b) == text@) ==> r is Ok,
        r matches Ok(v) ==> forall|b: Seq<u8>| #[trigger] base64_encoding(b) == text@ ==> v@ == b,
{
    base64::Engine::decode(&base64::engine::general_purpose::STANDARD, text)
}

/// The `Display` text of a base64 decoding error. Nothing is stated of it.
#[verifier::external_body]
fn decode_error_text(e: &base64::DecodeError) -> String {
    format!("{e}")
}

/// The `Display` text of an Ed25519 error. Nothing is stated of it.
#[verifier::external_body]
fn signature_error_text(e: &ed25519_dalek::SignatureError) -> String {
    format!("{e}")
}

/// `SigningKey::generate` with the operating system's random source, taken
/// as its 32-byte seed. The seed is random: nothing is stated of it.
#[verifier::external_body]
fn random_seed() -> [u8; 32] {
    ed25519_dalek::SigningKey::generate(&mut OsRng).to_bytes()
}

/// `SigningKey::verifying_key` of the key made from `seed`, as its 32 bytes.
/// Stated: the result is named by `ed25519_public_key`, and it is a valid
/// curve point (the crate computes it as a point and compresses it).
#[verifier::external_body]
fn public_key_of_seed(seed: &[u8; 32]) -> (pk: [u8; 32])
    ensures
        pk@ == ed25519_public_key(seed@),
        ed25519_point_valid(pk@),
{
    ed25519_dalek::SigningKey::from_bytes(seed).verifying_key().to_bytes()
}

/// `Signer::sign` of the key made from `seed` over `msg`, as the signature's
/// 64 bytes (Ed25519 signing is deterministic).
#[verifier::external_body]
fn sign_with_seed(seed: &[u8; 32], msg: &[u8]) -> (sig: [u8; 64])
    ensures
        sig@ == ed25519_signature(seed@, msg@),
{
    ed25519_dalek::SigningKey::from_bytes(seed).sign(msg).to_bytes()
}

/// `VerifyingKey::from_bytes`: succeeds exactly when the bytes decompress to
/// a curve point, which the public key of any seed does (the crate computes it
/// as a point and compresses it).
#[verifier::external_body]
fn check_verifying_key(pk: &[u8; 32]) -> (r: Result<(), ed25519_dalek::SignatureError>)
    ensures
        (r is Ok) == ed25519_point_valid(pk@),
        forall|seed: Seq<u8>| seed.len() == 32 && pk@ == #[trigger] ed25519_public_key(seed) ==> r is Ok,
{
    match ed25519_dalek::VerifyingKey::from_bytes(pk) {
        Ok(_) => Ok(()),
        Err(e) => Err(e),
    }
}

/// `Verifier::verify` of the verifying key `pk` over `msg` and `sig`, as a
/// `bool`. Besides naming the result, this states Ed25519's correctness as the
/// crate documents it: a signature made with a seed's key verifies under that
/// seed's public key.
#[verifier::external_body]
fn verify_with_key(pk: &[u8; 32], msg: &[u8], sig: &[u8; 64]) -> (ok: bool)
    requires
        ed25519_point_valid(pk@),
    ensures
        ok == ed25519_accepts(pk@, msg@, sig@),
        forall|seed: Seq<u8>|
            seed.len() == 32 && pk@ == #[trigger] ed25519_public_key(seed) && sig@
                == ed25519_signature(seed, msg@) ==> ok,
{
    match ed25519_dalek::VerifyingKey::from_bytes(pk) {
        Ok(vk) => vk.verify(msg, &ed25519_dalek::Signature::from_bytes(sig)).is_ok(),
        Err(_) => false,
    }
}

} // verus!

verus! {

// ── Keys ──────────────────────────────────────────────────────────────────────

/// A 32-byte Ed25519 secret seed, as loaded from its stored form.
#[derive(Debug, Clone, Copy)]
pub struct SecretSeed {
    pub bytes: [u8; 32],
}

/// A 32-byte Ed25519 verifying key that decompresses to a curve point.
#[derive(Debug, Clone, Copy)]
pub struct PublicKey {
    pub bytes: [u8; 32],
}

impl PublicKey {
    /// The key's 32 bytes.
    pub fn to_bytes(&self) -> (b: [u8; 32])
        ensures
            b@ == self.bytes@,
    {
        self.bytes
    }
}

/// Persistent device keypair, stored in the node database.
#[derive(Debug, Clone)]
pub struct DeviceKeys {
    /// Stable device identifier derived from the public key.
    pub device_id: String,
    /// Base64-encoded 32-byte signing key seed.
    pub secret_key_b64: String,
    /// Base64-encoded 32-byte verifying key.
    pub public_key_b64: String,
    /// Unix timestamp of key creation.
    pub created_at: u64,
}

/// The `n` bytes that `text` decodes to, if it decodes to exactly `n` bytes.
pub open spec fn decoded_exact(text: Seq<char>, n: nat) -> Option<Seq<u8>> {
    match base64_decoding(text) {
        Some(b) => if b.len() == n {
            Some(b)
        } else {
            None
        },
        None => None,
    }
}

/// `keys` is the stored form of the keypair of `seed`.
pub open spec fn keys_of_seed(keys: DeviceKeys, seed: Seq<u8>) -> bool {
    &&& seed.len() == 32
    &&& ed25519_public_key(seed).len() == 32
    &&& keys.secret_key_b64@ == base64_encoding(seed)
    &&& keys.public_key_b64@ == base64_encoding(ed25519_public_key(seed))
    &&& keys.device_id@ == device_id_of(ed25519_public_key(seed))
}

/// The message of a failed load of an `n`-byte key from `text`: the decoder's
/// error after `decode_prefix`, or `len_message` for a wrong length.
pub open spec fn load_error(
    text: Seq<char>,
    n: nat,
    m: Seq<char>,
    decode_prefix: Seq<char>,
    len_message: Seq<char>,
) -> bool {
    match base64_decoding(text) {
        None => m.len() >= decode_prefix.len() && m.subrange(0, decode_prefix.len() as int)
            == decode_prefix,
        Some(b) => b.len() != n && m == len_message,
    }
}

fn to_array32(v: &Vec<u8>) -> (a: [u8; 32])
    requires
        v.len() == 32,
    ensures
        a@ == v@,
{
    let mut a: [u8; 32] = [0u8; 32];
    let mut i: usize = 0;
    while i < 32
        invariant
            0 <= i <= 32,
            v.len() == 32,
            forall|k: int| 0 <= k < i ==> a@[k] == v@[k],
        decreases 32 - i,
    {
        a[i] = v[i];
        i = i + 1;
    }
    assert(a@ =~= v@);
    a
}

fn to_array64(v: &Vec<u8>) -> (a: [u8; 64])
    requires
        v.len() == 64,
    ensures
        a@ == v@,
{
    let mut a: [u8; 64] = [0u8; 64];
    let mut i: usize = 0;
    while i < 64
        invariant
            0 <= i <= 64,
            v.len() == 64,
            forall|k: int| 0 <= k < i ==> a@[k] == v@[k],
        decreases 64 - i,
    {
        a[i] = v[i];
        i = i + 1;
    }
    assert(a@ =~= v@);
    a
}

/// Decodes `text` to exactly `N` bytes, failing with `decode_prefix` and the
/// decoder's message, or with `len_message`.
fn load_bytes(text: &str, n: usize, decode_prefix: &str, len_message: &str) -> (r: Result<
    Vec<u8>,
    Error,
>)
    ensures
        (r is Ok) == (decoded_exact(text@, n as nat) is Some),
        r matches Ok(v) ==> decoded_exact(text@, n as nat) == Some(v@),
        r matches Err(e) ==> (e matches Error::Other(m) && load_error(
            text@,
            n as nat,
            m@,
            decode_prefix@,
            len_message@,
        )),
        forall|b: Seq<u8>|
            b.len() == n && text@ == #[trigger] base64_encoding(b) ==> (r matches Ok(v) && v@ == b),
{
    match b64_decode(text) {
        Ok(bytes) => {
            if bytes.len() == n {
                Ok(bytes)
            } else {
                Err(Error::Other(len_message.to_owned()))
            }
        },
        Err(e) => {
            let t = decode_error_text(&e);
            let m = concat(decode_prefix, &t);
            assert(m@.subrange(0, decode_prefix@.len() as int) =~= decode_prefix@);
            Err(Error::Other(m))
        },
    }
}

impl DeviceKeys {
    /// The stored keypair of `seed`, created at `created_at`.
    pub fn from_seed(seed: [u8; 32], created_at: u64) -> (keys: DeviceKeys)
        ensures
            keys_of_seed(keys, seed@),
            keys.created_at == created_at,
    {
        let pk = public_key_of_seed(&seed);
        let device_id = derive_device_id(&pk);
        DeviceKeys {
            device_id,
            secret_key_b64: b64_encode(&seed),
            public_key_b64: b64_encode(&pk),
            created_at,
        }
    }

    /// Generate a fresh Ed25519 keypair from the system's random source,
    /// stamped with the current time.
    pub fn generate() -> (keys: DeviceKeys)
        ensures
            exists|seed: Seq<u8>| keys_of_seed(keys, seed),
            keys.device_id@.len() == 16,
    {
        let seed = random_seed();
        let now = unix_now_secs();
        let keys = DeviceKeys::from_seed(seed, now);
        proof {
            lemma_hex_fixed(fnv1a(ed25519_public_key(seed@)) as nat, 16);
        }
        keys
    }

    /// Load the signing key seed from its stored form.
    pub fn signing_key(&self) -> (r: Result<SecretSeed, Error>)
        ensures
            (r is Ok) == (decoded_exact(self.secret_key_b64@, 32) is Some),
            r matches Ok(s) ==> decoded_exact(self.secret_key_b64@, 32) == Some(s.bytes@),
            r matches Err(e) ==> (e matches Error::Other(m) && load_error(
                self.secret_key_b64@,
                32,
                m@,
                "base64 decode: "@,
                "signing key must be 32 bytes"@,
            )),
            forall|seed: Seq<u8>|
                #[trigger] keys_of_seed(*self, seed) ==> (r matches Ok(s) && s.bytes@ == seed),
    {
        let bytes = load_bytes(
            &self.secret_key_b64,
            32,
            "base64 decode: ",
            "signing key must be 32 bytes",
        )?;
        Ok(SecretSeed { bytes: to_array32(&bytes) })
    }

    /// Load the verifying key from its stored form.
    pub fn verifying_key(&self) -> (r: Result<PublicKey, Error>)
        ensures
            (r is Ok) == (decoded_exact(self.public_key_b64@, 32) matches Some(b)
                && ed25519_point_valid(b)),
            r matches Ok(k) ==> decoded_exact(self.public_key_b64@, 32) == Some(k.bytes@),
            r matches Err(e) ==> (e matches Error::Other(m) && (load_error(
                self.public_key_b64@,
                32,
                m@,
                "base64 decode: "@,
                "verifying key must be 32 bytes"@,
            ) || (decoded_exact(self.public_key_b64@, 32) is Some && m@.len()
                >= "invalid verifying key: "@.len() && m@.subrange(
                0,
                "invalid verifying key: "@.len() as int,
            ) == "invalid verifying key: "@))),
            forall|seed: Seq<u8>|
                #[trigger] keys_of_seed(*self, seed) ==> (r matches Ok(k) && k.bytes@
                    == ed25519_public_key(seed)),
    {
        let bytes = load_bytes(
            &self.public_key_b64,
            32,
            "base64 decode: ",
            "verifying key must be 32 bytes",
        )?;
        let arr = to_array32(&bytes);
        match check_verifying_key(&arr) {
            Ok(()) => Ok(PublicKey { bytes: arr }),
            Err(e) => {
                let t = signature_error_text(&e);
                let m = concat("invalid verifying key: ", &t);
                assert(m@.subrange(0, "invalid verifying key: "@.len() as int)
                    =~= "invalid verifying key: "@);
                Err(Error::Other(m))
            },
        }
    }
}

} // verus!

verus! {

// ── Signing ───────────────────────────────────────────────────────────────────

/// Sign the canonical JSON bytes of a payload. Returns the base64-encoded
/// signature.
pub fn sign_payload(canonical: &[u8], keys: &DeviceKeys) -> (r: Result<String, Error>)
    ensures
        (r is Ok) == (decoded_exact(keys.secret_key_b64@, 32) is Some),
        r matches Ok(s) ==> ({
            let seed = decoded_exact(keys.secret_key_b64@, 32).unwrap();
            &&& ed25519_signature(seed, canonical@).len() == 64
            &&& s@ == base64_encoding(ed25519_signature(seed, canonical@))
        }),
        r matches Err(e) ==> (e matches Error::Other(m) && load_error(
            keys.secret_key_b64@,
            32,
            m@,
            "base64 decode: "@,
            "signing key must be 32 bytes"@,
        )),
        forall|seed: Seq<u8>|
            #[trigger] keys_of_seed(*keys, seed) ==> (r matches Ok(s) && s@ == base64_encoding(
                ed25519_signature(seed, canonical@),
            ) && ed25519_signature(seed, canonical@).len() == 64),
{
    let seed = keys.signing_key()?;
    let sig = sign_with_seed(&seed.bytes, canonical);
    Ok(b64_encode(&sig))
}

/// The signature and verifying key bytes that `verify_payload` checks with,
/// when both decode to the right lengths and the key is a curve point.
pub open spec fn verify_inputs(sig_text: Seq<char>, key_text: Seq<char>) -> Option<
    (Seq<u8>, Seq<u8>),
> {
    match (decoded_exact(sig_text, 64), decoded_exact(key_text, 32)) {
        (Some(sig), Some(key)) => if ed25519_point_valid(key) {
            Some((sig, key))
        } else {
            None
        },
        _ => None,
    }
}

pub open spec fn has_prefix(m: Seq<char>, p: Seq<char>) -> bool {
    m.len() >= p.len() && m.subrange(0, p.len() as int) == p
}

/// The message `verify_payload` fails with: the first of its checks that
/// fails, in order (signature text, then key text, then the key's point).
pub open spec fn verify_error(sig_text: Seq<char>, key_text: Seq<char>, m: Seq<char>) -> bool {
    if decoded_exact(sig_text, 64) is None {
        load_error(sig_text, 64, m, "sig base64: "@, "signature must be 64 bytes"@)
    } else if decoded_exact(key_text, 32) is None {
        load_error(key_text, 32, m, "vk base64: "@, "verifying key must be 32 bytes"@)
    } else {
        has_prefix(m, "invalid vk: "@)
    }
}

/// Verify a base64 signature over the canonical JSON bytes of a payload with
/// a base64 verifying key. `Ok(false)` means well-formed inputs and a
/// signature that does not verify.
pub fn verify_payload(canonical: &[u8], signature_b64: &str, verifying_key_b64: &str) -> (r: Result<
    bool,
    Error,
>)
    ensures
        (r is Ok) == (verify_inputs(signature_b64@, verifying_key_b64@) is Some),
        r matches Ok(b) ==> ({
            let (sig, key) = verify_inputs(signature_b64@, verifying_key_b64@).unwrap();
            b == ed25519_accepts(key, canonical@, sig)
        }),
        r matches Err(e) ==> (e matches Error::Other(m) && verify_error(
            signature_b64@,
            verifying_key_b64@,
            m@,
        )),
        forall|seed: Seq<u8>|
            seed.len() == 32 && ed25519_public_key(seed).len() == 32 && ed25519_signature(
                seed,
                canonical@,
            ).len() == 64 && signature_b64@ == base64_encoding(
                #[trigger] ed25519_signature(seed, canonical@),
            ) && verifying_key_b64@ == base64_encoding(ed25519_public_key(seed)) ==> (r matches Ok(
                b,
            ) && b),
{
    let sig_bytes = load_bytes(signature_b64, 64, "sig base64: ", "signature must be 64 bytes")?;
    let sig = to_array64(&sig_bytes);
    let vk_bytes = load_bytes(
        verifying_key_b64,
        32,
        "vk base64: ",
        "verifying key must be 32 bytes",
    )?;
    let vk = to_array32(&vk_bytes);
    match check_verifying_key(&vk) {
        Ok(()) => Ok(verify_with_key(&vk, canonical, &sig)),
        Err(e) => {
            let t = signature_error_text(&e);
            let m = concat("invalid vk: ", &t);
            assert(m@.subrange(0, "invalid vk: "@.len() as int) =~= "invalid vk: "@);
            Err(Error::Other(m))
        },
    }
}

} // verus!
