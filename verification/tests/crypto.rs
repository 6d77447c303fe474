use serde_json::Value;
use sigint::crypto::{derive_device_id, sign_payload, verify_payload, DeviceKeys};
use sigint::error::Error;

fn tile_payload(value: i64) -> Vec<u8> {
    let mut m = serde_json::Map::new();
    m.insert("tile_id".to_string(), Value::String("8a2a1072b59ffff".to_string()));
    m.insert("value".to_string(), Value::from(value));
    serde_json::to_vec(&Value::Object(m)).unwrap()
}

fn message(e: Error) -> String {
    match e {
        Error::Other(m) => m,
        _ => panic!("expected Other"),
    }
}

#[test]
fn generate_produces_valid_keys() {
    let keys = DeviceKeys::generate();
    assert_eq!(keys.device_id.len(), 16);
    assert!(keys.signing_key().is_ok());
    assert!(keys.verifying_key().is_ok());
}

#[test]
fn sign_and_verify_roundtrip() {
    let keys = DeviceKeys::generate();
    let payload = tile_payload(42);
    let sig = sign_payload(&payload, &keys).unwrap();
    let ok = verify_payload(&payload, &sig, &keys.public_key_b64).unwrap();
    assert!(ok);
}

#[test]
fn tampered_payload_fails_verification() {
    let keys = DeviceKeys::generate();
    let payload = tile_payload(42);
    let sig = sign_payload(&payload, &keys).unwrap();
    let tampered = tile_payload(99);
    let ok = verify_payload(&tampered, &sig, &keys.public_key_b64).unwrap();
    assert!(!ok);
}

#[test]
fn wrong_key_fails_verification() {
    let keys1 = DeviceKeys::generate();
    let keys2 = DeviceKeys::generate();
    let mut m = serde_json::Map::new();
    m.insert("data".to_string(), Value::String("test".to_string()));
    let payload = serde_json::to_vec(&Value::Object(m)).unwrap();
    let sig = sign_payload(&payload, &keys1).unwrap();
    let ok = verify_payload(&payload, &sig, &keys2.public_key_b64).unwrap();
    assert!(!ok);
}

#[test]
fn device_id_is_deterministic() {
    let keys = DeviceKeys::generate();
    let vk = keys.verifying_key().unwrap();
    let id1 = derive_device_id(&vk.to_bytes());
    let id2 = derive_device_id(&vk.to_bytes());
    assert_eq!(id1, id2);
    assert_eq!(id1, keys.device_id);
}

#[test]
fn device_id_fnv1a_values() {
    // FNV-1a offset basis for no bytes; published test vector for "a".
    assert_eq!(derive_device_id(&[]), "cbf29ce484222325");
    assert_eq!(derive_device_id(b"a"), "af63dc4c8601ec8c");
    assert_eq!(derive_device_id(b"foobar"), "85944171f73967e8");
}

#[test]
fn keys_from_seed_are_deterministic() {
    let a = DeviceKeys::from_seed([7u8; 32], 100);
    let b = DeviceKeys::from_seed([7u8; 32], 200);
    assert_eq!(a.public_key_b64, b.public_key_b64);
    assert_eq!(a.device_id, b.device_id);
    assert_eq!(a.created_at, 100);
    assert_eq!(a.signing_key().unwrap().bytes, [7u8; 32]);
    let payload = tile_payload(1);
    let sig = sign_payload(&payload, &a).unwrap();
    assert_eq!(sig, sign_payload(&payload, &b).unwrap());
    assert!(verify_payload(&payload, &sig, &b.public_key_b64).unwrap());
}

#[test]
fn rfc8032_test_vector_public_key() {
    // RFC 8032 section 7.1, test 1.
    let seed: [u8; 32] = [
        0x9d, 0x61, 0xb1, 0x9d, 0xef, 0xfd, 0x5a, 0x60, 0xba, 0x84, 0x4a, 0xf4, 0x92, 0xec, 0x2c, 0xc4,
        0x44, 0x49, 0xc5, 0x69, 0x7b, 0x32, 0x69, 0x19, 0x70, 0x3b, 0xac, 0x03, 0x1c, 0xae, 0x7f, 0x60,
    ];
    let keys = DeviceKeys::from_seed(seed, 0);
    let pk = keys.verifying_key().unwrap().to_bytes();
    assert_eq!(pk[0], 0xd7);
    assert_eq!(pk[31], 0x1a);
    assert_eq!(keys.secret_key_b64, "nWGxne/9WmC6hEr0kuwsxERJxWl7MmkZcDusAxyuf2A=");
}

#[test]
fn signing_key_errors() {
    let mut keys = DeviceKeys::from_seed([1u8; 32], 0);
    keys.secret_key_b64 = "AAAA".to_string();
    assert_eq!(message(keys.signing_key().unwrap_err()), "signing key must be 32 bytes");
    keys.secret_key_b64 = "not base64!".to_string();
    assert!(message(keys.signing_key().unwrap_err()).starts_with("base64 decode: "));
    assert!(message(sign_payload(b"x", &keys).unwrap_err()).starts_with("base64 decode: "));
}

#[test]
fn verifying_key_errors() {
    let mut keys = DeviceKeys::from_seed([1u8; 32], 0);
    keys.public_key_b64 = "AAAA".to_string();
    assert_eq!(message(keys.verifying_key().unwrap_err()), "verifying key must be 32 bytes");
    keys.public_key_b64 = "*".to_string();
    assert!(message(keys.verifying_key().unwrap_err()).starts_with("base64 decode: "));
}

#[test]
fn verify_payload_errors() {
    let keys = DeviceKeys::from_seed([3u8; 32], 0);
    let payload = tile_payload(5);
    let sig = sign_payload(&payload, &keys).unwrap();
    assert!(message(verify_payload(&payload, "%%%", &keys.public_key_b64).unwrap_err()).starts_with("sig base64: "));
    assert_eq!(message(verify_payload(&payload, "AAAA", &keys.public_key_b64).unwrap_err()), "signature must be 64 bytes");
    assert!(message(verify_payload(&payload, &sig, "%%%").unwrap_err()).starts_with("vk base64: "));
    assert_eq!(message(verify_payload(&payload, &sig, "AAAA").unwrap_err()), "verifying key must be 32 bytes");
}

#[test]
fn verifying_key_off_curve_is_refused() {
    // y = 2 is not the y-coordinate of any point on the curve.
    let off_curve = "AgAAAAAAAAAAAAAAAAAAAAAAAAAAAAAAAAAAAAAAAAA=";
    let mut keys = DeviceKeys::from_seed([1u8; 32], 0);
    keys.public_key_b64 = off_curve.to_string();
    assert!(message(keys.verifying_key().unwrap_err()).starts_with("invalid verifying key: "));
    let payload = tile_payload(5);
    let sig = sign_payload(&payload, &keys).unwrap();
    assert!(message(verify_payload(&payload, &sig, off_curve).unwrap_err()).starts_with("invalid vk: "));
}
