use hmac::{Hmac, KeyInit, Mac};
use sha1::Sha1;
use tinkerforge::ip_connection::build_auth_payload;

#[test]
fn auth_payload_carries_nonce_and_digest() {
    let secret = b"My Authentication Secret!";
    let server_nonce = [0xAA, 0xBB, 0xCC, 0xDD];
    let client_nonce = [0x01, 0x02, 0x03, 0x04];
    let payload = build_auth_payload(&server_nonce, &client_nonce, secret);
    assert_eq!(payload.len(), 24);
    assert_eq!(&payload[0..4], &client_nonce);

    // The remaining 20 bytes are HMAC-SHA1(secret, server_nonce || client_nonce).
    let mut mac = <Hmac<Sha1> as KeyInit>::new_from_slice(secret).unwrap();
    let mut message = server_nonce.to_vec();
    message.extend_from_slice(&client_nonce);
    mac.update(&message);
    let expected = mac.finalize().into_bytes();
    assert_eq!(&payload[4..24], expected.as_slice());
}

#[test]
fn auth_digest_depends_on_the_secret() {
    let server_nonce = [0xAA, 0xBB, 0xCC, 0xDD];
    let client_nonce = [0x01, 0x02, 0x03, 0x04];
    let a = build_auth_payload(&server_nonce, &client_nonce, b"secret one");
    let b = build_auth_payload(&server_nonce, &client_nonce, b"secret two");
    assert_eq!(&a[0..4], &b[0..4]);
    assert_ne!(&a[4..24], &b[4..24]);
}

#[test]
fn auth_digest_depends_on_both_nonces() {
    let secret = b"";
    let a = build_auth_payload(&[0, 0, 0, 0], &[1, 2, 3, 4], secret);
    let b = build_auth_payload(&[9, 9, 9, 9], &[1, 2, 3, 4], secret);
    assert_ne!(&a[4..24], &b[4..24]);
}
