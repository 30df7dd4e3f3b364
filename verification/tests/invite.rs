//! Invite codes, with real keys and real base58.
use tetron_systray::invite::{decode_invite_code, join_endpoint, split_payload};

fn key() -> [u8; 32] {
    *iroh::SecretKey::from_bytes(&[7; 32]).public().as_bytes()
}

fn code(bytes: &[u8]) -> String {
    bs58::encode(bytes).into_string()
}

fn payload(secret: &[u8]) -> Vec<u8> {
    let mut v = key().to_vec();
    v.extend_from_slice(secret);
    v
}

#[test]
fn an_invite_gives_back_the_network_and_the_secret() {
    for secret in [&[0u8][..], &[1, 2, 3], &[0, 0, 255, 0], &[9; 100]] {
        let (id, got) = decode_invite_code(&code(&payload(secret))).unwrap();
        assert_eq!(id.as_bytes(), &key());
        assert_eq!(got, secret);
    }
}

#[test]
fn a_known_code_decodes() {
    // The base58 form of the key 1 (the neutral point) followed by "s".
    let mut bytes = [0u8; 33];
    bytes[0] = 1;
    bytes[32] = b's';
    let text = code(&bytes);
    let (id, secret) = decode_invite_code(&text).unwrap();
    assert_eq!(id.as_bytes()[0], 1);
    assert_eq!(secret, b"s");
}

#[test]
fn leading_zero_bytes_are_kept() {
    // Thirty-two zero bytes are a point of the curve; each is a digit 1.
    let text = "1".repeat(32) + "2";
    let (id, secret) = decode_invite_code(&text).unwrap();
    assert_eq!(id.as_bytes(), &[0; 32]);
    assert_eq!(secret, [1]);
}

#[test]
fn an_invite_needs_a_secret() {
    assert_eq!(
        decode_invite_code(&code(&key())).unwrap_err(),
        "invalid invite code: expected more than 32 bytes, got 32"
    );
    assert_eq!(
        decode_invite_code("").unwrap_err(),
        "invalid invite code: expected more than 32 bytes, got 0"
    );
    assert_eq!(
        decode_invite_code("2g").unwrap_err(),
        "invalid invite code: expected more than 32 bytes, got 1"
    );
}

#[test]
fn what_is_no_base58_is_refused() {
    assert_eq!(
        decode_invite_code("abc0").unwrap_err(),
        "invalid invite code: provided string contained invalid character '0' at byte 3"
    );
    assert_eq!(
        decode_invite_code("aü").unwrap_err(),
        "invalid invite code: provided string contained non-ascii character starting at byte 1"
    );
    for bad in ["0", "O", "I", "l", " ", "+", "a b"] {
        assert!(decode_invite_code(bad).unwrap_err().starts_with("invalid invite code: provided"));
    }
}

#[test]
fn a_key_that_is_no_point_is_refused() {
    let mut bytes = [0u8; 40];
    bytes[0] = 2;
    assert_eq!(
        decode_invite_code(&code(&bytes)).unwrap_err(),
        "invalid network key in invite: data is not a valid public key"
    );
}

#[test]
fn a_payload_is_taken_apart() {
    let bytes: Vec<u8> = (0..35).collect();
    let (k, s) = split_payload(&bytes).unwrap();
    assert_eq!(k.to_vec(), (0..32).collect::<Vec<u8>>());
    assert_eq!(s, [32, 33, 34]);
    assert_eq!(
        split_payload(&vec![0; 31]).unwrap_err(),
        "invalid invite code: expected more than 32 bytes, got 31"
    );
}

#[test]
fn an_endpoint_is_joined_with_its_secret() {
    let id = iroh::EndpointId::from_bytes(&key()).unwrap();
    assert_eq!(join_endpoint(Ok(id), vec![4]), Ok((id, vec![4])));
    assert_eq!(
        join_endpoint(Err("why".to_string()), vec![4]),
        Err("invalid network key in invite: why".to_string())
    );
}
