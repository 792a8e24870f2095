use netover::crypto::{bytes_to_string, compute_shared, derive_hkdf_key, derive_salt, generate_x25519};

#[test]
fn derive_salt_known_value() {
    let a = [1u8; 32];
    let b = [2u8; 32];
    let expected: [u8; 32] = [
        248, 24, 175, 211, 122, 109, 195, 188, 146, 251, 68, 115, 16, 17, 39, 112, 6, 219, 78, 250, 110, 144, 35,
        205, 116, 104, 192, 35, 53, 210, 42, 77,
    ];
    assert_eq!(derive_salt(&a, &b), expected);
}

#[test]
fn derive_salt_does_not_depend_on_order() {
    let a = [1u8; 32];
    let mut b = [1u8; 32];
    b[31] = 0;
    assert_eq!(derive_salt(&a, &b), derive_salt(&b, &a));
    assert_eq!(derive_salt(&a, &a), derive_salt(&a, &a));
}

#[test]
fn fingerprint_of_zero_secret() {
    let s = bytes_to_string(&[0u8; 32]);
    assert_eq!(s, "ff09560aa228cd4651615a194084a2b871fa7b5f9272a8d3f18e3ec60ec9ce34");
    assert_eq!(s.len(), 64);
}

#[test]
fn hkdf_key_known_value() {
    let okm = derive_hkdf_key(&[7u8; 32], &[9u8; 32], b"netover-hmac-key-v1");
    let expected: [u8; 32] = [
        145, 119, 195, 14, 240, 243, 187, 175, 121, 167, 169, 228, 53, 224, 86, 168, 157, 135, 242, 139, 209, 46,
        227, 101, 9, 161, 252, 169, 2, 47, 203, 29,
    ];
    assert_eq!(okm, expected);
}

#[test]
fn diffie_hellman_agrees() {
    let (host_secret, host_pub) = generate_x25519();
    let (client_secret, client_pub) = generate_x25519();
    assert_ne!(host_pub, client_pub);
    let on_host = compute_shared(host_secret, client_pub);
    let on_client = compute_shared(client_secret, host_pub);
    assert_eq!(on_host, on_client);
}
