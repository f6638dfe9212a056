use kbm::auth::{make_key, verify_hash, AuthError};
use ring::hmac;

#[test]
fn test_verify_hash() {
    let key = make_key("AAAAAAAAAIAMSCREAMING".as_bytes());
    let signing_key = hmac::Key::new(hmac::HMAC_SHA256, "AAAAAAAAAIAMSCREAMING".as_bytes());
    let bad_key = hmac::Key::new(hmac::HMAC_SHA256, "?hhhh?".as_bytes());

    // Try some garbage inputs
    let v = verify_hash(b"", b"something", &key);
    assert!(v.is_err());
    let v = verify_hash(b"something", b"", &key);
    assert!(v.is_err());
    let v = verify_hash(b"something", b"", &key);
    assert!(v.is_err());

    // Test some garbage hashes
    let v = verify_hash(b"something", b"something", &key);
    assert!(!v.is_err());

    let v = verify_hash(b"AAA", b"AAA", &key);
    assert!(!v.is_err());
    assert!(v.unwrap() == false);

    // Test a good hash
    let data = b"some data related to something";
    let mac = hmac::sign(&signing_key, data);
    let v = verify_hash(data, mac.as_ref(), &key);
    assert!(!v.is_err());
    assert!(v.unwrap() == true);

    // Test bad key
    let mac = hmac::sign(&bad_key, data);
    let v = verify_hash(data, mac.as_ref(), &key);
    assert!(!v.is_err());
    assert!(v.unwrap() == false);
}

fn tag(secret: &[u8], data: &[u8]) -> Vec<u8> {
    hmac::sign(&hmac::Key::new(hmac::HMAC_SHA256, secret), data).as_ref().to_vec()
}

#[test]
fn missing_data_and_missing_tag_are_errors() {
    let key = make_key(b"k");
    assert_eq!(verify_hash(b"", b"tag", &key), Err(AuthError::MissingData));
    assert_eq!(verify_hash(b"data", b"", &key), Err(AuthError::MissingTag));
    // the data is looked at first
    assert_eq!(verify_hash(b"", b"", &key), Err(AuthError::MissingData));
    let empty = make_key(b"");
    assert_eq!(verify_hash(b"", b"tag", &empty), Err(AuthError::MissingData));
    assert_eq!(verify_hash(b"data", b"", &empty), Err(AuthError::MissingTag));
}

#[test]
fn auth_errors_in_words() {
    assert_eq!(AuthError::MissingData.message(), "Body is required");
    assert_eq!(AuthError::MissingTag.message(), "MAC is required");
}

#[test]
fn known_tag_is_accepted() {
    // HMAC-SHA256 of "0123456789" under the key below
    let expected: [u8; 32] = [
        0x74, 0x4f, 0x32, 0xda, 0xae, 0xaa, 0x9a, 0x9e, 0x4a, 0xe3, 0xfb, 0x2b, 0xa9, 0xc2, 0xc2,
        0x8e, 0x36, 0x0f, 0x78, 0x84, 0xea, 0x55, 0x02, 0xdf, 0xc0, 0x59, 0xb4, 0x08, 0x42, 0x27,
        0xe6, 0xc8,
    ];
    let key = make_key(b"AAAAAAAAAIAMSCREAMING");
    assert_eq!(verify_hash(b"0123456789", &expected, &key), Ok(true));
    // the data itself is no tag of the data
    assert_eq!(verify_hash(b"0123456789", b"0123456789", &key), Ok(false));
}

#[test]
fn every_signed_pair_verifies() {
    let secrets: [&[u8]; 4] = [b"", b"k", b"AAAAAAAAAIAMSCREAMING", &[0x5a; 200]];
    let messages: [&[u8]; 4] = [b"a", b"0123456789", b"m 50 50", &[0u8; 300]];
    for secret in secrets.iter() {
        let key = make_key(secret);
        for data in messages.iter() {
            let mac = tag(secret, data);
            assert_eq!(verify_hash(data, &mac, &key), Ok(true));
        }
    }
}

#[test]
fn any_flipped_bit_of_the_tag_fails() {
    let secret = b"AAAAAAAAAIAMSCREAMING";
    let data = b"some data related to something";
    let key = make_key(secret);
    let mac = tag(secret, data);
    for i in 0..mac.len() {
        for bit in 0..8 {
            let mut changed = mac.clone();
            changed[i] ^= 1 << bit;
            assert_eq!(verify_hash(data, &changed, &key), Ok(false));
        }
    }
}

#[test]
fn any_flipped_bit_of_the_data_fails() {
    let secret = b"AAAAAAAAAIAMSCREAMING";
    let data = b"some data related to something";
    let key = make_key(secret);
    let mac = tag(secret, data);
    for i in 0..data.len() {
        for bit in 0..8 {
            let mut changed = data.to_vec();
            changed[i] ^= 1 << bit;
            assert_eq!(verify_hash(&changed, &mac, &key), Ok(false));
        }
    }
}

#[test]
fn tag_of_another_key_fails() {
    let data = b"some data related to something";
    let key = make_key(b"AAAAAAAAAIAMSCREAMING");
    for other in [&b"?hhhh?"[..], b"", b"AAAAAAAAAIAMSCREAMINH", b"AAAAAAAAAIAMSCREAMING "] {
        let mac = tag(other, data);
        assert_eq!(verify_hash(data, &mac, &key), Ok(false));
    }
}

#[test]
fn tag_of_another_length_fails() {
    let secret = b"AAAAAAAAAIAMSCREAMING";
    let data = b"some data related to something";
    let key = make_key(secret);
    let mac = tag(secret, data);
    assert_eq!(verify_hash(data, &mac[..31], &key), Ok(false));
    let mut longer = mac.clone();
    longer.push(0);
    assert_eq!(verify_hash(data, &longer, &key), Ok(false));
}
