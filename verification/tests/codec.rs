use dgraph::{encode_jwt, parse_jwt, Jwt};

#[test]
fn credential_round_trips_through_its_framing() {
    let jwt = Jwt {
        access_jwt: b"access-token".to_vec(),
        refresh_jwt: b"refresh-token".to_vec(),
    };
    let encoded = encode_jwt(&jwt);
    let decoded = parse_jwt(&encoded).unwrap();
    assert_eq!(decoded, jwt);
}

#[test]
fn empty_tokens_round_trip() {
    let jwt = Jwt::new();
    let encoded = encode_jwt(&jwt);
    assert_eq!(encoded.len(), 8);
    let decoded = parse_jwt(&encoded).unwrap();
    assert_eq!(decoded, jwt);
}

#[test]
fn exact_bytes_of_a_small_credential() {
    let jwt = Jwt {
        access_jwt: b"ab".to_vec(),
        refresh_jwt: b"c".to_vec(),
    };
    let encoded = encode_jwt(&jwt);
    assert_eq!(
        encoded,
        vec![2, 0, 0, 0, b'a', b'b', 1, 0, 0, 0, b'c']
    );
}

#[test]
fn malformed_payloads_are_rejected() {
    assert!(parse_jwt(&Vec::new()).is_none());
    assert!(parse_jwt(&vec![1, 2, 3]).is_none());
    // A length prefix pointing past the end.
    assert!(parse_jwt(&vec![9, 0, 0, 0, b'a']).is_none());
    // Trailing bytes after the second token.
    let mut encoded = encode_jwt(&Jwt {
        access_jwt: b"a".to_vec(),
        refresh_jwt: b"b".to_vec(),
    });
    encoded.push(0);
    assert!(parse_jwt(&encoded).is_none());
}
