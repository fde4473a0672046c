use quickvm::handshake::{
    answer, challenge, concluded, judge, load_secret, rule, HandshakeError, SecretError,
    HS_VERSION,
};

fn counting() -> [u8; 32] {
    let mut nonce = [0u8; 32];
    for (i, b) in nonce.iter_mut().enumerate() {
        *b = i as u8;
    }
    nonce
}

#[test]
fn answer_is_the_hmac() {
    let secret = b"0123456789abcdef".to_vec();
    let expected = [
        0xA7, 0xDD, 0x82, 0x6F, 0x3D, 0xF8, 0xDE, 0x29, 0x43, 0x01, 0x12, 0xEA, 0x65, 0x30, 0xB2,
        0x84, 0xF2, 0xCE, 0x60, 0xD6, 0xCD, 0xD7, 0x54, 0x0B, 0x0D, 0x55, 0x21, 0x05, 0x0C, 0xA3,
        0xD5, 0xD4,
    ];
    assert_eq!(answer(&secret, &counting()), expected);
}

#[test]
fn same_secret_is_let_in() {
    let secret = b"a secret that both ends know".to_vec();
    let nonce = challenge(HS_VERSION).unwrap();
    let ruling = judge(&secret, &nonce, &answer(&secret, &nonce));
    assert_eq!(ruling.verdict, 1);
    assert_eq!(ruling.outcome, Ok(()));
    assert_eq!(concluded(ruling.verdict), Ok(()));
}

#[test]
fn other_secret_is_refused() {
    let nonce = counting();
    let theirs = answer(&b"another secret entirely".to_vec(), &nonce);
    let ruling = judge(&b"a secret that both ends know".to_vec(), &nonce, &theirs);
    assert_eq!(ruling.verdict, 0);
    assert_eq!(ruling.outcome, Err(HandshakeError::BadMac));
    assert_eq!(concluded(ruling.verdict), Err(HandshakeError::Refused));
}

#[test]
fn altered_answer_is_refused() {
    let secret = b"a secret that both ends know".to_vec();
    let nonce = counting();
    let good = answer(&secret, &nonce);
    for i in 0..32 {
        let mut bad = good;
        bad[i] ^= 1;
        assert_eq!(judge(&secret, &nonce, &bad).outcome, Err(HandshakeError::BadMac));
    }
    // An answer to one nonce is none to another.
    let mut other = nonce;
    other[31] = 0;
    assert_eq!(judge(&secret, &other, &good).outcome, Err(HandshakeError::BadMac));
}

#[test]
fn other_version_is_refused() {
    assert_eq!(challenge(2), Err(HandshakeError::Version(2)));
    assert_eq!(challenge(4), Err(HandshakeError::Version(4)));
    assert!(challenge(3).is_ok());
}

#[test]
fn nonces_are_fresh() {
    let first = challenge(HS_VERSION).unwrap();
    let second = challenge(HS_VERSION).unwrap();
    assert_ne!(first, second);
    assert_ne!(first, [0u8; 32]);
}

#[test]
fn rulings_and_verdicts() {
    assert_eq!(rule(true).verdict, 1);
    assert_eq!(rule(true).outcome, Ok(()));
    assert_eq!(rule(false).verdict, 0);
    assert_eq!(rule(false).outcome, Err(HandshakeError::BadMac));
    assert_eq!(concluded(1), Ok(()));
    assert_eq!(concluded(0), Err(HandshakeError::Refused));
    assert_eq!(concluded(2), Err(HandshakeError::Refused));
}

#[test]
fn secret_from_the_environment_or_the_file() {
    let env = "0123456789abcdef".to_string();
    let file = b"fedcba9876543210".to_vec();
    assert_eq!(load_secret(Some(env.clone()), Some(file.clone())), Ok(env.clone().into_bytes()));
    assert_eq!(load_secret(Some(env.clone()), None), Ok(env.into_bytes()));
    assert_eq!(load_secret(None, Some(file.clone())), Ok(file));
    assert_eq!(load_secret(None, None), Err(SecretError::Missing));
}

#[test]
fn secret_must_be_long_enough() {
    assert_eq!(load_secret(Some("0123456789abcde".to_string()), None), Err(SecretError::TooShort));
    assert_eq!(
        load_secret(Some("short".to_string()), Some(b"fedcba9876543210".to_vec())),
        Err(SecretError::TooShort)
    );
    assert_eq!(load_secret(None, Some(vec![7; 15])), Err(SecretError::TooShort));
    // The length counts bytes.
    assert!(load_secret(Some("密密密密密密".to_string()), None).is_ok());
}
