use lampyris::auth::{pad_256, AuthError, AuthStep, SrpAuth};
use lampyris::tofu::{cert_fingerprint, verify_pinned_cert};
use sha2::{Digest, Sha256};
use srp::client::SrpClient;
use srp::groups::G_2048;
use srp::server::SrpServer;

const ABC_SHA256: &str = "ba7816bf8f01cfea414140de5dae2223b00361a396177a9cb410ff61f20015ad";

#[test]
fn pin_file_whitespace_is_ignored() {
    for pin_file in [
        format!("{}", ABC_SHA256),
        format!("  {}\n\t", ABC_SHA256),
        format!("\u{3000}{}\u{85}", ABC_SHA256),
        format!("\r\n{}\r\n", ABC_SHA256),
    ] {
        assert!(verify_pinned_cert(b"abc", Some(&pin_file)).is_ok(), "{:?}", pin_file);
    }
    // Whitespace inside the fingerprint is not removed.
    let broken = format!("{} {}", &ABC_SHA256[..10], &ABC_SHA256[10..]);
    let err = verify_pinned_cert(b"abc", Some(&broken)).unwrap_err();
    assert_eq!(err.expected, broken);
    let padded = format!(" \n{} ", broken);
    assert_eq!(verify_pinned_cert(b"abc", Some(&padded)).unwrap_err().expected, broken);
}

#[test]
fn fingerprint_is_hex_sha256_of_der() {
    assert_eq!(cert_fingerprint(b"abc"), ABC_SHA256);
    // SHA-256 of the empty string, lowercase hex, two digits per byte.
    assert_eq!(
        cert_fingerprint(b""),
        "e3b0c44298fc1c149afbf4c8996fb92427ae41e4649b934ca495991b7852b855"
    );
}

#[test]
fn pinning_accepts_only_the_pinned_certificate() {
    assert!(verify_pinned_cert(b"abc", None).is_ok());
    let pin_file = format!("  {}\n", ABC_SHA256);
    assert!(verify_pinned_cert(b"abc", Some(&pin_file)).is_ok());
    let err = verify_pinned_cert(b"abd", Some(&pin_file)).unwrap_err();
    assert_eq!(err.expected, ABC_SHA256);
    assert_eq!(err.message(), format!("Certificate pinning failed! Expected {}, got {}", err.expected, err.got));
    assert_eq!(err.got, hex::encode(Sha256::digest(b"abd")));
}

#[test]
fn padding_to_256_bytes() {
    let short = pad_256(&[1, 2, 3]);
    assert_eq!(short.len(), 256);
    assert!(short[..253].iter().all(|&b| b == 0));
    assert_eq!(&short[253..], &[1, 2, 3]);
    let long: Vec<u8> = (0..300u32).map(|i| i as u8).collect();
    assert_eq!(pad_256(&long), long[44..].to_vec());
}

fn left_pad(x: &[u8]) -> Vec<u8> {
    let mut p = vec![0u8; 256 - x.len()];
    p.extend_from_slice(x);
    p
}

fn confirmation(tag: &[u8], s: &[u8]) -> Vec<u8> {
    let mut h = Sha256::new();
    h.update(tag);
    h.update(s);
    h.finalize().to_vec()
}

/// Plays the server side of the exchange with the `srp` crate and returns what the client
/// concluded; `tamper` spoils the server's confirmation.
fn run_exchange(client_pin: &str, server_pin: &str, tamper: bool) -> Result<AuthStep, AuthError> {
    let salt = [7u8; 16];
    let a = [0x5au8; 64];
    let b = [0x3cu8; 64];
    let verifier = SrpClient::<Sha256>::new(&G_2048).compute_verifier(b"client", server_pin.as_bytes(), &salt);
    let server = SrpServer::<Sha256>::new(&G_2048);

    let (mut auth, step) = SrpAuth::start(&a, client_pin);
    let srp1 = match step {
        AuthStep::SendAndReceive(msg, 4) => msg,
        other => panic!("unexpected step {:?}", other),
    };
    assert_eq!(srp1.len(), 260);
    assert_eq!(&srp1[..4], b"SRP1");
    let a_pub = &srp1[4..];

    assert_eq!(auth.receive(b"SRP2")?, AuthStep::Receive(16));
    assert_eq!(auth.receive(&salt)?, AuthStep::Receive(256));
    let b_pub = left_pad(&server.compute_public_ephemeral(&b, &verifier));
    let srp3 = match auth.receive(&b_pub)? {
        AuthStep::SendAndReceive(msg, 4) => msg,
        other => panic!("unexpected step {:?}", other),
    };
    let server_key = server.process_reply(&b, &verifier, a_pub).unwrap();
    let s_pad = left_pad(server_key.key());
    assert_eq!(&srp3[..4], b"SRP3");
    assert_eq!(srp3.len(), 36);
    if client_pin == server_pin {
        assert_eq!(srp3[4..].to_vec(), confirmation(b"M1", &s_pad));
    }
    assert_eq!(auth.receive(b"SRP4")?, AuthStep::Receive(32));
    let mut m2 = confirmation(b"M2", &s_pad);
    if tamper {
        m2[0] ^= 1;
    }
    let done = auth.receive(&m2);
    // Only a finished exchange pins the certificate, and never over an existing pin.
    match done {
        Ok(AuthStep::Done) => {
            assert_eq!(auth.pin_to_save(b"abc", false), Some(ABC_SHA256.to_string()));
            assert_eq!(auth.pin_to_save(b"abc", true), None);
        }
        _ => assert_eq!(auth.pin_to_save(b"abc", false), None),
    }
    done
}

#[test]
fn srp_exchange_with_the_right_pin_succeeds() {
    assert_eq!(run_exchange("1234", "1234", false), Ok(AuthStep::Done));
}

#[test]
fn srp_exchange_with_a_wrong_pin_fails() {
    assert_eq!(run_exchange("1234", "4321", false), Err(AuthError::ServerVerificationFailed));
}

#[test]
fn srp_exchange_with_a_forged_confirmation_fails() {
    assert_eq!(run_exchange("1234", "1234", true), Err(AuthError::ServerVerificationFailed));
}

#[test]
fn bad_tags_and_zero_server_value_are_refused() {
    let (mut auth, _) = SrpAuth::start(&[1u8; 32], "0000");
    assert_eq!(auth.pin_to_save(b"abc", false), None);
    assert_eq!(auth.receive(b"SRPX"), Err(AuthError::InvalidSrp2Header));

    let (mut auth, _) = SrpAuth::start(&[1u8; 32], "0000");
    auth.receive(b"SRP2").unwrap();
    auth.receive(&[0u8; 16]).unwrap();
    assert_eq!(auth.receive(&[0u8; 256]), Err(AuthError::InvalidServerB));
}

#[test]
fn auth_error_messages() {
    assert_eq!(AuthError::InvalidSrp2Header.message(), "Invalid SRP2 header");
    assert_eq!(AuthError::InvalidServerB.message(), "SRP invalid server B");
    assert_eq!(AuthError::InvalidSrp4Header.message(), "Invalid SRP4 header");
    assert_eq!(AuthError::ServerVerificationFailed.message(), "SRP server verification failed");
}
