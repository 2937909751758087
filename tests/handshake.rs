use base64::Engine;
use hakuhyo::handshake::{
    credential_from_plaintext, init_frame, nonce_proof_frame, pairing_url, CryptoStep, HandshakeAction,
    HandshakeError, HandshakeMessage, HandshakePhase, RemoteAuth,
};
use hakuhyo::json::parse_json;
use rsa::pkcs8::DecodePublicKey;
use sha2::Digest;

fn b64() -> base64::engine::GeneralPurpose {
    base64::engine::general_purpose::STANDARD
}

fn sent(a: HandshakeAction) -> serde_json::Value {
    match a {
        HandshakeAction::Send(t) => serde_json::from_str(&t).expect("frame is JSON"),
        other => panic!("expected a frame, got {:?}", other),
    }
}

fn encrypt_for(public_key_b64: &str, plain: &[u8]) -> String {
    let der = b64().decode(public_key_b64).expect("public key is base64");
    let key = rsa::RsaPublicKey::from_public_key_der(&der).expect("public key is SPKI DER");
    let ct = key
        .encrypt(&mut rand::thread_rng(), rsa::Oaep::new::<sha2::Sha256>(), plain)
        .expect("encrypt");
    b64().encode(ct)
}


/// The parts of a fixed 2048-bit key, in hexadecimal, so that the tests do not
/// spend their time generating primes.
const KEY_N: &[&str] = &[
    "b2a6697a4cb4fb2e719ede301f96be22f4b3f0e54eb749e0d719723bc3117177",
    "462a24e339e17d94a602ff0a61e4681f9bd1677a33f3c17611a49969a0c2cd53",
    "0f285c4612d6a1231ac1a3daf63ee4ecbec554a9eefc1a9951182d78275d355e",
    "3db8bbe022e0b32f8a7c94f0c03ded08163ac5aa712b71d84891d72fd4e332c6",
    "b1d33ff55c95321737680a2d76e9a3c95f54c2b5084680cb3c6e9787f821509f",
    "ea048736decf9a600668f3ba88591bc8f65b7d2dc83a4256337e79373df3ac2a",
    "60e02d30647c961734a735bf6970aaa08a8e6f5fc044615fc369e74022593e07",
    "995653eb089198d1fa026fee8e2e11d95a115d793d9d24b56d4c1e83f11abc4d",
];
const KEY_D: &[&str] = &[
    "95fb379a4143bf8ca23ee9f224d2fd1583b27d8f45a283178bfe04f53f3329bb",
    "24e0c4cf2f0cabcd5c022ff39b739226d73dda4db1c7f6a714f0c70af2b81880",
    "9ebd179a8cbe3bd1a8e8e09337205e3893803f2fdb3f33657bbb7c90df1b556e",
    "a50aae4fe1781b76d220fd39916b6bcfda39c530ee89b6ae095ec6f5951898ca",
    "e7615dc2dc43d90b2b18be739fc09a5ad694dae6f027b928ab6158ce2dbe11a3",
    "2cfdac4bc3415317255debcec2b1fc5957dab5435612d3e28bb4e352c3a6def1",
    "8f33c366f5e28572e479d610ee19d3a4364a17270b5f6d48c4f87aeccc8d997f",
    "d479159218f6bb59a5dd7d566de3e11bf1e8981c6d3aaf5f756b48d5897e8e9",
];
const KEY_P: &[&str] = &[
    "e23c0d410c357ccc3a8455e2e1776a781c0d34a78613a48b4720aefee2bf57f4",
    "58d86aef0650608c0c2500dc2697ed5973435b1cc241cd94414f3183817d0091",
    "74411485898172f9a56c279a241583d34d46cadc80d314d72f404d99f046a328",
    "177228b825cbb5640448bd5acbccc62a0658c758a6a4c42a8cc0c8a5fa3733d9",
];
const KEY_Q: &[&str] = &[
    "ca27a2ccc28ad321b03f81d586bdfb2d3085483480fec2c99fd4d25592ea6097",
    "2ce3dadf9af1a8147206606e4f961e785a0001ea4242ee0ab3300c33f93da6c6",
    "668eab41c031399c2ebee7c1881571976cbf32159d666d45239d0c1a7b6d7e5a",
    "8e8fb820d22af268f29f0cbb33526e061453fb7af5e47f50d7d2458a7fffa795",
];

fn number(parts: &[&str]) -> rsa::BigUint {
    rsa::BigUint::parse_bytes(parts.concat().as_bytes(), 16).expect("hex number")
}

fn test_key() -> rsa::RsaPrivateKey {
    rsa::RsaPrivateKey::from_components(
        number(KEY_N),
        rsa::BigUint::from(65537u32),
        number(KEY_D),
        vec![number(KEY_P), number(KEY_Q)],
    )
    .expect("valid key")
}

/// Runs the handshake up to the sent public key and returns it.
fn started(auth: &mut RemoteAuth) -> String {
    let hello = parse_json(r#"{"op":"hello","heartbeat_interval":41250,"timeout_ms":120000}"#).unwrap();
    let m = HandshakeMessage::from_json(&hello).unwrap();
    let init = sent(auth.on_message_with_key(m, Some(test_key())));
    assert_eq!(init["op"], "init");
    assert_eq!(auth.heartbeat_interval(), Some(41250));
    assert_eq!(auth.phase(), HandshakePhase::AwaitingNonceProof);
    init["encoded_public_key"].as_str().unwrap().to_string()
}

#[test]
fn handshake_happy_path() {
    let mut auth = RemoteAuth::new();
    assert_eq!(auth.on_heartbeat_due(), HandshakeAction::Wait);
    let key = started(&mut auth);
    assert_eq!(auth.on_heartbeat_due(), HandshakeAction::Send(r#"{"op":"heartbeat"}"#.to_string()));
    assert_eq!(auth.on_text(r#"{"op":"heartbeat_ack"}"#), HandshakeAction::Wait);

    let nonce = b"a known nonce";
    let frame = format!(r#"{{"op":"nonce_proof","encrypted_nonce":"{}"}}"#, encrypt_for(&key, nonce));
    let proof = sent(auth.on_text(&frame));
    assert_eq!(proof["op"], "nonce_proof");
    let expected = base64::engine::general_purpose::URL_SAFE_NO_PAD.encode(sha2::Sha256::digest(nonce));
    assert_eq!(proof["proof"], expected.as_str());

    match auth.on_text(r#"{"op":"pending_remote_init","fingerprint":"abc123"}"#) {
        HandshakeAction::ShowPairingCode(url) => {
            assert!(url.contains("abc123"));
            assert_eq!(url, "https://discord.com/ra/abc123");
        }
        other => panic!("unexpected {:?}", other),
    }
    assert_eq!(auth.on_text(r#"{"op":"pending_login","ticket":"T1"}"#), HandshakeAction::ExchangeTicket("T1".to_string()));
    assert_eq!(auth.phase(), HandshakePhase::TokenExchange);
    let token = encrypt_for(&key, b"secret-credential");
    assert_eq!(auth.on_token(Some(token)), HandshakeAction::Complete("secret-credential".to_string()));
    assert_eq!(auth.phase(), HandshakePhase::Complete);
    assert_eq!(auth.on_heartbeat_due(), HandshakeAction::Wait);
}

#[test]
fn scan_notice_comes_before_approval() {
    let mut auth = RemoteAuth::new();
    let key = started(&mut auth);
    let frame = format!(r#"{{"op":"nonce_proof","encrypted_nonce":"{}"}}"#, encrypt_for(&key, b"n"));
    sent(auth.on_text(&frame));
    auth.on_text(r#"{"op":"pending_remote_init","fingerprint":"fp"}"#);
    assert_eq!(auth.on_text(r#"{"op":"pending_ticket","encrypted_user_payload":"zz"}"#), HandshakeAction::CodeScanned);
    assert_eq!(auth.phase(), HandshakePhase::AwaitingApproval);
    assert_eq!(auth.on_text(r#"{"op":"pending_login","ticket":"T2"}"#), HandshakeAction::ExchangeTicket("T2".to_string()));
}

#[test]
fn cancel_after_init_is_cancellation() {
    let mut auth = RemoteAuth::new();
    started(&mut auth);
    assert_eq!(auth.on_text(r#"{"op":"cancel"}"#), HandshakeAction::Fail(HandshakeError::Cancelled));
    assert_eq!(auth.phase(), HandshakePhase::Cancelled);
    assert_eq!(auth.on_text(r#"{"op":"pending_login","ticket":"T1"}"#), HandshakeAction::Wait);
    assert_eq!(auth.on_token(Some("AAAA".to_string())), HandshakeAction::Wait);
    assert_eq!(auth.on_heartbeat_due(), HandshakeAction::Wait);
}

#[test]
fn cancel_while_awaiting_scan() {
    let mut later = RemoteAuth::new();
    let key = started(&mut later);
    let frame = format!(r#"{{"op":"nonce_proof","encrypted_nonce":"{}"}}"#, encrypt_for(&key, b"n"));
    sent(later.on_text(&frame));
    later.on_text(r#"{"op":"pending_remote_init","fingerprint":"fp"}"#);
    assert_eq!(later.on_message(HandshakeMessage::Cancel), HandshakeAction::Fail(HandshakeError::Cancelled));
}

#[test]
fn unknown_tags_are_ignored() {
    let mut auth = RemoteAuth::new();
    assert_eq!(auth.on_text(r#"{"op":"something_new"}"#), HandshakeAction::Wait);
    assert_eq!(auth.phase(), HandshakePhase::AwaitingHello);
    started(&mut auth);
    assert_eq!(auth.on_text(r#"{"op":"something_new","x":1}"#), HandshakeAction::Wait);
    assert_eq!(auth.phase(), HandshakePhase::AwaitingNonceProof);
}

#[test]
fn key_generation_failure() {
    let mut auth = RemoteAuth::new();
    assert_eq!(
        auth.on_message_with_key(HandshakeMessage::Hello { heartbeat_interval: Some(5) }, None),
        HandshakeAction::Fail(HandshakeError::Crypto(CryptoStep::KeyGeneration))
    );
    assert_eq!(auth.phase(), HandshakePhase::Failed);
}

#[test]
fn protocol_errors() {
    let mut a = RemoteAuth::new();
    assert_eq!(a.on_text("not json"), HandshakeAction::Fail(HandshakeError::MalformedFrame));
    assert_eq!(a.phase(), HandshakePhase::Failed);

    let mut b = RemoteAuth::new();
    assert_eq!(b.on_text(r#"{"op":5}"#), HandshakeAction::Fail(HandshakeError::MalformedFrame));

    let mut c = RemoteAuth::new();
    assert_eq!(c.on_text(r#"{"op":"hello"}"#), HandshakeAction::Fail(HandshakeError::MissingField));

    let mut d = RemoteAuth::new();
    assert_eq!(d.on_text(r#"{"op":"pending_login","ticket":"T"}"#), HandshakeAction::Fail(HandshakeError::UnexpectedMessage));

}

#[test]
fn nonce_proof_without_nonce() {
    let mut e = RemoteAuth::new();
    started(&mut e);
    assert_eq!(e.on_text(r#"{"op":"nonce_proof"}"#), HandshakeAction::Fail(HandshakeError::MissingField));
}

#[test]
fn login_before_proof_is_unexpected() {
    let mut f = RemoteAuth::new();
    started(&mut f);
    assert_eq!(f.on_text(r#"{"op":"pending_login","ticket":"T"}"#), HandshakeAction::Fail(HandshakeError::UnexpectedMessage));
}

#[test]
fn crypto_errors() {
    let mut a = RemoteAuth::new();
    started(&mut a);
    assert_eq!(
        a.on_text(r#"{"op":"nonce_proof","encrypted_nonce":"%%%"}"#),
        HandshakeAction::Fail(HandshakeError::Crypto(CryptoStep::NonceDecode))
    );
}

#[test]
fn nonce_that_does_not_decrypt() {
    let mut b = RemoteAuth::new();
    started(&mut b);
    assert_eq!(
        b.on_text(r#"{"op":"nonce_proof","encrypted_nonce":"AAAA"}"#),
        HandshakeAction::Fail(HandshakeError::Crypto(CryptoStep::NonceDecrypt))
    );
}

fn at_token_exchange() -> (RemoteAuth, String) {
    let mut auth = RemoteAuth::new();
    let key = started(&mut auth);
    let frame = format!(r#"{{"op":"nonce_proof","encrypted_nonce":"{}"}}"#, encrypt_for(&key, b"n"));
    sent(auth.on_text(&frame));
    auth.on_text(r#"{"op":"pending_remote_init","fingerprint":"fp"}"#);
    auth.on_text(r#"{"op":"pending_login","ticket":"T"}"#);
    (auth, key)
}

#[test]
fn token_exchange_failure_is_transport_error() {
    let (mut a, _) = at_token_exchange();
    assert_eq!(a.on_token(None), HandshakeAction::Fail(HandshakeError::Transport));
}

#[test]
fn token_that_is_not_base64() {
    let (mut b, _) = at_token_exchange();
    assert_eq!(b.on_token(Some("!".to_string())), HandshakeAction::Fail(HandshakeError::Crypto(CryptoStep::TokenDecode)));
}

#[test]
fn token_that_does_not_decrypt() {
    let (mut c, _) = at_token_exchange();
    assert_eq!(c.on_token(Some("AAAA".to_string())), HandshakeAction::Fail(HandshakeError::Crypto(CryptoStep::TokenDecrypt)));
}

#[test]
fn token_that_is_not_text() {
    let (mut d, key) = at_token_exchange();
    assert_eq!(
        d.on_token(Some(encrypt_for(&key, &[0xff, 0xfe]))),
        HandshakeAction::Fail(HandshakeError::Crypto(CryptoStep::TokenText))
    );
    assert_eq!(d.phase(), HandshakePhase::Failed);
}

#[test]
fn transport_error_fails_once() {
    let mut a = RemoteAuth::new();
    started(&mut a);
    assert_eq!(a.on_transport_error(), HandshakeAction::Fail(HandshakeError::Transport));
    assert_eq!(a.on_transport_error(), HandshakeAction::Wait);
    assert_eq!(a.phase(), HandshakePhase::Failed);
}

#[test]
fn frames_are_written_exactly() {
    assert_eq!(init_frame("QUJD+/=="), r#"{"op":"init","encoded_public_key":"QUJD+/=="}"#);
    let expected = base64::engine::general_purpose::URL_SAFE_NO_PAD.encode(sha2::Sha256::digest(b"abc"));
    assert_eq!(nonce_proof_frame(&b"abc".to_vec()), format!(r#"{{"op":"nonce_proof","proof":"{}"}}"#, expected));
    assert_eq!(pairing_url("abc123"), "https://discord.com/ra/abc123");
    assert_eq!(credential_from_plaintext(b"cred".to_vec()), Ok("cred".to_string()));
    assert_eq!(credential_from_plaintext(vec![0xc3]), Err(HandshakeError::Crypto(CryptoStep::TokenText)));
}

#[test]
fn messages_are_read_by_tag() {
    let m = |t: &str| HandshakeMessage::from_json(&parse_json(t).unwrap());
    assert_eq!(m(r#"{"op":"hello","heartbeat_interval":5}"#), Some(HandshakeMessage::Hello { heartbeat_interval: Some(5) }));
    assert_eq!(m(r#"{"op":"hello","heartbeat_interval":5.5}"#), Some(HandshakeMessage::Hello { heartbeat_interval: None }));
    assert_eq!(m(r#"{"op":"pending_login"}"#), Some(HandshakeMessage::PendingLogin { ticket: None }));
    assert_eq!(m(r#"{"op":"cancel"}"#), Some(HandshakeMessage::Cancel));
    assert_eq!(m(r#"{"op":"other"}"#), Some(HandshakeMessage::Unrecognized));
    assert_eq!(m(r#"{"tag":"hello"}"#), None);
    assert_eq!(m(r#"["hello"]"#), None);
}
