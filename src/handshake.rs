//! The device-pairing handshake: a key exchange, a proof of possession of a
//! decrypted nonce, a pairing code for the user to scan, and the exchange of
//! an approval ticket for an encrypted credential.
//!
//! The transport, the heartbeat timer, the display of the code and the
//! ticket exchange are done by the caller; this module decides what each
//! event means and what to do next, and holds the private key.
use vstd::prelude::*;
use vstd::utf8::{valid_utf8, decode_utf8};
use crate::json::{Json, parse_json, parsed, req_str, quote, quoted};
use crate::crypto::{
    base64_standard, base64_standard_decoded, base64_url_unpadded, decode_base64, decrypt_oaep_sha256,
    encode_base64, encode_base64_url, generate_private_key, KEY_BITS, public_key_der, sha256, sha256_digest,
    utf8_text,
};
use crate::text::{join3, same_text};

verus! {

/// The address of the pairing handshake's server.
pub const REMOTE_AUTH_URL: &'static str = "wss://remote-auth-gateway.discord.gg/?v=2";
/// The origin the handshake's server expects.
pub const REMOTE_AUTH_ORIGIN: &'static str = "https://discord.com";
/// The user agent the client presents.
pub const USER_AGENT: &'static str = "Mozilla/5.0 (Macintosh; Intel Mac OS X 10_15_7) AppleWebKit/537.36 (KHTML, like Gecko) Chrome/120.0.0.0 Safari/537.36";
/// The endpoint that trades a ticket for an encrypted credential.
pub const TICKET_EXCHANGE_URL: &'static str = "https://discord.com/api/v9/users/@me/remote-auth/login";

/// A message of the handshake protocol, by its tag.
#[derive(Debug, Clone, PartialEq)]
pub enum HandshakeMessage {
    Hello { heartbeat_interval: Option<u64> },
    NonceProof { encrypted_nonce: Option<String> },
    PendingRemoteInit { fingerprint: Option<String> },
    PendingTicket,
    PendingLogin { ticket: Option<String> },
    Cancel,
    HeartbeatAck,
    /// A tag the client does not know; it changes nothing.
    Unrecognized,
}

/// A member read the way the handshake reads it: a string, or nothing.
pub open spec fn str_member(j: Json, key: Seq<char>) -> Option<String> {
    match j.field(key) {
        Some(Json::Str(t)) => Some(t),
        _ => None,
    }
}

/// The message that the object `j` describes: its `op` member is a string
/// naming the tag, the other members are the data.
pub open spec fn message_of(j: Json) -> Option<HandshakeMessage> {
    match req_str(j.field("op"@)) {
        None => None,
        Some(op) => Some(
            if op@ == "hello"@ {
                HandshakeMessage::Hello {
                    heartbeat_interval: match j.field("heartbeat_interval"@) {
                        Some(Json::UInt(n)) => Some(n),
                        _ => None,
                    },
                }
            } else if op@ == "nonce_proof"@ {
                HandshakeMessage::NonceProof { encrypted_nonce: str_member(j, "encrypted_nonce"@) }
            } else if op@ == "pending_remote_init"@ {
                HandshakeMessage::PendingRemoteInit { fingerprint: str_member(j, "fingerprint"@) }
            } else if op@ == "pending_ticket"@ {
                HandshakeMessage::PendingTicket
            } else if op@ == "pending_login"@ {
                HandshakeMessage::PendingLogin { ticket: str_member(j, "ticket"@) }
            } else if op@ == "cancel"@ {
                HandshakeMessage::Cancel
            } else if op@ == "heartbeat_ack"@ {
                HandshakeMessage::HeartbeatAck
            } else {
                HandshakeMessage::Unrecognized
            },
        ),
    }
}

/// Reads a member as a string, or nothing.
fn string_member(j: &Json, key: &str) -> (r: Option<String>)
    ensures
        r == str_member(*j, key@),
{
    match j.get(key) {
        Some(Json::Str(t)) => Some(t.clone()),
        _ => None,
    }
}

impl HandshakeMessage {
    /// Reads a message out of a parsed frame; `None` when the frame has no
    /// string tag.
    pub fn from_json(j: &Json) -> (r: Option<HandshakeMessage>)
        ensures
            r == message_of(*j),
    {
        let op = match j.get("op") {
            Some(Json::Str(op)) => op,
            _ => return None,
        };
        let m = if same_text(op, "hello") {
            HandshakeMessage::Hello {
                heartbeat_interval: match j.get("heartbeat_interval") {
                    Some(Json::UInt(n)) => Some(*n),
                    _ => None,
                },
            }
        } else if same_text(op, "nonce_proof") {
            HandshakeMessage::NonceProof { encrypted_nonce: string_member(j, "encrypted_nonce") }
        } else if same_text(op, "pending_remote_init") {
            HandshakeMessage::PendingRemoteInit { fingerprint: string_member(j, "fingerprint") }
        } else if same_text(op, "pending_ticket") {
            HandshakeMessage::PendingTicket
        } else if same_text(op, "pending_login") {
            HandshakeMessage::PendingLogin { ticket: string_member(j, "ticket") }
        } else if same_text(op, "cancel") {
            HandshakeMessage::Cancel
        } else if same_text(op, "heartbeat_ack") {
            HandshakeMessage::HeartbeatAck
        } else {
            HandshakeMessage::Unrecognized
        };
        Some(m)
    }
}

/// The phase of a pairing handshake.
#[derive(Clone, Copy, PartialEq, Eq, Debug)]
pub enum HandshakePhase {
    AwaitingHello,
    AwaitingNonceProof,
    AwaitingQrDisplay,
    AwaitingScan,
    AwaitingApproval,
    TokenExchange,
    Complete,
    Cancelled,
    Failed,
}

/// The cryptographic step that failed.
#[derive(Debug, Clone, PartialEq)]
pub enum CryptoStep {
    KeyGeneration,
    KeyExport,
    NonceDecode,
    NonceDecrypt,
    TokenDecode,
    TokenDecrypt,
    TokenText,
}

/// Why a handshake ended without a credential.
#[derive(Debug, Clone, PartialEq)]
pub enum HandshakeError {
    /// The transport closed or failed, or the ticket exchange failed.
    Transport,
    /// A frame was not a handshake message.
    MalformedFrame,
    /// A message came that the current phase does not expect.
    UnexpectedMessage,
    /// An expected message lacked its data.
    MissingField,
    Crypto(CryptoStep),
    /// The user declined on the other device.
    Cancelled,
}

/// What the caller is to do after an event.
#[derive(Debug, Clone, PartialEq)]
pub enum HandshakeAction {
    /// Nothing; wait for the next event.
    Wait,
    /// Send this text frame.
    Send(String),
    /// Show this pairing address as a scannable code.
    ShowPairingCode(String),
    /// Tell the user the code was scanned and approval is awaited.
    CodeScanned,
    /// Trade this ticket for the encrypted credential, then report the
    /// result with `on_token`.
    ExchangeTicket(String),
    /// The handshake is done; here is the credential.
    Complete(String),
    /// The handshake is over, for this reason.
    Fail(HandshakeError),
}

/// Whether phase `p` lies between the sending of the public key and the
/// end: the phases in which heartbeats are due and the key is held.
pub open spec fn active(p: HandshakePhase) -> bool {
    p is AwaitingNonceProof || p is AwaitingQrDisplay || p is AwaitingScan || p is AwaitingApproval
        || p is TokenExchange
}

/// Whether phase `p` ends the handshake.
pub open spec fn terminal(p: HandshakePhase) -> bool {
    p is Complete || p is Cancelled || p is Failed
}

/// The phase after message `m` arrives in phase `p`, when no cryptographic
/// step fails.
pub open spec fn next_phase(p: HandshakePhase, m: HandshakeMessage) -> HandshakePhase {
    if terminal(p) || m is HeartbeatAck || m is Unrecognized {
        p
    } else if m is Cancel && active(p) {
        HandshakePhase::Cancelled
    } else {
        match (p, m) {
            (HandshakePhase::AwaitingHello, HandshakeMessage::Hello { heartbeat_interval: Some(_) }) =>
                HandshakePhase::AwaitingNonceProof,
            (HandshakePhase::AwaitingNonceProof, HandshakeMessage::NonceProof { encrypted_nonce: Some(_) }) =>
                HandshakePhase::AwaitingQrDisplay,
            (HandshakePhase::AwaitingQrDisplay, HandshakeMessage::PendingRemoteInit { fingerprint: Some(_) }) =>
                HandshakePhase::AwaitingScan,
            (HandshakePhase::AwaitingScan, HandshakeMessage::PendingTicket) => HandshakePhase::AwaitingApproval,
            (HandshakePhase::AwaitingScan, HandshakeMessage::PendingLogin { ticket: Some(_) }) =>
                HandshakePhase::TokenExchange,
            (HandshakePhase::AwaitingApproval, HandshakeMessage::PendingLogin { ticket: Some(_) }) =>
                HandshakePhase::TokenExchange,
            _ => HandshakePhase::Failed,
        }
    }
}

/// Whether message `m` is the one phase `p` waits for, whatever its data.
pub open spec fn expected_tag(p: HandshakePhase, m: HandshakeMessage) -> bool {
    match (p, m) {
        (HandshakePhase::AwaitingHello, HandshakeMessage::Hello { .. }) => true,
        (HandshakePhase::AwaitingNonceProof, HandshakeMessage::NonceProof { .. }) => true,
        (HandshakePhase::AwaitingQrDisplay, HandshakeMessage::PendingRemoteInit { .. }) => true,
        (HandshakePhase::AwaitingScan, HandshakeMessage::PendingLogin { .. }) => true,
        (HandshakePhase::AwaitingApproval, HandshakeMessage::PendingLogin { .. }) => true,
        _ => false,
    }
}

/// The init frame carrying the encoded public key `k`.
pub open spec fn init_text(k: Seq<char>) -> Seq<char> {
    "{\"op\":\"init\",\"encoded_public_key\":"@ + quoted(k) + "}"@
}

/// The proof frame for the decrypted nonce `plain`: the SHA-256 digest of
/// the nonce in unpadded URL-safe base64.
pub open spec fn proof_text(plain: Seq<u8>) -> Seq<char> {
    "{\"op\":\"nonce_proof\",\"proof\":"@ + quoted(base64_url_unpadded(sha256(plain))) + "}"@
}

/// The pairing address for fingerprint `fp`.
pub open spec fn pairing_url_text(fp: Seq<char>) -> Seq<char> {
    "https://discord.com/ra/"@ + fp
}

/// The heartbeat frame of the handshake.
pub open spec fn handshake_heartbeat_text() -> Seq<char> {
    "{\"op\":\"heartbeat\"}"@
}

/// Whether `r` and `q` are the action and the next phase when message `m`
/// arrives in phase `p`.
pub open spec fn step_outcome(p: HandshakePhase, m: HandshakeMessage, r: HandshakeAction, q: HandshakePhase) -> bool {
    if terminal(p) || m is HeartbeatAck || m is Unrecognized {
        r is Wait && q == p
    } else if m is Cancel && active(p) {
        r == HandshakeAction::Fail(HandshakeError::Cancelled) && q is Cancelled
    } else {
        match (p, m) {
            (HandshakePhase::AwaitingHello, HandshakeMessage::Hello { heartbeat_interval: Some(_) }) => {
                ||| q is AwaitingNonceProof && (r matches HandshakeAction::Send(t)
                    && exists|der: Seq<u8>| t@ == init_text(#[trigger] base64_standard(der)))
                ||| q is Failed && (r == HandshakeAction::Fail(HandshakeError::Crypto(CryptoStep::KeyGeneration))
                    || r == HandshakeAction::Fail(HandshakeError::Crypto(CryptoStep::KeyExport)))
            },
            (HandshakePhase::AwaitingNonceProof, HandshakeMessage::NonceProof { encrypted_nonce: Some(e) }) => {
                match base64_standard_decoded(e@) {
                    None => q is Failed && r == HandshakeAction::Fail(HandshakeError::Crypto(CryptoStep::NonceDecode)),
                    Some(_) => {
                        ||| q is AwaitingQrDisplay && (r matches HandshakeAction::Send(t)
                            && exists|plain: Seq<u8>| t@ == #[trigger] proof_text(plain))
                        ||| q is Failed && r == HandshakeAction::Fail(HandshakeError::Crypto(CryptoStep::NonceDecrypt))
                    },
                }
            },
            (HandshakePhase::AwaitingQrDisplay, HandshakeMessage::PendingRemoteInit { fingerprint: Some(fp) }) =>
                q is AwaitingScan && (r matches HandshakeAction::ShowPairingCode(u) && u@ == pairing_url_text(fp@)),
            (HandshakePhase::AwaitingScan, HandshakeMessage::PendingTicket) => q is AwaitingApproval && r is CodeScanned,
            (HandshakePhase::AwaitingScan, HandshakeMessage::PendingLogin { ticket: Some(t) }) =>
                q is TokenExchange && r == HandshakeAction::ExchangeTicket(t),
            (HandshakePhase::AwaitingApproval, HandshakeMessage::PendingLogin { ticket: Some(t) }) =>
                q is TokenExchange && r == HandshakeAction::ExchangeTicket(t),
            _ => q is Failed && r == HandshakeAction::Fail(
                if expected_tag(p, m) {
                    HandshakeError::MissingField
                } else {
                    HandshakeError::UnexpectedMessage
                },
            ),
        }
    }
}

/// Whether `r` and `q` are the action and the next phase when the ticket
/// exchange returns `encrypted`.
pub open spec fn token_outcome(encrypted: Option<String>, r: HandshakeAction, q: HandshakePhase) -> bool {
    match encrypted {
        None => r == HandshakeAction::Fail(HandshakeError::Transport) && q is Failed,
        Some(e) => match base64_standard_decoded(e@) {
            None => r == HandshakeAction::Fail(HandshakeError::Crypto(CryptoStep::TokenDecode)) && q is Failed,
            Some(_) => {
                ||| r == HandshakeAction::Fail(HandshakeError::Crypto(CryptoStep::TokenDecrypt)) && q is Failed
                ||| r == HandshakeAction::Fail(HandshakeError::Crypto(CryptoStep::TokenText)) && q is Failed
                ||| q is Complete && (r matches HandshakeAction::Complete(t)
                    && exists|plain: Seq<u8>| valid_utf8(plain) && t@ == #[trigger] decode_utf8(plain))
            },
        },
    }
}

/// A `cancel` after the public key was sent ends the handshake with the
/// cancellation error; after it no message leads to any action, so the
/// ticket is never exchanged.
pub proof fn lemma_cancel_ends_handshake(
    p: HandshakePhase,
    r: HandshakeAction,
    q: HandshakePhase,
    later: HandshakeMessage,
    r2: HandshakeAction,
    q2: HandshakePhase,
)
    requires
        active(p),
        step_outcome(p, HandshakeMessage::Cancel, r, q),
        step_outcome(q, later, r2, q2),
    ensures
        r == HandshakeAction::Fail(HandshakeError::Cancelled),
        q is Cancelled,
        r2 is Wait,
        q2 is Cancelled,
{
}

/// Writes the body of the request that trades `ticket` for the credential.
pub fn ticket_exchange_body(ticket: &str) -> (r: String)
    ensures
        r@ == "{\"ticket\":"@ + quoted(ticket@) + "}"@,
{
    join3("{\"ticket\":", quote(ticket).as_str(), "}")
}

/// The encrypted credential in the answer of the ticket exchange: its
/// `encrypted_token` member, when that is a string.
pub fn encrypted_token_of(answer: &Json) -> (r: Option<String>)
    ensures
        r == str_member(*answer, "encrypted_token"@),
{
    string_member(answer, "encrypted_token")
}

/// Writes the init frame carrying the encoded public key.
pub fn init_frame(encoded_key: &str) -> (r: String)
    ensures
        r@ == init_text(encoded_key@),
{
    join3("{\"op\":\"init\",\"encoded_public_key\":", quote(encoded_key).as_str(), "}")
}

/// Writes the proof frame for a decrypted nonce.
pub fn nonce_proof_frame(plain: &Vec<u8>) -> (r: String)
    ensures
        r@ == proof_text(plain@),
{
    let digest = sha256_digest(plain);
    let proof = encode_base64_url(&digest);
    join3("{\"op\":\"nonce_proof\",\"proof\":", quote(proof.as_str()).as_str(), "}")
}

/// The pairing address to show as a scannable code.
pub fn pairing_url(fingerprint: &str) -> (r: String)
    ensures
        r@ == pairing_url_text(fingerprint@),
{
    let mut r = String::from_str("https://discord.com/ra/");
    r.append(fingerprint);
    r
}

/// The credential in a decrypted plaintext: its UTF-8 text.
pub fn credential_from_plaintext(plain: Vec<u8>) -> (r: Result<String, HandshakeError>)
    ensures
        valid_utf8(plain@) ==> (r matches Ok(t) && t@ == decode_utf8(plain@)),
        !valid_utf8(plain@) ==> r == Err::<String, HandshakeError>(HandshakeError::Crypto(CryptoStep::TokenText)),
{
    match utf8_text(plain) {
        Ok(t) => Ok(t),
        Err(_) => Err(HandshakeError::Crypto(CryptoStep::TokenText)),
    }
}

/// One pairing handshake, from the open transport to a credential or a
/// failure.
pub struct RemoteAuth {
    phase: HandshakePhase,
    /// The heartbeat cadence in milliseconds, once Hello has arrived.
    heartbeat_interval: Option<u64>,
    key: Option<rsa::RsaPrivateKey>,
}

impl RemoteAuth {
    /// The phase the handshake is in.
    pub closed spec fn state(&self) -> HandshakePhase {
        self.phase
    }

    /// The heartbeat cadence, once Hello has arrived.
    pub closed spec fn cadence(&self) -> Option<u64> {
        self.heartbeat_interval
    }

    /// Whether the private key is held.
    pub closed spec fn holds_key(&self) -> bool {
        self.key is Some
    }

    /// The key is held exactly in the active phases, and the cadence is
    /// known in them.
    pub open spec fn wf(&self) -> bool {
        &&& self.holds_key() <==> active(self.state())
        &&& active(self.state()) ==> self.cadence() is Some
    }

    /// The phase the handshake is in.
    pub fn phase(&self) -> (r: HandshakePhase)
        ensures
            r == self.state(),
    {
        self.phase
    }

    /// The heartbeat cadence in milliseconds, once Hello has arrived.
    pub fn heartbeat_interval(&self) -> (r: Option<u64>)
        ensures
            r == self.cadence(),
    {
        self.heartbeat_interval
    }

    /// A handshake over a transport that has just opened.
    pub fn new() -> (r: RemoteAuth)
        ensures
            r.wf(),
            r.state() is AwaitingHello,
            r.cadence() is None,
    {
        RemoteAuth { phase: HandshakePhase::AwaitingHello, heartbeat_interval: None, key: None }
    }

    /// Ends the handshake in phase `p`, destroying the key.
    fn finish(&mut self, p: HandshakePhase)
        requires
            terminal(p),
        ensures
            final(self).state() == p,
            final(self).cadence() == old(self).cadence(),
            final(self).wf(),
    {
        self.phase = p;
        self.key = None;
    }

    /// Takes one message of the protocol. A Hello that starts the key
    /// exchange has a fresh key pair generated for it.
    pub fn on_message(&mut self, m: HandshakeMessage) -> (r: HandshakeAction)
        requires
            old(self).wf(),
        ensures
            final(self).wf(),
            step_outcome(old(self).state(), m, r, final(self).state()),
            r is Send && old(self).state() is AwaitingHello ==> (m matches HandshakeMessage::Hello { heartbeat_interval: Some(n) }
                && final(self).cadence() == Some(n)),
            !(old(self).state() is AwaitingHello) ==> final(self).cadence() == old(self).cadence(),
    {
        let starts = matches!(self.phase, HandshakePhase::AwaitingHello)
            && matches!(m, HandshakeMessage::Hello { heartbeat_interval: Some(_) });
        let fresh_key = if starts {
            match generate_private_key(KEY_BITS) {
                Ok(k) => Some(k),
                Err(_) => None,
            }
        } else {
            None
        };
        self.on_message_with_key(m, fresh_key)
    }

    /// Takes one message of the protocol, with the key pair to use if it is
    /// the Hello that starts the key exchange (`None`: generating one
    /// failed). The key is dropped for any other message.
    pub fn on_message_with_key(&mut self, m: HandshakeMessage, fresh_key: Option<rsa::RsaPrivateKey>) -> (r: HandshakeAction)
        requires
            old(self).wf(),
        ensures
            final(self).wf(),
            step_outcome(old(self).state(), m, r, final(self).state()),
            (old(self).state() is AwaitingHello && m is Hello && m->heartbeat_interval is Some && fresh_key is None)
                ==> r == HandshakeAction::Fail(HandshakeError::Crypto(CryptoStep::KeyGeneration)),
            r is Send && old(self).state() is AwaitingHello ==> (m matches HandshakeMessage::Hello { heartbeat_interval: Some(n) }
                && final(self).cadence() == Some(n)),
            !(old(self).state() is AwaitingHello) ==> final(self).cadence() == old(self).cadence(),
    {
        if matches!(self.phase, HandshakePhase::Complete | HandshakePhase::Cancelled | HandshakePhase::Failed) {
            return HandshakeAction::Wait;
        }
        match m {
            HandshakeMessage::HeartbeatAck | HandshakeMessage::Unrecognized => {
                return HandshakeAction::Wait;
            },
            _ => {},
        }
        let is_active = matches!(
            self.phase,
            HandshakePhase::AwaitingNonceProof | HandshakePhase::AwaitingQrDisplay | HandshakePhase::AwaitingScan
                | HandshakePhase::AwaitingApproval | HandshakePhase::TokenExchange
        );
        if is_active && matches!(m, HandshakeMessage::Cancel) {
            self.finish(HandshakePhase::Cancelled);
            return HandshakeAction::Fail(HandshakeError::Cancelled);
        }
        match (&self.phase, m) {
            (HandshakePhase::AwaitingHello, HandshakeMessage::Hello { heartbeat_interval: Some(n) }) => {
                let key = match fresh_key {
                    Some(k) => k,
                    None => {
                        self.finish(HandshakePhase::Failed);
                        return HandshakeAction::Fail(HandshakeError::Crypto(CryptoStep::KeyGeneration));
                    },
                };
                let der = match public_key_der(&key) {
                    Ok(d) => d,
                    Err(_) => {
                        self.finish(HandshakePhase::Failed);
                        return HandshakeAction::Fail(HandshakeError::Crypto(CryptoStep::KeyExport));
                    },
                };
                let encoded = encode_base64(&der);
                let frame = init_frame(encoded.as_str());
                self.key = Some(key);
                self.heartbeat_interval = Some(n);
                self.phase = HandshakePhase::AwaitingNonceProof;
                HandshakeAction::Send(frame)
            },
            (HandshakePhase::AwaitingNonceProof, HandshakeMessage::NonceProof { encrypted_nonce: Some(e) }) => {
                let bytes = match decode_base64(e.as_str()) {
                    Ok(b) => b,
                    Err(_) => {
                        self.finish(HandshakePhase::Failed);
                        return HandshakeAction::Fail(HandshakeError::Crypto(CryptoStep::NonceDecode));
                    },
                };
                let plain = match &self.key {
                    Some(key) => decrypt_oaep_sha256(key, &bytes),
                    None => {
                        self.finish(HandshakePhase::Failed);
                        return HandshakeAction::Fail(HandshakeError::Crypto(CryptoStep::NonceDecrypt));
                    },
                };
                match plain {
                    Ok(plain) => {
                        let frame = nonce_proof_frame(&plain);
                        self.phase = HandshakePhase::AwaitingQrDisplay;
                        HandshakeAction::Send(frame)
                    },
                    Err(_) => {
                        self.finish(HandshakePhase::Failed);
                        HandshakeAction::Fail(HandshakeError::Crypto(CryptoStep::NonceDecrypt))
                    },
                }
            },
            (HandshakePhase::AwaitingQrDisplay, HandshakeMessage::PendingRemoteInit { fingerprint: Some(fp) }) => {
                self.phase = HandshakePhase::AwaitingScan;
                HandshakeAction::ShowPairingCode(pairing_url(fp.as_str()))
            },
            (HandshakePhase::AwaitingScan, HandshakeMessage::PendingTicket) => {
                self.phase = HandshakePhase::AwaitingApproval;
                HandshakeAction::CodeScanned
            },
            (HandshakePhase::AwaitingScan, HandshakeMessage::PendingLogin { ticket: Some(t) }) => {
                self.phase = HandshakePhase::TokenExchange;
                HandshakeAction::ExchangeTicket(t)
            },
            (HandshakePhase::AwaitingApproval, HandshakeMessage::PendingLogin { ticket: Some(t) }) => {
                self.phase = HandshakePhase::TokenExchange;
                HandshakeAction::ExchangeTicket(t)
            },
            (phase, m) => {
                let expected = match (phase, &m) {
                    (HandshakePhase::AwaitingHello, HandshakeMessage::Hello { .. }) => true,
                    (HandshakePhase::AwaitingNonceProof, HandshakeMessage::NonceProof { .. }) => true,
                    (HandshakePhase::AwaitingQrDisplay, HandshakeMessage::PendingRemoteInit { .. }) => true,
                    (HandshakePhase::AwaitingScan, HandshakeMessage::PendingLogin { .. }) => true,
                    (HandshakePhase::AwaitingApproval, HandshakeMessage::PendingLogin { .. }) => true,
                    _ => false,
                };
                self.finish(HandshakePhase::Failed);
                HandshakeAction::Fail(
                    if expected {
                        HandshakeError::MissingField
                    } else {
                        HandshakeError::UnexpectedMessage
                    },
                )
            },
        }
    }

    /// Takes one parsed frame (`None` when the text was not JSON). Once the
    /// handshake has ended nothing changes; before, a frame that is not a
    /// handshake message ends it.
    pub fn on_frame(&mut self, frame: Option<Json>) -> (r: HandshakeAction)
        requires
            old(self).wf(),
        ensures
            final(self).wf(),
            terminal(old(self).state()) ==> r is Wait && final(self).state() == old(self).state(),
            !terminal(old(self).state()) ==> match frame {
                Some(j) => match message_of(j) {
                    Some(m) => step_outcome(old(self).state(), m, r, final(self).state()),
                    None => r == HandshakeAction::Fail(HandshakeError::MalformedFrame) && final(self).state() is Failed,
                },
                None => r == HandshakeAction::Fail(HandshakeError::MalformedFrame) && final(self).state() is Failed,
            },
            r is Send && old(self).state() is AwaitingHello ==> final(self).cadence() is Some,
            !(old(self).state() is AwaitingHello) ==> final(self).cadence() == old(self).cadence(),
    {
        if matches!(self.phase, HandshakePhase::Complete | HandshakePhase::Cancelled | HandshakePhase::Failed) {
            return HandshakeAction::Wait;
        }
        let m = match frame {
            Some(j) => HandshakeMessage::from_json(&j),
            None => None,
        };
        match m {
            Some(m) => self.on_message(m),
            None => {
                self.finish(HandshakePhase::Failed);
                HandshakeAction::Fail(HandshakeError::MalformedFrame)
            },
        }
    }

    /// Takes one received text frame: the frame it parses to, as `on_frame`
    /// takes it.
    pub fn on_text(&mut self, text: &str) -> (r: HandshakeAction)
        requires
            old(self).wf(),
        ensures
            final(self).wf(),
            terminal(old(self).state()) ==> r is Wait && final(self).state() == old(self).state(),
            !terminal(old(self).state()) ==> match parsed(text@) {
                Some(j) => match message_of(j) {
                    Some(m) => step_outcome(old(self).state(), m, r, final(self).state()),
                    None => r == HandshakeAction::Fail(HandshakeError::MalformedFrame) && final(self).state() is Failed,
                },
                None => r == HandshakeAction::Fail(HandshakeError::MalformedFrame) && final(self).state() is Failed,
            },
            r is Send && old(self).state() is AwaitingHello ==> final(self).cadence() is Some,
            !(old(self).state() is AwaitingHello) ==> final(self).cadence() == old(self).cadence(),
    {
        let frame = parse_json(text);
        self.on_frame(frame)
    }

    /// The heartbeat timer fired: a heartbeat is due in the active phases.
    pub fn on_heartbeat_due(&self) -> (r: HandshakeAction)
        ensures
            active(self.state()) ==> (r matches HandshakeAction::Send(t) && t@ == handshake_heartbeat_text()),
            !active(self.state()) ==> r is Wait,
    {
        let is_active = matches!(
            self.phase,
            HandshakePhase::AwaitingNonceProof | HandshakePhase::AwaitingQrDisplay | HandshakePhase::AwaitingScan
                | HandshakePhase::AwaitingApproval | HandshakePhase::TokenExchange
        );
        if is_active {
            HandshakeAction::Send(String::from_str("{\"op\":\"heartbeat\"}"))
        } else {
            HandshakeAction::Wait
        }
    }

    /// The transport closed or failed, or a heartbeat could not be sent: the
    /// handshake fails unless it has already ended.
    pub fn on_transport_error(&mut self) -> (r: HandshakeAction)
        requires
            old(self).wf(),
        ensures
            final(self).wf(),
            terminal(old(self).state()) ==> r is Wait && final(self).state() == old(self).state(),
            !terminal(old(self).state()) ==> r == HandshakeAction::Fail(HandshakeError::Transport)
                && final(self).state() is Failed,
    {
        if matches!(self.phase, HandshakePhase::Complete | HandshakePhase::Cancelled | HandshakePhase::Failed) {
            return HandshakeAction::Wait;
        }
        self.finish(HandshakePhase::Failed);
        HandshakeAction::Fail(HandshakeError::Transport)
    }

    /// Takes the result of the ticket exchange: the encrypted credential, or
    /// `None` when the exchange failed. The credential is decoded from
    /// base64, decrypted with the private key and read as UTF-8 text; the
    /// handshake then ends either way. Outside the exchange nothing changes.
    pub fn on_token(&mut self, encrypted: Option<String>) -> (r: HandshakeAction)
        requires
            old(self).wf(),
        ensures
            final(self).wf(),
            !(old(self).state() is TokenExchange) ==> r is Wait && final(self).state() == old(self).state(),
            old(self).state() is TokenExchange ==> token_outcome(encrypted, r, final(self).state()),
    {
        if !matches!(self.phase, HandshakePhase::TokenExchange) {
            return HandshakeAction::Wait;
        }
        let e = match encrypted {
            Some(e) => e,
            None => {
                self.finish(HandshakePhase::Failed);
                return HandshakeAction::Fail(HandshakeError::Transport);
            },
        };
        let bytes = match decode_base64(e.as_str()) {
            Ok(b) => b,
            Err(_) => {
                self.finish(HandshakePhase::Failed);
                return HandshakeAction::Fail(HandshakeError::Crypto(CryptoStep::TokenDecode));
            },
        };
        let plain = match &self.key {
            Some(key) => decrypt_oaep_sha256(key, &bytes),
            None => {
                self.finish(HandshakePhase::Failed);
                return HandshakeAction::Fail(HandshakeError::Crypto(CryptoStep::TokenDecrypt));
            },
        };
        let plain = match plain {
            Ok(p) => p,
            Err(_) => {
                self.finish(HandshakePhase::Failed);
                return HandshakeAction::Fail(HandshakeError::Crypto(CryptoStep::TokenDecrypt));
            },
        };
        match credential_from_plaintext(plain) {
            Ok(t) => {
                self.finish(HandshakePhase::Complete);
                HandshakeAction::Complete(t)
            },
            Err(err) => {
                self.finish(HandshakePhase::Failed);
                HandshakeAction::Fail(err)
            },
        }
    }
}

} // verus!
