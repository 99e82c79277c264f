//! The PIN authentication that follows the TLS handshake: an SRP-6a exchange with a
//! custom confirmation.
//!
//! ```text
//! client -> "SRP1" ++ A (left-padded to 256 bytes)
//! server -> "SRP2" ++ salt (16 bytes) ++ B (256 bytes)
//! client -> "SRP3" ++ SHA-256("M1" ++ S)        S = premaster secret left-padded to 256 bytes
//! server -> "SRP4" ++ SHA-256("M2" ++ S)        checked in constant time
//! ```
//!
//! [`SrpAuth`] holds no stream: it says what to send and how many bytes to read next.
use vstd::prelude::*;
use vstd::string::StringSliceAdditionalSpecFns;
use crate::tofu::{cert_fingerprint, fingerprint_spec};
use crate::crypto::{ct_eq, sha256, sha256_spec, srp_premaster, srp_premaster_spec, srp_public_ephemeral, srp_public_ephemeral_spec};

verus! {

/// Width of the padded SRP values.
pub const PAD_LEN: usize = 256;

/// Length of the salt the server sends.
pub const SALT_LEN: usize = 16;

/// Length of the server's confirmation.
pub const PROOF_LEN: usize = 32;

/// Why the authentication failed.
#[derive(Clone, Copy, PartialEq, Eq, Debug, Structural)]
pub enum AuthError {
    /// The server's second message did not start with "SRP2".
    InvalidSrp2Header,
    /// The SRP computation refused the server's public value B.
    InvalidServerB,
    /// The server's fourth message did not start with "SRP4".
    InvalidSrp4Header,
    /// The server's confirmation does not match the shared secret.
    ServerVerificationFailed,
}

/// The text of an authentication error.
pub open spec fn auth_error_message(e: AuthError) -> Seq<char> {
    match e {
        AuthError::InvalidSrp2Header => "Invalid SRP2 header"@,
        AuthError::InvalidServerB => "SRP invalid server B"@,
        AuthError::InvalidSrp4Header => "Invalid SRP4 header"@,
        AuthError::ServerVerificationFailed => "SRP server verification failed"@,
    }
}

impl AuthError {
    /// Describes the error.
    pub fn message(&self) -> (m: String)
        ensures
            m@ == auth_error_message(*self),
    {
        match self {
            AuthError::InvalidSrp2Header => String::from_str("Invalid SRP2 header"),
            AuthError::InvalidServerB => String::from_str("SRP invalid server B"),
            AuthError::InvalidSrp4Header => String::from_str("Invalid SRP4 header"),
            AuthError::ServerVerificationFailed => String::from_str("SRP server verification failed"),
        }
    }
}

/// Where the exchange stands.
#[derive(Clone, Copy, PartialEq, Eq, Debug, Structural)]
pub enum AuthPhase {
    AwaitSrp2,
    AwaitSalt,
    AwaitServerPublic,
    AwaitSrp4,
    AwaitServerProof,
    Done,
    Failed,
}

/// What the driver of an [`SrpAuth`] must do next.
#[derive(PartialEq, Eq, Debug)]
pub enum AuthStep {
    /// Read exactly this many bytes and feed them.
    Receive(usize),
    /// Send these bytes, then read exactly this many and feed them.
    SendAndReceive(Vec<u8>, usize),
    /// The server is authenticated.
    Done,
}

/// The abstract form of an [`AuthStep`].
pub enum AuthStepView {
    Receive(nat),
    SendAndReceive(Seq<u8>, nat),
    Done,
}

impl View for AuthStep {
    type V = AuthStepView;

    open spec fn view(&self) -> AuthStepView {
        match self {
            AuthStep::Receive(n) => AuthStepView::Receive(*n as nat),
            AuthStep::SendAndReceive(p, n) => AuthStepView::SendAndReceive(p@, *n as nat),
            AuthStep::Done => AuthStepView::Done,
        }
    }
}

/// The abstract state of an [`SrpAuth`].
#[verifier::ext_equal]
pub struct AuthView {
    pub phase: AuthPhase,
    /// The client's secret exponent.
    pub secret: Seq<u8>,
    /// The PIN, as bytes.
    pub password: Seq<u8>,
    /// The salt, once received.
    pub salt: Seq<u8>,
    /// The padded premaster secret, once computed.
    pub padded_secret: Seq<u8>,
}

/// A value written as exactly 256 bytes: its last 256 bytes, or zeros in front of it.
pub open spec fn left_pad(x: Seq<u8>) -> Seq<u8> {
    if x.len() >= PAD_LEN {
        x.subrange(x.len() - PAD_LEN, x.len() as int)
    } else {
        Seq::new((PAD_LEN - x.len()) as nat, |i: int| 0u8) + x
    }
}

/// The user name of the SRP exchange, "client".
pub open spec fn srp_username() -> Seq<u8> {
    seq![0x63u8, 0x6c, 0x69, 0x65, 0x6e, 0x74]
}

/// A four-byte tag "SRP" followed by the digit `d`.
pub open spec fn srp_tag(d: u8) -> Seq<u8> {
    seq![0x53u8, 0x52, 0x50, d]
}

/// The first client message for secret `a`.
pub open spec fn srp1_message(a: Seq<u8>) -> Seq<u8> {
    srp_tag(0x31) + left_pad(srp_public_ephemeral_spec(a))
}

/// The client's confirmation for a padded secret: SHA-256 of "M1" and the secret.
pub open spec fn client_proof(padded_secret: Seq<u8>) -> Seq<u8> {
    sha256_spec(seq![0x4du8, 0x31] + padded_secret)
}

/// The server's expected confirmation for a padded secret: SHA-256 of "M2" and the secret.
pub open spec fn server_proof(padded_secret: Seq<u8>) -> Seq<u8> {
    sha256_spec(seq![0x4du8, 0x32] + padded_secret)
}

/// How many bytes are read in a phase.
pub open spec fn auth_need(phase: AuthPhase) -> nat {
    match phase {
        AuthPhase::AwaitSrp2 => 4,
        AuthPhase::AwaitSalt => SALT_LEN as nat,
        AuthPhase::AwaitServerPublic => PAD_LEN as nat,
        AuthPhase::AwaitSrp4 => 4,
        AuthPhase::AwaitServerProof => PROOF_LEN as nat,
        _ => 0,
    }
}

/// The transition made when the bytes requested in `v.phase` arrive.
pub open spec fn auth_spec(v: AuthView, bytes: Seq<u8>) -> (AuthView, Result<AuthStepView, AuthError>) {
    match v.phase {
        AuthPhase::AwaitSrp2 => if bytes == srp_tag(0x32) {
            (AuthView { phase: AuthPhase::AwaitSalt, ..v }, Ok(AuthStepView::Receive(SALT_LEN as nat)))
        } else {
            (AuthView { phase: AuthPhase::Failed, ..v }, Err(AuthError::InvalidSrp2Header))
        },
        AuthPhase::AwaitSalt => (
            AuthView { phase: AuthPhase::AwaitServerPublic, salt: bytes, ..v },
            Ok(AuthStepView::Receive(PAD_LEN as nat)),
        ),
        AuthPhase::AwaitServerPublic => match srp_premaster_spec(v.secret, srp_username(), v.password, v.salt, bytes) {
            None => (AuthView { phase: AuthPhase::Failed, ..v }, Err(AuthError::InvalidServerB)),
            Some(k) => (
                AuthView { phase: AuthPhase::AwaitSrp4, padded_secret: left_pad(k), ..v },
                Ok(AuthStepView::SendAndReceive(srp_tag(0x33) + client_proof(left_pad(k)), 4)),
            ),
        },
        AuthPhase::AwaitSrp4 => if bytes == srp_tag(0x34) {
            (AuthView { phase: AuthPhase::AwaitServerProof, ..v }, Ok(AuthStepView::Receive(PROOF_LEN as nat)))
        } else {
            (AuthView { phase: AuthPhase::Failed, ..v }, Err(AuthError::InvalidSrp4Header))
        },
        AuthPhase::AwaitServerProof => if bytes == server_proof(v.padded_secret) {
            (AuthView { phase: AuthPhase::Done, ..v }, Ok(AuthStepView::Done))
        } else {
            (AuthView { phase: AuthPhase::Failed, ..v }, Err(AuthError::ServerVerificationFailed))
        },
        _ => (v, Ok(AuthStepView::Done)),
    }
}

/// Writes a value as exactly 256 bytes, keeping its last 256 bytes or padding it with
/// zeros in front.
pub fn pad_256(x: &[u8]) -> (p: Vec<u8>)
    ensures
        p@ == left_pad(x@),
{
    let len = x.len();
    let mut p: Vec<u8> = Vec::new();
    if len >= PAD_LEN {
        let start = len - PAD_LEN;
        let mut k: usize = start;
        while k < len
            invariant
                len == x@.len(),
                start == len - PAD_LEN,
                start <= k <= len,
                p@ == x@.subrange(start as int, k as int),
            decreases len - k,
        {
            p.push(x[k]);
            k = k + 1;
            assert(p@ =~= x@.subrange(start as int, k as int));
        }
    } else {
        let zeros = PAD_LEN - len;
        let mut k: usize = 0;
        while k < zeros
            invariant
                k <= zeros,
                p@ == Seq::new(k as nat, |i: int| 0u8),
            decreases zeros - k,
        {
            p.push(0u8);
            k = k + 1;
            assert(p@ =~= Seq::new(k as nat, |i: int| 0u8));
        }
        let mut j: usize = 0;
        while j < len
            invariant
                len == x@.len(),
                zeros == PAD_LEN - len,
                j <= len,
                p@ == Seq::new(zeros as nat, |i: int| 0u8) + x@.subrange(0, j as int),
            decreases len - j,
        {
            p.push(x[j]);
            j = j + 1;
            assert(p@ =~= Seq::new(zeros as nat, |i: int| 0u8) + x@.subrange(0, j as int));
        }
        assert(x@.subrange(0, len as int) =~= x@);
    }
    p
}

/// `tag` followed by `body`.
fn tagged(tag: u8, body: &[u8]) -> (m: Vec<u8>)
    ensures
        m@ == srp_tag(tag) + body@,
{
    let mut m: Vec<u8> = Vec::new();
    m.push(0x53u8);
    m.push(0x52u8);
    m.push(0x50u8);
    m.push(tag);
    let mut k: usize = 0;
    while k < body.len()
        invariant
            k <= body@.len(),
            m@ == srp_tag(tag) + body@.subrange(0, k as int),
        decreases body@.len() - k,
    {
        m.push(body[k]);
        k = k + 1;
        assert(m@ =~= srp_tag(tag) + body@.subrange(0, k as int));
    }
    assert(body@.subrange(0, body@.len() as int) =~= body@);
    m
}

/// Whether four bytes are the tag "SRP" `d`.
fn is_tag(bytes: &[u8], d: u8) -> (b: bool)
    requires
        bytes@.len() == 4,
    ensures
        b == (bytes@ == srp_tag(d)),
{
    let b = bytes[0] == 0x53u8 && bytes[1] == 0x52u8 && bytes[2] == 0x50u8 && bytes[3] == d;
    if b {
        assert(bytes@ =~= srp_tag(d));
    }
    b
}

/// SHA-256 of the two bytes "M" `d` followed by `s`.
fn confirmation(d: u8, s: &[u8]) -> (h: Vec<u8>)
    ensures
        h@ == sha256_spec(seq![0x4du8, d] + s@),
        h@.len() == 32,
{
    let mut input: Vec<u8> = Vec::new();
    input.push(0x4du8);
    input.push(d);
    let mut k: usize = 0;
    while k < s.len()
        invariant
            k <= s@.len(),
            input@ == seq![0x4du8, d] + s@.subrange(0, k as int),
        decreases s@.len() - k,
    {
        input.push(s[k]);
        k = k + 1;
        assert(input@ =~= seq![0x4du8, d] + s@.subrange(0, k as int));
    }
    assert(s@.subrange(0, s@.len() as int) =~= s@);
    sha256(input.as_slice())
}

/// The client side of the PIN authentication.
pub struct SrpAuth {
    phase: AuthPhase,
    secret: Vec<u8>,
    password: Vec<u8>,
    salt: Vec<u8>,
    padded_secret: Vec<u8>,
}

impl View for SrpAuth {
    type V = AuthView;

    closed spec fn view(&self) -> AuthView {
        AuthView {
            phase: self.phase,
            secret: self.secret@,
            password: self.password@,
            salt: self.salt@,
            padded_secret: self.padded_secret@,
        }
    }
}

impl SrpAuth {
    /// Starts the exchange with the random secret exponent `secret` and the PIN; the step
    /// returned sends the first message and reads the four-byte tag of the reply.
    pub fn start(secret: &[u8], pin: &str) -> (res: (Self, AuthStep))
        ensures
            res.0@ == (AuthView {
                phase: AuthPhase::AwaitSrp2,
                secret: secret@,
                password: pin.spec_bytes(),
                salt: Seq::empty(),
                padded_secret: Seq::empty(),
            }),
            res.1@ == AuthStepView::SendAndReceive(srp1_message(secret@), 4),
    {
        let a_pub = srp_public_ephemeral(secret);
        let padded = pad_256(a_pub.as_slice());
        let message = tagged(0x31u8, padded.as_slice());
        let mut secret_copy: Vec<u8> = Vec::new();
        let mut k: usize = 0;
        while k < secret.len()
            invariant
                k <= secret@.len(),
                secret_copy@ == secret@.subrange(0, k as int),
            decreases secret@.len() - k,
        {
            secret_copy.push(secret[k]);
            k = k + 1;
            assert(secret_copy@ =~= secret@.subrange(0, k as int));
        }
        assert(secret@.subrange(0, secret@.len() as int) =~= secret@);
        let pin_bytes = pin.as_bytes();
        let mut password: Vec<u8> = Vec::new();
        let mut j: usize = 0;
        while j < pin_bytes.len()
            invariant
                j <= pin_bytes@.len(),
                password@ == pin_bytes@.subrange(0, j as int),
            decreases pin_bytes@.len() - j,
        {
            password.push(pin_bytes[j]);
            j = j + 1;
            assert(password@ =~= pin_bytes@.subrange(0, j as int));
        }
        assert(pin_bytes@.subrange(0, pin_bytes@.len() as int) =~= pin_bytes@);
        let auth = SrpAuth {
            phase: AuthPhase::AwaitSrp2,
            secret: secret_copy,
            password,
            salt: Vec::new(),
            padded_secret: Vec::new(),
        };
        assert(auth@ =~= AuthView {
            phase: AuthPhase::AwaitSrp2,
            secret: secret@,
            password: pin.spec_bytes(),
            salt: Seq::empty(),
            padded_secret: Seq::empty(),
        });
        (auth, AuthStep::SendAndReceive(message, 4))
    }

    /// The certificate fingerprint to pin once the exchange is over: the server's
    /// certificate is pinned only after it proved knowledge of the PIN, and only when no pin
    /// was recorded before.
    pub fn pin_to_save(&self, cert_der: &[u8], already_pinned: bool) -> (pin: Option<String>)
        ensures
            pin is Some <==> (self@.phase == AuthPhase::Done && !already_pinned),
            pin matches Some(f) ==> f@ == fingerprint_spec(cert_der@),
    {
        if self.phase == AuthPhase::Done && !already_pinned {
            Some(cert_fingerprint(cert_der))
        } else {
            None
        }
    }

    /// Feeds the bytes that the last step asked for and returns the next step.
    pub fn receive(&mut self, bytes: &[u8]) -> (r: Result<AuthStep, AuthError>)
        requires
            auth_need(old(self)@.phase) > 0,
            bytes@.len() == auth_need(old(self)@.phase),
        ensures
            final(self)@ == auth_spec(old(self)@, bytes@).0,
            match auth_spec(old(self)@, bytes@).1 {
                Ok(s) => r matches Ok(step) && step@ == s,
                Err(e) => r == Err::<AuthStep, AuthError>(e),
            },
            r matches Ok(AuthStep::SendAndReceive(m, _)) ==> m@.len() == 4 + PROOF_LEN,
    {
        match self.phase {
            AuthPhase::AwaitSrp2 => {
                if is_tag(bytes, 0x32u8) {
                    self.phase = AuthPhase::AwaitSalt;
                    Ok(AuthStep::Receive(SALT_LEN))
                } else {
                    self.phase = AuthPhase::Failed;
                    Err(AuthError::InvalidSrp2Header)
                }
            },
            AuthPhase::AwaitSalt => {
                let mut salt: Vec<u8> = Vec::new();
                let mut k: usize = 0;
                while k < bytes.len()
                    invariant
                        k <= bytes@.len(),
                        salt@ == bytes@.subrange(0, k as int),
                    decreases bytes@.len() - k,
                {
                    salt.push(bytes[k]);
                    k = k + 1;
                    assert(salt@ =~= bytes@.subrange(0, k as int));
                }
                assert(bytes@.subrange(0, bytes@.len() as int) =~= bytes@);
                self.salt = salt;
                self.phase = AuthPhase::AwaitServerPublic;
                Ok(AuthStep::Receive(PAD_LEN))
            },
            AuthPhase::AwaitServerPublic => {
                let username: [u8; 6] = [0x63u8, 0x6c, 0x69, 0x65, 0x6e, 0x74];
                assert(username@ =~= srp_username());
                match srp_premaster(self.secret.as_slice(), &username, self.password.as_slice(), self.salt.as_slice(), bytes) {
                    Err(_) => {
                        self.phase = AuthPhase::Failed;
                        Err(AuthError::InvalidServerB)
                    },
                    Ok(k) => {
                        let padded = pad_256(k.as_slice());
                        let proof = confirmation(0x31u8, padded.as_slice());
                        let message = tagged(0x33u8, proof.as_slice());
                        self.padded_secret = padded;
                        self.phase = AuthPhase::AwaitSrp4;
                        Ok(AuthStep::SendAndReceive(message, 4))
                    },
                }
            },
            AuthPhase::AwaitSrp4 => {
                if is_tag(bytes, 0x34u8) {
                    self.phase = AuthPhase::AwaitServerProof;
                    Ok(AuthStep::Receive(PROOF_LEN))
                } else {
                    self.phase = AuthPhase::Failed;
                    Err(AuthError::InvalidSrp4Header)
                }
            },
            AuthPhase::AwaitServerProof => {
                let expected = confirmation(0x32u8, self.padded_secret.as_slice());
                if ct_eq(expected.as_slice(), bytes) {
                    self.phase = AuthPhase::Done;
                    Ok(AuthStep::Done)
                } else {
                    self.phase = AuthPhase::Failed;
                    Err(AuthError::ServerVerificationFailed)
                }
            },
            _ => Ok(AuthStep::Done),
        }
    }
}

/// The server's tags are checked: waiting for the tag of the second or of the fourth
/// message, any four bytes other than "SRP2" (resp. "SRP4") end the exchange as failed with
/// the matching error and ask for nothing more; exactly the tag moves the exchange on.
pub proof fn law_server_tags_are_checked(v: AuthView, h: Seq<u8>)
    requires
        h.len() == 4,
    ensures
        v.phase == AuthPhase::AwaitSrp2 ==> ({
            let (v1, r) = auth_spec(v, h);
            if h == seq![0x53u8, 0x52, 0x50, 0x32] {
                v1.phase == AuthPhase::AwaitSalt && r is Ok
            } else {
                v1.phase == AuthPhase::Failed && r == Err::<AuthStepView, AuthError>(AuthError::InvalidSrp2Header)
            }
        }),
        v.phase == AuthPhase::AwaitSrp4 ==> ({
            let (v1, r) = auth_spec(v, h);
            if h == seq![0x53u8, 0x52, 0x50, 0x34] {
                v1.phase == AuthPhase::AwaitServerProof && r is Ok
            } else {
                v1.phase == AuthPhase::Failed && r == Err::<AuthStepView, AuthError>(AuthError::InvalidSrp4Header)
            }
        }),
{
    assert(srp_tag(0x32) =~= seq![0x53u8, 0x52, 0x50, 0x32]);
    assert(srp_tag(0x34) =~= seq![0x53u8, 0x52, 0x50, 0x34]);
}

/// The state in which an exchange starts.
pub open spec fn initial_auth(secret: Seq<u8>, password: Seq<u8>) -> AuthView {
    AuthView {
        phase: AuthPhase::AwaitSrp2,
        secret,
        password,
        salt: Seq::empty(),
        padded_secret: Seq::empty(),
    }
}

/// A complete exchange with well-formed server messages: when the SRP computation accepts
/// the server's value B and yields the premaster secret K, the client confirms with
/// SHA-256("M1" ++ pad(K)) and then authenticates the server exactly when its confirmation
/// is SHA-256("M2" ++ pad(K)).
pub proof fn law_srp_exchange(
    secret: Seq<u8>,
    password: Seq<u8>,
    salt: Seq<u8>,
    b_pub: Seq<u8>,
    reply_proof: Seq<u8>,
    k: Seq<u8>,
)
    requires
        salt.len() == SALT_LEN,
        b_pub.len() == PAD_LEN,
        reply_proof.len() == PROOF_LEN,
        srp_premaster_spec(secret, srp_username(), password, salt, b_pub) == Some(k),
    ensures
        ({
            let (v1, r1) = auth_spec(initial_auth(secret, password), srp_tag(0x32));
            let (v2, r2) = auth_spec(v1, salt);
            let (v3, r3) = auth_spec(v2, b_pub);
            let (v4, r4) = auth_spec(v3, srp_tag(0x34));
            let (v5, r5) = auth_spec(v4, reply_proof);
            &&& r1 is Ok && r2 is Ok && r4 is Ok
            &&& r3 == Ok::<AuthStepView, AuthError>(AuthStepView::SendAndReceive(srp_tag(0x33) + client_proof(left_pad(k)), 4))
            &&& (r5 is Ok <==> reply_proof == server_proof(left_pad(k)))
            &&& v5.phase == if reply_proof == server_proof(left_pad(k)) { AuthPhase::Done } else { AuthPhase::Failed }
            &&& r5 is Err ==> r5 == Err::<AuthStepView, AuthError>(AuthError::ServerVerificationFailed)
        }),
{
    let v0 = initial_auth(secret, password);
    let v1 = auth_spec(v0, srp_tag(0x32)).0;
    let v2 = auth_spec(v1, salt).0;
    assert(v2.salt == salt);
    assert(v2.secret == secret && v2.password == password);
}

} // verus!
