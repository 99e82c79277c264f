//! The cryptographic primitives the client relies on, each a call into its crate:
//! SHA-256 (`sha2`), lowercase hex (`hex`), constant-time comparison (`subtle`) and the
//! client side of SRP-6a over the RFC 5054 2048-bit group with SHA-256 (`srp`), plus the
//! whitespace trimming of `str`.
use vstd::prelude::*;

verus! {

/// SHA-256 of a byte string.
pub uninterp spec fn sha256_spec(data: Seq<u8>) -> Seq<u8>;

/// SRP-6a public ephemeral `g^a mod N` (big-endian, no leading zeros) for the secret
/// exponent `a` (big-endian bytes), 2048-bit group of RFC 5054, SHA-256.
pub uninterp spec fn srp_public_ephemeral_spec(a: Seq<u8>) -> Seq<u8>;

/// The outcome of SRP-6a `process_reply` for secret `a`, user name, password, salt and
/// server public value `b_pub`: the premaster secret `K` (big-endian bytes), or `None`
/// when the server value is refused.
pub uninterp spec fn srp_premaster_spec(
    a: Seq<u8>,
    username: Seq<u8>,
    password: Seq<u8>,
    salt: Seq<u8>,
    b_pub: Seq<u8>,
) -> Option<Seq<u8>>;

#[verifier::external_type_specification]
#[verifier::external_body]
pub struct ExSrpAuthError(srp::types::SrpAuthError);

/// Calls `sha2::Sha256::digest`; claims the result is the 32-byte SHA-256 digest of `data`.
#[verifier::external_body]
pub(crate) fn sha256(data: &[u8]) -> (h: Vec<u8>)
    ensures
        h@ == sha256_spec(data@),
        h@.len() == 32,
{
    <sha2::Sha256 as sha2::Digest>::digest(data).to_vec()
}

/// The lowercase hex digit of `n` (0 to 15).
pub open spec fn hex_digit(n: nat) -> char {
    if n < 10 {
        (48 + n) as char
    } else {
        (87 + n) as char
    }
}

/// Two lowercase hex digits per byte, high nibble first.
pub open spec fn hex_lower(data: Seq<u8>) -> Seq<char> {
    Seq::new(
        2 * data.len(),
        |i: int|
            if i % 2 == 0 {
                hex_digit((data[i / 2] / 16) as nat)
            } else {
                hex_digit((data[i / 2] % 16) as nat)
            },
    )
}

/// Calls `hex::encode`; claims, as the crate's source shows, two lowercase hex digits per
/// byte, high nibble first.
#[verifier::external_body]
pub(crate) fn hex_encode(data: &[u8]) -> (s: String)
    ensures
        s@ == hex_lower(data@),
{
    hex::encode(data)
}

/// Calls `<[u8] as subtle::ConstantTimeEq>::ct_eq` and converts the `Choice` to `bool`;
/// claims the result is true exactly when the slices are equal (the crate answers false at
/// once for slices of different lengths and otherwise compares every byte).
#[verifier::external_body]
pub(crate) fn ct_eq(a: &[u8], b: &[u8]) -> (eq: bool)
    ensures
        eq == (a@ == b@),
{
    bool::from(subtle::ConstantTimeEq::ct_eq(a, b))
}

/// The characters of the Unicode property White_Space.
pub open spec fn is_white_space(c: char) -> bool {
    let u = c as u32;
    ||| 0x09 <= u <= 0x0D
    ||| u == 0x20
    ||| u == 0x85
    ||| u == 0xA0
    ||| u == 0x1680
    ||| 0x2000 <= u <= 0x200A
    ||| u == 0x2028
    ||| u == 0x2029
    ||| u == 0x202F
    ||| u == 0x205F
    ||| u == 0x3000
}

/// A string without its leading and trailing White_Space characters.
pub open spec fn trim_spec(s: Seq<char>) -> Seq<char>
    decreases s.len(),
{
    if s.len() == 0 {
        s
    } else if is_white_space(s[0]) {
        trim_spec(s.skip(1))
    } else if is_white_space(s.last()) {
        trim_spec(s.drop_last())
    } else {
        s
    }
}

/// Calls `str::trim`; claims, as its documentation says, that leading and trailing
/// characters with the Unicode property White_Space are removed.
#[verifier::external_body]
pub(crate) fn trim(s: &str) -> (t: &str)
    ensures
        t@ == trim_spec(s@),
{
    s.trim()
}

/// Calls `srp::client::SrpClient::<Sha256>::new(&G_2048)` and its
/// `compute_public_ephemeral(a)`; the result is named by [`srp_public_ephemeral_spec`],
/// a function of `a` alone.
#[verifier::external_body]
pub(crate) fn srp_public_ephemeral(a: &[u8]) -> (a_pub: Vec<u8>)
    ensures
        a_pub@ == srp_public_ephemeral_spec(a@),
{
    srp::client::SrpClient::<sha2::Sha256>::new(&srp::groups::G_2048).compute_public_ephemeral(a)
}

/// Calls `SrpClient::<Sha256>::new(&G_2048).process_reply(a, username, password, salt,
/// b_pub)` and takes `key()` of the verifier it returns; the outcome is named by
/// [`srp_premaster_spec`].
#[verifier::external_body]
pub(crate) fn srp_premaster(
    a: &[u8],
    username: &[u8],
    password: &[u8],
    salt: &[u8],
    b_pub: &[u8],
) -> (r: Result<Vec<u8>, srp::types::SrpAuthError>)
    ensures
        r is Ok <==> srp_premaster_spec(a@, username@, password@, salt@, b_pub@) is Some,
        r matches Ok(k) ==> k@ == srp_premaster_spec(a@, username@, password@, salt@, b_pub@).unwrap(),
{
    match srp::client::SrpClient::<sha2::Sha256>::new(&srp::groups::G_2048).process_reply(
        a,
        username,
        password,
        salt,
        b_pub,
    ) {
        Ok(verifier) => Ok(verifier.key().to_vec()),
        Err(e) => Err(e),
    }
}

} // verus!
