//! Trust on first use: the server certificate is identified by the hex SHA-256 of its DER
//! bytes, and once a fingerprint is pinned only that certificate is accepted.
use vstd::prelude::*;
use crate::crypto::{hex_digit, hex_encode, hex_lower, sha256, sha256_spec, trim, trim_spec};

verus! {

/// A certificate whose fingerprint differs from the pinned one.
#[derive(PartialEq, Eq, Debug)]
pub struct PinMismatch {
    /// The pinned fingerprint (without surrounding whitespace).
    pub expected: String,
    /// The fingerprint of the certificate presented.
    pub got: String,
}

impl PinMismatch {
    /// Describes the mismatch.
    pub fn message(&self) -> (m: String)
        ensures
            m@ == "Certificate pinning failed! Expected "@ + self.expected@ + ", got "@ + self.got@,
    {
        let mut m = String::from_str("Certificate pinning failed! Expected ");
        m.append(self.expected.as_str());
        m.append(", got ");
        m.append(self.got.as_str());
        m
    }
}

/// The fingerprint of a DER certificate: lowercase hex of its SHA-256.
pub open spec fn fingerprint_spec(cert_der: Seq<u8>) -> Seq<char> {
    hex_lower(sha256_spec(cert_der))
}

/// Computes the fingerprint of a DER certificate.
pub fn cert_fingerprint(cert_der: &[u8]) -> (f: String)
    ensures
        f@ == fingerprint_spec(cert_der@),
        f@ == hex_lower(sha256_spec(cert_der@)),
{
    let digest = sha256(cert_der);
    hex_encode(digest.as_slice())
}

/// The fingerprint covers the whole certificate: it is the lowercase hex of SHA-256 of all
/// of the DER bytes, so two certificates with the same digest, and only those, share it.
pub proof fn law_fingerprint_is_hex_sha256_of_all(c1: Seq<u8>, c2: Seq<u8>)
    ensures
        fingerprint_spec(c1) == hex_lower(sha256_spec(c1)),
        sha256_spec(c1) == sha256_spec(c2) ==> fingerprint_spec(c1) == fingerprint_spec(c2),
        sha256_spec(c1).len() == sha256_spec(c2).len() && fingerprint_spec(c1) == fingerprint_spec(c2)
            ==> sha256_spec(c1) == sha256_spec(c2),
{
    let d1 = sha256_spec(c1);
    let d2 = sha256_spec(c2);
    if d1.len() == d2.len() && fingerprint_spec(c1) == fingerprint_spec(c2) {
        assert forall|k: int| 0 <= k < d1.len() implies d1[k] == d2[k] by {
            let h1 = hex_lower(d1);
            let h2 = hex_lower(d2);
            assert(h1[2 * k] == h2[2 * k] && h1[2 * k + 1] == h2[2 * k + 1]);
            assert((2 * k) / 2 == k && (2 * k) % 2 == 0 && (2 * k + 1) / 2 == k && (2 * k + 1) % 2 == 1);
            let hi1 = d1[k] / 16;
            let hi2 = d2[k] / 16;
            let lo1 = d1[k] % 16;
            let lo2 = d2[k] % 16;
            assert(hex_digit(hi1 as nat) == hex_digit(hi2 as nat));
            assert(hex_digit(lo1 as nat) == hex_digit(lo2 as nat));
            assert(hi1 == hi2);
            assert(lo1 == lo2);
        }
        assert(d1 =~= d2);
    }
}

/// Checks a server certificate against the pinned fingerprint, if there is one (the
/// contents of the pin file as read). Without a pin every certificate is accepted; with
/// one, the certificate is accepted exactly when its fingerprint equals the pin without
/// its surrounding whitespace.
pub fn verify_pinned_cert(cert_der: &[u8], pinned: Option<&str>) -> (r: Result<(), PinMismatch>)
    ensures
        pinned is None ==> r is Ok,
        pinned matches Some(p) ==> (r is Ok <==> trim_spec(p@) == fingerprint_spec(cert_der@)),
        r matches Err(e) ==> pinned matches Some(p) && e.expected@ == trim_spec(p@) && e.got@ == fingerprint_spec(cert_der@),
{
    let got = cert_fingerprint(cert_der);
    match pinned {
        None => Ok(()),
        Some(p) => {
            let expected = String::from_str(trim(p));
            if expected == got {
                Ok(())
            } else {
                Err(PinMismatch { expected, got })
            }
        },
    }
}

} // verus!
