use vstd::prelude::*;

use crate::error::{AlipayError, AlipayResult};

verus! {

// ---------------------------------------------------------------------------
// RSA-SHA256 signing over base64-encoded DER keys
// ---------------------------------------------------------------------------

/// The base64 text of the RSA-SHA256 signature that the given private key
/// (base64-encoded DER) produces over the given data. RSA PKCS#1 v1.5
/// signing is deterministic, so this is a function of the key and the data
/// alone.
pub uninterp spec fn rsa2_sign_of(private_key: Seq<char>, data: Seq<char>) -> Seq<char>;

/// Whether the given key text yields a usable RSA-SHA256 signer: it decodes
/// as base64 to DER that parses as an RSA private key the signer accepts.
/// Every failure of the signing chain is decided by the key material alone;
/// the signed data never decides. So signing succeeds on exactly the keys
/// this holds of, whatever the data.
pub uninterp spec fn rsa2_sign_ok(private_key: Seq<char>) -> bool;

/// Whether the given base64 signature checks out against the given source
/// text under the given public key (base64-encoded DER); a function of the
/// three texts alone.
pub uninterp spec fn rsa2_verify_of(
    public_key: Seq<char>,
    source: Seq<char>,
    signature: Seq<char>,
) -> bool;

/// Whether verification can run at all for the given key and signature
/// texts: the key decodes and parses as an RSA public key, and the
/// signature text decodes as base64 to bytes the verifier accepts. A
/// well-formed signature that simply does not match yields a clean `false`,
/// not a failure; the source text never decides success.
pub uninterp spec fn rsa2_verify_ok(public_key: Seq<char>, signature: Seq<char>) -> bool;

/// Relies on openssl: `base64::decode_block` on the key text,
/// `Rsa::private_key_from_der`, `PKey::from_rsa`, and `sign::Signer` with
/// `MessageDigest::sha256` — an RSA PKCS#1 v1.5 signature, deterministic in
/// the key and the data — and `base64::encode_block` on the raw signature
/// bytes. Every step that can fail (decoding, key parsing, signer setup,
/// the RSA operation itself) is decided by the key material alone, so
/// success is exactly `rsa2_sign_ok` of the key text.
#[verifier::external_body]
pub(crate) fn rsa_sha256_sign(private_key: &str, data: &str) -> (r: AlipayResult<String>)
    ensures
        (r is Ok) == rsa2_sign_ok(private_key@),
        r matches Ok(s) ==> s@ == rsa2_sign_of(private_key@, data@),
{
    let run = || -> Result<String, openssl::error::ErrorStack> {
        let der = openssl::base64::decode_block(private_key)?;
        let rsa = openssl::rsa::Rsa::private_key_from_der(der.as_slice())?;
        let key = openssl::pkey::PKey::from_rsa(rsa)?;
        let mut signer = openssl::sign::Signer::new(
            openssl::hash::MessageDigest::sha256(),
            &key,
        )?;
        signer.update(data.as_bytes())?;
        Ok(openssl::base64::encode_block(signer.sign_to_vec()?.as_slice()))
    };
    run().map_err(|e| AlipayError::new(&e.to_string()))
}

/// Relies on openssl: `base64::decode_block` on the key and signature
/// texts, `Rsa::public_key_from_der`, `PKey::from_rsa`, and `sign::Verifier`
/// with `MessageDigest::sha256`. Verification is deterministic in the key,
/// the source and the signature; a well-formed signature that does not
/// match yields `Ok(false)` (the verifier discards the mismatch, it does
/// not fail), while malformed key or signature text gives an error — so
/// success is exactly `rsa2_verify_ok` of the key and signature texts.
#[verifier::external_body]
pub(crate) fn rsa_sha256_verify(public_key: &str, source: &str, signature: &str) -> (r:
    AlipayResult<bool>)
    ensures
        (r is Ok) == rsa2_verify_ok(public_key@, signature@),
        r matches Ok(b) ==> b == rsa2_verify_of(public_key@, source@, signature@),
{
    let run = || -> Result<bool, openssl::error::ErrorStack> {
        let der = openssl::base64::decode_block(public_key)?;
        let rsa = openssl::rsa::Rsa::public_key_from_der(der.as_slice())?;
        let key = openssl::pkey::PKey::from_rsa(rsa)?;
        let sig = openssl::base64::decode_block(signature)?;
        let mut verifier = openssl::sign::Verifier::new(
            openssl::hash::MessageDigest::sha256(),
            &key,
        )?;
        verifier.update(source.as_bytes())?;
        Ok(verifier.verify(sig.as_slice())?)
    };
    run().map_err(|e| AlipayError::new(&e.to_string()))
}

/// A holder of key material that can sign and check texts: callers use it
/// both for request signing and for validating inbound notifications.
pub trait Sign {
    /// The signing key text (base64-encoded DER private key).
    spec fn signing_key(&self) -> Seq<char>;

    /// The verifying key text (base64-encoded DER public key).
    spec fn verifying_key(&self) -> Seq<char>;

    /// Signs the text with the held private key. Succeeds exactly when the
    /// key material is usable, whatever the text.
    fn sign(&self, params: &str) -> (r: AlipayResult<String>)
        ensures
            (r is Ok) == rsa2_sign_ok(self.signing_key()),
            r matches Ok(s) ==> s@ == rsa2_sign_of(self.signing_key(), params@),
    ;

    /// Checks a signature over the source text with the held public key.
    /// Succeeds exactly when the key material and the signature text are
    /// well formed; a well-formed signature that does not match the source
    /// yields `Ok(false)`, never an error.
    fn verify(&self, source: &str, signature: &str) -> (r: AlipayResult<bool>)
        ensures
            (r is Ok) == rsa2_verify_ok(self.verifying_key(), signature@),
            r matches Ok(b) ==> b == rsa2_verify_of(self.verifying_key(), source@, signature@),
    ;
}

} // verus!
