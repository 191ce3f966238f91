use vstd::prelude::*;

use crate::canonical::view_pairs;
use crate::error::{AlipayError, AlipayResult};
use crate::text::{hex_lower_of, push_char};

verus! {

// ---------------------------------------------------------------------------
// Certificate serial fingerprints
// ---------------------------------------------------------------------------
//
// The gateway identifies certificates by a fingerprint: the MD5 digest, in
// lower-case hex, of the issuer name text concatenated with the decimal
// serial number. Parsing the X.509 structure and digesting are done by
// openssl behind trusted wrappers; the text assembly around them is
// verified.

/// What the library reads from one parsed certificate.
pub struct CertInfo {
    /// The issuer name entries, as (short name, text) pairs, in the order
    /// the certificate holds them.
    pub issuer: Vec<(String, String)>,
    /// The serial number in decimal.
    pub serial_dec: String,
    /// The raw numeric identifier of the signature algorithm.
    pub sig_alg_nid: i32,
}

/// Whether openssl parses this PEM text as one X.509 certificate and its
/// issuer entries convert to text; deterministic in the text alone.
pub uninterp spec fn x509_parse_ok(pem: Seq<char>) -> bool;

/// The issuer name entries of the certificate in the PEM text.
pub uninterp spec fn x509_issuer_of(pem: Seq<char>) -> Seq<(Seq<char>, Seq<char>)>;

/// The decimal serial number of the certificate in the PEM text.
pub uninterp spec fn x509_serial_of(pem: Seq<char>) -> Seq<char>;

/// The numeric identifier of the signature algorithm of the certificate in
/// the PEM text.
pub uninterp spec fn x509_sig_nid_of(pem: Seq<char>) -> int;

/// Relies on openssl's X.509 PEM parser: `X509::from_pem`, the issuer name
/// entries (each read with `short_name` and `as_utf8`), the serial number
/// via `to_bn().to_dec_str()`, and the signature algorithm's `Nid` as its
/// raw number. All of it is a function of the PEM text alone.
#[verifier::external_body]
fn x509_info(pem: &str) -> (r: AlipayResult<CertInfo>)
    ensures
        (r is Ok) == x509_parse_ok(pem@),
        r matches Ok(c) ==> view_pairs(c.issuer@) == x509_issuer_of(pem@) && c.serial_dec@
            == x509_serial_of(pem@) && c.sig_alg_nid as int == x509_sig_nid_of(pem@),
{
    let run = || -> Result<CertInfo, openssl::error::ErrorStack> {
        let cert = openssl::x509::X509::from_pem(pem.as_bytes())?;
        let mut issuer: Vec<(String, String)> = Vec::new();
        for e in cert.issuer_name().entries() {
            let key = e.object().nid().short_name()?.to_owned();
            let val = e.data().as_utf8()?.to_string();
            issuer.push((key, val));
        }
        let serial_dec = cert.serial_number().to_bn()?.to_dec_str()?.to_string();
        let nid = cert.signature_algorithm().object().nid().as_raw();
        Ok(CertInfo { issuer, serial_dec, sig_alg_nid: nid })
    };
    run().map_err(|e| AlipayError::new(&e.to_string()))
}

/// The 16-byte MD5 digest of the text's bytes; a function of the text
/// alone.
pub uninterp spec fn md5_of(data: Seq<char>) -> Seq<u8>;

/// Whether the MD5 digest of this text can be computed. The computation is
/// decided by the input alone — openssl reports failure here only when the
/// algorithm itself cannot be set up, never because of the data.
pub uninterp spec fn md5_ok(data: Seq<char>) -> bool;

/// Relies on `openssl::hash::hash` with `MessageDigest::md5`: the 16-byte
/// MD5 digest of the input bytes.
#[verifier::external_body]
fn md5_digest(data: &str) -> (r: AlipayResult<Vec<u8>>)
    ensures
        (r is Ok) == md5_ok(data@),
        r matches Ok(d) ==> d@ == md5_of(data@) && d@.len() == 16,
{
    openssl::hash::hash(openssl::hash::MessageDigest::md5(), data.as_bytes()).map(
        |d| d.to_vec(),
    ).map_err(|e| AlipayError::new(&e.to_string()))
}

/// Relies on `hex::encode`: lower-case hexadecimal, two digits per byte,
/// high nibble first — stated exactly by `hex_lower_of`.
#[verifier::external_body]
fn hex_encode(bytes: &Vec<u8>) -> (r: String)
    ensures
        r@ == hex_lower_of(bytes@),
{
    hex::encode(bytes.as_slice())
}

/// The pieces of `s` between occurrences of `sep`, in order; a function of
/// the two texts alone.
pub uninterp spec fn split_of(s: Seq<char>, sep: Seq<char>) -> Seq<Seq<char>>;

/// Relies on `str::split` with a string pattern: the pieces of `s` between
/// occurrences of `sep`, in order.
#[verifier::external_body]
fn split_on(s: &str, sep: &str) -> (r: Vec<String>)
    ensures
        r@.map_values(|p: String| p@) == split_of(s@, sep@),
{
    s.split(sep).map(|p| p.to_owned()).collect()
}

// ---------------------------------------------------------------------------
// Issuer text assembly
// ---------------------------------------------------------------------------

/// The issuer entries rendered as `key=value`, each entry followed by a
/// comma except the first, and the whole in reverse entry order — the text
/// the fingerprint digests.
pub open spec fn issuer_join_down(s: Seq<(Seq<char>, Seq<char>)>, i: int) -> Seq<char>
    decreases s.len() - i,
{
    if i < 0 || i >= s.len() {
        Seq::empty()
    } else {
        issuer_join_down(s, i + 1) + s[i].0 + seq!['='] + s[i].1 + (if i > 0 {
            seq![',']
        } else {
            Seq::<char>::empty()
        })
    }
}

/// The issuer name text: the entries in reverse order, each `key=value`,
/// separated by commas.
pub open spec fn issuer_join(s: Seq<(Seq<char>, Seq<char>)>) -> Seq<char> {
    issuer_join_down(s, 0)
}

/// Renders the issuer entries as the digestable issuer name text.
pub fn iter2string(entries: &Vec<(String, String)>) -> (r: String)
    ensures
        r@ == issuer_join(view_pairs(entries@)),
{
    let ghost vs = view_pairs(entries@);
    let mut r = String::new();
    let n = entries.len();
    let mut i: usize = n;
    while i > 0
        invariant
            i <= n,
            n == entries@.len(),
            vs == view_pairs(entries@),
            r@ == issuer_join_down(vs, i as int),
        decreases i,
    {
        i = i - 1;
        r.append(entries[i].0.as_str());
        push_char(&mut r, '=');
        r.append(entries[i].1.as_str());
        if i > 0 {
            push_char(&mut r, ',');
        }
        proof {
            assert(r@ =~= issuer_join_down(vs, i as int));
        }
    }
    r
}

// ---------------------------------------------------------------------------
// Certificate serial extraction
// ---------------------------------------------------------------------------

/// The fingerprint of one certificate: the MD5 of issuer text plus decimal
/// serial, in lower-case hex.
pub open spec fn cert_sn_chars(pem: Seq<char>) -> Seq<char> {
    hex_lower_of(md5_of(issuer_join(x509_issuer_of(pem)) + x509_serial_of(pem)))
}

/// Whether fingerprint extraction succeeds on this PEM text: the
/// certificate parses, and its issuer-plus-serial text digests.
pub open spec fn cert_sn_ok(pem: Seq<char>) -> bool {
    x509_parse_ok(pem) && md5_ok(issuer_join(x509_issuer_of(pem)) + x509_serial_of(pem))
}

/// The fingerprint of one certificate, or the empty text where extraction
/// fails: what a client construction records for an unreadable certificate.
pub open spec fn cert_sn_or_empty(pem: Seq<char>) -> Seq<char> {
    if cert_sn_ok(pem) {
        cert_sn_chars(pem)
    } else {
        Seq::empty()
    }
}

/// Extracts the serial fingerprint from one PEM certificate. Succeeds
/// exactly when the certificate parses and its fingerprint text digests.
pub fn get_cert_sn_from_content(content: &str) -> (r: AlipayResult<String>)
    ensures
        (r is Ok) == cert_sn_ok(content@),
        r matches Ok(s) ==> s@ == cert_sn_chars(content@),
{
    let info = match x509_info(content) {
        Ok(info) => info,
        Err(e) => {
            return Err(e);
        },
    };
    let mut data = iter2string(&info.issuer);
    data.append(info.serial_dec.as_str());
    let digest = match md5_digest(data.as_str()) {
        Ok(d) => d,
        Err(e) => {
            return Err(e);
        },
    };
    Ok(hex_encode(&digest))
}

/// The marker that ends one PEM certificate block.
pub open spec fn cert_end_marker() -> Seq<char> {
    "-----END CERTIFICATE-----"@
}

/// Whether the certificate is signed with an RSA signature the gateway
/// accepts for root certificates: SHA256-with-RSA or SHA1-with-RSA. The
/// numbers are openssl's registered identifiers for those two algorithms.
pub open spec fn root_matches(pem: Seq<char>) -> bool {
    x509_sig_nid_of(pem) == 668 || x509_sig_nid_of(pem) == 65
}

/// Folds the split pieces of a root certificate bundle into the combined
/// serial text: empty pieces are dropped, each remaining piece is closed
/// with the end marker again, and the fingerprints of the RSA-signed
/// certificates are joined with underscores.
pub open spec fn root_sn_fold(parts: Seq<Seq<char>>, i: int, acc: Seq<char>) -> Seq<char>
    decreases parts.len() - i,
{
    if i < 0 || i >= parts.len() {
        acc
    } else if parts[i].len() == 0 {
        root_sn_fold(parts, i + 1, acc)
    } else {
        let pem = parts[i] + cert_end_marker();
        if root_matches(pem) {
            let sn = cert_sn_chars(pem);
            root_sn_fold(parts, i + 1, if acc.len() == 0 {
                sn
            } else {
                acc + seq!['_'] + sn
            })
        } else {
            root_sn_fold(parts, i + 1, acc)
        }
    }
}

/// The combined serial text of a root certificate bundle.
pub open spec fn root_sn_chars(content: Seq<char>) -> Seq<char> {
    root_sn_fold(split_of(content, cert_end_marker()), 0, Seq::empty())
}

/// Whether one split piece of a bundle goes through: an empty piece is
/// dropped, any other must parse as a certificate once the end marker is
/// restored, and an RSA-signed one must yield its fingerprint.
pub open spec fn root_part_ok(p: Seq<char>) -> bool {
    p.len() == 0 || (x509_parse_ok(p + cert_end_marker()) && (root_matches(p + cert_end_marker())
        ==> cert_sn_ok(p + cert_end_marker())))
}

/// Whether extraction succeeds on the whole bundle: every split piece goes
/// through.
pub open spec fn root_content_ok(content: Seq<char>) -> bool {
    forall|i: int|
        0 <= i < split_of(content, cert_end_marker()).len() ==> root_part_ok(
            #[trigger] split_of(content, cert_end_marker())[i],
        )
}

/// The combined serial text of a bundle, or the empty text where
/// extraction fails: what a client construction records for an unreadable
/// bundle.
pub open spec fn root_sn_or_empty(content: Seq<char>) -> Seq<char> {
    if root_content_ok(content) {
        root_sn_chars(content)
    } else {
        Seq::empty()
    }
}

/// Extracts the combined serial fingerprint from a bundle of PEM root
/// certificates. Succeeds exactly when every non-empty piece of the bundle
/// is a certificate whose fingerprint can be taken where it is RSA-signed.
pub fn get_root_cert_sn_from_content(cert_content: &str) -> (r: AlipayResult<String>)
    ensures
        (r is Ok) == root_content_ok(cert_content@),
        r matches Ok(s) ==> s@ == root_sn_chars(cert_content@),
{
    let marker = "-----END CERTIFICATE-----";
    proof {
        assert(marker@ == cert_end_marker());
    }
    let parts = split_on(cert_content, marker);
    let ghost pvs = parts@.map_values(|p: String| p@);
    let n = parts.len();
    let mut sn = String::new();
    let mut i: usize = 0;
    while i < n
        invariant
            i <= n,
            n == parts@.len(),
            marker@ == cert_end_marker(),
            pvs == parts@.map_values(|p: String| p@),
            pvs == split_of(cert_content@, cert_end_marker()),
            root_sn_fold(pvs, 0, Seq::empty()) == root_sn_fold(pvs, i as int, sn@),
            forall|k: int| 0 <= k < i ==> root_part_ok(#[trigger] pvs[k]),
        decreases n - i,
    {
        if !parts[i].as_str().is_empty() {
            let mut c = parts[i].clone();
            c.append(marker);
            proof {
                assert(marker@ == cert_end_marker());
                assert(pvs[i as int] == parts@[i as int]@);
                assert(c@ == pvs[i as int] + cert_end_marker());
            }
            let info = match x509_info(c.as_str()) {
                Ok(info) => info,
                Err(e) => {
                    proof {
                        assert(!root_part_ok(split_of(cert_content@, cert_end_marker())[i as int]));
                        assert(!root_content_ok(cert_content@));
                    }
                    return Err(e);
                },
            };
            if info.sig_alg_nid == 668 || info.sig_alg_nid == 65 {
                let res = match get_cert_sn_from_content(c.as_str()) {
                    Ok(res) => res,
                    Err(e) => {
                        proof {
                            assert(root_matches(pvs[i as int] + cert_end_marker()));
                            assert(!root_part_ok(
                                split_of(cert_content@, cert_end_marker())[i as int],
                            ));
                            assert(!root_content_ok(cert_content@));
                        }
                        return Err(e);
                    },
                };
                if sn.as_str().is_empty() {
                    sn = res;
                } else {
                    push_char(&mut sn, '_');
                    sn.append(res.as_str());
                }
            } else {
                proof {
                    assert(root_part_ok(pvs[i as int]));
                }
            }
        } else {
            proof {
                assert(pvs[i as int] == parts@[i as int]@);
                assert(root_part_ok(pvs[i as int]));
            }
        }
        i = i + 1;
    }
    proof {
        assert(root_content_ok(cert_content@));
    }
    Ok(sn)
}

} // verus!
