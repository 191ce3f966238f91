use alipay_rs::cert::{get_cert_sn_from_content, get_root_cert_sn_from_content};
use openssl::hash::MessageDigest;
use openssl::pkey::{PKey, Private};

fn test_key() -> PKey<Private> {
    let rsa = openssl::rsa::Rsa::generate(2048).unwrap();
    PKey::from_rsa(rsa).unwrap()
}

/// A self-signed certificate as PEM text, with the given issuer entries
/// (appended in order), serial number and signature digest.
fn make_cert(entries: &[(&str, &str)], serial: u32, digest: MessageDigest) -> String {
    let key = test_key();
    let mut name = openssl::x509::X509NameBuilder::new().unwrap();
    for (field, value) in entries {
        name.append_entry_by_text(field, value).unwrap();
    }
    let name = name.build();
    let mut builder = openssl::x509::X509Builder::new().unwrap();
    builder.set_version(2).unwrap();
    let serial_bn = openssl::bn::BigNum::from_u32(serial).unwrap();
    let serial_asn1 = serial_bn.to_asn1_integer().unwrap();
    builder.set_serial_number(&serial_asn1).unwrap();
    builder.set_issuer_name(&name).unwrap();
    builder.set_subject_name(&name).unwrap();
    let not_before = openssl::asn1::Asn1Time::days_from_now(0).unwrap();
    builder.set_not_before(&not_before).unwrap();
    let not_after = openssl::asn1::Asn1Time::days_from_now(365).unwrap();
    builder.set_not_after(&not_after).unwrap();
    builder.set_pubkey(&key).unwrap();
    builder.sign(&key, digest).unwrap();
    String::from_utf8(builder.build().to_pem().unwrap()).unwrap()
}

/// The fingerprint the protocol prescribes: MD5 of issuer text plus decimal
/// serial, in lower-case hex.
fn expected_sn(issuer_text: &str, serial: u32) -> String {
    let data = format!("{}{}", issuer_text, serial);
    hex::encode(openssl::hash::hash(MessageDigest::md5(), data.as_bytes()).unwrap())
}

#[test]
fn cert_sn_digests_issuer_and_serial() {
    let pem = make_cert(&[("CN", "test-root")], 12345, MessageDigest::sha256());
    let sn = get_cert_sn_from_content(&pem).unwrap();
    assert_eq!(sn, expected_sn("CN=test-root", 12345));
    assert_eq!(sn.len(), 32);
}

#[test]
fn cert_sn_reverses_issuer_entries() {
    let pem = make_cert(
        &[("C", "GB"), ("O", "Example"), ("CN", "test")],
        7,
        MessageDigest::sha256(),
    );
    let sn = get_cert_sn_from_content(&pem).unwrap();
    assert_eq!(sn, expected_sn("CN=test,O=Example,C=GB", 7));
}

#[test]
fn cert_sn_rejects_non_certificates() {
    assert!(get_cert_sn_from_content("not a certificate").is_err());
}

#[test]
fn root_sn_joins_rsa_certificates_with_underscores() {
    let pem1 = make_cert(&[("CN", "one")], 1, MessageDigest::sha256());
    let pem2 = make_cert(&[("CN", "two")], 2, MessageDigest::sha256());
    let bundle = format!("{}{}", pem1, pem2.trim_end());
    let sn = get_root_cert_sn_from_content(&bundle).unwrap();
    let expected = format!("{}_{}", expected_sn("CN=one", 1), expected_sn("CN=two", 2));
    assert_eq!(sn, expected);
}

#[test]
fn root_sn_skips_other_signature_algorithms() {
    let rsa_pem = make_cert(&[("CN", "one")], 1, MessageDigest::sha256());
    let other_pem = make_cert(&[("CN", "two")], 2, MessageDigest::sha512());
    let bundle = format!("{}{}", rsa_pem, other_pem.trim_end());
    let sn = get_root_cert_sn_from_content(&bundle).unwrap();
    assert_eq!(sn, expected_sn("CN=one", 1));
}

#[test]
fn root_sn_fails_on_trailing_garbage() {
    // the text after the final end marker is not empty (a newline), so it is
    // treated as one more certificate and rejected
    let pem = make_cert(&[("CN", "one")], 1, MessageDigest::sha256());
    assert!(get_root_cert_sn_from_content(&pem).is_err());
    assert!(get_root_cert_sn_from_content(pem.trim_end()).is_ok());
}

#[test]
fn root_sn_of_empty_bundle_is_empty() {
    assert_eq!(get_root_cert_sn_from_content("").unwrap(), "");
}
