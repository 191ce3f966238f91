use alipay_rs::canonical::joined_string;
use alipay_rs::{Client, ParamValue, Sign};

fn gen_keys() -> (String, String) {
    let rsa = openssl::rsa::Rsa::generate(2048).unwrap();
    let public_der = rsa.public_key_to_der().unwrap();
    let private_der = rsa.private_key_to_der().unwrap();
    (
        openssl::base64::encode_block(&public_der),
        openssl::base64::encode_block(&private_der),
    )
}

fn sval(text: &str) -> ParamValue {
    ParamValue::Str(text.to_string())
}

#[test]
fn canonical_request_scenario() {
    let client = Client::new("123", "", "", None, None, false);
    let mut with_params = client.set_public_params(Vec::new());
    let params = with_params.merge_params(
        "2024-01-01 00:00:00".to_string(),
        "alipay.fund.trans.uni.transfer".to_string(),
        Some("{\"out_biz_no\":\"1\"}".to_string()),
    );
    let canonical = joined_string(&params);
    assert_eq!(
        canonical,
        "app_id=123&biz_content={\"out_biz_no\":\"1\"}&charset=utf-8&format=json&method=alipay.fund.trans.uni.transfer&sign_type=RSA2&timestamp=2024-01-01 00:00:00&version=1.0"
    );
}

#[test]
fn override_wins_over_base() {
    let client = Client::new("X", "", "", None, None, false);
    let mut with_params =
        client.set_public_params(vec![("app_id".to_string(), sval("Y"))]);
    let params = with_params.merge_params("TS".to_string(), "m".to_string(), None);
    let app_ids: Vec<&str> =
        params.iter().filter(|p| p.0 == "app_id").map(|p| p.1.as_str()).collect();
    assert_eq!(app_ids, vec!["Y"]);
}

#[test]
fn per_call_method_wins_over_override() {
    let client = Client::new("X", "", "", None, None, false);
    let mut with_params =
        client.set_public_params(vec![("method".to_string(), sval("evil.method"))]);
    let params = with_params.merge_params(
        "TS".to_string(),
        "real.method".to_string(),
        None,
    );
    let methods: Vec<&str> =
        params.iter().filter(|p| p.0 == "method").map(|p| p.1.as_str()).collect();
    assert_eq!(methods, vec!["real.method"]);
    let timestamps: Vec<&str> =
        params.iter().filter(|p| p.0 == "timestamp").map(|p| p.1.as_str()).collect();
    assert_eq!(timestamps, vec!["TS"]);
}

#[test]
fn null_fields_are_suppressed() {
    let client = Client::new("X", "", "", None, None, false);
    // a null override field never appears
    let mut with_params = client.set_public_params(vec![
        ("note".to_string(), ParamValue::Null),
        ("kept".to_string(), sval("v")),
    ]);
    let params = with_params.merge_params("TS".to_string(), "m".to_string(), None);
    assert!(!params.iter().any(|p| p.0 == "note"));
    assert!(params.iter().any(|p| p.0 == "kept" && p.1 == "v"));
    // without a payload, no biz_content key appears at all
    assert!(!params.iter().any(|p| p.0 == "biz_content"));
    let canonical = joined_string(&params);
    assert!(!canonical.contains("biz_content"));
    assert!(!canonical.contains("null"));
}

#[test]
fn overrides_are_single_use() {
    let (public_key, private_key) = gen_keys();
    let client = Client::new("APP", &public_key, &private_key, None, None, false);
    let mut with_params =
        client.set_public_params(vec![("extra_field".to_string(), sval("V"))]);
    let first = with_params
        .create_params_at("2024-01-01 00:00:00".to_string(), "a.b".to_string(), None)
        .unwrap();
    assert!(first.iter().any(|p| p.0 == "extra_field" && p.1 == "V"));
    let second = with_params
        .create_params_at("2024-01-01 00:00:00".to_string(), "a.b".to_string(), None)
        .unwrap();
    assert!(!second.iter().any(|p| p.0 == "extra_field"));
}

#[test]
fn sign_verify_round_trip() {
    let (public_key, private_key) = gen_keys();
    let client = Client::new("APP", &public_key, &private_key, None, None, false);
    let source = "a=1&b=2&c=a string with spaces";
    let signature = client.sign(source).unwrap();
    assert!(client.verify(source, &signature).unwrap());
    // a tampered source fails verification without an error
    assert!(!client.verify("a=1&b=2&c=a string with space!", &signature).unwrap());
    // the same input signs to the same text
    assert_eq!(signature, client.sign(source).unwrap());
}

#[test]
fn signed_params_carry_a_trailing_sign_field() {
    let (public_key, private_key) = gen_keys();
    let client = Client::new("APP", &public_key, &private_key, None, None, false);
    let mut with_params = client.set_public_params(Vec::new());
    let params = with_params
        .create_params_at(
            "2024-01-01 00:00:00".to_string(),
            "a.b".to_string(),
            Some("{\"k\":\"v\"}".to_string()),
        )
        .unwrap();
    // the last pair is the signature over everything before it
    let (last_key, signature) = params.last().unwrap().clone();
    assert_eq!(last_key, "sign");
    let unsigned: Vec<(String, String)> = params[..params.len() - 1].to_vec();
    let canonical = joined_string(&unsigned);
    assert!(client.verify(&canonical, &signature).unwrap());
}

#[test]
fn generate_url_data_skips_null_payload() {
    let (public_key, private_key) = gen_keys();
    let client = Client::new("APP", &public_key, &private_key, None, None, false);
    let mut with_params = client.set_public_params(Vec::new());
    let params = with_params
        .generate_url_data("a.b".to_string(), ParamValue::Null)
        .unwrap();
    assert!(!params.iter().any(|p| p.0 == "biz_content"));
    // an object all of whose fields are absent sends no biz_content either
    let mut with_params = client.set_public_params(Vec::new());
    let params = with_params
        .generate_url_data(
            "a.b".to_string(),
            ParamValue::Object(vec![
                ("x".to_string(), ParamValue::Null),
                ("y".to_string(), ParamValue::Null),
            ]),
        )
        .unwrap();
    assert!(!params.iter().any(|p| p.0 == "biz_content"));
    // a live payload travels as JSON, with its absent fields omitted
    let mut with_params = client.set_public_params(Vec::new());
    let params = with_params
        .generate_url_data(
            "a.b".to_string(),
            ParamValue::Object(vec![
                ("out_biz_no".to_string(), sval("1")),
                ("memo".to_string(), ParamValue::Null),
            ]),
        )
        .unwrap();
    assert!(params.iter().any(|p| p.0 == "biz_content" && p.1 == "{\"out_biz_no\":\"1\"}"));
}

#[test]
fn build_params_is_form_encoded() {
    let (public_key, private_key) = gen_keys();
    let client = Client::new("APP", &public_key, &private_key, None, None, false);
    let body = client.build_params("a.b".to_string(), None).unwrap();
    assert!(body.contains("app_id=APP"));
    assert!(body.contains("method=a.b"));
    assert!(body.contains("&sign="));
    // form encoding escapes the space in the timestamp
    assert!(!body.contains(' '));
}

#[test]
fn builder_assembles_a_working_client() {
    let (public_key, private_key) = gen_keys();
    let client = Client::builder()
        .app_id("2021002199679230")
        .public_key(&public_key)
        .private_key(&private_key)
        .finish();
    assert!(!client.is_sandbox());
    let mut with_params = client.set_public_params(Vec::new());
    let params = with_params.merge_params("TS".to_string(), "m".to_string(), None);
    assert!(params.iter().any(|p| p.0 == "app_id" && p.1 == "2021002199679230"));
    let source = "notification text";
    let signature = client.sign(source).unwrap();
    assert!(client.verify(source, &signature).unwrap());
}

#[test]
fn signing_fails_on_bad_key_material() {
    let client = Client::new("X", "", "not a key", None, None, false);
    assert!(client.sign("data").is_err());
    assert!(client.verify("data", "c2ln").is_err());
    let mut with_params = client.set_public_params(Vec::new());
    assert!(with_params
        .create_params_at("TS".to_string(), "m".to_string(), None)
        .is_err());
    assert!(client.build_params("m".to_string(), None).is_err());
}

#[test]
fn sandbox_flag_is_kept() {
    let client = Client::builder().app_id("A").sandbox().finish();
    assert!(client.is_sandbox());
}

#[test]
fn config_mints_equivalent_clients() {
    let (public_key, private_key) = gen_keys();
    let config = alipay_rs::Config::new("APP", &public_key, &private_key, None, None);
    let client = config.get_client();
    let mut with_params = client.set_public_params(Vec::new());
    let params = with_params.merge_params("TS".to_string(), "m".to_string(), None);
    let canonical = joined_string(&params);
    assert_eq!(
        canonical,
        "app_id=APP&charset=utf-8&format=json&method=m&sign_type=RSA2&timestamp=TS&version=1.0"
    );
    let config2 = alipay_rs::Config::builder()
        .app_id("APP")
        .public_key(&public_key)
        .private_key(&private_key)
        .finish();
    let client2 = config2.get_client();
    let mut with_params2 = client2.set_public_params(Vec::new());
    let params2 = with_params2.merge_params("TS".to_string(), "m".to_string(), None);
    assert_eq!(canonical, joined_string(&params2));
}
