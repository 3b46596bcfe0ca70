use paystack_transaction::verify::{initialize_url, verify_url};
use paystack_transaction::{parse_verification, AuthError, ResponseError};

#[test]
fn error_descriptions() {
    assert_eq!(AuthError::NoPublicKey.describe(), "Your public key must be set");
    assert_eq!(
        ResponseError::PayStackError("timed out".to_string()).describe(),
        "Paystack Error: timed out"
    );
    assert_eq!(
        ResponseError::TransactionVerificationError(false).describe(),
        "false; Couldn't verify transaction"
    );
}

#[test]
fn verification_round_trip() {
    let body = r#"{"status":true,"message":"Verification successful","data":"opaque-payload"}"#;
    let v = parse_verification(body).unwrap();
    assert_eq!(v.status, true);
    assert_eq!(v.message, "Verification successful");
    assert_eq!(v.data, "opaque-payload");
}

#[test]
fn parse_accepts_any_member_order_and_whitespace() {
    let body = "  { \"data\" : \"d\" ,\n\t\"status\" : false , \"message\" : \"m\" }  ";
    let v = parse_verification(body).unwrap();
    assert_eq!(v.status, false);
    assert_eq!(v.message, "m");
    assert_eq!(v.data, "d");
}

#[test]
fn parse_decodes_escapes() {
    let body = r#"{"status":true,"message":"a \"b\" c\\d\ne\tf","data":"x\/y"}"#;
    let v = parse_verification(body).unwrap();
    assert_eq!(v.message, "a \"b\" c\\d\ne\tf");
    assert_eq!(v.data, "x/y");
}

#[test]
fn parse_rejects_missing_field() {
    let body = r#"{"status":true,"message":"m"}"#;
    let r = parse_verification(body);
    match r {
        Err(ResponseError::PayStackError(m)) => {
            assert_eq!(m, "could not read verification response");
        }
        _ => panic!("expected an error"),
    }
}

#[test]
fn parse_rejects_duplicate_field() {
    let body = r#"{"status":true,"status":false,"message":"m","data":"d"}"#;
    assert!(parse_verification(body).is_err());
}

#[test]
fn parse_rejects_unknown_field() {
    let body = r#"{"status":true,"message":"m","extra":"e"}"#;
    assert!(parse_verification(body).is_err());
}

#[test]
fn parse_rejects_wrongly_typed_field() {
    let body = r#"{"status":"true","message":"m","data":"d"}"#;
    assert!(parse_verification(body).is_err());
}

#[test]
fn parse_rejects_trailing_content() {
    let body = r#"{"status":true,"message":"m","data":"d"} x"#;
    assert!(parse_verification(body).is_err());
}

#[test]
fn parse_rejects_non_object() {
    assert!(parse_verification("true").is_err());
    assert!(parse_verification("").is_err());
    assert!(parse_verification("{}").is_err());
}

#[test]
fn parse_rejects_unicode_escape() {
    let body = r#"{"status":true,"message":"\u0041","data":"d"}"#;
    assert!(parse_verification(body).is_err());
}

#[test]
fn endpoint_urls() {
    assert_eq!(
        verify_url("reference"),
        "https://api.paystack.co/transaction/verify/reference"
    );
    assert_eq!(
        initialize_url(),
        "https://api.paystack.co/transaction/initialize"
    );
}
