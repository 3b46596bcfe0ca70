use paystack_transaction::{
    expose_secret, Amount, Bank, BankTransfer, Channel, Currency, MobileMoney, Payment,
    PaymentBuilder, SecretString, QR, Ussd,
};

fn init_builder() -> PaymentBuilder {
    let mut builder = Payment::builder(
        "test@example.com".to_string(),
        Amount::new(100, 0, false),
        SecretString::new("secret_key".to_string()),
    );

    builder.channel(Channel::Card);
    builder.label("label".to_string());
    builder.reference("reference".to_string());

    builder
}

#[test]
fn json_response() {
    let builder = init_builder();
    let json_builder = builder.json_builder();

    let data = r#"{
        "amount":100.0,
        "channel":"Card",
        "email":"test@example.com",
        "key":"secret_key",
        "label":"label",
        "reference":"reference"
    }"#;

    let json: serde_json::Value = serde_json::from_str(data).unwrap();
    let built: serde_json::Value = serde_json::from_str(&json_builder).unwrap();

    assert_eq!(json, built);
}

#[test]
fn initialize_json_response() {
    let mut builder = Payment::builder(
        "test@example.com".to_string(),
        Amount::new(100, 0, false),
        SecretString::new("secret_key".to_string()),
    );

    builder.mobile_money(MobileMoney {
        phone: "08123456789".to_string(),
        provider: "MTN".to_string(),
    });

    builder.label("label".to_string());
    builder.reference("reference".to_string());
    builder.currency(Currency::NGN);

    let json_builder = builder.json_builder();

    let data = r#"{
        "amount":100.0,
        "email":"test@example.com",
        "mobile_money": {
            "phone": "08123456789",
            "provider": "MTN"
        },
        "currency": "NGN",
        "key":"secret_key",
        "label":"label",
        "reference":"reference"
    }"#;

    let json: serde_json::Value = serde_json::from_str(data).unwrap();
    let built: serde_json::Value = serde_json::from_str(&json_builder).unwrap();

    assert_eq!(json, built);
}

#[test]
fn exact_payload_text() {
    let builder = init_builder();
    let expected = "{\"amount\":100.00,\"channel\":\"Card\",\"email\":\"test@example.com\",\
                    \"key\":\"secret_key\",\"label\":\"label\",\"reference\":\"reference\"}";
    assert_eq!(builder.json_builder(), expected);
}

#[test]
fn required_fields_only() {
    let builder = Payment::builder(
        "test@example.com".to_string(),
        Amount::new(100, 0, false),
        SecretString::new("secret_key".to_string()),
    );
    let built: serde_json::Value = serde_json::from_str(&builder.json_builder()).unwrap();
    let obj = built.as_object().unwrap();
    let mut keys: Vec<&str> = obj.keys().map(|k| k.as_str()).collect();
    keys.sort();
    assert_eq!(keys, vec!["amount", "email", "key"]);
    assert!(obj.values().all(|v| !v.is_null()));
}

#[test]
fn channel_replaced_by_mobile_money() {
    let mut builder = init_builder();
    builder.mobile_money(MobileMoney {
        phone: "08123456789".to_string(),
        provider: "MTN".to_string(),
    });
    let built: serde_json::Value = serde_json::from_str(&builder.json_builder()).unwrap();
    let obj = built.as_object().unwrap();
    assert!(obj.contains_key("mobile_money"));
    assert!(!obj.contains_key("channel"));
}

#[test]
fn mobile_money_replaced_by_channel() {
    let mut builder = Payment::builder(
        "test@example.com".to_string(),
        Amount::new(100, 0, false),
        SecretString::new("secret_key".to_string()),
    );
    builder.mobile_money(MobileMoney {
        phone: "08123456789".to_string(),
        provider: "MTN".to_string(),
    });
    builder.channel(Channel::Bank);
    let built: serde_json::Value = serde_json::from_str(&builder.json_builder()).unwrap();
    let obj = built.as_object().unwrap();
    assert!(!obj.contains_key("mobile_money"));
    assert_eq!(obj.get("channel").unwrap(), "Bank");
}

#[test]
fn channel_setters_select_one_channel() {
    let mut builder = init_builder();
    builder.ussd(Ussd {});
    let v: serde_json::Value = serde_json::from_str(&builder.json_builder()).unwrap();
    assert_eq!(v.as_object().unwrap().get("channel").unwrap(), "USSD");

    builder.qr(QR {});
    let v: serde_json::Value = serde_json::from_str(&builder.json_builder()).unwrap();
    assert_eq!(v.as_object().unwrap().get("channel").unwrap(), "QR");

    builder.bank_transfer(BankTransfer {});
    let v: serde_json::Value = serde_json::from_str(&builder.json_builder()).unwrap();
    assert_eq!(v.as_object().unwrap().get("channel").unwrap(), "BankTransfer");

    builder.bank(Bank {});
    let v: serde_json::Value = serde_json::from_str(&builder.json_builder()).unwrap();
    assert_eq!(v.as_object().unwrap().get("channel").unwrap(), "Bank");

    builder.channel(Channel::Eft);
    let v: serde_json::Value = serde_json::from_str(&builder.json_builder()).unwrap();
    assert_eq!(v.as_object().unwrap().get("channel").unwrap(), "Eft");
}

#[test]
fn serialization_is_idempotent() {
    let builder = init_builder();
    let first = builder.json_builder();
    let second = builder.json_builder();
    assert_eq!(first, second);
}

#[test]
fn strings_are_escaped() {
    let mut builder = Payment::builder(
        "test@example.com".to_string(),
        Amount::new(100, 0, false),
        SecretString::new("secret_key".to_string()),
    );
    let tricky = "a \"quoted\" piece, a back\\slash, a tab\tand a newline\n".to_string();
    builder.label(tricky.clone());
    let built: serde_json::Value = serde_json::from_str(&builder.json_builder()).unwrap();
    assert_eq!(built.as_object().unwrap().get("label").unwrap(), &tricky);
}

#[test]
fn currency_wire_names() {
    let mut builder = Payment::builder(
        "test@example.com".to_string(),
        Amount::new(100, 0, false),
        SecretString::new("secret_key".to_string()),
    );
    builder.currency(Currency::USD);
    let v: serde_json::Value = serde_json::from_str(&builder.json_builder()).unwrap();
    assert_eq!(v.as_object().unwrap().get("currency").unwrap(), "USD");
    builder.currency(Currency::KES);
    let v: serde_json::Value = serde_json::from_str(&builder.json_builder()).unwrap();
    assert_eq!(v.as_object().unwrap().get("currency").unwrap(), "KES");
}

#[test]
fn metadata_member() {
    let mut builder = init_builder();
    builder.metadata("some note".to_string());
    let v: serde_json::Value = serde_json::from_str(&builder.json_builder()).unwrap();
    assert_eq!(v.as_object().unwrap().get("metadata").unwrap(), "some note");
}

#[test]
fn amount_rendering() {
    assert_eq!(Amount::new(0, 0, false).render(), "0.00");
    assert_eq!(Amount::new(0, 5, false).render(), "0.05");
    assert_eq!(Amount::new(12, 34, true).render(), "-12.34");
    assert_eq!(Amount::new(987654321, 99, false).render(), "987654321.99");
    assert_eq!(
        Amount::new(u64::MAX, 0, false).render(),
        "18446744073709551615.00"
    );
}

#[test]
fn amount_getter() {
    let builder = init_builder();
    assert_eq!(builder.amount(), Amount::new(100, 0, false));
}

#[test]
fn build_and_payload() {
    let builder = init_builder();
    let payload_direct = builder.json_builder();
    let payment = builder.build();
    assert_eq!(payment.payload(), payload_direct);
    assert_eq!(payment.auth_header(), "Bearer secret_key");
}

#[test]
fn secret_round_trip() {
    let secret = SecretString::new("s3cr3t".to_string());
    assert_eq!(expose_secret(secret), "s3cr3t");
}
