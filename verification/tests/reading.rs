//! Reading SMS, amounts and model replies.

use spritexai_pay::ai::{
    after_reply, extract, json_object, log_attempt, parse_extraction, provider_request,
    providers_from_env, request_with, Extraction, Provider, ProviderVariables, Step,
};
use spritexai_pay::gateway::{
    amount_to_minor, assemble, resolve, Bkash, Gateway, Nagad, ParseError, ParsedTxn,
};
use spritexai_pay::money::format_minor;
use spritexai_pay::sms::normalize_msisdn;

#[test]
fn bkash_parses_txid_amount_sender() {
    let sms = "You have received Tk 500.00 from 01710000000. TrxID BGL7AH92KX at 12:04pm. \
               Balance Tk 1,250.00";
    let p = Bkash.parse_sms(sms).expect("bkash parse");
    assert_eq!(p.txn_id, "BGL7AH92KX");
    assert_eq!(p.amount_minor, 50_000);
    assert_eq!(p.sender_msisdn.as_deref(), Some("01710000000"));
}

#[test]
fn nagad_parses_txid_amount_sender() {
    let sms = "Money Received. Amount: Tk 320.50 Sender: 01820000000 TxnID: NGD8842PLQ";
    let p = Nagad.parse_sms(sms).expect("nagad parse");
    assert_eq!(p.txn_id, "NGD8842PLQ");
    assert_eq!(p.amount_minor, 32_050);
    assert_eq!(p.sender_msisdn.as_deref(), Some("01820000000"));
}

#[test]
fn garbage_sms_does_not_match() {
    assert!(Bkash
        .parse_sms("hello world, no txn here")
        .is_err());
}

#[test]
fn parse_errors_name_their_gateway() {
    let e = Bkash.parse_sms("TrxID ABC and no sum").unwrap_err();
    assert_eq!(e, ParseError::NoMatch("bkash"));
    assert_eq!(e.message(), "SMS did not match the bkash format");
    let e = Nagad.parse_sms("Amount: Tk 5").unwrap_err();
    assert_eq!(e, ParseError::NoMatch("nagad"));
    let e = assemble(
        "bkash",
        Some("A1".to_string()),
        Some(",".to_string()),
        None,
    )
    .unwrap_err();
    assert_eq!(e, ParseError::BadAmount);
    assert_eq!(e.message(), "could not parse amount from SMS");
}

#[test]
fn sender_is_optional() {
    let p = Bkash.parse_sms("received Tk 12.5 TrxID: zz9").unwrap();
    assert_eq!(p.amount_minor, 1_250);
    assert_eq!(p.txn_id, "zz9");
    assert_eq!(p.sender_msisdn, None);
}

#[test]
fn gateways_resolve_in_any_case() {
    assert_eq!(resolve("bKash").unwrap().id(), "bkash");
    assert_eq!(resolve("NAGAD").unwrap().id(), "nagad");
    assert!(resolve("rocket").is_none());
    assert!(resolve("").is_none());
}

#[test]
fn amounts_become_minor_units() {
    assert_eq!(amount_to_minor("1,234.56").unwrap(), 123_456);
    assert_eq!(amount_to_minor("500").unwrap(), 50_000);
    assert_eq!(amount_to_minor("1500.00").unwrap(), 150_000);
    assert_eq!(amount_to_minor("0.07").unwrap(), 7);
    assert_eq!(amount_to_minor(".5").unwrap(), 50);
    assert_eq!(amount_to_minor("5.").unwrap(), 500);
    assert_eq!(amount_to_minor("1.239").unwrap(), 124);
    assert_eq!(amount_to_minor("1.231").unwrap(), 123);
    assert_eq!(amount_to_minor("").unwrap_err(), ParseError::BadAmount);
    assert_eq!(amount_to_minor("1.2.3").unwrap_err(), ParseError::BadAmount);
    assert_eq!(amount_to_minor(".").unwrap_err(), ParseError::BadAmount);
    assert_eq!(
        amount_to_minor("99999999999999999999999").unwrap(),
        i64::MAX
    );
}

/// Amounts of two decimals read as the nearest float would.
#[test]
fn amounts_agree_with_floats() {
    for minor in [0i64, 1, 9, 10, 29, 57, 99, 100, 101, 11_499, 32_050, 999_999_999] {
        let text = format_minor(minor);
        let float: f64 = text.parse().unwrap();
        assert_eq!((float * 100.0).round() as i64, minor);
        assert_eq!(amount_to_minor(&text).unwrap(), minor);
        assert_eq!(text, format!("{:.2}", minor as f64 / 100.0));
    }
}

#[test]
fn amounts_are_written_with_two_decimals() {
    assert_eq!(format_minor(0), "0.00");
    assert_eq!(format_minor(5), "0.05");
    assert_eq!(format_minor(50_000), "500.00");
    assert_eq!(format_minor(-125), "-1.25");
    assert_eq!(format_minor(i64::MIN), "-92233720368547758.08");
}

#[test]
fn normalize_collapses_country_code_and_formatting() {
    assert_eq!(normalize_msisdn("+8801712345678"), "1712345678");
    assert_eq!(normalize_msisdn("8801712345678"), "1712345678");
    assert_eq!(normalize_msisdn("01712345678"), "1712345678");
    assert_eq!(normalize_msisdn("017-123 456 78"), "1712345678");
}

#[test]
fn normalizing_keeps_short_numbers_and_is_idempotent() {
    assert_eq!(normalize_msisdn("16247"), "16247");
    assert_eq!(normalize_msisdn("bKash"), "");
    let once = normalize_msisdn("+88 (0) 1712-345678");
    assert_eq!(once, "1712345678");
    assert_eq!(normalize_msisdn(&once), once);
}

// ---- model replies ----

/// What the service around the library does with the object in a reply.
fn reply(gateway: &'static str, content: &str) -> Option<ParsedTxn> {
    let object = json_object(content)?;
    let v: serde_json::Value = serde_json::from_str(&object).ok()?;
    let amount = v.get("amount_bdt").and_then(|a| a.as_f64());
    let ex = Extraction {
        txn_id: v.get("txn_id").and_then(|t| t.as_str()).map(str::to_string),
        amount_minor: match amount {
            Some(a) if a.is_finite() && a > 0.0 => Some((a * 100.0).round() as i64),
            _ => None,
        },
        sender_msisdn: v
            .get("sender_msisdn")
            .and_then(|t| t.as_str())
            .map(str::to_string),
    };
    parse_extraction(gateway, ex)
}

#[test]
fn parses_clean_json() {
    let t = reply(
        "bkash",
        r#"{"txn_id": "ABC123", "amount_bdt": 500.0, "sender_msisdn": "01710000000"}"#,
    )
    .unwrap();
    assert_eq!(t.txn_id, "ABC123");
    assert_eq!(t.amount_minor, 50_000);
    assert_eq!(t.sender_msisdn.as_deref(), Some("01710000000"));
}

#[test]
fn tolerates_code_fences_and_prose() {
    let content = "Sure! Here is the JSON:\n```json\n{\"txn_id\": \"XYZ9\", \"amount_bdt\": 120.5, \"sender_msisdn\": null}\n```";
    let t = reply("nagad", content).unwrap();
    assert_eq!(t.txn_id, "XYZ9");
    assert_eq!(t.amount_minor, 12_050);
    assert!(t.sender_msisdn.is_none());
}

#[test]
fn rejects_non_payment_and_garbage() {
    assert!(reply("bkash", r#"{"txn_id": null}"#).is_none());
    assert!(reply("bkash", "no json at all").is_none());
    assert!(reply("bkash", r#"{"txn_id": "A", "amount_bdt": -5}"#).is_none());
    assert!(reply("bkash", r#"{"txn_id": "", "amount_bdt": 10}"#).is_none());
}

#[test]
fn object_is_cut_from_the_first_to_the_last_brace() {
    assert_eq!(json_object("a{b{c}d}e").as_deref(), Some("{b{c}d}"));
    assert_eq!(json_object("}{"), None);
    assert_eq!(json_object("} and {"), None);
    assert_eq!(json_object("{"), None);
    assert_eq!(json_object("}"), None);
    assert_eq!(json_object(""), None);
    assert_eq!(json_object("{}").as_deref(), Some("{}"));
}

#[test]
fn extraction_is_trimmed() {
    let t = parse_extraction(
        "nagad",
        Extraction {
            txn_id: Some("  AB1\n".to_string()),
            amount_minor: Some(7),
            sender_msisdn: Some(String::new()),
        },
    )
    .unwrap();
    assert_eq!(t.gateway, "nagad");
    assert_eq!(t.txn_id, "AB1");
    assert_eq!(t.amount_minor, 7);
    assert_eq!(t.sender_msisdn, None);
    let blank = Extraction {
        txn_id: Some(" \t\u{3000}".to_string()),
        amount_minor: Some(7),
        sender_msisdn: None,
    };
    assert!(parse_extraction("nagad", blank).is_none());
    let no_amount = Extraction {
        txn_id: Some("A".to_string()),
        amount_minor: None,
        sender_msisdn: None,
    };
    assert!(parse_extraction("nagad", no_amount).is_none());
}

// ---- the provider chain ----

fn variables(key: Option<&str>) -> ProviderVariables {
    ProviderVariables {
        api_key: key.map(str::to_string),
        base_url: None,
        model: None,
    }
}

fn txn(id: &str) -> ParsedTxn {
    ParsedTxn {
        gateway: "bkash",
        txn_id: id.to_string(),
        amount_minor: 100,
        sender_msisdn: Some("017".to_string()),
    }
}

#[test]
fn chain_follows_the_configured_keys() {
    assert_eq!(providers_from_env(variables(None), variables(None)).len(), 0);
    assert_eq!(providers_from_env(variables(Some("")), variables(None)).len(), 0);
    let both = providers_from_env(variables(Some("k1")), variables(Some("k2")));
    assert_eq!(both.len(), 2);
    assert_eq!(both[0].name, "openrouter");
    assert_eq!(both[0].api_key, "k1");
    assert_eq!(both[0].base_url, "https://openrouter.ai/api/v1");
    assert_eq!(both[0].model, "meta-llama/llama-3.3-70b-instruct:free");
    assert_eq!(both[1].name, "opencode-zen");
    assert_eq!(both[1].base_url, "https://opencode.ai/zen/v1");
    assert_eq!(both[1].model, "grok-code");
    let own = providers_from_env(
        variables(None),
        ProviderVariables {
            api_key: Some("k".to_string()),
            base_url: Some("https://x".to_string()),
            model: Some(String::new()),
        },
    );
    assert_eq!(own.len(), 1);
    assert_eq!(own[0].base_url, "https://x");
    assert_eq!(own[0].model, "");
}

#[test]
fn first_extraction_wins() {
    let chain = providers_from_env(variables(Some("k1")), variables(Some("k2")));
    assert!(matches!(extract(&chain), Step::Ask(0)));
    assert!(matches!(after_reply(&chain, 0, None), Step::Ask(1)));
    assert!(matches!(after_reply(&chain, 1, None), Step::GiveUp));
    match after_reply(&chain, 0, Some(txn("A"))) {
        Step::Recovered(t) => assert_eq!(t.txn_id, "A"),
        other => panic!("{other:?}"),
    }
    let none: Vec<Provider> = Vec::new();
    assert!(matches!(extract(&none), Step::GiveUp));
}

#[test]
fn every_attempt_is_logged() {
    let chain = providers_from_env(variables(None), variables(Some("k2")));
    let failed = log_attempt("bkash", "ff", &chain[0], &None);
    assert_eq!(failed.success, 0);
    assert_eq!(failed.provider, "opencode-zen");
    assert_eq!(failed.txn_id, None);
    let won = log_attempt("bkash", "ff", &chain[0], &Some(txn("A")));
    assert_eq!(won.success, 1);
    assert_eq!(won.raw_sha256, "ff");
    assert_eq!(won.txn_id.as_deref(), Some("A"));
    assert_eq!(won.amount_minor, Some(100));
    assert_eq!(won.sender_msisdn.as_deref(), Some("017"));
}

#[test]
fn request_is_the_json_document_that_providers_expect() {
    let chain = providers_from_env(variables(Some("k1")), variables(None));
    let r = provider_request(&chain[0], "line\n\"quoted\"");
    assert_eq!(r.url, "https://openrouter.ai/api/v1/chat/completions");
    assert_eq!(r.token, "k1");
    let v: serde_json::Value = serde_json::from_str(&r.body).unwrap();
    assert_eq!(v["model"], "meta-llama/llama-3.3-70b-instruct:free");
    assert_eq!(v["temperature"], 0);
    assert_eq!(v["messages"][0]["role"], "system");
    assert_eq!(v["messages"][1]["role"], "user");
    assert_eq!(v["messages"][1]["content"], "line\n\"quoted\"");
    assert!(v["messages"][0]["content"]
        .as_str()
        .unwrap()
        .starts_with("You extract fields from a mobile-money (bKash/Nagad Bangladesh)"));
    assert_eq!(
        request_with("\"m\"", "\"p\"", "\"s\""),
        r#"{"messages":[{"content":"p","role":"system"},{"content":"s","role":"user"}],"model":"m","temperature":0}"#
    );
}
