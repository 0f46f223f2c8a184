use onecipher::commands::intent::{
    apply_sponsor_mode, confirmation, map_intent_error, parse_intent_kind, parse_sponsor_mode,
    prompt_text, prompt_yes_no, run_execute, run_simulate, run_submit, sponsored_hash, IntentKind,
    MessageEncoding, SponsorMode, SponsorStep, Submission,
};
use onecipher::error::CliError;

fn text(s: &str) -> String {
    s.to_string()
}

fn some(s: &str) -> Option<String> {
    Some(s.to_string())
}

#[test]
fn parse_intent_kind_pay_minimal() {
    let json = r#"{"type":"Pay","amount":"10.5 USDC","recipient":"0xabc"}"#;
    let kind = parse_intent_kind(json).expect("parse");
    match kind {
        IntentKind::Pay { amount, recipient, token } => {
            assert_eq!(amount, "10.5 USDC");
            assert_eq!(recipient, "0xabc");
            assert!(token.is_none());
        }
        other => panic!("expected Pay, got {other:?}"),
    }
}

#[test]
fn parse_intent_kind_pay_with_token() {
    let json = r#"{"type":"Pay","amount":"1 USDC","recipient":"0xabc","token":"eip155:8453/erc20:0x1"}"#;
    let kind = parse_intent_kind(json).expect("parse");
    match kind {
        IntentKind::Pay { token, .. } => {
            assert_eq!(token.as_deref(), Some("eip155:8453/erc20:0x1"));
        }
        other => panic!("expected Pay, got {other:?}"),
    }
}

#[test]
fn parse_intent_kind_sign_transaction() {
    let json = r#"{"type":"SignTransaction","tx_hex":"0xdead","chain_id":"eip155:1"}"#;
    let kind = parse_intent_kind(json).expect("parse");
    match kind {
        IntentKind::SignTransaction { tx_hex, chain_id } => {
            assert_eq!(tx_hex, "0xdead");
            assert_eq!(chain_id, "eip155:1");
        }
        other => panic!("expected SignTransaction, got {other:?}"),
    }
}

#[test]
fn parse_intent_kind_sign_message_default_utf8() {
    let json = r#"{"type":"SignMessage","message":"hello"}"#;
    let kind = parse_intent_kind(json).expect("parse");
    match kind {
        IntentKind::SignMessage { message, encoding } => {
            assert_eq!(message, "hello");
            assert_eq!(encoding, MessageEncoding::Utf8);
        }
        other => panic!("expected SignMessage, got {other:?}"),
    }
}

#[test]
fn parse_intent_kind_sign_message_hex_encoding() {
    let json = r#"{"type":"SignMessage","message":"deadbeef","encoding":"hex"}"#;
    let kind = parse_intent_kind(json).expect("parse");
    match kind {
        IntentKind::SignMessage { encoding, .. } => assert_eq!(encoding, MessageEncoding::Hex),
        other => panic!("expected SignMessage, got {other:?}"),
    }
}

const CROSS_CHAIN: &str = r#"{
    "type":"CrossChainTransfer",
    "amount":"100 USDC",
    "asset":"eip155:8453/erc20:0x1",
    "from_chain":"eip155:8453",
    "to_chain":"eip155:42161",
    "recipient":"0xdef"
}"#;

#[test]
fn parse_intent_kind_cross_chain_transfer() {
    let kind = parse_intent_kind(CROSS_CHAIN).expect("parse");
    match kind {
        IntentKind::CrossChainTransfer { amount, from_chain, to_chain, .. } => {
            assert_eq!(amount, "100 USDC");
            assert_eq!(from_chain, "eip155:8453");
            assert_eq!(to_chain, "eip155:42161");
        }
        other => panic!("expected CrossChainTransfer, got {other:?}"),
    }
}

#[test]
fn parse_intent_kind_rejects_missing_type() {
    let json = r#"{"amount":"10 USDC"}"#;
    assert!(matches!(parse_intent_kind(json), Err(CliError::InvalidArgs(_))));
}

#[test]
fn parse_intent_kind_rejects_unknown_type() {
    let json = r#"{"type":"Foo","amount":"10"}"#;
    assert!(matches!(parse_intent_kind(json), Err(CliError::InvalidArgs(_))));
}

#[test]
fn parse_intent_kind_rejects_invalid_json() {
    let json = r"not json";
    assert!(matches!(parse_intent_kind(json), Err(CliError::InvalidArgs(_))));
}

#[test]
fn parse_intent_kind_rejects_pay_missing_amount() {
    let json = r#"{"type":"Pay","recipient":"0xabc"}"#;
    assert!(matches!(parse_intent_kind(json), Err(CliError::InvalidArgs(_))));
}

#[test]
fn parse_intent_kind_rejects_bad_encoding() {
    let json = r#"{"type":"SignMessage","message":"hi","encoding":"binary"}"#;
    assert!(matches!(parse_intent_kind(json), Err(CliError::InvalidArgs(_))));
}

#[test]
fn parse_sponsor_mode_native_variants() {
    assert_eq!(parse_sponsor_mode("native").unwrap(), SponsorMode::Native);
    assert_eq!(parse_sponsor_mode("").unwrap(), SponsorMode::Native);
    assert_eq!(parse_sponsor_mode("NATIVE").unwrap(), SponsorMode::Native);
}

#[test]
fn parse_sponsor_mode_sponsored() {
    assert_eq!(parse_sponsor_mode("sponsored").unwrap(), SponsorMode::Sponsored);
    assert_eq!(parse_sponsor_mode("SPONSORED").unwrap(), SponsorMode::Sponsored);
}

#[test]
fn parse_sponsor_mode_payin_usdc_variants() {
    assert_eq!(parse_sponsor_mode("payin-usdc").unwrap(), SponsorMode::PayInUsdc);
    assert_eq!(parse_sponsor_mode("payin_usdc").unwrap(), SponsorMode::PayInUsdc);
    assert_eq!(parse_sponsor_mode("usdc").unwrap(), SponsorMode::PayInUsdc);
}

#[test]
fn parse_sponsor_mode_rejects_unknown() {
    assert!(matches!(parse_sponsor_mode("foo"), Err(CliError::InvalidArgs(_))));
}

#[test]
fn run_simulate_pay_intent_prints_summary() {
    let json = r#"{"type":"Pay","amount":"10.5 USDC","recipient":"0xabc"}"#;
    let plan = run_simulate(json, "eip155:8453", "sk-test", &None).unwrap();
    assert_eq!(plan.chain_id, "eip155:8453");
    assert_eq!(plan.session_key_id, "sk-test");
    assert_eq!(plan.sponsor, SponsorMode::Native);
}

#[test]
fn run_simulate_sign_message_intent() {
    let json = r#"{"type":"SignMessage","message":"hello"}"#;
    let result = run_simulate(json, "eip155:1", "sk-test", &None);
    assert!(result.is_ok());
}

#[test]
fn run_simulate_rejects_bad_json() {
    let result = run_simulate("not json", "eip155:1", "sk-test", &None);
    assert!(matches!(result, Err(CliError::InvalidArgs(_))));
}

#[test]
fn run_execute_pay_intent_succeeds_with_mock_rpc() {
    let json = r#"{"type":"Pay","amount":"10.5 USDC","recipient":"0xabc"}"#;
    let plan = run_execute(json, "eip155:8453", "sk-test", "native", &some("http://n")).unwrap();
    assert_eq!(plan.rpc_url.as_deref(), Some("http://n"));
    assert!(matches!(
        apply_sponsor_mode(plan.sponsor, &Err(text("unset")), &None),
        SponsorStep::Keep
    ));
}

#[test]
fn run_execute_sign_transaction_intent() {
    let json = r#"{"type":"SignTransaction","tx_hex":"0xdeadbeef","chain_id":"eip155:1"}"#;
    let result = run_execute(json, "eip155:1", "sk-test", "native", &None);
    assert!(result.is_ok());
}

#[test]
fn run_submit_with_yes_flag_skips_prompt() {
    let json = r#"{"type":"Pay","amount":"1 USDC","recipient":"0xabc"}"#;
    let result =
        run_submit(json, "eip155:8453", "sk-test", "native", true, &None, false, &None);
    assert!(matches!(result, Ok(Submission::Execute(p)) if p.chain_id == "eip155:8453"));
}

#[test]
fn run_submit_without_yes_in_noninteractive_cancels_gracefully() {
    let json = r#"{"type":"Pay","amount":"1 USDC","recipient":"0xabc"}"#;
    let result =
        run_submit(json, "eip155:8453", "sk-test", "native", false, &None, false, &some("y"));
    assert!(matches!(result, Ok(Submission::Cancelled)));
}

#[test]
fn run_submit_cross_chain_transfer_with_yes() {
    let result =
        run_submit(CROSS_CHAIN, "eip155:8453", "sk-test", "native", true, &None, false, &None);
    assert!(matches!(result, Ok(Submission::Execute(_))));
}

#[test]
fn run_submit_rejects_invalid_sponsor_mode() {
    let json = r#"{"type":"Pay","amount":"1 USDC","recipient":"0xabc"}"#;
    let result =
        run_submit(json, "eip155:8453", "sk-test", "invalid-mode", true, &None, false, &None);
    assert!(matches!(result, Err(CliError::InvalidArgs(_))));
}

#[test]
fn run_submit_asks_at_the_terminal() {
    let json = r#"{"type":"Pay","amount":"1 USDC","recipient":"0xabc"}"#;
    let yes = run_submit(json, "c", "s", "", false, &None, true, &some(" Yes\n"));
    assert!(matches!(yes, Ok(Submission::Execute(_))));
    let no = run_submit(json, "c", "s", "", false, &None, true, &some("yep\n"));
    assert!(matches!(no, Ok(Submission::Cancelled)));
}

#[test]
fn run_execute_with_sponsor_mode_falls_back_when_env_unset() {
    let json = r#"{"type":"Pay","amount":"1 USDC","recipient":"0xabc"}"#;
    let plan = run_execute(json, "eip155:8453", "sk-test", "sponsored", &None).unwrap();
    let step = apply_sponsor_mode(plan.sponsor, &Err(text("PAYMASTER_URL unset")), &some("0x1"));
    match step {
        SponsorStep::Warn(w) => assert_eq!(
            w,
            "warning: paymaster not configured (PAYMASTER_URL unset); falling back to native gas"
        ),
        other => panic!("expected a fallback, got {other:?}"),
    }
}

#[test]
fn sponsors_are_asked() {
    let step = apply_sponsor_mode(SponsorMode::Sponsored, &Ok(()), &some("0xabc"));
    assert!(matches!(step, SponsorStep::Sponsor(s) if s == "0xabc"));
    let step = apply_sponsor_mode(SponsorMode::PayInUsdc, &Ok(()), &None);
    assert!(matches!(step, SponsorStep::Sponsor(s) if s.len() == 42));
    assert_eq!(sponsored_hash(&some("0x1"), &Ok(text("0x2"))).as_deref(), Some("0x2"));
    assert_eq!(sponsored_hash(&some("0x1"), &Ok(text(""))).as_deref(), Some("0x1"));
    assert_eq!(sponsored_hash(&None, &Err(text("down"))), None);
}

#[test]
fn prompt_yes_no_returns_false_in_noninteractive_context() {
    assert!(!prompt_yes_no(false, &some("y")));
    assert!(prompt_yes_no(true, &some("Y\n")));
    assert!(!prompt_yes_no(true, &None));
}

#[test]
fn prompts_show_the_summary() {
    let c = confirmation("Pay", "0.0100", "10.51", &vec![]);
    assert_eq!(c, "Pay\n  gas: $0.0100, total: $10.51\n  warnings: none\nConfirm?");
    let c = confirmation("Pay", "0.0100", "10.51", &vec![text("a"), text("b")]);
    assert!(c.contains("warnings: a; b\n"));
    assert!(prompt_text("Confirm?", true).contains("Confirm?"));
    assert!(map_intent_error("boom").message().contains("intent error: boom"));
}
