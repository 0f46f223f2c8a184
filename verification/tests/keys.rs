use core::cmp::Ordering;

use base64::Engine;
use ed25519_dalek::{Verifier, VerifyingKey};

use onecipher::codec::strip_0x;
use onecipher::commands::send::{
    build_transfer_data, estimate_params, fees, nonce_params, parse_evm_address, plan, report,
    rpc_hex_to_u64, rpc_reply, rpc_request, rpc_status_error, transfer_tx, unsigned_tx, Fees,
    SendArgs,
};
use onecipher::commands::session_key::PasskeyAuthorization;
use onecipher::commands::sign_auth::{auth_chain_id, auth_document, normalize};
use onecipher::commands::update::{
    binary_url, bindings_end, bindings_start, choose_pip, compare_versions_numeric,
    detect_platform, download_failed, extract_json_string, fetch_url_bytes, fetch_url_text,
    get_latest_tag, install_dir, is_newer_version, latest_url, run, Bindings, Pip,
};
use onecipher::commands::vanity::{
    banner, checked_checksum, eip55_checksum, parse_pattern, show, try_fresh, try_secret, wanted,
};
use onecipher::commands::wallet::{derived_key, export_public_key, Curve};
use onecipher::commands::wallet_rpc::{
    daemon_config, ed25519_public_key, error_response, handle_generate_challenge, handle_keys,
    handle_sign, handle_sign_payment, intent_error, intent_params, intent_sender,
    invalid_challenge_params, invalid_payment_params, listening_line, parse_auth, parse_loopback,
    payment_response, require_authorization, rpc, secp256k1_public_key, serve, sign_ed25519,
    signed_response, success_response, Alg, GenerateChallengeParams, IntentStep, ListenAddress,
    Method, RpcError, SignPaymentParams, Signed, StoredPasskey,
};
use onecipher::rlp::{encode_bytes, encode_list, rlp_u128, rlp_uint};

fn text(s: &str) -> String {
    s.to_string()
}

fn some(s: &str) -> Option<String> {
    Some(s.to_string())
}

fn json(s: &str) -> serde_json::Value {
    serde_json::from_str(s).unwrap()
}

fn b64(bytes: &[u8]) -> String {
    base64::engine::general_purpose::STANDARD.encode(bytes)
}

fn unb64(s: &str) -> Vec<u8> {
    base64::engine::general_purpose::STANDARD.decode(s).expect("valid base64")
}

// Transfers

#[test]
fn parses_evm_addresses() {
    let addr = "0x00B8E3e3d589577bAeAbbE0f72993e5F72e82f00";
    assert_eq!(parse_evm_address(addr).unwrap(), addr[2..].to_ascii_lowercase());
    assert!(parse_evm_address("0x1234").is_err());
    assert!(parse_evm_address("0xGGG8E3e3d589577bAeAbbE0f72993e5F72e82f00").is_err());
}

#[test]
fn builds_transfer_calldata() {
    let to = "00B8E3e3d589577bAeAbbE0f72993e5F72e82f00".to_string();
    let data = build_transfer_data(&to, 1_000_000).unwrap();
    assert_eq!(&data[..4], &[0xa9, 0x05, 0x9c, 0xbb]);
    assert_eq!(data.len(), 4 + 32 + 32);
    assert_eq!(&data[4..16], &[0u8; 12]);
    assert_eq!(&data[16..36], &hex::decode(&to).unwrap()[..]);
    assert_eq!(&data[36..52], &[0u8; 16]);
    assert_eq!(u128::from_be_bytes(data[52..68].try_into().unwrap()), 1_000_000);
}

#[test]
fn rlp_uint_encodes_minimally() {
    assert_eq!(rlp_uint(0), Vec::<u8>::new());
    assert_eq!(rlp_uint(1), vec![1]);
    assert_eq!(rlp_uint(0x4cef52), vec![0x4c, 0xef, 0x52]);
}

#[test]
fn rlp_u128_encoding() {
    assert_eq!(rlp_u128(0), encode_bytes(&[]));
    assert_eq!(rlp_u128(1), encode_bytes(&[1]));
    assert_eq!(rlp_u128(0x010203), encode_bytes(&[1, 2, 3]));
}

#[test]
fn rlp_follows_its_tables() {
    assert_eq!(encode_bytes(b"dog"), vec![0x83, b'd', b'o', b'g']);
    assert_eq!(encode_bytes(&[]), vec![0x80]);
    assert_eq!(encode_bytes(&[0x7f]), vec![0x7f]);
    assert_eq!(encode_bytes(&[0x80]), vec![0x81, 0x80]);
    let long = encode_bytes(&[b'x'; 56]);
    assert_eq!(&long[..3], &[0xb8, 56, b'x']);
    assert_eq!(encode_list(&[0x83, b'c', b'a', b't']), vec![0xc4, 0x83, b'c', b'a', b't']);
    assert_eq!(encode_list(&[]), vec![0xc0]);
    assert_eq!(rlp_u128(u128::MAX)[0], 0x90);
}

fn send_args() -> SendArgs {
    SendArgs {
        chain: text("base"),
        evm: true,
        wallet: text("w"),
        to: text("0x1111111111111111111111111111111111111111"),
        token: text("0x2222222222222222222222222222222222222222"),
        amount: text("5"),
        rpc_url: text("http://n"),
        token_credential: false,
    }
}

#[test]
fn transfers_are_planned() {
    let p = plan(&send_args()).unwrap();
    assert_eq!(p.amount, 5);
    assert_eq!(p.recipient, "1111111111111111111111111111111111111111");
    assert_eq!(p.token, "2222222222222222222222222222222222222222");
    for change in 0..5 {
        let mut a = send_args();
        match change {
            0 => a.evm = false,
            1 => a.to = text("0x1"),
            2 => a.token = text("nope"),
            3 => a.amount = text("-1"),
            _ => a.token_credential = true,
        }
        assert!(plan(&a).is_err(), "change {change}");
    }
    let mut a = send_args();
    a.wallet = text(" ");
    a.amount = text(" 340282366920938463463374607431768211455 ");
    let p = plan(&a).unwrap();
    assert_eq!((p.wallet.as_str(), p.amount), ("default", u128::MAX));
}

#[test]
fn transfers_are_typed_transactions() {
    let p = plan(&send_args()).unwrap();
    let f = fees(10, 20);
    assert_eq!((f.max_fee, f.max_priority_fee), (20, 20));
    let f = fees(30, 2);
    assert_eq!((f.max_fee, f.max_priority_fee), (30, 2));
    let tx = transfer_tx(&p, 8453, 7, f, 60_000).unwrap();
    assert_eq!(tx[0], 0x02);
    let tx = unsigned_tx(
        1,
        0,
        Fees { max_fee: 2, max_priority_fee: 1 },
        21_000,
        &vec![0x11; 20],
        &vec![],
    );
    assert_eq!(
        hex::encode(tx),
        "02df018001028252089411111111111111111111111111111111111111118080c0"
    );
}

#[test]
fn nodes_are_asked() {
    let v = rpc_request("eth_chainId", json("[]"));
    assert_eq!(v["jsonrpc"], "2.0");
    assert_eq!(v["method"], "eth_chainId");
    assert_eq!(v["params"], json("[]"));
    assert_eq!(nonce_params("0xa"), json(r#"["0xa","pending"]"#));
    let e = estimate_params("0xa", "bb", &vec![1, 255]);
    assert_eq!(e[0]["from"], "0xa");
    assert_eq!(e[0]["data"], "0x01ff");
    assert!(e[0]["to"].as_str().unwrap().ends_with("bb"));
}

#[test]
fn replies_are_checked() {
    assert_eq!(rpc_reply("m", r#"{"result":"0x1"}"#).unwrap(), "0x1");
    assert!(rpc_reply("m", "{").unwrap_err().message().contains("rpc 'm' bad JSON: "));
    let e = rpc_reply("m", r#"{"error":{"code":-1}}"#).unwrap_err();
    assert!(e.message().contains(r#"rpc 'm' error: {"code":-1}"#));
    let e = rpc_status_error("m", "500", "oops");
    assert!(e.message().contains("rpc 'm' failed (HTTP 500): oops"));
    assert_eq!(rpc_hex_to_u64(&json(r#""0x2105""#), "chainId").unwrap(), 8453);
    let e = rpc_hex_to_u64(&json("7"), "chainId").unwrap_err();
    assert!(e.message().contains("'chainId' returned non-string: 7"));
    let e = rpc_hex_to_u64(&json(r#""0xzz""#), "chainId").unwrap_err();
    assert!(e.message().contains("'chainId' bad hex '0xzz': "));
    assert!(rpc_hex_to_u64(&json(r#""0x10000000000000000""#), "n").is_err());
}

#[test]
fn sent_transfers_are_reported() {
    let p = plan(&send_args()).unwrap();
    let v = report(&p, "base", "0xh", "0xf", 8453, 7, 60_000);
    assert_eq!(v["tx_hash"], "0xh");
    assert_eq!(v["chain_id"], 8453);
    assert_eq!(v["nonce"], 7);
}

// Authorizations

#[test]
fn authorizations_are_for_evm_chains() {
    assert_eq!(auth_chain_id("eip155:8453", true).unwrap(), "8453");
    assert!(auth_chain_id("solana:x", false).unwrap_err().message().contains("only supported"));
    assert!(auth_chain_id("x:1", true).unwrap_err().message().contains("missing an eip155"));
}

#[test]
fn recovery_bytes_count_from_27() {
    let mut sig = vec![0u8; 65];
    sig[64] = 1;
    let once = normalize(sig);
    assert_eq!(once[64], 28);
    assert_eq!(normalize(once.clone()), once);
    assert_eq!(normalize(vec![1, 2]), vec![1, 2]);
    let d = auth_document("1", "0xd", "0", &vec![0xab], &vec![0xcd]);
    assert_eq!(d["signature"], "0xab");
    assert_eq!(d["authorization_hash"], "0xcd");
}

// Vanity addresses

#[test]
fn checksums_follow_eip55() {
    assert_eq!(
        eip55_checksum("5aaeb6053f3e94c9b9a09f33669435e7ef1beaed"),
        "5aAeb6053F3E94C9b9A09f33669435E7Ef1BeAed"
    );
    assert_eq!(
        eip55_checksum("FB6916095CA1DF60BB79CE92CE3EA74C37C5D359"),
        "fB6916095ca1df60bB79Ce92cE3Ea74c37c5d359"
    );
    assert_eq!(
        checked_checksum("5AAEB6053F3E94C9B9A09F33669435E7EF1BEAED").unwrap(),
        "5aAeb6053F3E94C9b9A09f33669435E7Ef1BeAed"
    );
    let long = "0".repeat(70);
    assert_eq!(checked_checksum(&long).unwrap(), long);
    assert!(checked_checksum(&(long + "a")).is_none());
}

fn one() -> Vec<u8> {
    let mut s = vec![0u8; 32];
    s[31] = 1;
    s
}

#[test]
fn secrets_are_tried() {
    let w = wanted(&some("0x7E5f"), &None).unwrap();
    let v = try_secret(&one(), &w).unwrap();
    assert_eq!(v.address, "0x7E5F4552091A69125d5DfCb7b8C2659029395Bdf");
    assert_eq!(v.private_key, hex::encode(one()));
    assert!(show(&v).starts_with("Address:     0x7E5F"));
    let w = wanted(&None, &some("bdf")).unwrap();
    assert!(try_secret(&one(), &w).is_some());
    let w = wanted(&some("00"), &some("bdf")).unwrap();
    assert!(try_secret(&one(), &w).is_none());
    assert!(try_secret(&vec![0; 32], &wanted(&some("7"), &None).unwrap()).is_none());
}

#[test]
fn fresh_secrets_differ() {
    let w = wanted(&some("0"), &None).unwrap();
    let mut found = Vec::new();
    for _ in 0..2_000 {
        if let Ok(Some(v)) = try_fresh(&w) {
            assert!(v.address.starts_with("0x0"));
            found.push(v.private_key);
        }
    }
    assert!(found.len() > 1);
    found.dedup();
    assert!(found.len() > 1);
}

#[test]
fn patterns_are_hexadecimal() {
    assert_eq!(parse_pattern(" 0XAb ", "p").unwrap(), "ab");
    assert!(parse_pattern("0x", "p").unwrap_err().message().contains("p pattern cannot be empty"));
    assert!(parse_pattern(&"a".repeat(41), "p").unwrap_err().message().contains("too long"));
    assert!(parse_pattern("xyz", "p").unwrap_err().message().contains("valid hex pattern"));
    assert!(wanted(&None, &None).unwrap_err().message().contains("at least one of"));
    let w = wanted(&some("a"), &None).unwrap();
    assert_eq!(banner(&w, 4, 1)[0], "Generating vanity address with 4 threads...");
}

// Public keys

const ED_SECRET: &str = "9d61b19deffd5a60ba844af492ec2cc44449c5697b326919703bac031cae7f60";
const ED_PUBLIC: &str = "d75a980182b10ab7d54bfed3c964073a0ee172f3daa62325af021a68f707511a";
const ED_SIGNATURE: &str = "e5564300c360ac729086e2cc806e828a84877f1eb8e5d974d873e065224901555fb8821590a33bacc61e39701cf9b46bd25bf5f0595bbe24655141438e7a100b";

#[test]
fn public_keys_are_derived() {
    assert_eq!(
        derived_key(Curve::Secp256k1, &one(), true).unwrap(),
        "0279be667ef9dcbbac55a06295ce870b07029bfcdb2dce28d959f2815b16f81798"
    );
    let long = derived_key(Curve::Secp256k1, &one(), false).unwrap();
    assert_eq!(long.len(), 130);
    assert!(long.starts_with("0479be667e"));
    let ed = derived_key(Curve::Ed25519, &hex::decode(ED_SECRET).unwrap(), true).unwrap();
    assert_eq!(ed, ED_PUBLIC);
    assert!(derived_key(Curve::Ed25519, &[1], true).is_err());
    assert!(derived_key(Curve::Secp256k1, &[0; 32], true).is_err());
}

#[test]
fn key_pairs_hold_their_public_key() {
    let material = format!(r#"{{"secp256k1":"0x{}"}}"#, hex::encode(one()));
    let k = export_public_key(&material, true).unwrap();
    assert!(k.starts_with("0279be667e"));
    assert_eq!(export_public_key("{", true).unwrap_err().code(), "JSON_ERROR");
    assert!(export_public_key("{}", true).unwrap_err().message().contains("missing secp256k1"));
    let bad = r#"{"secp256k1":"zz"}"#;
    assert!(export_public_key(bad, true).unwrap_err().message().contains("invalid hex: "));
    let bad = r#"{"secp256k1":"00"}"#;
    assert!(export_public_key(bad, true).unwrap_err().message().contains("invalid private key: "));
    assert_eq!(strip_0x("0xab"), "ab");
}

// The signer for local programs

fn ed_secret() -> Vec<u8> {
    hex::decode(ED_SECRET).unwrap()
}

fn keys_json() -> serde_json::Value {
    handle_keys(&ed25519_public_key(&ed_secret()), &secp256k1_public_key(&one()))
        .expect("keys should succeed")
}

fn check_keys() {
    let v = keys_json();
    let arr = v.as_array().expect("result must be an array");
    assert_eq!(arr.len(), 2, "expected ed25519 + secp256k1 keys");
    let algs: Vec<&str> = arr.iter().map(|k| k["alg"].as_str().unwrap_or("")).collect();
    assert!(algs.contains(&"ed25519"));
    assert!(algs.contains(&"secp256k1"));
    for k in arr {
        let pk = k["public_key"].as_str().expect("public_key must be a string");
        assert!(!unb64(pk).is_empty());
    }
}

#[test]
fn wallet_rpc_keys_returns_both_algs() {
    check_keys();
}

#[test]
fn mod_keys_returns_both_algs() {
    check_keys();
    let v = keys_json();
    assert_eq!(unb64(v[0]["public_key"].as_str().unwrap()), hex::decode(ED_PUBLIC).unwrap());
    assert!(handle_keys(&Err(text("locked")), &Ok(vec![])).unwrap_err().message() == "locked");
    assert!(handle_keys(&Ok(vec![]), &Err(text("x"))).unwrap_err().code() == -32603);
    assert!(ed25519_public_key(&[1]).unwrap_err().contains("invalid ed25519 key length"));
    assert!(secp256k1_public_key(&[0; 32]).unwrap_err().contains("invalid secp256k1 key: "));
}

fn check_ed25519() {
    let mut params = json(r#"{"domain":"warrant"}"#);
    params["message"] = b64(b"hello ledgerflow").into();
    let request = handle_sign(&params).expect("sign should succeed");
    assert_eq!(request.alg, Alg::Ed25519);
    let signed = sign_ed25519(&ed_secret(), &request.message).expect("sign should succeed");
    let out = signed_response(request.alg, &signed);
    assert_eq!(out["signer"]["alg"], "ed25519");
    assert_eq!(out["signature"]["alg"], "ed25519");
    let sig = unb64(out["signature"]["value"].as_str().unwrap());
    assert_eq!(sig.len(), 64, "ed25519 signature must be 64 bytes");
    let key: [u8; 32] = unb64(out["signer"]["public_key"].as_str().unwrap()).try_into().unwrap();
    let key = VerifyingKey::from_bytes(&key).unwrap();
    let sig: [u8; 64] = sig.try_into().unwrap();
    assert!(key.verify(b"hello ledgerflow", &ed25519_dalek::Signature::from_bytes(&sig)).is_ok());
}

#[test]
fn wallet_rpc_sign_ed25519_returns_valid_signature() {
    check_ed25519();
}

#[test]
fn mod_sign_ed25519_returns_valid_signature() {
    check_ed25519();
    let s = sign_ed25519(&ed_secret(), b"").unwrap();
    assert_eq!(hex::encode(&s.signature), ED_SIGNATURE);
    assert!(sign_ed25519(&[1], b"").unwrap_err().message().contains("key length"));
}

fn check_secp256k1() {
    let mut params = json(r#"{"key":{"alg":"Secp256k1"}}"#);
    params["message"] = b64(b"hello").into();
    let request = handle_sign(&params).expect("sign should succeed");
    assert_eq!(request.alg, Alg::Secp256k1);
    assert_eq!(request.message, b"hello");
    assert_eq!(request.alg.chain_id(), "eip155:1");
    let signed = Signed { signature: vec![7; 65], public_key: vec![2; 33] };
    let out = signed_response(request.alg, &signed);
    assert_eq!(out["signer"]["alg"], "secp256k1");
    let sig = unb64(out["signature"]["value"].as_str().unwrap());
    assert_eq!(sig.len(), 65, "secp256k1 EIP-191 signature must be 65 bytes");
}

#[test]
fn wallet_rpc_sign_secp256k1_returns_valid_signature() {
    check_secp256k1();
}

#[test]
fn mod_sign_secp256k1_returns_valid_signature() {
    check_secp256k1();
}

#[test]
fn wallet_rpc_sign_rejects_missing_message() {
    let err = handle_sign(&json(r#"{"domain":"proof"}"#)).unwrap_err();
    assert_eq!(err.code(), -32602);
}

#[test]
fn mod_sign_rejects_missing_message() {
    let err = handle_sign(&json(r#"{"domain":"proof"}"#)).unwrap_err();
    assert_eq!(err.code(), -32602);
    let err = handle_sign(&json(r#"{"message":"***"}"#)).unwrap_err();
    assert!(err.message().starts_with("invalid base64 message: "));
    let err = handle_sign(&json(r#"{"message":"aGk=","key":{"alg":"RSA"}}"#)).unwrap_err();
    assert_eq!(err.message(), "unsupported alg: rsa");
}

fn payment(chain: &str) -> SignPaymentParams {
    SignPaymentParams::new(
        text(chain),
        some("1000000000000000"),
        some("0x1111111111111111111111111111111111111111"),
        some("0"),
    )
}

fn check_payment() {
    let tx = handle_sign_payment(&payment("eip155:8453")).expect("payment should be built");
    assert_eq!(tx[0], 0x02);
    let out = payment_response(&tx);
    let raw = out["raw_transaction"].as_str().expect("raw_transaction must be a string");
    assert!(raw.starts_with("0x02"), "must be an EIP-1559 (type 0x02) transaction, got {raw}");
    let bytes = hex::decode(raw.strip_prefix("0x").unwrap()).expect("valid hex");
    assert_eq!(bytes, tx);
}

#[test]
fn wallet_rpc_sign_payment_builds_eip1559_raw_transaction() {
    check_payment();
}

#[test]
fn mod_sign_payment_builds_eip1559_raw_transaction() {
    check_payment();
    let p = payment("eip155:1");
    assert_eq!(p.chain_id(), "eip155:1");
    assert_eq!(p.amount(), Some("1000000000000000"));
    assert_eq!(p.nonce(), Some("0"));
    assert!(p.payee().unwrap().starts_with("0x11"));
}

#[test]
fn wallet_rpc_sign_payment_rejects_bad_chain() {
    let p = SignPaymentParams::new(
        text("solana:mainnet"),
        None,
        some("0x1111111111111111111111111111111111111111"),
        None,
    );
    assert_eq!(handle_sign_payment(&p).unwrap_err().code(), -32602);
}

#[test]
fn mod_sign_payment_rejects_bad_chain() {
    let p = payment("solana:mainnet");
    assert_eq!(handle_sign_payment(&p).unwrap_err().code(), -32602);
    let p = SignPaymentParams::new(text("eip155:1"), None, None, None);
    assert!(handle_sign_payment(&p).is_err());
    let p = SignPaymentParams::new(text("eip155:1"), some("x"), some("0x11"), None);
    assert!(handle_sign_payment(&p).is_err());
}

fn check_bound() {
    let bound = StoredPasskey::Bound(text("wallet-1"));
    require_authorization(&Ok(()), &Ok(text("wallet-1")), &bound)
        .expect("bound passkey must authorize");
}

#[test]
fn wallet_rpc_authorization_accepts_passkey_bound_to_configured_wallet() {
    check_bound();
}

#[test]
fn mod_authorization_accepts_passkey_bound_to_configured_wallet() {
    check_bound();
}

fn check_foreign() {
    let bound = StoredPasskey::Bound(text("other-wallet-id"));
    let err = require_authorization(&Ok(()), &Ok(text("wallet-1")), &bound)
        .expect_err("foreign wallet binding must fail");
    assert_eq!(err.code(), -32602);
    assert!(err.message().contains("configured wallet"));
}

#[test]
fn wallet_rpc_authorization_rejects_passkey_bound_to_different_wallet() {
    check_foreign();
}

#[test]
fn mod_authorization_rejects_passkey_bound_to_different_wallet() {
    check_foreign();
    let w = Ok(text("w"));
    let e = require_authorization(&Err(text("stale")), &w, &StoredPasskey::Missing).unwrap_err();
    assert_eq!(e.message(), "passkey authorization failed: stale");
    let e = require_authorization(&Ok(()), &Err(text("no wallet")), &StoredPasskey::Missing);
    assert_eq!(e.unwrap_err().code(), -32603);
    let e = require_authorization(&Ok(()), &w, &StoredPasskey::Missing).unwrap_err();
    assert_eq!(e.message(), "passkey not registered");
    let e = require_authorization(&Ok(()), &w, &StoredPasskey::Failed).unwrap_err();
    assert_eq!(e.message(), "internal error");
}

#[test]
fn requests_are_routed() {
    let r = rpc("2.0", "ledgerflow_sign", true).unwrap();
    assert_eq!((r.method, r.authorize), (Method::Sign, true));
    let r = rpc("2.0", "ledgerflow_generate_challenge", true).unwrap();
    assert!(!r.authorize);
    let r = rpc("2.0", "ledgerflow_intentExecute", true).unwrap();
    assert!(r.authorize);
    assert_eq!(rpc("1.0", "ledgerflow_sign", true).unwrap_err().code(), -32600);
    assert_eq!(rpc("2.0", "x", true).unwrap_err().code(), -32601);
    assert_eq!(rpc("2.0", "ledgerflow_sign", false).unwrap_err().code(), -32602);
}

#[test]
fn responses_are_json_rpc() {
    let v = success_response(json("7"), json("[1]"));
    assert_eq!(v, json(r#"{"jsonrpc":"2.0","id":7,"result":[1]}"#));
    let e = RpcError::new(-32603, text("x"));
    let v = error_response(json("null"), &e);
    assert_eq!(v, json(r#"{"jsonrpc":"2.0","id":null,"error":{"code":-32603,"message":"x"}}"#));
    let v = handle_generate_challenge(&Ok(vec![1, 2])).unwrap();
    assert_eq!(v, json(r#"{"challenge_hex":"0102"}"#));
    assert!(handle_generate_challenge(&Err(text("x"))).is_err());
    assert_eq!(GenerateChallengeParams::new(text("c")).credential_id(), "c");
}

#[test]
fn authorizations_are_parsed() {
    let ok = json(r#"{"auth":{"challenge_hex":"01","signature_hex":"02","credential_id":"c"}}"#);
    let a: PasskeyAuthorization = parse_auth(&ok).unwrap();
    assert_eq!((a.challenge, a.signature, a.credential_id), (vec![1], vec![2], text("c")));
    assert_eq!(parse_auth(&json("{}")).unwrap_err().message(), "missing auth");
    assert_eq!(parse_auth(&json(r#"{"auth":1}"#)).unwrap_err().message(), "missing auth");
    let e = parse_auth(&json(r#"{"auth":{}}"#)).unwrap_err();
    assert_eq!(e.message(), "missing auth.challenge_hex");
    let bad = json(r#"{"auth":{"challenge_hex":"zz","signature_hex":"02","credential_id":"c"}}"#);
    assert_eq!(parse_auth(&bad).unwrap_err().code(), -32602);
}

#[test]
fn intents_are_read_from_requests() {
    let p = json(r#"{"chain_id":"eip155:1","session_key_id":"s","kind":{"type":"Pay"}}"#);
    let i = intent_params(&p).unwrap();
    assert_eq!(i.chain_id, "eip155:1");
    assert_eq!(i.rpc_url, None);
    assert_eq!(i.kind, json(r#"{"type":"Pay"}"#));
    assert!(intent_params(&json("{}")).unwrap_err().message().contains("chain_id"));
    assert!(intent_sender(&p).unwrap_err().message().contains("missing 'from_address'"));
    assert_eq!(intent_sender(&json(r#"{"from_address":"0x1"}"#)).unwrap(), "0x1");
    assert_eq!(intent_error(IntentStep::Kind, "x").code(), -32602);
    assert!(intent_error(IntentStep::Execute, "x").message().contains("x"));
    assert!(invalid_payment_params("x").message().contains("invalid payment params: x"));
    assert!(invalid_challenge_params("x").message().contains("invalid challenge params: x"));
}

#[test]
fn servers_bind_to_loopback() {
    let c = daemon_config(&None, &None, &None);
    assert_eq!((c.listen.as_str(), c.wallet.as_str(), c.index), ("off", "default", 0));
    let c = daemon_config(&some("127.0.0.1:1"), &some("w"), &some("3"));
    assert_eq!((c.listen.as_str(), c.wallet.as_str(), c.index), ("127.0.0.1:1", "w", 3));
    assert_eq!(daemon_config(&None, &None, &some("x")).index, 0);
    let local = ListenAddress::Parsed { shown: text("127.0.0.1:1"), loopback: true };
    assert!(parse_loopback("127.0.0.1:1", &local).is_ok());
    let open = ListenAddress::Parsed { shown: text("0.0.0.0:1"), loopback: false };
    assert!(parse_loopback("x", &open).unwrap_err().message().contains("MUST bind to loopback"));
    let bad = ListenAddress::Invalid(text("syntax"));
    assert!(parse_loopback("x", &bad).unwrap_err().message().contains("'x': syntax"));
    assert!(listening_line("127.0.0.1:1", "w", 2).contains("(wallet 'w', index 2)"));
    let here = ListenAddress::Parsed { shown: text("127.0.0.1:1"), loopback: true };
    let served = serve("127.0.0.1:1", &here, "w", 2).unwrap();
    assert_eq!((served.wallet.as_str(), served.index), ("w", 2));
    let wide = ListenAddress::Parsed { shown: text("0.0.0.0:1"), loopback: false };
    let e = serve("0.0.0.0:1", &wide, "w", 2).unwrap_err();
    assert!(e.message().contains("MUST bind to loopback"));
    assert!(serve("x", &ListenAddress::Invalid(text("bad")), "w", 2).is_err());
}

// Updates

#[test]
fn extract_tag_name_scans_github_api_shape() {
    let body = r#"{"url":"https://api.github.com/repos/x/y/releases/1","tag_name":"v0.2.0","name":"v0.2.0"}"#;
    assert_eq!(extract_json_string(body, "tag_name").as_deref(), Some("v0.2.0"));
}

#[test]
fn extract_tag_name_returns_none_when_missing() {
    assert_eq!(extract_json_string(r#"{"x":1}"#, "tag_name"), None);
}

#[test]
fn numeric_compare_handles_multi_digit_components() {
    assert_eq!(compare_versions_numeric("0.9.10", "0.9.9"), Ordering::Greater);
    assert_eq!(compare_versions_numeric("v0.2.0", "0.2.0"), Ordering::Equal);
    assert_eq!(compare_versions_numeric("1.2", "1.2.0"), Ordering::Equal);
    assert!(is_newer_version("0.2.0", "0.1.0"));
    assert!(!is_newer_version("0.1.0", "0.1.0"));
    assert!(!is_newer_version("0.1.0", "0.2.0"));
}

#[test]
fn prerelease_sorts_below_release() {
    assert_eq!(compare_versions_numeric("1.0.0-rc.1", "1.0.0"), Ordering::Less);
}

#[test]
fn values_are_scanned_behind_spaces() {
    assert_eq!(extract_json_string("{\"k\" :\n \"v\"}", "k").as_deref(), Some("v"));
    assert_eq!(extract_json_string(r#"{"k":1}"#, "k"), None);
    assert_eq!(extract_json_string(r#"{"k":"open"#, "k"), None);
}

#[test]
fn releases_are_found() {
    assert!(latest_url().ends_with("/releases/latest"));
    assert_eq!(get_latest_tag(&some(r#"{"tag_name":"v1"}"#)).unwrap(), "v1");
    assert!(get_latest_tag(&None).unwrap_err().message().contains("failed to fetch latest"));
    assert!(get_latest_tag(&some("{}")).unwrap_err().message().contains("no releases found"));
    assert_eq!(detect_platform("macos", "aarch64").unwrap(), "darwin-aarch64");
    assert_eq!(detect_platform("linux", "x86_64").unwrap(), "linux-x86_64");
    assert!(detect_platform("windows", "x86_64").is_err());
    assert!(detect_platform("linux", "riscv64").is_err());
    assert!(binary_url("v1", "linux-x86_64").ends_with("/v1/onecipher-linux-x86_64"));
    assert!(download_failed("u").message().contains("failed to download binary from u"));
}

#[test]
fn downloads_fall_back() {
    assert_eq!(fetch_url_bytes("u", Some(vec![1]), Some(vec![2])).unwrap(), vec![1]);
    assert_eq!(fetch_url_bytes("u", None, Some(vec![2])).unwrap(), vec![2]);
    assert!(fetch_url_bytes("u", None, None).unwrap_err().message().contains("failed to fetch u"));
    assert_eq!(fetch_url_text("u", Ok(text("t"))).unwrap(), "t");
    assert!(fetch_url_text("u", Err(text("x"))).unwrap_err().message().contains("non-UTF8"));
    assert_eq!(install_dir(&None, &some("/o"), &some("/l"), "/h"), "/o");
    assert_eq!(install_dir(&None, &None, &None, "/h"), "/h/.onecipher/bin");
}

#[test]
fn updates_are_planned() {
    let p = run("v0.2.0", "0.1.0", false);
    assert!(p.download);
    assert_eq!(p.lines, vec!["installed: v0.1.0", "   latest: v0.2.0", "Downloading update..."]);
    let p = run("v0.1.0", "0.1.0", false);
    assert!(!p.download);
    assert_eq!(p.lines[2], "Already up to date.");
    assert!(run("v0.1.0", "0.1.0", true).download);
    assert_eq!(bindings_start(Bindings::Node, false), None);
    assert!(bindings_start(Bindings::Python, true).unwrap().starts_with("Updating "));
    assert!(bindings_end(Bindings::Node, false).starts_with("warn: failed to update "));
    assert_eq!(choose_pip(false, true), Some(Pip::Module));
    assert_eq!(choose_pip(true, true), Some(Pip::Pip3));
    assert_eq!(choose_pip(false, false), None);
}
