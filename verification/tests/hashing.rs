use indexmap::IndexMap;
use intents_proxy::encoding::{canonical_json, push_intent, push_quoted, push_quoted_decimal, push_token_diff};
use intents_proxy::json::push_decimal;
use intents_proxy::models::intents::token_diff::TokenDiff;
use intents_proxy::models::intents::tokens::{FtWithdraw, MtWithdraw, NativeWithdraw, NftWithdraw};
use intents_proxy::models::intents::{DefuseIntents, Intent};
use intents_proxy::utils::{compute_erc191_hash, erc191_digest};

fn text_of(intent: &Intent) -> String {
    let mut out = String::new();
    push_intent(&mut out, intent);
    out
}

fn quoted_text(s: &str) -> String {
    let mut out = String::new();
    push_quoted(&mut out, s);
    out
}

fn diff_of(entries: &[(&str, &str)]) -> IndexMap<String, String> {
    let mut diff = IndexMap::new();
    for (token, delta) in entries {
        diff.insert(token.to_string(), delta.to_string());
    }
    diff
}

fn batch_with(deadline: Option<&str>, intents: Vec<Intent>) -> DefuseIntents {
    DefuseIntents {
        signer_id: "alice".to_string(),
        deadline: deadline.map(|d| d.to_string()),
        nonce: "n1".to_string(),
        verifying_contract: "intents.near".to_string(),
        intents,
    }
}

fn memo_batch(memo: &str) -> DefuseIntents {
    batch_with(
        None,
        vec![Intent::TokenDiff(TokenDiff {
            diff: diff_of(&[]),
            memo: Some(memo.to_string()),
            referral: None,
        })],
    )
}

#[test]
fn empty_batch_text() {
    assert_eq!(
        canonical_json(&batch_with(None, vec![])),
        "{\"signer_id\":\"alice\",\"nonce\":\"n1\",\"verifying_contract\":\"intents.near\",\"intents\":[]}"
    );
}

#[test]
fn deadline_is_written_when_present() {
    assert_eq!(
        canonical_json(&batch_with(Some("2025-01-01T00:00:00Z"), vec![])),
        "{\"signer_id\":\"alice\",\"deadline\":\"2025-01-01T00:00:00Z\",\"nonce\":\"n1\",\"verifying_contract\":\"intents.near\",\"intents\":[]}"
    );
}

#[test]
fn ft_withdraw_without_options() {
    let intent = Intent::FtWithdraw(FtWithdraw {
        token: "usdc.near".to_string(),
        receiver_id: "bob.near".to_string(),
        amount: 1500,
        memo: None,
        msg: None,
        storage_deposit: None,
    });
    assert_eq!(
        text_of(&intent),
        "{\"intent\":\"ft_withdraw\",\"token\":\"usdc.near\",\"receiver_id\":\"bob.near\",\"amount\":\"1500\"}"
    );
}

#[test]
fn ft_withdraw_with_every_option() {
    let intent = Intent::FtWithdraw(FtWithdraw {
        token: "usdc.near".to_string(),
        receiver_id: "bob.near".to_string(),
        amount: u128::MAX,
        memo: Some("rent".to_string()),
        msg: Some("".to_string()),
        storage_deposit: Some(1_250_000_000_000_000_000_000),
    });
    assert_eq!(
        text_of(&intent),
        "{\"intent\":\"ft_withdraw\",\"token\":\"usdc.near\",\"receiver_id\":\"bob.near\",\"amount\":\"340282366920938463463374607431768211455\",\"memo\":\"rent\",\"msg\":\"\",\"storage_deposit\":\"1250000000000000000000\"}"
    );
}

#[test]
fn ft_withdraw_with_msg_only() {
    let intent = Intent::FtWithdraw(FtWithdraw {
        token: "usdc.near".to_string(),
        receiver_id: "bob.near".to_string(),
        amount: 0,
        memo: None,
        msg: Some("hi".to_string()),
        storage_deposit: None,
    });
    assert_eq!(
        text_of(&intent),
        "{\"intent\":\"ft_withdraw\",\"token\":\"usdc.near\",\"receiver_id\":\"bob.near\",\"amount\":\"0\",\"msg\":\"hi\"}"
    );
}

#[test]
fn nft_withdraw_text() {
    let intent = Intent::NftWithdraw(NftWithdraw {
        token: "nft.near".to_string(),
        receiver_id: "bob.near".to_string(),
        token_id: "42".to_string(),
        memo: Some("gift".to_string()),
        msg: None,
        storage_deposit: Some(7),
    });
    assert_eq!(
        text_of(&intent),
        "{\"intent\":\"nft_withdraw\",\"token\":\"nft.near\",\"receiver_id\":\"bob.near\",\"token_id\":\"42\",\"memo\":\"gift\",\"storage_deposit\":\"7\"}"
    );
}

#[test]
fn mt_withdraw_text() {
    let intent = Intent::MtWithdraw(MtWithdraw {
        token: "mt.near".to_string(),
        receiver_id: "bob.near".to_string(),
        token_ids: vec!["a".to_string(), "b".to_string(), "c".to_string()],
        amounts: vec![1, 20, 300],
        memo: None,
        msg: None,
        storage_deposit: None,
    });
    assert_eq!(
        text_of(&intent),
        "{\"intent\":\"mt_withdraw\",\"token\":\"mt.near\",\"receiver_id\":\"bob.near\",\"token_ids\":[\"a\",\"b\",\"c\"],\"amounts\":[\"1\",\"20\",\"300\"]}"
    );
}

#[test]
fn mt_withdraw_with_empty_lists() {
    let intent = Intent::MtWithdraw(MtWithdraw {
        token: "mt.near".to_string(),
        receiver_id: "bob.near".to_string(),
        token_ids: vec![],
        amounts: vec![],
        memo: None,
        msg: Some("m".to_string()),
        storage_deposit: None,
    });
    assert_eq!(
        text_of(&intent),
        "{\"intent\":\"mt_withdraw\",\"token\":\"mt.near\",\"receiver_id\":\"bob.near\",\"token_ids\":[],\"amounts\":[],\"msg\":\"m\"}"
    );
}

#[test]
fn native_withdraw_text() {
    let intent = Intent::NativeWithdraw(NativeWithdraw {
        receiver_id: "bob.near".to_string(),
        amount: 1_000_000_000_000_000_000_000_000,
    });
    assert_eq!(
        text_of(&intent),
        "{\"intent\":\"native_withdraw\",\"receiver_id\":\"bob.near\",\"amount\":\"1000000000000000000000000\"}"
    );
}

#[test]
fn token_diff_keeps_the_order_of_its_entries() {
    let forward = Intent::TokenDiff(TokenDiff {
        diff: diff_of(&[("USDC", "-100"), ("ETH", "0.05")]),
        memo: None,
        referral: None,
    });
    let backward = Intent::TokenDiff(TokenDiff {
        diff: diff_of(&[("ETH", "0.05"), ("USDC", "-100")]),
        memo: None,
        referral: None,
    });
    assert_eq!(
        text_of(&forward),
        "{\"intent\":\"token_diff\",\"diff\":{\"USDC\":\"-100\",\"ETH\":\"0.05\"}}"
    );
    assert_eq!(
        text_of(&backward),
        "{\"intent\":\"token_diff\",\"diff\":{\"ETH\":\"0.05\",\"USDC\":\"-100\"}}"
    );
}

#[test]
fn token_diff_with_memo_and_referral() {
    let intent = Intent::TokenDiff(TokenDiff {
        diff: diff_of(&[("USDC", "1")]),
        memo: Some("swap".to_string()),
        referral: Some("ref.near".to_string()),
    });
    assert_eq!(
        text_of(&intent),
        "{\"intent\":\"token_diff\",\"diff\":{\"USDC\":\"1\"},\"memo\":\"swap\",\"referral\":\"ref.near\"}"
    );
}

#[test]
fn token_diff_on_its_own_has_no_kind() {
    let diff = TokenDiff { diff: diff_of(&[("USDC", "1")]), memo: None, referral: Some("r".to_string()) };
    let mut out = String::from("x");
    push_token_diff(&mut out, &diff);
    assert_eq!(out, "x{\"diff\":{\"USDC\":\"1\"},\"referral\":\"r\"}");
}

#[test]
fn a_key_inserted_twice_keeps_its_place() {
    let mut diff = IndexMap::new();
    diff.insert("A".to_string(), "1".to_string());
    diff.insert("B".to_string(), "2".to_string());
    diff.insert("A".to_string(), "3".to_string());
    let intent = Intent::TokenDiff(TokenDiff { diff, memo: None, referral: None });
    assert_eq!(text_of(&intent), "{\"intent\":\"token_diff\",\"diff\":{\"A\":\"3\",\"B\":\"2\"}}");
}

#[test]
fn strings_are_quoted_and_escaped() {
    assert_eq!(quoted_text("plain"), "\"plain\"");
    assert_eq!(quoted_text(""), "\"\"");
    assert_eq!(quoted_text("a\"b"), "\"a\\\"b\"");
    assert_eq!(quoted_text("a\\b"), "\"a\\\\b\"");
    assert_eq!(quoted_text("\u{8}\u{c}\n\r\t"), "\"\\b\\f\\n\\r\\t\"");
    assert_eq!(quoted_text("\u{0}\u{1}\u{b}\u{1f}"), "\"\\u0000\\u0001\\u000b\\u001f\"");
    assert_eq!(quoted_text("/ \u{7f} caf\u{e9} \u{1F600}"), "\"/ \u{7f} caf\u{e9} \u{1F600}\"");
}

#[test]
fn quoting_agrees_with_serde_json_on_every_low_character() {
    for code in 0u32..0x80 {
        let s = char::from_u32(code).unwrap().to_string();
        assert_eq!(quoted_text(&s), serde_json::to_string(&s).unwrap());
    }
}

#[test]
fn decimals() {
    let mut out = String::new();
    push_decimal(&mut out, 0);
    out.push(' ');
    push_decimal(&mut out, 9);
    out.push(' ');
    push_decimal(&mut out, 10);
    out.push(' ');
    push_decimal(&mut out, 1_000_000_007);
    out.push(' ');
    push_decimal(&mut out, u128::MAX);
    out.push(' ');
    push_quoted_decimal(&mut out, 42);
    assert_eq!(out, "0 9 10 1000000007 340282366920938463463374607431768211455 \"42\"");
}

#[test]
fn digest_of_a_short_text() {
    assert_eq!(
        hex::encode(erc191_digest("hello")),
        "50b2c43fd39106bafbba0da34fc430e1f91e3c96ea2acee2bc34119f92b37750"
    );
    assert_eq!(
        hex::encode(erc191_digest("")),
        "5f35dce98ba4fba25530a026ed80b2cecdaa31091ba4958b99b52ea1d068adad"
    );
}

#[test]
fn digest_of_an_empty_batch() {
    assert_eq!(
        hex::encode(compute_erc191_hash(&batch_with(None, vec![]))),
        "eb42f9b9df7ef06a879cc4a387847807bd795a278cb0948c5b9e4e5ddb850a53"
    );
}

#[test]
fn the_length_in_the_prefix_counts_bytes() {
    let batch = memo_batch("caf\u{e9}");
    let text = canonical_json(&batch);
    assert_eq!(text.chars().count(), 130);
    assert_eq!(text.len(), 131);
    assert_eq!(
        hex::encode(compute_erc191_hash(&batch)),
        "84d6ba1196c31b24f04f2b29183a3617e4281f51592aa764e1db78aa1955bfc1"
    );
}

#[test]
fn digest_is_the_keccak_of_prefix_length_and_text() {
    let batch = memo_batch("x");
    let text = canonical_json(&batch);
    let mut message = format!("\u{19}Ethereum Signed Message:\n{}", text.len()).into_bytes();
    message.extend_from_slice(text.as_bytes());
    assert_eq!(compute_erc191_hash(&batch), near_sdk::env::keccak256_array(&message));
}

#[test]
fn hashing_twice_gives_the_same_digest() {
    let batch = memo_batch("same");
    assert_eq!(compute_erc191_hash(&batch), compute_erc191_hash(&batch));
    assert_eq!(compute_erc191_hash(&batch), compute_erc191_hash(&memo_batch("same")));
}

#[test]
fn one_character_in_a_memo_changes_the_digest() {
    assert_ne!(compute_erc191_hash(&memo_batch("memo a")), compute_erc191_hash(&memo_batch("memo b")));
}

#[test]
fn an_absent_memo_and_an_empty_memo_differ() {
    let absent = batch_with(
        None,
        vec![Intent::TokenDiff(TokenDiff { diff: diff_of(&[]), memo: None, referral: None })],
    );
    assert_eq!(
        canonical_json(&absent),
        "{\"signer_id\":\"alice\",\"nonce\":\"n1\",\"verifying_contract\":\"intents.near\",\"intents\":[{\"intent\":\"token_diff\",\"diff\":{}}]}"
    );
    assert_ne!(compute_erc191_hash(&absent), compute_erc191_hash(&memo_batch("")));
}

#[test]
fn the_order_of_the_intents_changes_the_digest() {
    let a = Intent::NativeWithdraw(NativeWithdraw { receiver_id: "a.near".to_string(), amount: 1 });
    let b = Intent::NativeWithdraw(NativeWithdraw { receiver_id: "b.near".to_string(), amount: 2 });
    let a2 = Intent::NativeWithdraw(NativeWithdraw { receiver_id: "a.near".to_string(), amount: 1 });
    let b2 = Intent::NativeWithdraw(NativeWithdraw { receiver_id: "b.near".to_string(), amount: 2 });
    let first = batch_with(None, vec![a, b]);
    let second = batch_with(None, vec![b2, a2]);
    assert_eq!(
        canonical_json(&first),
        "{\"signer_id\":\"alice\",\"nonce\":\"n1\",\"verifying_contract\":\"intents.near\",\"intents\":[{\"intent\":\"native_withdraw\",\"receiver_id\":\"a.near\",\"amount\":\"1\"},{\"intent\":\"native_withdraw\",\"receiver_id\":\"b.near\",\"amount\":\"2\"}]}"
    );
    assert_ne!(compute_erc191_hash(&first), compute_erc191_hash(&second));
}

fn member(object: &mut serde_json::Map<String, serde_json::Value>, name: &str, value: &str) {
    object.insert(name.to_string(), serde_json::Value::String(value.to_string()));
}

#[test]
fn the_text_is_what_serde_json_writes_for_the_same_members() {
    let batch = batch_with(
        Some("soon \"or\" later"),
        vec![
            Intent::FtWithdraw(FtWithdraw {
                token: "usdc.near".to_string(),
                receiver_id: "bob.near".to_string(),
                amount: 12,
                memo: Some("line\nbreak".to_string()),
                msg: None,
                storage_deposit: Some(3),
            }),
            Intent::TokenDiff(TokenDiff {
                diff: diff_of(&[("Z", "-1"), ("A", "1")]),
                memo: None,
                referral: Some("ref.near".to_string()),
            }),
        ],
    );
    let mut withdraw = serde_json::Map::new();
    member(&mut withdraw, "intent", "ft_withdraw");
    member(&mut withdraw, "token", "usdc.near");
    member(&mut withdraw, "receiver_id", "bob.near");
    member(&mut withdraw, "amount", "12");
    member(&mut withdraw, "memo", "line\nbreak");
    member(&mut withdraw, "storage_deposit", "3");
    let mut deltas = serde_json::Map::new();
    member(&mut deltas, "Z", "-1");
    member(&mut deltas, "A", "1");
    let mut diff = serde_json::Map::new();
    member(&mut diff, "intent", "token_diff");
    diff.insert("diff".to_string(), serde_json::Value::Object(deltas));
    member(&mut diff, "referral", "ref.near");
    let mut whole = serde_json::Map::new();
    member(&mut whole, "signer_id", "alice");
    member(&mut whole, "deadline", "soon \"or\" later");
    member(&mut whole, "nonce", "n1");
    member(&mut whole, "verifying_contract", "intents.near");
    whole.insert(
        "intents".to_string(),
        serde_json::Value::Array(vec![serde_json::Value::Object(withdraw), serde_json::Value::Object(diff)]),
    );
    assert_eq!(canonical_json(&batch), serde_json::to_string(&serde_json::Value::Object(whole)).unwrap());
}

#[test]
fn the_text_can_be_read_back() {
    let batch = memo_batch("tab\there, quote\" and \u{1}");
    let value: serde_json::Value = serde_json::from_str(&canonical_json(&batch)).unwrap();
    assert_eq!(value["signer_id"], "alice");
    assert!(value.get("deadline").is_none());
    assert_eq!(value["intents"][0]["intent"], "token_diff");
    assert_eq!(value["intents"][0]["memo"], "tab\there, quote\" and \u{1}");
    assert!(value["intents"][0].get("referral").is_none());
}

#[test]
fn batches_with_the_same_content_hash_alike_however_they_were_built() {
    let direct = batch_with(
        None,
        vec![Intent::TokenDiff(TokenDiff {
            diff: diff_of(&[("USDC", "-100"), ("ETH", "0.05")]),
            memo: None,
            referral: None,
        })],
    );
    let mut deltas = IndexMap::new();
    deltas.insert("USDC".to_string(), "0".to_string());
    deltas.insert("ETH".to_string(), "0.05".to_string());
    deltas.insert("BTC".to_string(), "1".to_string());
    deltas.insert("USDC".to_string(), "-100".to_string());
    deltas.pop();
    let mut intents = Vec::with_capacity(8);
    intents.push(Intent::from(TokenDiff { referral: None, memo: None, diff: deltas }));
    let roundabout = DefuseIntents {
        intents,
        verifying_contract: "intents.near".to_string(),
        nonce: "n1".to_string(),
        deadline: None,
        signer_id: "alice".to_string(),
    };
    assert_eq!(canonical_json(&direct), canonical_json(&roundabout));
    assert_eq!(compute_erc191_hash(&direct), compute_erc191_hash(&roundabout));
}

#[test]
fn a_batch_without_a_deadline_has_no_deadline_member() {
    let without = canonical_json(&batch_with(None, vec![]));
    assert!(!without.contains("deadline"));
    assert!(!without.contains("null"));
    assert!(without.starts_with("{\"signer_id\":\"alice\",\"nonce\":"));
    let empty = canonical_json(&batch_with(Some(""), vec![]));
    assert_eq!(
        empty,
        "{\"signer_id\":\"alice\",\"deadline\":\"\",\"nonce\":\"n1\",\"verifying_contract\":\"intents.near\",\"intents\":[]}"
    );
    assert_ne!(
        compute_erc191_hash(&batch_with(None, vec![])),
        compute_erc191_hash(&batch_with(Some(""), vec![]))
    );
}
