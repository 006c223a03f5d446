use indexmap::IndexMap;
use intents_proxy::models::contract::Flow;
use intents_proxy::models::error::{ErrorKind, ProxyError};
use intents_proxy::models::intents::token_diff::TokenDiff;
use intents_proxy::models::intents::tokens::{FtWithdraw, MtWithdraw, NativeWithdraw, NftWithdraw};
use intents_proxy::models::intents::{DefuseIntents, Intent};
use intents_proxy::utils::parse_hash;

fn rebalance(token: &str, delta: &str) -> Intent {
    let mut diff = IndexMap::new();
    diff.insert(token.to_string(), delta.to_string());
    Intent::TokenDiff(TokenDiff { diff, memo: None, referral: None })
}

fn native(amount: u128) -> Intent {
    Intent::NativeWithdraw(NativeWithdraw { receiver_id: "bob.near".to_string(), amount })
}

fn batch_of(intents: Vec<Intent>) -> DefuseIntents {
    DefuseIntents {
        signer_id: "alice".to_string(),
        deadline: None,
        nonce: "1".to_string(),
        verifying_contract: "intents.near".to_string(),
        intents,
    }
}

fn one_of_each_kind() -> Vec<Intent> {
    vec![
        Intent::FtWithdraw(FtWithdraw {
            token: "usdc.near".to_string(),
            receiver_id: "bob.near".to_string(),
            amount: 1,
            memo: None,
            msg: None,
            storage_deposit: None,
        }),
        Intent::NftWithdraw(NftWithdraw {
            token: "nft.near".to_string(),
            receiver_id: "bob.near".to_string(),
            token_id: "1".to_string(),
            memo: None,
            msg: None,
            storage_deposit: None,
        }),
        Intent::MtWithdraw(MtWithdraw {
            token: "mt.near".to_string(),
            receiver_id: "bob.near".to_string(),
            token_ids: vec!["1".to_string()],
            amounts: vec![1],
            memo: None,
            msg: None,
            storage_deposit: None,
        }),
        native(5),
        rebalance("USDC", "-1"),
    ]
}

#[test]
fn agent_flow_accepts_token_diffs_only() {
    let batch = batch_of(vec![rebalance("USDC", "-1"), rebalance("ETH", "2")]);
    assert_eq!(batch.validate(Flow::AgentInitiated), Ok(()));
}

#[test]
fn agent_flow_accepts_an_empty_batch() {
    assert_eq!(batch_of(vec![]).validate(Flow::AgentInitiated), Ok(()));
}

#[test]
fn agent_flow_refuses_nine_diffs_and_one_withdrawal() {
    for at in 0..10 {
        let mut intents = Vec::new();
        for i in 0..10 {
            if i == at {
                intents.push(native(1));
            } else {
                intents.push(rebalance("USDC", "1"));
            }
        }
        assert_eq!(batch_of(intents).validate(Flow::AgentInitiated), Err(ProxyError::FlowViolation));
    }
}

#[test]
fn agent_flow_refuses_each_kind_of_withdrawal() {
    for intent in one_of_each_kind() {
        let expected = if intent.is_token_diff() { Ok(()) } else { Err(ProxyError::FlowViolation) };
        assert_eq!(batch_of(vec![intent]).validate(Flow::AgentInitiated), expected);
    }
}

#[test]
fn owner_flow_accepts_mixed_kinds() {
    assert_eq!(batch_of(one_of_each_kind()).validate(Flow::OwnerInitiated), Ok(()));
    assert_eq!(batch_of(vec![]).validate(Flow::OwnerInitiated), Ok(()));
    assert_eq!(batch_of(vec![native(1), native(2)]).validate(Flow::OwnerInitiated), Ok(()));
}

#[test]
fn a_hash_of_64_digits_is_read() {
    let text = "0x000102030405060708090a0b0c0d0e0f101112131415161718191A1B1C1D1E1Fff";
    assert_eq!(text.len(), 68);
    let text = &text[..66];
    let mut expected = [0u8; 32];
    for (i, byte) in expected.iter_mut().enumerate() {
        *byte = i as u8;
    }
    assert_eq!(parse_hash(text), Ok(expected));
}

#[test]
fn upper_and_lower_case_digits_are_the_same() {
    let lower = format!("0x{}", "ab".repeat(32));
    let upper = format!("0x{}", "AB".repeat(32));
    let mixed = format!("0x{}", "aB".repeat(32));
    assert_eq!(parse_hash(&lower), Ok([0xab; 32]));
    assert_eq!(parse_hash(&upper), Ok([0xab; 32]));
    assert_eq!(parse_hash(&mixed), Ok([0xab; 32]));
}

#[test]
fn a_hash_without_the_prefix_is_malformed() {
    assert_eq!(parse_hash(&format!("zz{}", "01".repeat(32))), Err(ProxyError::MalformedHash));
    assert_eq!(parse_hash(&format!("0X{}", "01".repeat(32))), Err(ProxyError::MalformedHash));
    assert_eq!(parse_hash(&format!("x0{}", "01".repeat(32))), Err(ProxyError::MalformedHash));
    assert_eq!(parse_hash(&format!("00{}", "01".repeat(32))), Err(ProxyError::MalformedHash));
    assert_eq!(parse_hash(&"01".repeat(32)), Err(ProxyError::MalformedHash));
    assert_eq!(parse_hash(&"01".repeat(33)), Err(ProxyError::MalformedHash));
    assert_eq!(parse_hash(&format!("0x{}", "01".repeat(32))), Ok([1; 32]));
}

#[test]
fn a_hash_that_is_too_short_to_have_a_prefix_is_malformed() {
    assert_eq!(parse_hash(""), Err(ProxyError::MalformedHash));
    assert_eq!(parse_hash("0"), Err(ProxyError::MalformedHash));
}

#[test]
fn a_hash_with_an_odd_number_of_digits_is_malformed() {
    let text = format!("0x{}", "a".repeat(63));
    assert_eq!(parse_hash(&text), Err(ProxyError::MalformedHash));
}

#[test]
fn a_hash_with_a_foreign_character_is_malformed() {
    let text = format!("0x{}g{}", "a".repeat(31), "a".repeat(32));
    assert_eq!(parse_hash(&text), Err(ProxyError::MalformedHash));
    let wide = format!("0x{}\u{e9}", "a".repeat(62));
    assert_eq!(parse_hash(&wide), Err(ProxyError::MalformedHash));
    let split = format!("0\u{e9}{}", "a".repeat(63));
    assert_eq!(parse_hash(&split), Err(ProxyError::MalformedHash));
}

#[test]
fn a_hash_of_another_length_is_refused_with_its_length() {
    assert_eq!(parse_hash("0x"), Err(ProxyError::HashLength(0)));
    let short = format!("0x{}", "ab".repeat(31));
    assert_eq!(parse_hash(&short), Err(ProxyError::HashLength(31)));
    let long = format!("0x{}", "ab".repeat(33));
    assert_eq!(parse_hash(&long), Err(ProxyError::HashLength(33)));
}

#[test]
fn every_refusal_has_its_class_and_its_words() {
    let all = [
        (ProxyError::NotOwner, ErrorKind::Authorization, "Only contract owner can register agents"),
        (ProxyError::CallerNotAgent, ErrorKind::Authorization, "Caller is not an agent"),
        (ProxyError::AgentNotAssigned, ErrorKind::Authorization, "Agent is not assigned to this portfolio!"),
        (ProxyError::AgentNotFound, ErrorKind::Authorization, "Agent not found"),
        (ProxyError::UserNotFound, ErrorKind::Authorization, "User not found"),
        (ProxyError::FlowViolation, ErrorKind::Validation, "Only TokenDiff is allowed in balance_portfolio!"),
        (ProxyError::MalformedHash, ErrorKind::Validation, "Decoding hex failed"),
        (ProxyError::HashLength(31), ErrorKind::Validation, "Expected a Vec of length 32 but got 31"),
        (ProxyError::HashMismatch, ErrorKind::Integrity, "Hash mismatch!"),
    ];
    for (error, kind, words) in all {
        assert_eq!(error.kind(), kind);
        assert_eq!(error.message(), words);
    }
}
