use intents_proxy::models::agent_info::AgentInfo;
use intents_proxy::models::intents::token_diff::TokenDiff;
use intents_proxy::models::intents::tokens::{FtWithdraw, MtWithdraw, NativeWithdraw, NftWithdraw};
use intents_proxy::models::intents::{Intent, MetaIntent};
use intents_proxy::models::mpc::{AffinePoint, MPCSignPayload, Scalar, SignResult};
use intents_proxy::models::public_key::{CurveType, PublicKey};
use intents_proxy::models::store::{AccountMap, AccountSet};
use intents_proxy::models::users::{activity_text, UserInfo};
use intents_proxy::utils::{
    create_sign_request_from_transaction, is_single_signature_valid, public_key_to_string, same_hash,
    sign_request_text, vec_to_64_byte_array, vec_to_fixed, verify_signature,
};
use std::collections::HashMap;

const RFC_KEY: &str = "d75a980182b10ab7d54bfed3c964073a0ee172f3daa62325af021a68f707511a";
const RFC_SIGNATURE: &str = "e5564300c360ac729086e2cc806e828a84877f1eb8e5d974d873e065224901555fb8821590a33bacc61e39701cf9b46bd25bf5f0595bbe24655141438e7a100b";

fn rfc_key() -> PublicKey {
    PublicKey { curve: CurveType::ED25519, key: hex::decode(RFC_KEY).unwrap() }
}

#[test]
fn sixty_four_bytes_make_an_array() {
    let bytes: Vec<u8> = (0..64).collect();
    let array = vec_to_64_byte_array(bytes.clone()).unwrap();
    assert_eq!(array.to_vec(), bytes);
}

#[test]
fn other_lengths_make_no_array() {
    assert_eq!(vec_to_64_byte_array(vec![]), None);
    assert_eq!(vec_to_64_byte_array(vec![0; 63]), None);
    assert_eq!(vec_to_64_byte_array(vec![0; 65]), None);
}

#[test]
fn a_vector_of_the_right_length_becomes_an_array() {
    let three: [u8; 3] = vec_to_fixed(vec![1, 2, 3]);
    assert_eq!(three, [1, 2, 3]);
    let none: [String; 0] = vec_to_fixed(vec![]);
    assert!(none.is_empty());
    let words: [String; 2] = vec_to_fixed(vec!["a".to_string(), "b".to_string()]);
    assert_eq!(words, ["a".to_string(), "b".to_string()]);
}

#[test]
fn a_sign_request_lists_payload_path_and_key_version() {
    let payload: Vec<u8> = (0..32).collect();
    let numbers: Vec<String> = payload.iter().map(|b| b.to_string()).collect();
    assert_eq!(
        create_sign_request_from_transaction(payload, "alice"),
        format!("{{\"request\":{{\"payload\":[{}],\"path\":\"alice\",\"key_version\":0}}}}", numbers.join(","))
    );
}

#[test]
fn a_sign_request_is_valid_json() {
    let request = MPCSignPayload { payload: [255; 32], path: "a\\b\n".to_string(), key_version: u32::MAX };
    let text = sign_request_text(&request);
    let value: serde_json::Value = serde_json::from_str(&text).unwrap();
    assert_eq!(value["request"]["payload"].as_array().unwrap().len(), 32);
    assert_eq!(value["request"]["payload"][31], 255);
    assert_eq!(value["request"]["path"], "a\\b\n");
    assert_eq!(value["request"]["key_version"], 4_294_967_295u64);
    assert_eq!(request.clone().path, "a\\b\n");
}

#[test]
fn a_public_key_is_written_with_its_curve() {
    assert_eq!(public_key_to_string(&rfc_key()), "ed25519:FVen3X669xLzsi6N2V91DoiyzHzg1uAgqiT8jZ9nS96Z");
    let zero = PublicKey { curve: CurveType::ED25519, key: vec![0; 32] };
    assert_eq!(public_key_to_string(&zero), "ed25519:11111111111111111111111111111111");
    let wide = PublicKey { curve: CurveType::SECP256K1, key: (0..64).collect() };
    assert_eq!(
        public_key_to_string(&wide),
        "secp256k1:1GMkH3brNXiNNs1tiFZHu4yZSRrzJwxi5wB9bHFtMinfCXNnR1adh8Vo8NTheK4evneedH4qmvjeqcBBNAefgS"
    );
}

#[test]
fn a_known_signature_verifies() {
    let signature = hex::decode(RFC_SIGNATURE).unwrap();
    assert!(verify_signature(&[], &signature, &rfc_key()));
    assert!(is_single_signature_valid(&[], &rfc_key(), &signature));
}

#[test]
fn a_signature_of_another_message_does_not_verify() {
    let signature = hex::decode(RFC_SIGNATURE).unwrap();
    assert!(!verify_signature(b"x", &signature, &rfc_key()));
    assert!(!is_single_signature_valid(b"x", &rfc_key(), &signature));
}

#[test]
fn a_changed_signature_does_not_verify() {
    let mut signature = hex::decode(RFC_SIGNATURE).unwrap();
    signature[0] ^= 1;
    assert!(!verify_signature(&[], &signature, &rfc_key()));
}

#[test]
fn a_signature_of_the_wrong_length_does_not_verify() {
    let mut signature = hex::decode(RFC_SIGNATURE).unwrap();
    signature.pop();
    assert!(!verify_signature(&[], &signature, &rfc_key()));
    signature.push(0x0b);
    signature.push(0);
    assert!(!verify_signature(&[], &signature, &rfc_key()));
    assert!(!verify_signature(&[], &vec![], &rfc_key()));
}

#[test]
fn a_key_of_the_wrong_length_does_not_verify() {
    let signature = hex::decode(RFC_SIGNATURE).unwrap();
    let mut key = rfc_key();
    key.key.push(0);
    assert!(!verify_signature(&[], &signature, &key));
    let wide = PublicKey { curve: CurveType::SECP256K1, key: vec![1; 64] };
    assert!(!is_single_signature_valid(&[], &wide, &signature));
}

#[test]
fn hashes_are_compared_byte_by_byte() {
    let a = [3u8; 32];
    let mut b = [3u8; 32];
    assert!(same_hash(&a, &b));
    b[31] = 4;
    assert!(!same_hash(&a, &b));
    b[31] = 3;
    b[0] = 0;
    assert!(!same_hash(&a, &b));
}

#[test]
fn a_set_of_accounts_keeps_each_account_once_and_in_order() {
    let mut set = AccountSet::new();
    assert_eq!(set.len(), 0);
    assert!(!set.contains(&"alice".to_string()));
    assert!(set.insert("bob".to_string()));
    assert!(set.insert("alice".to_string()));
    assert!(!set.insert("bob".to_string()));
    assert!(set.insert("".to_string()));
    assert_eq!(set.len(), 3);
    assert!(set.contains(&"alice".to_string()));
    assert!(!set.contains(&"carol".to_string()));
    assert_eq!(set.to_vec(), vec!["bob".to_string(), "alice".to_string(), "".to_string()]);
    let agent = AgentInfo { portfolios: set };
    assert!(agent.portfolios.contains(&"bob".to_string()));
}

#[test]
fn a_map_of_accounts_holds_one_record_for_each() {
    let mut map: AccountMap<u32> = AccountMap::new();
    assert!(!map.contains_key(&"a".to_string()));
    assert_eq!(map.get(&"a".to_string()), None);
    assert_eq!(map.insert("a".to_string(), 1), None);
    assert_eq!(map.insert("b".to_string(), 2), None);
    assert_eq!(map.insert("c".to_string(), 3), None);
    assert_eq!(map.insert("a".to_string(), 10), Some(1));
    assert_eq!(map.get(&"a".to_string()), Some(&10));
    assert_eq!(map.get(&"b".to_string()), Some(&2));
    assert_eq!(map.get(&"c".to_string()), Some(&3));
    assert_eq!(map.remove(&"a".to_string()), Some(10));
    assert_eq!(map.remove(&"a".to_string()), None);
    assert!(!map.contains_key(&"a".to_string()));
    assert_eq!(map.get(&"b".to_string()), Some(&2));
    assert_eq!(map.get(&"c".to_string()), Some(&3));
    assert_eq!(map.remove(&"c".to_string()), Some(3));
    assert_eq!(map.remove(&"b".to_string()), Some(2));
    assert_eq!(map.get(&"b".to_string()), None);
}

#[test]
fn an_activity_names_agent_time_and_diff() {
    let mut diff = indexmap::IndexMap::new();
    diff.insert("T\"1".to_string(), "+5".to_string());
    let diff = TokenDiff { diff, memo: None, referral: None };
    assert_eq!(
        activity_text("agent.near", u64::MAX, &diff),
        "{\"agent_id\":\"agent.near\",\"timestamp\":18446744073709551615,\"diffs\":{\"diff\":{\"T\\\"1\":\"+5\"}}}"
    );
}

#[test]
fn recording_skips_what_is_no_token_diff() {
    let mut user = UserInfo {
        required_spread: HashMap::new(),
        near_intents_address: "addr".to_string(),
        activities: vec!["old".to_string()],
    };
    let intents = vec![
        Intent::TokenDiff(TokenDiff { diff: indexmap::IndexMap::new(), memo: None, referral: None }),
        Intent::NativeWithdraw(NativeWithdraw {
            receiver_id: "bob".to_string(),
            amount: 1,
        }),
        Intent::TokenDiff(TokenDiff {
            diff: indexmap::IndexMap::new(),
            memo: Some("m".to_string()),
            referral: None,
        }),
    ];
    user.record("a", 7, &intents);
    assert_eq!(
        user.activities,
        vec![
            "old".to_string(),
            "{\"agent_id\":\"a\",\"timestamp\":7,\"diffs\":{\"diff\":{}}}".to_string(),
            "{\"agent_id\":\"a\",\"timestamp\":7,\"diffs\":{\"diff\":{},\"memo\":\"m\"}}".to_string(),
        ]
    );
    assert_eq!(user.near_intents_address, "addr");
    assert_eq!(user.clone().activities.len(), 3);
}

#[test]
fn plain_records_hold_what_they_are_given() {
    let signed = SignResult {
        big_r: AffinePoint { affine_point: "02ab".to_string() },
        s: Scalar { scalar: "cd".to_string() },
        recovery_id: 1,
    };
    assert_eq!(signed.big_r.affine_point, "02ab");
    assert_eq!(signed.s.scalar, "cd");
    assert_eq!(signed.recovery_id, 1);
    let meta = MetaIntent {
        intent: Intent::TokenDiff(TokenDiff {
            diff: indexmap::IndexMap::new(),
            memo: None,
            referral: None,
        }),
    };
    assert!(meta.intent.is_token_diff());
}

#[test]
fn each_kind_of_intent_is_made_from_its_members() {
    let native = Intent::from(NativeWithdraw { receiver_id: "bob".to_string(), amount: 9 });
    assert!(matches!(&native, Intent::NativeWithdraw(w) if w.amount == 9 && w.receiver_id == "bob"));
    let ft: Intent = FtWithdraw {
        token: "t".to_string(),
        receiver_id: "bob".to_string(),
        amount: 1,
        memo: None,
        msg: None,
        storage_deposit: None,
    }
    .into();
    assert!(matches!(ft, Intent::FtWithdraw(_)));
    let nft: Intent = NftWithdraw {
        token: "t".to_string(),
        receiver_id: "bob".to_string(),
        token_id: "7".to_string(),
        memo: None,
        msg: None,
        storage_deposit: None,
    }
    .into();
    assert!(matches!(&nft, Intent::NftWithdraw(w) if w.token_id == "7"));
    let mt: Intent = MtWithdraw {
        token: "t".to_string(),
        receiver_id: "bob".to_string(),
        token_ids: vec![],
        amounts: vec![],
        memo: None,
        msg: None,
        storage_deposit: None,
    }
    .into();
    assert!(matches!(mt, Intent::MtWithdraw(_)));
    let diff: Intent =
        TokenDiff { diff: indexmap::IndexMap::new(), memo: Some("m".to_string()), referral: None }.into();
    assert!(diff.is_token_diff());
    assert!(!native.is_token_diff());
}

#[test]
fn a_token_diff_reads_like_its_deltas() {
    let mut deltas = indexmap::IndexMap::new();
    deltas.insert("USDC".to_string(), "-1".to_string());
    deltas.insert("ETH".to_string(), "2".to_string());
    let diff = TokenDiff { diff: deltas, memo: None, referral: None };
    assert_eq!(diff.len(), 2);
    assert_eq!(diff.get("ETH"), Some(&"2".to_string()));
    assert_eq!(diff.keys().next(), Some(&"USDC".to_string()));
    let amounts = intents_proxy::models::intents::tokens::TokenAmounts(vec![1u8, 2, 3]);
    assert_eq!(amounts.len(), 3);
    let empty: intents_proxy::models::intents::tokens::TokenAmounts = Default::default();
    assert!(empty.is_empty());
}
