//! The canonical text of a batch of intents. A client and the proxy must
//! arrive at the same bytes from the same batch, so the text is fixed to the
//! last character: members in the order of the schema, absent optional members
//! left out, amounts as decimal strings, no white space.

use crate::json::{joined, push_decimal, quoted, quoted_decimal};
use crate::models::intents::token_diff::{TokenDiff, TokenDiffView};
use crate::models::intents::tokens::{
    FtWithdraw, FtWithdrawView, MtWithdraw, MtWithdrawView, NativeWithdraw, NativeWithdrawView,
    NftWithdraw, NftWithdrawView,
};
use crate::models::intents::{DefuseIntents, DefuseIntentsView, Intent, IntentView};
use crate::outside::{index_map_entries, index_map_entry, index_map_len, json_string};
use vstd::prelude::*;
use vstd::string::StringExecFns;

verus! {

/// An optional string member: its label and the quoted value, or nothing.
pub open spec fn optional_text(label: Seq<char>, value: Option<Seq<char>>) -> Seq<char> {
    match value {
        Some(s) => label + quoted(s),
        None => Seq::empty(),
    }
}

/// An optional amount member: its label and the quoted decimal, or nothing.
pub open spec fn optional_amount(label: Seq<char>, value: Option<u128>) -> Seq<char> {
    match value {
        Some(n) => label + quoted_decimal(n as nat),
        None => Seq::empty(),
    }
}

/// The three optional members that every token withdrawal ends with.
pub open spec fn withdraw_options(
    memo: Option<Seq<char>>,
    msg: Option<Seq<char>>,
    storage_deposit: Option<u128>,
) -> Seq<char> {
    optional_text(",\"memo\":"@, memo) + optional_text(",\"msg\":"@, msg) + optional_amount(
        ",\"storage_deposit\":"@,
        storage_deposit,
    )
}

pub open spec fn ft_withdraw_members(w: FtWithdrawView) -> Seq<char> {
    "\"token\":"@ + quoted(w.token) + ",\"receiver_id\":"@ + quoted(w.receiver_id)
        + ",\"amount\":"@ + quoted_decimal(w.amount as nat) + withdraw_options(
        w.memo,
        w.msg,
        w.storage_deposit,
    )
}

pub open spec fn nft_withdraw_members(w: NftWithdrawView) -> Seq<char> {
    "\"token\":"@ + quoted(w.token) + ",\"receiver_id\":"@ + quoted(w.receiver_id)
        + ",\"token_id\":"@ + quoted(w.token_id) + withdraw_options(w.memo, w.msg, w.storage_deposit)
}

/// A JSON array of strings.
pub open spec fn text_array(items: Seq<Seq<char>>) -> Seq<char> {
    "["@ + joined(items.map_values(|s: Seq<char>| quoted(s))) + "]"@
}

/// A JSON array of amounts, each a decimal string.
pub open spec fn amount_array(items: Seq<u128>) -> Seq<char> {
    "["@ + joined(items.map_values(|n: u128| quoted_decimal(n as nat))) + "]"@
}

pub open spec fn mt_withdraw_members(w: MtWithdrawView) -> Seq<char> {
    "\"token\":"@ + quoted(w.token) + ",\"receiver_id\":"@ + quoted(w.receiver_id)
        + ",\"token_ids\":"@ + text_array(w.token_ids) + ",\"amounts\":"@ + amount_array(w.amounts)
        + withdraw_options(w.memo, w.msg, w.storage_deposit)
}

pub open spec fn native_withdraw_members(w: NativeWithdrawView) -> Seq<char> {
    "\"receiver_id\":"@ + quoted(w.receiver_id) + ",\"amount\":"@ + quoted_decimal(w.amount as nat)
}

/// One entry of a token diff: the quoted token, a colon, the quoted delta.
pub open spec fn diff_entry(entry: (Seq<char>, Seq<char>)) -> Seq<char> {
    quoted(entry.0) + ":"@ + quoted(entry.1)
}

/// The deltas as a JSON object, in the order given.
pub open spec fn diff_object(entries: Seq<(Seq<char>, Seq<char>)>) -> Seq<char> {
    "{"@ + joined(entries.map_values(|e: (Seq<char>, Seq<char>)| diff_entry(e))) + "}"@
}

pub open spec fn token_diff_members(d: TokenDiffView) -> Seq<char> {
    "\"diff\":"@ + diff_object(d.diff) + optional_text(",\"memo\":"@, d.memo) + optional_text(
        ",\"referral\":"@,
        d.referral,
    )
}

/// A token diff on its own, as it stands in an activity record.
pub open spec fn token_diff_json(d: TokenDiffView) -> Seq<char> {
    "{"@ + token_diff_members(d) + "}"@
}

/// One intent: an object that names its kind first and then holds the members
/// of that kind.
pub open spec fn intent_json(intent: IntentView) -> Seq<char> {
    match intent {
        IntentView::FtWithdraw(w) => "{\"intent\":\"ft_withdraw\","@ + ft_withdraw_members(w) + "}"@,
        IntentView::NftWithdraw(w) => "{\"intent\":\"nft_withdraw\","@ + nft_withdraw_members(w)
            + "}"@,
        IntentView::MtWithdraw(w) => "{\"intent\":\"mt_withdraw\","@ + mt_withdraw_members(w) + "}"@,
        IntentView::NativeWithdraw(w) => "{\"intent\":\"native_withdraw\","@
            + native_withdraw_members(w) + "}"@,
        IntentView::TokenDiff(d) => "{\"intent\":\"token_diff\","@ + token_diff_members(d) + "}"@,
    }
}

/// The intents as a JSON array, in the order given.
pub open spec fn intent_array(intents: Seq<IntentView>) -> Seq<char> {
    "["@ + joined(intents.map_values(|i: IntentView| intent_json(i))) + "]"@
}

/// The canonical text of a batch. The deadline is written only when there is
/// one: a batch without a deadline has no such member, not a `null`.
pub open spec fn batch_json(b: DefuseIntentsView) -> Seq<char> {
    "{\"signer_id\":"@ + quoted(b.signer_id) + optional_text(",\"deadline\":"@, b.deadline)
        + ",\"nonce\":"@ + quoted(b.nonce) + ",\"verifying_contract\":"@ + quoted(
        b.verifying_contract,
    ) + ",\"intents\":"@ + intent_array(b.intents) + "}"@
}

/// Appends `s` as a JSON string.
pub fn push_quoted(out: &mut String, s: &str)
    ensures
        final(out)@ == old(out)@ + quoted(s@),
{
    match json_string(s) {
        Ok(text) => {
            out.append(text.as_str());
        },
        Err(_) => {},
    }
}

/// Appends `n` as a decimal string.
pub fn push_quoted_decimal(out: &mut String, n: u128)
    ensures
        final(out)@ == old(out)@ + quoted_decimal(n as nat),
{
    proof {
        reveal_strlit("\"");
    }
    out.append("\"");
    push_decimal(out, n);
    out.append("\"");
    assert(out@ =~= old(out)@ + quoted_decimal(n as nat));
}

fn push_optional_text(out: &mut String, label: &str, value: &Option<String>)
    ensures
        final(out)@ == old(out)@ + optional_text(label@, value.deep_view()),
{
    match value {
        Some(s) => {
            out.append(label);
            push_quoted(out, s.as_str());
            assert(out@ =~= old(out)@ + optional_text(label@, value.deep_view()));
        },
        None => {
            assert(out@ =~= old(out)@ + optional_text(label@, value.deep_view()));
        },
    }
}

fn push_optional_amount(out: &mut String, label: &str, value: &Option<u128>)
    ensures
        final(out)@ == old(out)@ + optional_amount(label@, *value),
{
    match value {
        Some(n) => {
            out.append(label);
            push_quoted_decimal(out, *n);
            assert(out@ =~= old(out)@ + optional_amount(label@, *value));
        },
        None => {
            assert(out@ =~= old(out)@ + optional_amount(label@, *value));
        },
    }
}

fn push_withdraw_options(
    out: &mut String,
    memo: &Option<String>,
    msg: &Option<String>,
    storage_deposit: &Option<u128>,
)
    ensures
        final(out)@ == old(out)@ + withdraw_options(
            memo.deep_view(),
            msg.deep_view(),
            *storage_deposit,
        ),
{
    push_optional_text(out, ",\"memo\":", memo);
    push_optional_text(out, ",\"msg\":", msg);
    push_optional_amount(out, ",\"storage_deposit\":", storage_deposit);
    assert(out@ =~= old(out)@ + withdraw_options(
        memo.deep_view(),
        msg.deep_view(),
        *storage_deposit,
    ));
}

fn push_text_array(out: &mut String, items: &Vec<String>)
    ensures
        final(out)@ == old(out)@ + text_array(items.deep_view()),
{
    let ghost texts = items.deep_view().map_values(|s: Seq<char>| quoted(s));
    out.append("[");
    let mut i: usize = 0;
    while i < items.len()
        invariant
            i <= items.len(),
            texts == items.deep_view().map_values(|s: Seq<char>| quoted(s)),
            out@ == old(out)@ + "["@ + joined(texts.take(i as int)),
        decreases items.len() - i,
    {
        if i > 0 {
            proof {
                reveal_strlit(",");
            }
            out.append(",");
        }
        push_quoted(out, items[i].as_str());
        proof {
            assert(texts.take(i + 1).drop_last() =~= texts.take(i as int));
            assert(out@ =~= old(out)@ + "["@ + joined(texts.take(i + 1)));
        }
        i += 1;
    }
    out.append("]");
    proof {
        assert(texts.take(i as int) =~= texts);
        assert(out@ =~= old(out)@ + text_array(items.deep_view()));
    }
}

fn push_amount_array(out: &mut String, items: &Vec<u128>)
    ensures
        final(out)@ == old(out)@ + amount_array(items@),
{
    let ghost texts = items@.map_values(|n: u128| quoted_decimal(n as nat));
    out.append("[");
    let mut i: usize = 0;
    while i < items.len()
        invariant
            i <= items.len(),
            texts == items@.map_values(|n: u128| quoted_decimal(n as nat)),
            out@ == old(out)@ + "["@ + joined(texts.take(i as int)),
        decreases items.len() - i,
    {
        if i > 0 {
            proof {
                reveal_strlit(",");
            }
            out.append(",");
        }
        push_quoted_decimal(out, items[i]);
        proof {
            assert(texts.take(i + 1).drop_last() =~= texts.take(i as int));
            assert(out@ =~= old(out)@ + "["@ + joined(texts.take(i + 1)));
        }
        i += 1;
    }
    out.append("]");
    proof {
        assert(texts.take(i as int) =~= texts);
        assert(out@ =~= old(out)@ + amount_array(items@));
    }
}

fn push_diff_object(out: &mut String, diff: &indexmap::IndexMap<String, String>)
    ensures
        final(out)@ == old(out)@ + diff_object(index_map_entries(*diff)),
{
    let ghost entries = index_map_entries(*diff);
    let ghost texts = entries.map_values(|e: (Seq<char>, Seq<char>)| diff_entry(e));
    let n: usize = index_map_len(diff);
    out.append("{");
    let mut i: usize = 0;
    while i < n
        invariant
            i <= n,
            n == entries.len(),
            entries == index_map_entries(*diff),
            texts == entries.map_values(|e: (Seq<char>, Seq<char>)| diff_entry(e)),
            out@ == old(out)@ + "{"@ + joined(texts.take(i as int)),
        decreases n - i,
    {
        if i > 0 {
            proof {
                reveal_strlit(",");
            }
            out.append(",");
        }
        match index_map_entry(diff, i) {
            Some((token, delta)) => {
                push_quoted(out, token.as_str());
                out.append(":");
                push_quoted(out, delta.as_str());
            },
            None => {},
        }
        proof {
            assert(texts.take(i + 1).drop_last() =~= texts.take(i as int));
            assert(out@ =~= old(out)@ + "{"@ + joined(texts.take(i + 1)));
        }
        i += 1;
    }
    out.append("}");
    proof {
        assert(texts.take(i as int) =~= texts);
        assert(out@ =~= old(out)@ + diff_object(index_map_entries(*diff)));
    }
}

fn push_token_diff_members(out: &mut String, d: &TokenDiff)
    ensures
        final(out)@ == old(out)@ + token_diff_members(d@),
{
    out.append("\"diff\":");
    push_diff_object(out, &d.diff);
    push_optional_text(out, ",\"memo\":", &d.memo);
    push_optional_text(out, ",\"referral\":", &d.referral);
    assert(out@ =~= old(out)@ + token_diff_members(d@));
}

/// Appends a token diff on its own.
pub fn push_token_diff(out: &mut String, d: &TokenDiff)
    ensures
        final(out)@ == old(out)@ + token_diff_json(d@),
{
    out.append("{");
    push_token_diff_members(out, d);
    out.append("}");
    assert(out@ =~= old(out)@ + token_diff_json(d@));
}

fn push_ft_withdraw_members(out: &mut String, w: &FtWithdraw)
    ensures
        final(out)@ == old(out)@ + ft_withdraw_members(w@),
{
    out.append("\"token\":");
    push_quoted(out, w.token.as_str());
    out.append(",\"receiver_id\":");
    push_quoted(out, w.receiver_id.as_str());
    out.append(",\"amount\":");
    push_quoted_decimal(out, w.amount);
    push_withdraw_options(out, &w.memo, &w.msg, &w.storage_deposit);
    assert(out@ =~= old(out)@ + ft_withdraw_members(w@));
}

fn push_nft_withdraw_members(out: &mut String, w: &NftWithdraw)
    ensures
        final(out)@ == old(out)@ + nft_withdraw_members(w@),
{
    out.append("\"token\":");
    push_quoted(out, w.token.as_str());
    out.append(",\"receiver_id\":");
    push_quoted(out, w.receiver_id.as_str());
    out.append(",\"token_id\":");
    push_quoted(out, w.token_id.as_str());
    push_withdraw_options(out, &w.memo, &w.msg, &w.storage_deposit);
    assert(out@ =~= old(out)@ + nft_withdraw_members(w@));
}

fn push_mt_withdraw_members(out: &mut String, w: &MtWithdraw)
    ensures
        final(out)@ == old(out)@ + mt_withdraw_members(w@),
{
    out.append("\"token\":");
    push_quoted(out, w.token.as_str());
    out.append(",\"receiver_id\":");
    push_quoted(out, w.receiver_id.as_str());
    out.append(",\"token_ids\":");
    push_text_array(out, &w.token_ids);
    out.append(",\"amounts\":");
    push_amount_array(out, &w.amounts);
    push_withdraw_options(out, &w.memo, &w.msg, &w.storage_deposit);
    assert(out@ =~= old(out)@ + mt_withdraw_members(w@));
}

fn push_native_withdraw_members(out: &mut String, w: &NativeWithdraw)
    ensures
        final(out)@ == old(out)@ + native_withdraw_members(w@),
{
    out.append("\"receiver_id\":");
    push_quoted(out, w.receiver_id.as_str());
    out.append(",\"amount\":");
    push_quoted_decimal(out, w.amount);
    assert(out@ =~= old(out)@ + native_withdraw_members(w@));
}

/// Appends one intent.
pub fn push_intent(out: &mut String, intent: &Intent)
    ensures
        final(out)@ == old(out)@ + intent_json(intent@),
{
    match intent {
        Intent::FtWithdraw(w) => {
            out.append("{\"intent\":\"ft_withdraw\",");
            push_ft_withdraw_members(out, w);
        },
        Intent::NftWithdraw(w) => {
            out.append("{\"intent\":\"nft_withdraw\",");
            push_nft_withdraw_members(out, w);
        },
        Intent::MtWithdraw(w) => {
            out.append("{\"intent\":\"mt_withdraw\",");
            push_mt_withdraw_members(out, w);
        },
        Intent::NativeWithdraw(w) => {
            out.append("{\"intent\":\"native_withdraw\",");
            push_native_withdraw_members(out, w);
        },
        Intent::TokenDiff(d) => {
            out.append("{\"intent\":\"token_diff\",");
            push_token_diff_members(out, d);
        },
    }
    out.append("}");
    assert(out@ =~= old(out)@ + intent_json(intent@));
}

fn push_intent_array(out: &mut String, intents: &Vec<Intent>)
    ensures
        final(out)@ == old(out)@ + intent_array(intents.deep_view()),
{
    let ghost texts = intents.deep_view().map_values(|i: IntentView| intent_json(i));
    out.append("[");
    let mut i: usize = 0;
    while i < intents.len()
        invariant
            i <= intents.len(),
            texts == intents.deep_view().map_values(|i: IntentView| intent_json(i)),
            out@ == old(out)@ + "["@ + joined(texts.take(i as int)),
        decreases intents.len() - i,
    {
        if i > 0 {
            proof {
                reveal_strlit(",");
            }
            out.append(",");
        }
        push_intent(out, &intents[i]);
        proof {
            assert(texts.take(i + 1).drop_last() =~= texts.take(i as int));
            assert(out@ =~= old(out)@ + "["@ + joined(texts.take(i + 1)));
        }
        i += 1;
    }
    out.append("]");
    proof {
        assert(texts.take(i as int) =~= texts);
        assert(out@ =~= old(out)@ + intent_array(intents.deep_view()));
    }
}

/// The canonical text of a batch.
pub fn canonical_json(batch: &DefuseIntents) -> (text: String)
    ensures
        text@ == batch_json(batch@),
{
    let mut out = String::new();
    out.append("{\"signer_id\":");
    push_quoted(&mut out, batch.signer_id.as_str());
    push_optional_text(&mut out, ",\"deadline\":", &batch.deadline);
    out.append(",\"nonce\":");
    push_quoted(&mut out, batch.nonce.as_str());
    out.append(",\"verifying_contract\":");
    push_quoted(&mut out, batch.verifying_contract.as_str());
    out.append(",\"intents\":");
    push_intent_array(&mut out, &batch.intents);
    out.append("}");
    assert(out@ =~= batch_json(batch@));
    out
}

} // verus!
