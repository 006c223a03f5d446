//! Different batches have different canonical texts: the text of a batch can
//! be read back in one way only. Every piece of the text is followed by a
//! character that cannot belong to it, so where two texts agree, the pieces
//! they were put together from agree as well.

use crate::encoding::{
    amount_array, batch_json, diff_entry, diff_object, ft_withdraw_members,
    intent_array, intent_json, mt_withdraw_members, native_withdraw_members, nft_withdraw_members,
    optional_amount, optional_text, text_array, token_diff_members, withdraw_options,
};
use crate::json::{decimal, escaped, escaped_char, joined, lower_hex_digit, quoted, quoted_decimal};
use crate::models::intents::token_diff::TokenDiffView;
use crate::models::intents::tokens::{
    FtWithdrawView, MtWithdrawView, NativeWithdrawView, NftWithdrawView,
};
use crate::models::intents::{DefuseIntentsView, IntentView};
use crate::utils::erc191_message;
use vstd::prelude::*;
use vstd::utf8::{encode_utf8, encode_utf8_decode_utf8, is_ascii_chars, is_ascii_chars_encode_utf8};

verus! {

/// Whether `text` begins with `start`.
pub open spec fn starts_with(text: Seq<char>, start: Seq<char>) -> bool {
    text.len() >= start.len() && text.subrange(0, start.len() as int) == start
}

/// What stands before two equal texts can be taken away.
pub proof fn lemma_same_start(start: Seq<char>, a: Seq<char>, b: Seq<char>)
    requires
        start + a == start + b,
    ensures
        a == b,
{
    assert((start + a).len() == start.len() + a.len());
    assert((start + b).len() == start.len() + b.len());
    assert forall|i: int| 0 <= i < a.len() implies a[i] == b[i] by {
        assert((start + a)[start.len() + i] == a[i]);
        assert((start + b)[start.len() + i] == b[i]);
    }
    assert(a =~= b);
}

/// Two texts that agree and are cut at the same place agree on both sides of
/// the cut.
pub proof fn lemma_same_cut(x: Seq<char>, r1: Seq<char>, y: Seq<char>, r2: Seq<char>)
    requires
        x + r1 == y + r2,
        x.len() == y.len(),
    ensures
        x == y,
        r1 == r2,
{
    assert forall|i: int| 0 <= i < x.len() implies x[i] == y[i] by {
        assert((x + r1)[i] == x[i]);
        assert((y + r2)[i] == y[i]);
    }
    assert(x =~= y);
    lemma_same_start(x, r1, r2);
}

/// Three texts in a row can be read as the first and then the other two.
pub proof fn lemma_regroup(a: Seq<char>, b: Seq<char>, c: Seq<char>)
    ensures
        a + b + c == a + (b + c),
{
    assert(a + b + c =~= a + (b + c));
}

/// The escaped form of a character is never empty and never begins with a
/// quote; it begins with a backslash exactly when the character is escaped.
pub proof fn lemma_escaped_char_shape(c: char)
    ensures
        escaped_char(c).len() == 1 || escaped_char(c).len() == 2 || escaped_char(c).len() == 6,
        escaped_char(c)[0] != '"',
        escaped_char(c).len() == 1 ==> escaped_char(c)[0] == c && c != '\\',
        escaped_char(c).len() > 1 ==> escaped_char(c)[0] == '\\',
{
}

/// The escaped forms of two different characters differ, whatever follows
/// them.
pub proof fn lemma_escaped_char_distinct(c1: char, r1: Seq<char>, c2: char, r2: Seq<char>)
    requires
        escaped_char(c1) + r1 == escaped_char(c2) + r2,
    ensures
        c1 == c2,
        r1 == r2,
{
    let t1 = escaped_char(c1) + r1;
    let t2 = escaped_char(c2) + r2;
    lemma_escaped_char_shape(c1);
    lemma_escaped_char_shape(c2);
    assert(t1[0] == escaped_char(c1)[0]);
    assert(t2[0] == escaped_char(c2)[0]);
    if escaped_char(c1).len() == 1 {
        assert(c1 == c2);
    } else {
        assert(escaped_char(c2).len() > 1);
        assert(t1[1] == escaped_char(c1)[1]);
        assert(t2[1] == escaped_char(c2)[1]);
        if escaped_char(c1).len() == 6 {
            assert(escaped_char(c2).len() == 6);
            assert(t1[4] == escaped_char(c1)[4]);
            assert(t2[4] == escaped_char(c2)[4]);
            assert(t1[5] == escaped_char(c1)[5]);
            assert(t2[5] == escaped_char(c2)[5]);
            let n1 = c1 as int;
            let n2 = c2 as int;
            assert(0 <= n1 < 32 && 0 <= n2 < 32);
            assert(lower_hex_digit(n1 / 16) == lower_hex_digit(n2 / 16));
            assert(lower_hex_digit(n1 % 16) == lower_hex_digit(n2 % 16));
            assert(n1 / 16 == n2 / 16);
            assert(n1 % 16 == n2 % 16);
            assert(n1 == n2);
            assert(c1 == c2);
        } else {
            assert(c1 == c2);
        }
    }
    lemma_same_start(escaped_char(c1), r1, r2);
}

/// The text of a string between its opening quote and whatever follows the
/// closing quote can be read back in one way only.
pub proof fn lemma_escaped_distinct(s1: Seq<char>, r1: Seq<char>, s2: Seq<char>, r2: Seq<char>)
    requires
        escaped(s1) + seq!['"'] + r1 == escaped(s2) + seq!['"'] + r2,
    ensures
        s1 == s2,
        r1 == r2,
    decreases s1.len(),
{
    let t1 = escaped(s1) + seq!['"'] + r1;
    let t2 = escaped(s2) + seq!['"'] + r2;
    if s1.len() == 0 {
        assert(t1[0] == '"');
        if s2.len() > 0 {
            lemma_escaped_char_shape(s2[0]);
            assert(t2[0] == escaped_char(s2[0])[0]);
            assert(false);
        }
        assert(s1 =~= s2);
        lemma_same_start(seq!['"'], r1, r2);
    } else if s2.len() == 0 {
        assert(t2[0] == '"');
        lemma_escaped_char_shape(s1[0]);
        assert(t1[0] == escaped_char(s1[0])[0]);
        assert(false);
    } else {
        let rest1 = escaped(s1.drop_first()) + seq!['"'] + r1;
        let rest2 = escaped(s2.drop_first()) + seq!['"'] + r2;
        assert(t1 =~= escaped_char(s1[0]) + rest1);
        assert(t2 =~= escaped_char(s2[0]) + rest2);
        lemma_escaped_char_distinct(s1[0], rest1, s2[0], rest2);
        lemma_escaped_distinct(s1.drop_first(), r1, s2.drop_first(), r2);
        assert(s1 =~= seq![s1[0]] + s1.drop_first());
        assert(s2 =~= seq![s2[0]] + s2.drop_first());
    }
}

/// A quoted string can be read back in one way only, whatever follows it.
pub proof fn lemma_quoted_distinct(s1: Seq<char>, r1: Seq<char>, s2: Seq<char>, r2: Seq<char>)
    requires
        quoted(s1) + r1 == quoted(s2) + r2,
    ensures
        s1 == s2,
        r1 == r2,
{
    let body1 = escaped(s1) + seq!['"'] + r1;
    let body2 = escaped(s2) + seq!['"'] + r2;
    assert(quoted(s1) + r1 =~= seq!['"'] + body1);
    assert(quoted(s2) + r2 =~= seq!['"'] + body2);
    lemma_same_start(seq!['"'], body1, body2);
    lemma_escaped_distinct(s1, r1, s2, r2);
}

/// Whether a character is a decimal digit.
pub open spec fn is_digit(c: char) -> bool {
    '0' <= c <= '9'
}

/// The number that a decimal digit stands for.
pub open spec fn digit_value(c: char) -> nat {
    (c as int - '0' as int) as nat
}

/// The number that a text of decimal digits stands for.
pub open spec fn decimal_value(digits: Seq<char>) -> nat
    decreases digits.len(),
{
    if digits.len() == 0 {
        0
    } else {
        decimal_value(digits.drop_last()) * 10 + digit_value(digits.last())
    }
}

/// A number in decimal is a text of at least one digit, and digits only.
pub proof fn lemma_decimal_digits(n: nat)
    ensures
        decimal(n).len() >= 1,
        forall|i: int| 0 <= i < decimal(n).len() ==> is_digit(#[trigger] decimal(n)[i]),
    decreases n,
{
    if n >= 10 {
        lemma_decimal_digits(n / 10);
    }
}

/// A number in decimal stands for that number.
pub proof fn lemma_decimal_value(n: nat)
    ensures
        decimal_value(decimal(n)) == n,
    decreases n,
{
    if n < 10 {
        assert(decimal(n).drop_last() =~= Seq::<char>::empty());
        assert(decimal_value(decimal(n).drop_last()) == 0);
    } else {
        lemma_decimal_value(n / 10);
        assert(decimal(n).drop_last() =~= decimal(n / 10));
    }
}

/// A number in decimal that is followed by a quote can be read back in one
/// way only.
pub proof fn lemma_decimal_distinct(a: nat, r1: Seq<char>, b: nat, r2: Seq<char>)
    requires
        decimal(a) + seq!['"'] + r1 == decimal(b) + seq!['"'] + r2,
    ensures
        a == b,
        r1 == r2,
{
    let t1 = decimal(a) + seq!['"'] + r1;
    let t2 = decimal(b) + seq!['"'] + r2;
    let la = decimal(a).len() as int;
    let lb = decimal(b).len() as int;
    lemma_decimal_digits(a);
    lemma_decimal_digits(b);
    if la < lb {
        assert(t1[la] == '"');
        assert(t2[la] == decimal(b)[la]);
        assert(is_digit(decimal(b)[la]));
        assert(false);
    }
    if lb < la {
        assert(t2[lb] == '"');
        assert(t1[lb] == decimal(a)[lb]);
        assert(is_digit(decimal(a)[lb]));
        assert(false);
    }
    let rest1 = seq!['"'] + r1;
    let rest2 = seq!['"'] + r2;
    assert(t1 =~= decimal(a) + rest1);
    assert(t2 =~= decimal(b) + rest2);
    lemma_same_cut(decimal(a), rest1, decimal(b), rest2);
    lemma_decimal_value(a);
    lemma_decimal_value(b);
    lemma_same_start(seq!['"'], r1, r2);
}

/// An amount as a decimal string can be read back in one way only, whatever
/// follows it.
pub proof fn lemma_quoted_decimal_distinct(a: nat, r1: Seq<char>, b: nat, r2: Seq<char>)
    requires
        quoted_decimal(a) + r1 == quoted_decimal(b) + r2,
    ensures
        a == b,
        r1 == r2,
{
    let body1 = decimal(a) + seq!['"'] + r1;
    let body2 = decimal(b) + seq!['"'] + r2;
    assert(quoted_decimal(a) + r1 =~= seq!['"'] + body1);
    assert(quoted_decimal(b) + r2 =~= seq!['"'] + body2);
    lemma_same_start(seq!['"'], body1, body2);
    lemma_decimal_distinct(a, r1, b, r2);
}

/// Whether the text that `f` writes for an item can be read back in one way
/// only, whatever follows it.
pub open spec fn self_delimiting<T>(f: spec_fn(T) -> Seq<char>) -> bool {
    forall|a: T, r1: Seq<char>, b: T, r2: Seq<char>|
        #[trigger] (f(a) + r1) == #[trigger] (f(b) + r2) ==> a == b && r1 == r2
}

/// Whether the text that `f` writes for an item is never empty and never
/// begins with a comma or with `close`.
pub open spec fn starts_apart<T>(f: spec_fn(T) -> Seq<char>, close: char) -> bool {
    forall|x: T| #![trigger f(x)] f(x).len() > 0 && f(x)[0] != ',' && f(x)[0] != close
}

/// The texts that follow the first item of a list, each behind its comma, and
/// then `end`.
pub open spec fn rest_of_list(texts: Seq<Seq<char>>, end: Seq<char>) -> Seq<char>
    decreases texts.len(),
{
    if texts.len() == 0 {
        end
    } else {
        seq![','] + texts[0] + rest_of_list(texts.drop_first(), end)
    }
}

/// The texts of a list with a comma between neighbours, and then `end`.
pub open spec fn list_then(texts: Seq<Seq<char>>, end: Seq<char>) -> Seq<char> {
    if texts.len() == 0 {
        end
    } else {
        texts[0] + rest_of_list(texts.drop_first(), end)
    }
}

proof fn lemma_rest_of_list_push(texts: Seq<Seq<char>>, last: Seq<char>, end: Seq<char>)
    ensures
        rest_of_list(texts.push(last), end) == rest_of_list(texts, seq![','] + last + end),
    decreases texts.len(),
{
    let longer = texts.push(last);
    if texts.len() == 0 {
        assert(longer.drop_first() =~= Seq::<Seq<char>>::empty());
        assert(rest_of_list(longer.drop_first(), end) == end);
        assert(longer[0] == last);
    } else {
        lemma_rest_of_list_push(texts.drop_first(), last, end);
        assert(longer.drop_first() =~= texts.drop_first().push(last));
        assert(longer[0] == texts[0]);
    }
}

/// Joining from the last item and reading from the first describe one text.
pub proof fn lemma_joined_is_list(texts: Seq<Seq<char>>, end: Seq<char>)
    ensures
        joined(texts) + end == list_then(texts, end),
    decreases texts.len(),
{
    if texts.len() == 0 {
        assert(joined(texts) + end =~= end);
    } else if texts.len() == 1 {
        assert(texts.drop_last() =~= Seq::<Seq<char>>::empty());
        assert(texts.drop_first() =~= Seq::<Seq<char>>::empty());
        assert(joined(texts.drop_last()) =~= Seq::<char>::empty());
        assert(rest_of_list(texts.drop_first(), end) == end);
        assert(joined(texts) =~= texts[0]);
    } else {
        let front = texts.drop_last();
        let last = texts.last();
        let longer = seq![','] + last + end;
        lemma_joined_is_list(front, longer);
        assert(joined(texts) + end =~= joined(front) + longer);
        lemma_rest_of_list_push(front.drop_first(), last, end);
        assert(texts.drop_first() =~= front.drop_first().push(last));
    }
}

proof fn lemma_rest_of_list_distinct<T>(
    f: spec_fn(T) -> Seq<char>,
    close: char,
    xs: Seq<T>,
    r1: Seq<char>,
    ys: Seq<T>,
    r2: Seq<char>,
)
    requires
        self_delimiting(f),
        close != ',',
        rest_of_list(xs.map_values(f), seq![close] + r1) == rest_of_list(
            ys.map_values(f),
            seq![close] + r2,
        ),
    ensures
        xs == ys,
        r1 == r2,
    decreases xs.len(),
{
    let tx = xs.map_values(f);
    let ty = ys.map_values(f);
    let t1 = rest_of_list(tx, seq![close] + r1);
    let t2 = rest_of_list(ty, seq![close] + r2);
    if xs.len() == 0 {
        assert(t1[0] == close);
        if ys.len() > 0 {
            assert(t2[0] == ',');
            assert(false);
        }
        assert(xs =~= ys);
        lemma_same_start(seq![close], r1, r2);
    } else if ys.len() == 0 {
        assert(t2[0] == close);
        assert(t1[0] == ',');
        assert(false);
    } else {
        let more1 = rest_of_list(tx.drop_first(), seq![close] + r1);
        let more2 = rest_of_list(ty.drop_first(), seq![close] + r2);
        assert(t1 =~= seq![','] + (f(xs[0]) + more1));
        assert(t2 =~= seq![','] + (f(ys[0]) + more2));
        lemma_same_start(seq![','], f(xs[0]) + more1, f(ys[0]) + more2);
        assert(xs[0] == ys[0] && more1 == more2);
        assert(tx.drop_first() =~= xs.drop_first().map_values(f));
        assert(ty.drop_first() =~= ys.drop_first().map_values(f));
        lemma_rest_of_list_distinct(f, close, xs.drop_first(), r1, ys.drop_first(), r2);
        assert(xs =~= seq![xs[0]] + xs.drop_first());
        assert(ys =~= seq![ys[0]] + ys.drop_first());
    }
}

/// A list of items whose texts delimit themselves can be read back in one way
/// only, when the character that closes the list follows it.
pub proof fn lemma_list_distinct<T>(
    f: spec_fn(T) -> Seq<char>,
    close: char,
    xs: Seq<T>,
    r1: Seq<char>,
    ys: Seq<T>,
    r2: Seq<char>,
)
    requires
        self_delimiting(f),
        starts_apart(f, close),
        close != ',',
        joined(xs.map_values(f)) + seq![close] + r1 == joined(ys.map_values(f)) + seq![close] + r2,
    ensures
        xs == ys,
        r1 == r2,
{
    let tx = xs.map_values(f);
    let ty = ys.map_values(f);
    let end1 = seq![close] + r1;
    let end2 = seq![close] + r2;
    lemma_joined_is_list(tx, end1);
    lemma_joined_is_list(ty, end2);
    assert(joined(tx) + seq![close] + r1 =~= joined(tx) + end1);
    assert(joined(ty) + seq![close] + r2 =~= joined(ty) + end2);
    let t1 = list_then(tx, end1);
    let t2 = list_then(ty, end2);
    if xs.len() == 0 {
        assert(t1[0] == close);
        if ys.len() > 0 {
            assert(t2[0] == f(ys[0])[0]);
            assert(false);
        }
        assert(xs =~= ys);
        lemma_same_start(seq![close], r1, r2);
    } else if ys.len() == 0 {
        assert(t2[0] == close);
        assert(t1[0] == f(xs[0])[0]);
        assert(false);
    } else {
        let more1 = rest_of_list(tx.drop_first(), end1);
        let more2 = rest_of_list(ty.drop_first(), end2);
        assert(t1 == f(xs[0]) + more1);
        assert(t2 == f(ys[0]) + more2);
        assert(xs[0] == ys[0] && more1 == more2);
        assert(tx.drop_first() =~= xs.drop_first().map_values(f));
        assert(ty.drop_first() =~= ys.drop_first().map_values(f));
        lemma_rest_of_list_distinct(f, close, xs.drop_first(), r1, ys.drop_first(), r2);
        assert(xs =~= seq![xs[0]] + xs.drop_first());
        assert(ys =~= seq![ys[0]] + ys.drop_first());
    }
}

/// A text that differs from `start` at one place does not begin with it.
pub proof fn lemma_not_start(text: Seq<char>, start: Seq<char>, at: int)
    requires
        0 <= at < start.len(),
        at < text.len() ==> text[at] != start[at],
    ensures
        !starts_with(text, start),
{
    if starts_with(text, start) {
        assert(text.subrange(0, start.len() as int)[at] == text[at]);
    }
}

/// A string member can be read back in one way only.
pub proof fn lemma_text_member(
    label: Seq<char>,
    s1: Seq<char>,
    r1: Seq<char>,
    s2: Seq<char>,
    r2: Seq<char>,
)
    requires
        label + quoted(s1) + r1 == label + quoted(s2) + r2,
    ensures
        s1 == s2,
        r1 == r2,
{
    assert(label + quoted(s1) + r1 =~= label + (quoted(s1) + r1));
    assert(label + quoted(s2) + r2 =~= label + (quoted(s2) + r2));
    lemma_same_start(label, quoted(s1) + r1, quoted(s2) + r2);
    lemma_quoted_distinct(s1, r1, s2, r2);
}

/// An amount member can be read back in one way only.
pub proof fn lemma_amount_member(label: Seq<char>, n1: nat, r1: Seq<char>, n2: nat, r2: Seq<char>)
    requires
        label + quoted_decimal(n1) + r1 == label + quoted_decimal(n2) + r2,
    ensures
        n1 == n2,
        r1 == r2,
{
    assert(label + quoted_decimal(n1) + r1 =~= label + (quoted_decimal(n1) + r1));
    assert(label + quoted_decimal(n2) + r2 =~= label + (quoted_decimal(n2) + r2));
    lemma_same_start(label, quoted_decimal(n1) + r1, quoted_decimal(n2) + r2);
    lemma_quoted_decimal_distinct(n1, r1, n2, r2);
}

/// An optional string member can be read back in one way only, when what
/// follows it cannot be taken for its label.
pub proof fn lemma_optional_text(
    label: Seq<char>,
    v1: Option<Seq<char>>,
    r1: Seq<char>,
    v2: Option<Seq<char>>,
    r2: Seq<char>,
)
    requires
        optional_text(label, v1) + r1 == optional_text(label, v2) + r2,
        !starts_with(r1, label),
        !starts_with(r2, label),
    ensures
        v1 == v2,
        r1 == r2,
{
    match (v1, v2) {
        (Some(s1), Some(s2)) => {
            lemma_text_member(label, s1, r1, s2, r2);
        },
        (Some(s1), None) => {
            assert(optional_text(label, v2) + r2 =~= r2);
            assert(r2.subrange(0, label.len() as int) =~= label);
        },
        (None, Some(s2)) => {
            assert(optional_text(label, v1) + r1 =~= r1);
            assert(r1.subrange(0, label.len() as int) =~= label);
        },
        (None, None) => {
            assert(optional_text(label, v1) + r1 =~= r1);
            assert(optional_text(label, v2) + r2 =~= r2);
        },
    }
}

/// An optional amount member can be read back in one way only, when what
/// follows it cannot be taken for its label.
pub proof fn lemma_optional_amount(
    label: Seq<char>,
    v1: Option<u128>,
    r1: Seq<char>,
    v2: Option<u128>,
    r2: Seq<char>,
)
    requires
        optional_amount(label, v1) + r1 == optional_amount(label, v2) + r2,
        !starts_with(r1, label),
        !starts_with(r2, label),
    ensures
        v1 == v2,
        r1 == r2,
{
    match (v1, v2) {
        (Some(n1), Some(n2)) => {
            lemma_amount_member(label, n1 as nat, r1, n2 as nat, r2);
        },
        (Some(n1), None) => {
            assert(optional_amount(label, v2) + r2 =~= r2);
            assert(r2.subrange(0, label.len() as int) =~= label);
        },
        (None, Some(n2)) => {
            assert(optional_amount(label, v1) + r1 =~= r1);
            assert(r1.subrange(0, label.len() as int) =~= label);
        },
        (None, None) => {
            assert(optional_amount(label, v1) + r1 =~= r1);
            assert(optional_amount(label, v2) + r2 =~= r2);
        },
    }
}

/// Where the labels of the optional members differ from each other and from
/// the brace that closes an object.
proof fn lemma_labels()
    ensures
        ",\"memo\":"@.len() == 8,
        ",\"memo\":"@[0] == ',',
        ",\"memo\":"@[2] == 'm',
        ",\"memo\":"@[3] == 'e',
        ",\"msg\":"@.len() == 7,
        ",\"msg\":"@[0] == ',',
        ",\"msg\":"@[2] == 'm',
        ",\"msg\":"@[3] == 's',
        ",\"storage_deposit\":"@.len() == 19,
        ",\"storage_deposit\":"@[0] == ',',
        ",\"storage_deposit\":"@[2] == 's',
        ",\"referral\":"@.len() == 12,
        ",\"referral\":"@[0] == ',',
        ",\"referral\":"@[2] == 'r',
        "}"@ =~= seq!['}'],
        "]"@ =~= seq![']'],
        "{"@ =~= seq!['{'],
        "["@ =~= seq!['['],
        ":"@ =~= seq![':'],
{
    reveal_strlit(",\"memo\":");
    reveal_strlit(",\"msg\":");
    reveal_strlit(",\"storage_deposit\":");
    reveal_strlit(",\"referral\":");
    reveal_strlit("}");
    reveal_strlit("]");
    reveal_strlit("{");
    reveal_strlit("[");
    reveal_strlit(":");
}

/// The optional members of a withdrawal and the brace that closes it can be
/// read back in one way only.
pub proof fn lemma_withdraw_options_distinct(
    memo1: Option<Seq<char>>,
    msg1: Option<Seq<char>>,
    deposit1: Option<u128>,
    r1: Seq<char>,
    memo2: Option<Seq<char>>,
    msg2: Option<Seq<char>>,
    deposit2: Option<u128>,
    r2: Seq<char>,
)
    requires
        withdraw_options(memo1, msg1, deposit1) + "}"@ + r1 == withdraw_options(
            memo2,
            msg2,
            deposit2,
        ) + "}"@ + r2,
    ensures
        memo1 == memo2,
        msg1 == msg2,
        deposit1 == deposit2,
        r1 == r2,
{
    let memo = ",\"memo\":"@;
    let msg = ",\"msg\":"@;
    let deposit = ",\"storage_deposit\":"@;
    let end1 = "}"@ + r1;
    let end2 = "}"@ + r2;
    let after_msg1 = optional_amount(deposit, deposit1) + end1;
    let after_msg2 = optional_amount(deposit, deposit2) + end2;
    let after_memo1 = optional_text(msg, msg1) + after_msg1;
    let after_memo2 = optional_text(msg, msg2) + after_msg2;
    lemma_withdraw_options_parts(memo1, msg1, deposit1, r1);
    lemma_withdraw_options_parts(memo2, msg2, deposit2, r2);
    lemma_after_msg_shape(deposit1, r1);
    lemma_after_msg_shape(deposit2, r2);
    lemma_after_memo_shape(msg1, after_msg1);
    lemma_after_memo_shape(msg2, after_msg2);
    lemma_optional_text(memo, memo1, after_memo1, memo2, after_memo2);
    lemma_optional_text(msg, msg1, after_msg1, msg2, after_msg2);
    lemma_brace_is_no_label(r1);
    lemma_brace_is_no_label(r2);
    lemma_optional_amount(deposit, deposit1, end1, deposit2, end2);
    lemma_same_start("}"@, r1, r2);
}

proof fn lemma_withdraw_options_parts(
    memo: Option<Seq<char>>,
    msg: Option<Seq<char>>,
    deposit: Option<u128>,
    r: Seq<char>,
)
    ensures
        withdraw_options(memo, msg, deposit) + "}"@ + r == optional_text(",\"memo\":"@, memo) + (
        optional_text(",\"msg\":"@, msg) + (optional_amount(",\"storage_deposit\":"@, deposit) + (
        "}"@ + r))),
{
    let a = optional_text(",\"memo\":"@, memo);
    let b = optional_text(",\"msg\":"@, msg);
    let c = optional_amount(",\"storage_deposit\":"@, deposit);
    assert(withdraw_options(memo, msg, deposit) == a + b + c);
    lemma_regroup(a + b + c, "}"@, r);
    lemma_regroup(a + b, c, "}"@ + r);
    lemma_regroup(a, b, c + ("}"@ + r));
}

/// A closing brace cannot be taken for the label of a member.
proof fn lemma_brace_is_no_label(r: Seq<char>)
    ensures
        !starts_with("}"@ + r, ",\"memo\":"@),
        !starts_with("}"@ + r, ",\"msg\":"@),
        !starts_with("}"@ + r, ",\"storage_deposit\":"@),
        !starts_with("}"@ + r, ",\"referral\":"@),
{
    lemma_labels();
    let text = "}"@ + r;
    assert(text[0] == '}');
    lemma_not_start(text, ",\"memo\":"@, 0);
    lemma_not_start(text, ",\"msg\":"@, 0);
    lemma_not_start(text, ",\"storage_deposit\":"@, 0);
    lemma_not_start(text, ",\"referral\":"@, 0);
}

/// What follows the place of `msg` begins with the label of the deposit or
/// with the closing brace, and so with neither the label of `msg` nor that of
/// `memo`.
proof fn lemma_after_msg_shape(deposit: Option<u128>, r: Seq<char>)
    ensures
        ({
            let text = optional_amount(",\"storage_deposit\":"@, deposit) + ("}"@ + r);
            &&& text.len() > 0
            &&& text[0] == '}' || (text.len() > 3 && text[0] == ',' && text[2] == 's')
            &&& !starts_with(text, ",\"msg\":"@)
            &&& !starts_with(text, ",\"memo\":"@)
        }),
{
    lemma_labels();
    let label = ",\"storage_deposit\":"@;
    let text = optional_amount(label, deposit) + ("}"@ + r);
    match deposit {
        Some(n) => {
            assert(text[0] == label[0]);
            assert(text[2] == label[2]);
            lemma_not_start(text, ",\"msg\":"@, 2);
            lemma_not_start(text, ",\"memo\":"@, 2);
        },
        None => {
            assert(text =~= "}"@ + r);
            assert(text[0] == '}');
            lemma_not_start(text, ",\"msg\":"@, 0);
            lemma_not_start(text, ",\"memo\":"@, 0);
        },
    }
}

/// What follows the place of `memo` in a withdrawal does not begin with the
/// label of `memo`.
proof fn lemma_after_memo_shape(msg: Option<Seq<char>>, after_msg: Seq<char>)
    requires
        after_msg.len() > 0,
        after_msg[0] == '}' || (after_msg.len() > 3 && after_msg[0] == ',' && after_msg[2] == 's'),
    ensures
        !starts_with(optional_text(",\"msg\":"@, msg) + after_msg, ",\"memo\":"@),
{
    lemma_labels();
    let label = ",\"msg\":"@;
    let text = optional_text(label, msg) + after_msg;
    match msg {
        Some(s) => {
            assert(text[3] == label[3]);
            lemma_not_start(text, ",\"memo\":"@, 3);
        },
        None => {
            assert(text =~= after_msg);
            if after_msg[0] == '}' {
                lemma_not_start(text, ",\"memo\":"@, 0);
            } else {
                lemma_not_start(text, ",\"memo\":"@, 2);
            }
        },
    }
}

/// An array of strings can be read back in one way only.
pub proof fn lemma_text_array_distinct(
    xs: Seq<Seq<char>>,
    r1: Seq<char>,
    ys: Seq<Seq<char>>,
    r2: Seq<char>,
)
    requires
        text_array(xs) + r1 == text_array(ys) + r2,
    ensures
        xs == ys,
        r1 == r2,
{
    lemma_labels();
    let f = |s: Seq<char>| quoted(s);
    assert(self_delimiting(f)) by {
        assert forall|a: Seq<char>, q1: Seq<char>, b: Seq<char>, q2: Seq<char>|
            #[trigger] (f(a) + q1) == #[trigger] (f(b) + q2) implies a == b && q1 == q2 by {
            lemma_quoted_distinct(a, q1, b, q2);
        }
    }
    assert(starts_apart(f, ']')) by {
        assert forall|x: Seq<char>| #![trigger f(x)]
            f(x).len() > 0 && f(x)[0] != ',' && f(x)[0] != ']' by {
            assert(quoted(x)[0] == '"');
        }
    }
    assert(xs.map_values(|s: Seq<char>| quoted(s)) =~= xs.map_values(f));
    assert(ys.map_values(|s: Seq<char>| quoted(s)) =~= ys.map_values(f));
    let inner1 = joined(xs.map_values(f)) + seq![']'] + r1;
    let inner2 = joined(ys.map_values(f)) + seq![']'] + r2;
    assert(text_array(xs) + r1 =~= "["@ + inner1);
    assert(text_array(ys) + r2 =~= "["@ + inner2);
    lemma_same_start("["@, inner1, inner2);
    lemma_list_distinct(f, ']', xs, r1, ys, r2);
}

/// An array of amounts can be read back in one way only.
pub proof fn lemma_amount_array_distinct(xs: Seq<u128>, r1: Seq<char>, ys: Seq<u128>, r2: Seq<char>)
    requires
        amount_array(xs) + r1 == amount_array(ys) + r2,
    ensures
        xs == ys,
        r1 == r2,
{
    lemma_labels();
    let f = |n: u128| quoted_decimal(n as nat);
    assert(self_delimiting(f)) by {
        assert forall|a: u128, q1: Seq<char>, b: u128, q2: Seq<char>|
            #[trigger] (f(a) + q1) == #[trigger] (f(b) + q2) implies a == b && q1 == q2 by {
            lemma_quoted_decimal_distinct(a as nat, q1, b as nat, q2);
        }
    }
    assert(starts_apart(f, ']')) by {
        assert forall|x: u128| #![trigger f(x)]
            f(x).len() > 0 && f(x)[0] != ',' && f(x)[0] != ']' by {
            assert(quoted_decimal(x as nat)[0] == '"');
        }
    }
    assert(xs.map_values(|n: u128| quoted_decimal(n as nat)) =~= xs.map_values(f));
    assert(ys.map_values(|n: u128| quoted_decimal(n as nat)) =~= ys.map_values(f));
    let inner1 = joined(xs.map_values(f)) + seq![']'] + r1;
    let inner2 = joined(ys.map_values(f)) + seq![']'] + r2;
    assert(amount_array(xs) + r1 =~= "["@ + inner1);
    assert(amount_array(ys) + r2 =~= "["@ + inner2);
    lemma_same_start("["@, inner1, inner2);
    lemma_list_distinct(f, ']', xs, r1, ys, r2);
}

/// One entry of a token diff can be read back in one way only.
pub proof fn lemma_diff_entry_distinct(
    a: (Seq<char>, Seq<char>),
    r1: Seq<char>,
    b: (Seq<char>, Seq<char>),
    r2: Seq<char>,
)
    requires
        diff_entry(a) + r1 == diff_entry(b) + r2,
    ensures
        a == b,
        r1 == r2,
{
    let after1 = ":"@ + quoted(a.1) + r1;
    let after2 = ":"@ + quoted(b.1) + r2;
    assert(diff_entry(a) + r1 =~= quoted(a.0) + after1);
    assert(diff_entry(b) + r2 =~= quoted(b.0) + after2);
    lemma_quoted_distinct(a.0, after1, b.0, after2);
    lemma_text_member(":"@, a.1, r1, b.1, r2);
}

/// The deltas of a token diff can be read back in one way only, in their
/// order.
pub proof fn lemma_diff_object_distinct(
    xs: Seq<(Seq<char>, Seq<char>)>,
    r1: Seq<char>,
    ys: Seq<(Seq<char>, Seq<char>)>,
    r2: Seq<char>,
)
    requires
        diff_object(xs) + r1 == diff_object(ys) + r2,
    ensures
        xs == ys,
        r1 == r2,
{
    lemma_labels();
    let f = |e: (Seq<char>, Seq<char>)| diff_entry(e);
    assert(self_delimiting(f)) by {
        assert forall|a: (Seq<char>, Seq<char>), q1: Seq<char>, b: (Seq<char>, Seq<char>), q2: Seq<char>|
            #[trigger] (f(a) + q1) == #[trigger] (f(b) + q2) implies a == b && q1 == q2 by {
            lemma_diff_entry_distinct(a, q1, b, q2);
        }
    }
    assert(starts_apart(f, '}')) by {
        assert forall|x: (Seq<char>, Seq<char>)| #![trigger f(x)]
            f(x).len() > 0 && f(x)[0] != ',' && f(x)[0] != '}' by {
            assert(diff_entry(x)[0] == quoted(x.0)[0]);
            assert(quoted(x.0)[0] == '"');
        }
    }
    assert(xs.map_values(|e: (Seq<char>, Seq<char>)| diff_entry(e)) =~= xs.map_values(f));
    assert(ys.map_values(|e: (Seq<char>, Seq<char>)| diff_entry(e)) =~= ys.map_values(f));
    let inner1 = joined(xs.map_values(f)) + seq!['}'] + r1;
    let inner2 = joined(ys.map_values(f)) + seq!['}'] + r2;
    assert(diff_object(xs) + r1 =~= "{"@ + inner1);
    assert(diff_object(ys) + r2 =~= "{"@ + inner2);
    lemma_same_start("{"@, inner1, inner2);
    lemma_list_distinct(f, '}', xs, r1, ys, r2);
}

proof fn lemma_chain2(
    l1: Seq<char>,
    x1: Seq<char>,
    l2: Seq<char>,
    x2: Seq<char>,
    c: Seq<char>,
    r: Seq<char>,
)
    ensures
        l1 + x1 + l2 + x2 + c + r == (l1 + x1) + ((l2 + x2) + (c + r)),
{
    assert(l1 + x1 + l2 + x2 + c + r =~= (l1 + x1) + ((l2 + x2) + (c + r)));
}

proof fn lemma_chain3(
    l1: Seq<char>,
    x1: Seq<char>,
    l2: Seq<char>,
    x2: Seq<char>,
    l3: Seq<char>,
    x3: Seq<char>,
    o: Seq<char>,
    c: Seq<char>,
    r: Seq<char>,
)
    ensures
        l1 + x1 + l2 + x2 + l3 + x3 + o + c + r == (l1 + x1) + ((l2 + x2) + ((l3 + x3) + (o + c + r))),
{
    assert(l1 + x1 + l2 + x2 + l3 + x3 + o + c + r =~= (l1 + x1) + ((l2 + x2) + ((l3 + x3) + (o + c
        + r))));
}

proof fn lemma_chain4(
    l1: Seq<char>,
    x1: Seq<char>,
    l2: Seq<char>,
    x2: Seq<char>,
    l3: Seq<char>,
    x3: Seq<char>,
    l4: Seq<char>,
    x4: Seq<char>,
    o: Seq<char>,
    c: Seq<char>,
    r: Seq<char>,
)
    ensures
        l1 + x1 + l2 + x2 + l3 + x3 + l4 + x4 + o + c + r == (l1 + x1) + ((l2 + x2) + (l3 + (x3 + (l4
            + (x4 + (o + c + r)))))),
{
    assert(l1 + x1 + l2 + x2 + l3 + x3 + l4 + x4 + o + c + r =~= (l1 + x1) + ((l2 + x2) + (l3 + (x3
        + (l4 + (x4 + (o + c + r)))))));
}

/// The members of a fungible-token withdrawal and the brace that closes it
/// can be read back in one way only.
pub proof fn lemma_ft_withdraw_distinct(
    a: FtWithdrawView,
    r1: Seq<char>,
    b: FtWithdrawView,
    r2: Seq<char>,
)
    requires
        ft_withdraw_members(a) + "}"@ + r1 == ft_withdraw_members(b) + "}"@ + r2,
    ensures
        a == b,
        r1 == r2,
{
    let token = "\"token\":"@;
    let receiver = ",\"receiver_id\":"@;
    let amount = ",\"amount\":"@;
    let tail3a = withdraw_options(a.memo, a.msg, a.storage_deposit) + "}"@ + r1;
    let tail3b = withdraw_options(b.memo, b.msg, b.storage_deposit) + "}"@ + r2;
    let tail2a = (amount + quoted_decimal(a.amount as nat)) + tail3a;
    let tail2b = (amount + quoted_decimal(b.amount as nat)) + tail3b;
    let tail1a = (receiver + quoted(a.receiver_id)) + tail2a;
    let tail1b = (receiver + quoted(b.receiver_id)) + tail2b;
    lemma_chain3(
        token,
        quoted(a.token),
        receiver,
        quoted(a.receiver_id),
        amount,
        quoted_decimal(a.amount as nat),
        withdraw_options(a.memo, a.msg, a.storage_deposit),
        "}"@,
        r1,
    );
    lemma_chain3(
        token,
        quoted(b.token),
        receiver,
        quoted(b.receiver_id),
        amount,
        quoted_decimal(b.amount as nat),
        withdraw_options(b.memo, b.msg, b.storage_deposit),
        "}"@,
        r2,
    );
    lemma_text_member(token, a.token, tail1a, b.token, tail1b);
    lemma_text_member(receiver, a.receiver_id, tail2a, b.receiver_id, tail2b);
    lemma_amount_member(amount, a.amount as nat, tail3a, b.amount as nat, tail3b);
    lemma_withdraw_options_distinct(
        a.memo,
        a.msg,
        a.storage_deposit,
        r1,
        b.memo,
        b.msg,
        b.storage_deposit,
        r2,
    );
}

/// The members of a non-fungible-token withdrawal and the brace that closes
/// it can be read back in one way only.
pub proof fn lemma_nft_withdraw_distinct(
    a: NftWithdrawView,
    r1: Seq<char>,
    b: NftWithdrawView,
    r2: Seq<char>,
)
    requires
        nft_withdraw_members(a) + "}"@ + r1 == nft_withdraw_members(b) + "}"@ + r2,
    ensures
        a == b,
        r1 == r2,
{
    let token = "\"token\":"@;
    let receiver = ",\"receiver_id\":"@;
    let token_id = ",\"token_id\":"@;
    let tail3a = withdraw_options(a.memo, a.msg, a.storage_deposit) + "}"@ + r1;
    let tail3b = withdraw_options(b.memo, b.msg, b.storage_deposit) + "}"@ + r2;
    let tail2a = (token_id + quoted(a.token_id)) + tail3a;
    let tail2b = (token_id + quoted(b.token_id)) + tail3b;
    let tail1a = (receiver + quoted(a.receiver_id)) + tail2a;
    let tail1b = (receiver + quoted(b.receiver_id)) + tail2b;
    lemma_chain3(
        token,
        quoted(a.token),
        receiver,
        quoted(a.receiver_id),
        token_id,
        quoted(a.token_id),
        withdraw_options(a.memo, a.msg, a.storage_deposit),
        "}"@,
        r1,
    );
    lemma_chain3(
        token,
        quoted(b.token),
        receiver,
        quoted(b.receiver_id),
        token_id,
        quoted(b.token_id),
        withdraw_options(b.memo, b.msg, b.storage_deposit),
        "}"@,
        r2,
    );
    lemma_text_member(token, a.token, tail1a, b.token, tail1b);
    lemma_text_member(receiver, a.receiver_id, tail2a, b.receiver_id, tail2b);
    lemma_text_member(token_id, a.token_id, tail3a, b.token_id, tail3b);
    lemma_withdraw_options_distinct(
        a.memo,
        a.msg,
        a.storage_deposit,
        r1,
        b.memo,
        b.msg,
        b.storage_deposit,
        r2,
    );
}

/// The members of a multi-token withdrawal and the brace that closes it can
/// be read back in one way only.
pub proof fn lemma_mt_withdraw_distinct(
    a: MtWithdrawView,
    r1: Seq<char>,
    b: MtWithdrawView,
    r2: Seq<char>,
)
    requires
        mt_withdraw_members(a) + "}"@ + r1 == mt_withdraw_members(b) + "}"@ + r2,
    ensures
        a == b,
        r1 == r2,
{
    let token = "\"token\":"@;
    let receiver = ",\"receiver_id\":"@;
    let token_ids = ",\"token_ids\":"@;
    let amounts = ",\"amounts\":"@;
    let tail4a = withdraw_options(a.memo, a.msg, a.storage_deposit) + "}"@ + r1;
    let tail4b = withdraw_options(b.memo, b.msg, b.storage_deposit) + "}"@ + r2;
    let tail3a = amounts + (amount_array(a.amounts) + tail4a);
    let tail3b = amounts + (amount_array(b.amounts) + tail4b);
    let tail2a = token_ids + (text_array(a.token_ids) + tail3a);
    let tail2b = token_ids + (text_array(b.token_ids) + tail3b);
    let tail1a = (receiver + quoted(a.receiver_id)) + tail2a;
    let tail1b = (receiver + quoted(b.receiver_id)) + tail2b;
    lemma_chain4(
        token,
        quoted(a.token),
        receiver,
        quoted(a.receiver_id),
        token_ids,
        text_array(a.token_ids),
        amounts,
        amount_array(a.amounts),
        withdraw_options(a.memo, a.msg, a.storage_deposit),
        "}"@,
        r1,
    );
    lemma_chain4(
        token,
        quoted(b.token),
        receiver,
        quoted(b.receiver_id),
        token_ids,
        text_array(b.token_ids),
        amounts,
        amount_array(b.amounts),
        withdraw_options(b.memo, b.msg, b.storage_deposit),
        "}"@,
        r2,
    );
    lemma_text_member(token, a.token, tail1a, b.token, tail1b);
    lemma_text_member(receiver, a.receiver_id, tail2a, b.receiver_id, tail2b);
    lemma_same_start(token_ids, text_array(a.token_ids) + tail3a, text_array(b.token_ids) + tail3b);
    lemma_text_array_distinct(a.token_ids, tail3a, b.token_ids, tail3b);
    lemma_same_start(amounts, amount_array(a.amounts) + tail4a, amount_array(b.amounts) + tail4b);
    lemma_amount_array_distinct(a.amounts, tail4a, b.amounts, tail4b);
    lemma_withdraw_options_distinct(
        a.memo,
        a.msg,
        a.storage_deposit,
        r1,
        b.memo,
        b.msg,
        b.storage_deposit,
        r2,
    );
}

/// The members of a native withdrawal and the brace that closes it can be
/// read back in one way only.
pub proof fn lemma_native_withdraw_distinct(
    a: NativeWithdrawView,
    r1: Seq<char>,
    b: NativeWithdrawView,
    r2: Seq<char>,
)
    requires
        native_withdraw_members(a) + "}"@ + r1 == native_withdraw_members(b) + "}"@ + r2,
    ensures
        a == b,
        r1 == r2,
{
    let receiver = "\"receiver_id\":"@;
    let amount = ",\"amount\":"@;
    let tail2a = "}"@ + r1;
    let tail2b = "}"@ + r2;
    let tail1a = (amount + quoted_decimal(a.amount as nat)) + tail2a;
    let tail1b = (amount + quoted_decimal(b.amount as nat)) + tail2b;
    lemma_chain2(
        receiver,
        quoted(a.receiver_id),
        amount,
        quoted_decimal(a.amount as nat),
        "}"@,
        r1,
    );
    lemma_chain2(
        receiver,
        quoted(b.receiver_id),
        amount,
        quoted_decimal(b.amount as nat),
        "}"@,
        r2,
    );
    lemma_text_member(receiver, a.receiver_id, tail1a, b.receiver_id, tail1b);
    lemma_amount_member(amount, a.amount as nat, tail2a, b.amount as nat, tail2b);
    lemma_same_start("}"@, r1, r2);
}

proof fn lemma_token_diff_parts(d: TokenDiffView, r: Seq<char>)
    ensures
        token_diff_members(d) + "}"@ + r == "\"diff\":"@ + (diff_object(d.diff) + (optional_text(
            ",\"memo\":"@,
            d.memo,
        ) + (optional_text(",\"referral\":"@, d.referral) + ("}"@ + r)))),
{
    let l = "\"diff\":"@;
    let o = diff_object(d.diff);
    let m = optional_text(",\"memo\":"@, d.memo);
    let f = optional_text(",\"referral\":"@, d.referral);
    assert(token_diff_members(d) == l + o + m + f);
    assert(l + o + m + f + "}"@ + r =~= l + (o + (m + (f + ("}"@ + r)))));
}

/// What follows the place of `memo` in a token diff does not begin with the
/// label of `memo`.
proof fn lemma_after_diff_memo_shape(referral: Option<Seq<char>>, r: Seq<char>)
    ensures
        !starts_with(optional_text(",\"referral\":"@, referral) + ("}"@ + r), ",\"memo\":"@),
{
    lemma_labels();
    let label = ",\"referral\":"@;
    let text = optional_text(label, referral) + ("}"@ + r);
    match referral {
        Some(s) => {
            assert(text[2] == label[2]);
            lemma_not_start(text, ",\"memo\":"@, 2);
        },
        None => {
            assert(text =~= "}"@ + r);
            assert(text[0] == '}');
            lemma_not_start(text, ",\"memo\":"@, 0);
        },
    }
}

/// The members of a token diff and the brace that closes it can be read back
/// in one way only.
pub proof fn lemma_token_diff_distinct(a: TokenDiffView, r1: Seq<char>, b: TokenDiffView, r2: Seq<char>)
    requires
        token_diff_members(a) + "}"@ + r1 == token_diff_members(b) + "}"@ + r2,
    ensures
        a == b,
        r1 == r2,
{
    let memo = ",\"memo\":"@;
    let referral = ",\"referral\":"@;
    let end1 = "}"@ + r1;
    let end2 = "}"@ + r2;
    let after_memo1 = optional_text(referral, a.referral) + end1;
    let after_memo2 = optional_text(referral, b.referral) + end2;
    let after_diff1 = optional_text(memo, a.memo) + after_memo1;
    let after_diff2 = optional_text(memo, b.memo) + after_memo2;
    lemma_token_diff_parts(a, r1);
    lemma_token_diff_parts(b, r2);
    lemma_same_start("\"diff\":"@, diff_object(a.diff) + after_diff1, diff_object(b.diff) + after_diff2);
    lemma_diff_object_distinct(a.diff, after_diff1, b.diff, after_diff2);
    lemma_after_diff_memo_shape(a.referral, r1);
    lemma_after_diff_memo_shape(b.referral, r2);
    lemma_optional_text(memo, a.memo, after_memo1, b.memo, after_memo2);
    lemma_brace_is_no_label(r1);
    lemma_brace_is_no_label(r2);
    lemma_optional_text(referral, a.referral, end1, b.referral, end2);
    lemma_same_start("}"@, r1, r2);
}

/// The words that open an intent, up to and with the comma behind its kind.
pub open spec fn intent_opening(intent: IntentView) -> Seq<char> {
    match intent {
        IntentView::FtWithdraw(_) => "{\"intent\":\"ft_withdraw\","@,
        IntentView::NftWithdraw(_) => "{\"intent\":\"nft_withdraw\","@,
        IntentView::MtWithdraw(_) => "{\"intent\":\"mt_withdraw\","@,
        IntentView::NativeWithdraw(_) => "{\"intent\":\"native_withdraw\","@,
        IntentView::TokenDiff(_) => "{\"intent\":\"token_diff\","@,
    }
}

/// The members of an intent, after its kind.
pub open spec fn intent_members(intent: IntentView) -> Seq<char> {
    match intent {
        IntentView::FtWithdraw(w) => ft_withdraw_members(w),
        IntentView::NftWithdraw(w) => nft_withdraw_members(w),
        IntentView::MtWithdraw(w) => mt_withdraw_members(w),
        IntentView::NativeWithdraw(w) => native_withdraw_members(w),
        IntentView::TokenDiff(d) => token_diff_members(d),
    }
}

/// The two characters by which the kinds of intent can be told apart: the
/// first two letters of the kind's name.
pub open spec fn kind_letters(intent: IntentView) -> (char, char) {
    match intent {
        IntentView::FtWithdraw(_) => ('f', 't'),
        IntentView::NftWithdraw(_) => ('n', 'f'),
        IntentView::MtWithdraw(_) => ('m', 't'),
        IntentView::NativeWithdraw(_) => ('n', 'a'),
        IntentView::TokenDiff(_) => ('t', 'o'),
    }
}

proof fn lemma_intent_parts(intent: IntentView, r: Seq<char>)
    ensures
        intent_json(intent) + r == intent_opening(intent) + (intent_members(intent) + "}"@ + r),
        intent_json(intent).len() > 12,
        intent_json(intent)[0] == '{',
        intent_json(intent)[11] == kind_letters(intent).0,
        intent_json(intent)[12] == kind_letters(intent).1,
{
    reveal_strlit("{\"intent\":\"ft_withdraw\",");
    reveal_strlit("{\"intent\":\"nft_withdraw\",");
    reveal_strlit("{\"intent\":\"mt_withdraw\",");
    reveal_strlit("{\"intent\":\"native_withdraw\",");
    reveal_strlit("{\"intent\":\"token_diff\",");
    let o = intent_opening(intent);
    let m = intent_members(intent);
    assert(intent_json(intent) == o + m + "}"@);
    assert(o + m + "}"@ + r =~= o + (m + "}"@ + r));
    assert(o.len() > 12);
    assert(intent_json(intent)[0] == o[0]);
    assert(intent_json(intent)[11] == o[11]);
    assert(intent_json(intent)[12] == o[12]);
}

/// An intent can be read back in one way only, whatever follows it.
pub proof fn lemma_intent_distinct(a: IntentView, r1: Seq<char>, b: IntentView, r2: Seq<char>)
    requires
        intent_json(a) + r1 == intent_json(b) + r2,
    ensures
        a == b,
        r1 == r2,
{
    lemma_intent_parts(a, r1);
    lemma_intent_parts(b, r2);
    let t1 = intent_json(a) + r1;
    let t2 = intent_json(b) + r2;
    assert(t1[11] == intent_json(a)[11] && t1[12] == intent_json(a)[12]);
    assert(t2[11] == intent_json(b)[11] && t2[12] == intent_json(b)[12]);
    assert(kind_letters(a) == kind_letters(b));
    assert(intent_opening(a) == intent_opening(b));
    let m1 = intent_members(a) + "}"@ + r1;
    let m2 = intent_members(b) + "}"@ + r2;
    lemma_same_start(intent_opening(a), m1, m2);
    match (a, b) {
        (IntentView::FtWithdraw(x), IntentView::FtWithdraw(y)) => {
            lemma_ft_withdraw_distinct(x, r1, y, r2);
        },
        (IntentView::NftWithdraw(x), IntentView::NftWithdraw(y)) => {
            lemma_nft_withdraw_distinct(x, r1, y, r2);
        },
        (IntentView::MtWithdraw(x), IntentView::MtWithdraw(y)) => {
            lemma_mt_withdraw_distinct(x, r1, y, r2);
        },
        (IntentView::NativeWithdraw(x), IntentView::NativeWithdraw(y)) => {
            lemma_native_withdraw_distinct(x, r1, y, r2);
        },
        (IntentView::TokenDiff(x), IntentView::TokenDiff(y)) => {
            lemma_token_diff_distinct(x, r1, y, r2);
        },
        _ => {
            assert(false);
        },
    }
}

/// An array of intents can be read back in one way only.
pub proof fn lemma_intent_array_distinct(
    xs: Seq<IntentView>,
    r1: Seq<char>,
    ys: Seq<IntentView>,
    r2: Seq<char>,
)
    requires
        intent_array(xs) + r1 == intent_array(ys) + r2,
    ensures
        xs == ys,
        r1 == r2,
{
    lemma_labels();
    let f = |i: IntentView| intent_json(i);
    assert(self_delimiting(f)) by {
        assert forall|a: IntentView, q1: Seq<char>, b: IntentView, q2: Seq<char>|
            #[trigger] (f(a) + q1) == #[trigger] (f(b) + q2) implies a == b && q1 == q2 by {
            lemma_intent_distinct(a, q1, b, q2);
        }
    }
    assert(starts_apart(f, ']')) by {
        assert forall|x: IntentView| #![trigger f(x)]
            f(x).len() > 0 && f(x)[0] != ',' && f(x)[0] != ']' by {
            lemma_intent_parts(x, Seq::empty());
        }
    }
    assert(xs.map_values(|i: IntentView| intent_json(i)) =~= xs.map_values(f));
    assert(ys.map_values(|i: IntentView| intent_json(i)) =~= ys.map_values(f));
    let inner1 = joined(xs.map_values(f)) + seq![']'] + r1;
    let inner2 = joined(ys.map_values(f)) + seq![']'] + r2;
    assert(intent_array(xs) + r1 =~= "["@ + inner1);
    assert(intent_array(ys) + r2 =~= "["@ + inner2);
    lemma_same_start("["@, inner1, inner2);
    lemma_list_distinct(f, ']', xs, r1, ys, r2);
}

/// What follows the place of the deadline is the nonce, which cannot be taken
/// for a deadline.
proof fn lemma_after_deadline_shape(nonce: Seq<char>, r: Seq<char>)
    ensures
        !starts_with((",\"nonce\":"@ + quoted(nonce)) + r, ",\"deadline\":"@),
{
    reveal_strlit(",\"nonce\":");
    reveal_strlit(",\"deadline\":");
    let label = ",\"nonce\":"@;
    let text = (label + quoted(nonce)) + r;
    assert(text[2] == label[2]);
    lemma_not_start(text, ",\"deadline\":"@, 2);
}

proof fn lemma_batch_parts(b: DefuseIntentsView)
    ensures
        batch_json(b) == ("{\"signer_id\":"@ + quoted(b.signer_id)) + (optional_text(
            ",\"deadline\":"@,
            b.deadline,
        ) + ((",\"nonce\":"@ + quoted(b.nonce)) + ((",\"verifying_contract\":"@ + quoted(
            b.verifying_contract,
        )) + (",\"intents\":"@ + (intent_array(b.intents) + "}"@))))),
{
    let l1 = "{\"signer_id\":"@;
    let x1 = quoted(b.signer_id);
    let o2 = optional_text(",\"deadline\":"@, b.deadline);
    let l3 = ",\"nonce\":"@;
    let x3 = quoted(b.nonce);
    let l4 = ",\"verifying_contract\":"@;
    let x4 = quoted(b.verifying_contract);
    let l5 = ",\"intents\":"@;
    let x5 = intent_array(b.intents);
    let c = "}"@;
    assert(batch_json(b) == l1 + x1 + o2 + l3 + x3 + l4 + x4 + l5 + x5 + c);
    assert(l1 + x1 + o2 + l3 + x3 + l4 + x4 + l5 + x5 + c =~= (l1 + x1) + (o2 + ((l3 + x3) + ((l4
        + x4) + (l5 + (x5 + c))))));
}

/// Two batches with the same canonical text are the same batch: nothing can
/// be changed in a batch, not one character of a memo, without changing its
/// text.
pub proof fn canonical_text_tells_batches_apart(a: DefuseIntentsView, b: DefuseIntentsView)
    requires
        batch_json(a) == batch_json(b),
    ensures
        a == b,
{
    let signer = "{\"signer_id\":"@;
    let deadline = ",\"deadline\":"@;
    let nonce = ",\"nonce\":"@;
    let contract = ",\"verifying_contract\":"@;
    let intents = ",\"intents\":"@;
    let tail5a = intent_array(a.intents) + "}"@;
    let tail5b = intent_array(b.intents) + "}"@;
    let tail4a = intents + tail5a;
    let tail4b = intents + tail5b;
    let tail3a = (contract + quoted(a.verifying_contract)) + tail4a;
    let tail3b = (contract + quoted(b.verifying_contract)) + tail4b;
    let tail2a = (nonce + quoted(a.nonce)) + tail3a;
    let tail2b = (nonce + quoted(b.nonce)) + tail3b;
    let tail1a = optional_text(deadline, a.deadline) + tail2a;
    let tail1b = optional_text(deadline, b.deadline) + tail2b;
    lemma_batch_parts(a);
    lemma_batch_parts(b);
    lemma_text_member(signer, a.signer_id, tail1a, b.signer_id, tail1b);
    lemma_after_deadline_shape(a.nonce, tail3a);
    lemma_after_deadline_shape(b.nonce, tail3b);
    lemma_optional_text(deadline, a.deadline, tail2a, b.deadline, tail2b);
    lemma_text_member(nonce, a.nonce, tail3a, b.nonce, tail3b);
    lemma_text_member(contract, a.verifying_contract, tail4a, b.verifying_contract, tail4b);
    lemma_same_start(intents, tail5a, tail5b);
    lemma_intent_array_distinct(a.intents, "}"@, b.intents, "}"@);
}

/// A larger number has at least as many digits.
pub proof fn lemma_decimal_grows(a: nat, b: nat)
    requires
        a <= b,
    ensures
        decimal(a).len() <= decimal(b).len(),
    decreases b,
{
    lemma_decimal_digits(a);
    lemma_decimal_digits(b);
    if a >= 10 {
        lemma_decimal_grows(a / 10, b / 10);
    }
}

/// The marker of a signed message and the digits behind it take one byte for
/// each character.
proof fn lemma_prefix_bytes(n: nat)
    ensures
        encode_utf8("\x19Ethereum Signed Message:\n"@ + decimal(n)).len() == 26 + decimal(n).len(),
{
    reveal_strlit("\x19Ethereum Signed Message:\n");
    let text = "\x19Ethereum Signed Message:\n"@ + decimal(n);
    lemma_decimal_digits(n);
    assert(is_ascii_chars(text)) by {
        assert forall|i: int| 0 <= i < text.len() implies '\0' <= #[trigger] text[i] <= '\u{7f}' by {
            if i >= 26 {
                assert(text[i] == decimal(n)[i - 26]);
                assert(is_digit(decimal(n)[i - 26]));
            }
        }
    }
    is_ascii_chars_encode_utf8(text);
}

/// Two texts with the same signed-message form are the same text: the form
/// begins with the length of the text, so no text's form is the beginning of
/// another's.
pub proof fn signed_message_tells_texts_apart(t1: Seq<char>, t2: Seq<char>)
    requires
        erc191_message(t1) == erc191_message(t2),
    ensures
        t1 == t2,
{
    let b1 = encode_utf8(t1);
    let b2 = encode_utf8(t2);
    let head1 = encode_utf8("\x19Ethereum Signed Message:\n"@ + decimal(b1.len()));
    let head2 = encode_utf8("\x19Ethereum Signed Message:\n"@ + decimal(b2.len()));
    lemma_prefix_bytes(b1.len());
    lemma_prefix_bytes(b2.len());
    assert((head1 + b1).len() == head1.len() + b1.len());
    assert((head2 + b2).len() == head2.len() + b2.len());
    if b1.len() < b2.len() {
        lemma_decimal_grows(b1.len(), b2.len());
        assert(false);
    }
    if b2.len() < b1.len() {
        lemma_decimal_grows(b2.len(), b1.len());
        assert(false);
    }
    assert forall|i: int| 0 <= i < b1.len() implies b1[i] == b2[i] by {
        assert((head1 + b1)[head1.len() + i] == b1[i]);
        assert((head2 + b2)[head2.len() + i] == b2[i]);
    }
    assert(b1 =~= b2);
    encode_utf8_decode_utf8(t1);
    encode_utf8_decode_utf8(t2);
}

/// The hashes of two different batches are the Keccak-256 digests of two
/// different byte strings. Whether two hashes can be the same is then a
/// question about Keccak-256 alone.
pub proof fn different_batches_hash_different_messages(a: DefuseIntentsView, b: DefuseIntentsView)
    requires
        a != b,
    ensures
        batch_json(a) != batch_json(b),
        erc191_message(batch_json(a)) != erc191_message(batch_json(b)),
{
    if batch_json(a) == batch_json(b) {
        canonical_text_tells_batches_apart(a, b);
    }
    if erc191_message(batch_json(a)) == erc191_message(batch_json(b)) {
        signed_message_tells_texts_apart(batch_json(a), batch_json(b));
    }
}

} // verus!
