//! Properties of the text that the library writes and reads: request ids stand
//! in the JSON text of every message, and addresses read the same whatever the
//! case of their hex letters.

use vstd::prelude::*;
use crate::json::{decimal, decimal_digit, json_bool, json_quote, json_string_list, lower_hex_digit};
use crate::alchemy_pending_transactions_messages::{
    Subscribe,
    SubscribeResult,
    UnSubscribe,
    UnSubscribeResult,
};
use crate::alchemy_pending_transactions_messages::unsubscribe::string_views;
use crate::block_util::{
    AddressError,
    address_debug_text,
    address_from_str,
    after_two_bytes,
    first_non_hex_index,
    h160_from_str,
    hex_digits,
    hex_pairs,
    hex_value,
    is_hex_digit,
    lower_hex_bytes,
    splits_after_two_bytes,
    strip_hex_prefix,
};

verus! {

/// A decimal digit.
pub open spec fn is_decimal_digit(c: char) -> bool {
    ('0' as int) <= (c as int) <= ('9' as int)
}

/// The number that the decimal digits `s` write.
pub open spec fn digits_value(s: Seq<char>) -> nat
    decreases s.len(),
{
    if s.len() == 0 {
        0
    } else {
        digits_value(s.drop_last()) * 10 + (((s.last() as int) - ('0' as int)) as nat)
    }
}

/// The decimal text of `n` is a non-empty run of digits that writes `n`.
pub proof fn lemma_decimal_reads_back(n: nat)
    ensures
        decimal(n).len() >= 1,
        forall|i: int| 0 <= i < decimal(n).len() ==> is_decimal_digit(#[trigger] decimal(n)[i]),
        digits_value(decimal(n)) == n,
    decreases n,
{
    if n >= 10 {
        lemma_decimal_reads_back(n / 10);
        let d = decimal(n);
        assert(d.drop_last() =~= decimal(n / 10));
        assert(d.last() == decimal_digit((n % 10) as int));
        assert((d.last() as int) - ('0' as int) == n % 10);
        assert(digits_value(d) == digits_value(decimal(n / 10)) * 10 + n % 10);
        assert((n / 10) * 10 + n % 10 == n) by (nonlinear_arith);
        assert(digits_value(decimal(n / 10)) == n / 10);
        assert(digits_value(d) == n);
        assert forall|i: int| 0 <= i < d.len() implies is_decimal_digit(#[trigger] d[i]) by {
            if i < d.len() - 1 {
                assert(d[i] == decimal(n / 10)[i]);
            }
        }
    } else {
        let d = decimal(n);
        assert(d.drop_last() =~= Seq::<char>::empty());
        assert(digits_value(d.drop_last()) == 0);
        assert((d.last() as int) - ('0' as int) == n);
        assert(digits_value(d) == n);
    }
}

/// Two texts that agree up to a decimal number and go on with a comma after
/// it hold the same number there.
pub proof fn lemma_number_before_comma(
    p: Seq<char>,
    a: nat,
    b: nat,
    s1: Seq<char>,
    s2: Seq<char>,
)
    requires
        s1.len() > 0,
        s2.len() > 0,
        s1[0] == ',',
        s2[0] == ',',
        p + decimal(a) + s1 == p + decimal(b) + s2,
    ensures
        a == b,
{
    lemma_decimal_reads_back(a);
    lemma_decimal_reads_back(b);
    let x = decimal(a) + s1;
    let y = decimal(b) + s2;
    assert(x =~= (p + decimal(a) + s1).skip(p.len() as int));
    assert(y =~= (p + decimal(b) + s2).skip(p.len() as int));
    let la = decimal(a).len() as int;
    let lb = decimal(b).len() as int;
    if la < lb {
        assert(x[la] == ',');
        assert(y[la] == decimal(b)[la]);
        assert(is_decimal_digit(decimal(b)[la]));
    } else if lb < la {
        assert(y[lb] == ',');
        assert(x[lb] == decimal(a)[lb]);
        assert(is_decimal_digit(decimal(a)[lb]));
    } else {
        assert(decimal(a) =~= x.take(la));
        assert(decimal(b) =~= y.take(lb));
    }
}

/// The text of a subscribe request carries its id: two requests with the same
/// `jsonrpc` whose texts are equal have the same id, so requests that differ
/// only in id are written differently, each with its own id after `"id":`.
pub proof fn lemma_subscribe_text_carries_id(m1: Subscribe, m2: Subscribe)
    requires
        m1.jsonrpc@ == m2.jsonrpc@,
        m1.json_text() == m2.json_text(),
    ensures
        m1.id == m2.id,
{
    let p = "{\"jsonrpc\":"@ + json_quote(m1.jsonrpc@) + ",\"id\":"@;
    let s1 = ",\"method\":"@ + json_quote(m1.method@) + ",\"params\":["@ + json_quote(m1.params.0@)
        + ",{\"address\":"@ + json_quote(m1.params.1.address@) + "}]}"@;
    let s2 = ",\"method\":"@ + json_quote(m2.method@) + ",\"params\":["@ + json_quote(m2.params.0@)
        + ",{\"address\":"@ + json_quote(m2.params.1.address@) + "}]}"@;
    assert(m1.json_text() =~= p + decimal(m1.id as nat) + s1);
    assert(m2.json_text() =~= p + decimal(m2.id as nat) + s2);
    reveal_strlit(",\"method\":");
    assert(s1[0] == ',');
    assert(s2[0] == ',');
    lemma_number_before_comma(p, m1.id as nat, m2.id as nat, s1, s2);
}

/// The text of an unsubscribe request carries its id: two requests with the
/// same `jsonrpc` whose texts are equal have the same id.
pub proof fn lemma_unsubscribe_text_carries_id(m1: UnSubscribe, m2: UnSubscribe)
    requires
        m1.jsonrpc@ == m2.jsonrpc@,
        m1.json_text() == m2.json_text(),
    ensures
        m1.id == m2.id,
{
    let p = "{\"jsonrpc\":"@ + json_quote(m1.jsonrpc@) + ",\"id\":"@;
    let s1 = ",\"method\":"@ + json_quote(m1.method@) + ",\"params\":["@ + json_string_list(
        string_views(m1.params@),
    ) + "]}"@;
    let s2 = ",\"method\":"@ + json_quote(m2.method@) + ",\"params\":["@ + json_string_list(
        string_views(m2.params@),
    ) + "]}"@;
    assert(m1.json_text() =~= p + decimal(m1.id as nat) + s1);
    assert(m2.json_text() =~= p + decimal(m2.id as nat) + s2);
    reveal_strlit(",\"method\":");
    assert(s1[0] == ',');
    assert(s2[0] == ',');
    lemma_number_before_comma(p, m1.id as nat, m2.id as nat, s1, s2);
}

/// The text of a subscribe result carries its id: two results whose texts are
/// equal have the same id.
pub proof fn lemma_subscribe_result_text_carries_id(m1: SubscribeResult, m2: SubscribeResult)
    requires
        m1.json_text() == m2.json_text(),
    ensures
        m1.id == m2.id,
{
    let p = "{\"id\":"@;
    let s1 = ",\"result\":"@ + json_quote(m1.subscription_id@) + ",\"jsonrpc\":"@ + json_quote(
        m1.jsonrpc@,
    ) + "}"@;
    let s2 = ",\"result\":"@ + json_quote(m2.subscription_id@) + ",\"jsonrpc\":"@ + json_quote(
        m2.jsonrpc@,
    ) + "}"@;
    assert(m1.json_text() =~= p + decimal(m1.id as nat) + s1);
    assert(m2.json_text() =~= p + decimal(m2.id as nat) + s2);
    reveal_strlit(",\"result\":");
    assert(s1[0] == ',');
    assert(s2[0] == ',');
    lemma_number_before_comma(p, m1.id as nat, m2.id as nat, s1, s2);
}

/// The text of an unsubscribe result carries its id: two results with the same
/// `jsonrpc` whose texts are equal have the same id.
pub proof fn lemma_unsubscribe_result_text_carries_id(m1: UnSubscribeResult, m2: UnSubscribeResult)
    requires
        m1.jsonrpc@ == m2.jsonrpc@,
        m1.json_text() == m2.json_text(),
    ensures
        m1.id == m2.id,
{
    let p = "{\"jsonrpc\":"@ + json_quote(m1.jsonrpc@) + ",\"id\":"@;
    let s1 = ",\"result\":"@ + json_bool(m1.success) + "}"@;
    let s2 = ",\"result\":"@ + json_bool(m2.success) + "}"@;
    assert(m1.json_text() =~= p + decimal(m1.id as nat) + s1);
    assert(m2.json_text() =~= p + decimal(m2.id as nat) + s2);
    reveal_strlit(",\"result\":");
    assert(s1[0] == ',');
    assert(s2[0] == ',');
    lemma_number_before_comma(p, m1.id as nat, m2.id as nat, s1, s2);
}

/// A hex digit with its letter, if any, in lower case.
pub open spec fn to_lower_hex(c: char) -> char {
    if ('A' as int) <= (c as int) <= ('F' as int) {
        ((c as int) + 32) as char
    } else {
        c
    }
}

/// `0x` followed by forty hex digits, of either case.
pub open spec fn is_hex_address_text(s: Seq<char>) -> bool {
    &&& s.len() == 42
    &&& s[0] == '0'
    &&& s[1] == 'x'
    &&& forall|i: int| 2 <= i < 42 ==> is_hex_digit(#[trigger] s[i])
}

proof fn lemma_all_hex(t: Seq<char>)
    requires
        forall|i: int| 0 <= i < t.len() ==> is_hex_digit(#[trigger] t[i]),
    ensures
        first_non_hex_index(t) == t.len(),
        hex_digits(t) == t,
    decreases t.len(),
{
    if t.len() > 0 {
        assert forall|i: int| 0 <= i < t.drop_first().len() implies is_hex_digit(
            #[trigger] t.drop_first()[i],
        ) by {
            assert(t.drop_first()[i] == t[i + 1]);
        }
        assert forall|i: int| 0 <= i < t.drop_last().len() implies is_hex_digit(
            #[trigger] t.drop_last()[i],
        ) by {
            assert(t.drop_last()[i] == t[i]);
        }
        lemma_all_hex(t.drop_first());
        lemma_all_hex(t.drop_last());
        assert(t.drop_last().push(t.last()) =~= t);
    }
}

proof fn lemma_hex_digit_case(c: char)
    requires
        is_hex_digit(c),
    ensures
        0 <= hex_value(c) < 16,
        lower_hex_digit(hex_value(c)) == to_lower_hex(c),
        hex_value(to_lower_hex(c)) == hex_value(c),
{
}

/// `0x` and forty hex digits of either case read as the address whose bytes
/// those digits write, two to a byte, high half first; written back, the address
/// is the same text with its letters in lower case.
pub proof fn lemma_address_reads_hex_digits_of_either_case(s: Seq<char>)
    requires
        is_hex_address_text(s),
    ensures
        splits_after_two_bytes(s),
        address_from_str(s) is Ok,
        address_from_str(s)->Ok_0.len() == 20,
        forall|i: int|
            0 <= i < 20 ==> (#[trigger] address_from_str(s)->Ok_0[i]) as int == 16 * hex_value(
                s[2 + 2 * i],
            ) + hex_value(s[3 + 2 * i]),
        address_debug_text(address_from_str(s)->Ok_0) == seq!['0', 'x'] + s.skip(2).map_values(
            |c: char| to_lower_hex(c),
        ),
{
    let t = after_two_bytes(s);
    assert(t == s.skip(2));
    assert forall|i: int| 0 <= i < t.len() implies is_hex_digit(#[trigger] t[i]) by {
        assert(t[i] == s[i + 2]);
    }
    assert(is_hex_digit(s[3]));
    assert(t[1] == s[3]);
    assert(strip_hex_prefix(t) == t);
    lemma_all_hex(t);
    assert(t.take(t.len() as int) =~= t);
    let b = hex_pairs(t, 20);
    assert(h160_from_str(t) == Ok::<Seq<u8>, AddressError>(b));
    assert forall|i: int| 0 <= i < 20 implies (#[trigger] b[i]) as int == 16 * hex_value(
        s[2 + 2 * i],
    ) + hex_value(s[3 + 2 * i]) by {
        lemma_hex_digit_case(t[2 * i]);
        lemma_hex_digit_case(t[2 * i + 1]);
        assert(t[2 * i] == s[2 + 2 * i]);
        assert(t[2 * i + 1] == s[3 + 2 * i]);
    }
    let text = address_debug_text(b);
    let want = seq!['0', 'x'] + s.skip(2).map_values(|c: char| to_lower_hex(c));
    assert forall|j: int| 0 <= j < 42 implies #[trigger] text[j] == want[j] by {
        if j >= 2 {
            let k = j - 2;
            let i = k / 2;
            lemma_hex_digit_case(t[2 * i]);
            lemma_hex_digit_case(t[2 * i + 1]);
            let hi = hex_value(t[2 * i]);
            let lo = hex_value(t[2 * i + 1]);
            assert(b[i] == (16 * hi + lo) as u8);
            assert((16 * hi + lo) / 16 == hi && (16 * hi + lo) % 16 == lo);
            assert(lower_hex_bytes(b)[k] == text[j]);
            assert(want[j] == to_lower_hex(s[j]));
            assert(t[k] == s[j]);
        }
    }
    assert(text =~= want);
}

/// Reading an address does not depend on the case of its hex letters: two texts
/// of `0x` and forty hex digits that differ only in case read as the same address.
pub proof fn lemma_address_ignores_letter_case(s: Seq<char>, u: Seq<char>)
    requires
        is_hex_address_text(s),
        is_hex_address_text(u),
        forall|i: int| 2 <= i < 42 ==> to_lower_hex(#[trigger] s[i]) == to_lower_hex(u[i]),
    ensures
        address_from_str(s) is Ok,
        address_from_str(s) == address_from_str(u),
{
    lemma_address_reads_hex_digits_of_either_case(s);
    lemma_address_reads_hex_digits_of_either_case(u);
    let a = address_from_str(s)->Ok_0;
    let b = address_from_str(u)->Ok_0;
    assert forall|i: int| 0 <= i < 20 implies a[i] == b[i] by {
        let j = 2 + 2 * i;
        assert(to_lower_hex(s[j]) == to_lower_hex(u[j]));
        assert(to_lower_hex(s[j + 1]) == to_lower_hex(u[j + 1]));
        lemma_hex_digit_case(s[j]);
        lemma_hex_digit_case(u[j]);
        lemma_hex_digit_case(s[j + 1]);
        lemma_hex_digit_case(u[j + 1]);
        assert(a[i] as int == 16 * hex_value(s[j]) + hex_value(s[j + 1]));
        assert(b[i] as int == 16 * hex_value(u[j]) + hex_value(u[j + 1]));
    }
    assert(a =~= b);
}

} // verus!
