//! Identifiers of sessions.
//!
//! A session that brings a non-empty string under `id` keeps it. Every other
//! session gets a fresh identifier, `chat_` followed by the time of the save
//! in milliseconds since the epoch, written in decimal.

use crate::json::{json_of, member, text_member_of, Json};
use vstd::prelude::*;
use vstd::string::*;

verus! {

/// The character of a decimal digit.
pub open spec fn digit_char(d: nat) -> char {
    if d == 0 {
        '0'
    } else if d == 1 {
        '1'
    } else if d == 2 {
        '2'
    } else if d == 3 {
        '3'
    } else if d == 4 {
        '4'
    } else if d == 5 {
        '5'
    } else if d == 6 {
        '6'
    } else if d == 7 {
        '7'
    } else if d == 8 {
        '8'
    } else {
        '9'
    }
}

/// Whether a character is one of `0` to `9`.
pub open spec fn is_decimal_digit(c: char) -> bool {
    exists|d: nat| d < 10 && c == #[trigger] digit_char(d)
}

/// A number written in decimal, without sign and without leading zeros.
pub open spec fn decimal(n: nat) -> Seq<char>
    decreases n,
{
    if n < 10 {
        seq![digit_char(n)]
    } else {
        decimal(n / 10).push(digit_char(n % 10))
    }
}

/// The characters `chat_`, with which every fresh identifier begins.
pub open spec fn fresh_prefix() -> Seq<char> {
    seq!['c', 'h', 'a', 't', '_']
}

/// The identifier made for a session that brings none.
pub open spec fn fresh_id(now_millis: nat) -> Seq<char> {
    fresh_prefix() + decimal(now_millis)
}

/// The identifier under which a session is saved.
pub open spec fn resolved_id(session: Json, now_millis: nat) -> Seq<char> {
    match text_member_of(session, "id"@) {
        Some(text) => if text.len() > 0 {
            text
        } else {
            fresh_id(now_millis)
        },
        None => fresh_id(now_millis),
    }
}

fn digit_text(d: u128) -> (text: &'static str)
    requires
        d < 10,
    ensures
        text@ == seq![digit_char(d as nat)],
{
    proof {
        reveal_strlit("0");
        reveal_strlit("1");
        reveal_strlit("2");
        reveal_strlit("3");
        reveal_strlit("4");
        reveal_strlit("5");
        reveal_strlit("6");
        reveal_strlit("7");
        reveal_strlit("8");
        reveal_strlit("9");
    }
    let text = if d == 0 {
        "0"
    } else if d == 1 {
        "1"
    } else if d == 2 {
        "2"
    } else if d == 3 {
        "3"
    } else if d == 4 {
        "4"
    } else if d == 5 {
        "5"
    } else if d == 6 {
        "6"
    } else if d == 7 {
        "7"
    } else if d == 8 {
        "8"
    } else {
        "9"
    };
    assert(text@ =~= seq![digit_char(d as nat)]);
    text
}

fn push_decimal(out: &mut String, n: u128)
    ensures
        final(out)@ == old(out)@ + decimal(n as nat),
    decreases n,
{
    if n >= 10 {
        push_decimal(out, n / 10);
    }
    out.append(digit_text(n % 10));
    assert(out@ =~= old(out)@ + decimal(n as nat));
}

/// The identifier for a session that brings none, from the time of the save.
pub fn synthesize_id(now_millis: u128) -> (id: String)
    ensures
        id@ == fresh_id(now_millis as nat),
{
    proof {
        reveal_strlit("chat_");
    }
    let mut id = String::from_str("chat_");
    assert(id@ =~= fresh_prefix());
    push_decimal(&mut id, now_millis);
    id
}

/// The identifier under which a session is saved: its own, if it has a
/// non-empty string under `id`, else a fresh one.
pub fn resolve_id(session: &serde_json::Value, now_millis: u128) -> (id: String)
    ensures
        id@ == resolved_id(json_of(*session), now_millis as nat),
{
    match member(session, "id") {
        Some(found) => match found.as_str() {
            Some(text) => {
                if text.is_empty() {
                    synthesize_id(now_millis)
                } else {
                    text.to_owned()
                }
            },
            None => synthesize_id(now_millis),
        },
        None => synthesize_id(now_millis),
    }
}

/// Every character of a number written in decimal is a digit, and there is
/// at least one.
pub proof fn lemma_decimal_digits(n: nat)
    ensures
        decimal(n).len() >= 1,
        forall|i: int| 0 <= i < decimal(n).len() ==> is_decimal_digit(#[trigger] decimal(n)[i]),
    decreases n,
{
    if n < 10 {
        assert(is_decimal_digit(digit_char(n)));
    } else {
        lemma_decimal_digits(n / 10);
        assert(is_decimal_digit(digit_char(n % 10)));
    }
}

/// A fresh identifier reads `chat_` and then digits only, at least one.
pub proof fn lemma_fresh_id_shape(now_millis: nat)
    ensures
        fresh_id(now_millis).len() > 5,
        fresh_id(now_millis).subrange(0, 5) == fresh_prefix(),
        forall|i: int|
            5 <= i < fresh_id(now_millis).len() ==> is_decimal_digit(
                #[trigger] fresh_id(now_millis)[i],
            ),
{
    lemma_decimal_digits(now_millis);
    let id = fresh_id(now_millis);
    assert(id.subrange(0, 5) =~= fresh_prefix());
    assert forall|i: int| 5 <= i < id.len() implies is_decimal_digit(#[trigger] id[i]) by {
        assert(id[i] == decimal(now_millis)[i - 5]);
    }
}

/// A fresh identifier is never empty, so a session saved under one is found
/// again under it.
pub proof fn lemma_resolved_id_not_empty(session: Json, now_millis: nat)
    ensures
        resolved_id(session, now_millis).len() > 0,
{
    lemma_fresh_id_shape(now_millis);
}

} // verus!
