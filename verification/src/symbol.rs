//! Symbols and cache keys.
//!
//! A symbol is a string in canonical form: surrounding white space removed,
//! then upper-cased. A trade whose instrument has no symbol yet is filed
//! under a synthetic key, `INST:` followed by the instrument id in decimal.

use crate::text::{chars_of, trim, trimmed};
use vstd::prelude::*;
use vstd::slice::slice_subrange;
use vstd::string::StringSliceAdditionalSpecFns;
use vstd::utf8::{decode_utf8, encode_utf8_decode_utf8, valid_utf8};

verus! {

/// The upper-case form of `text` that `str::to_uppercase` computes.
pub uninterp spec fn uppercase_of(text: Seq<char>) -> Seq<char>;

/// The canonical form of a symbol: trimmed, then upper-cased.
pub open spec fn canonical(text: Seq<char>) -> Seq<char> {
    uppercase_of(trimmed(text))
}

/// Calls `str::to_uppercase`. The Unicode case mapping is not spelled out
/// here: the result is only named, as `uppercase_of` of the argument.
#[verifier::external_body]
fn to_upper(text: &str) -> (r: String)
    ensures
        r@ == uppercase_of(text@),
{
    text.to_uppercase()
}

/// Brings a symbol into canonical form: white space around it is removed
/// and the rest is upper-cased.
pub fn norm_symbol(s: &str) -> (r: String)
    ensures
        r@ == canonical(s@),
{
    to_upper(trim(s))
}

/// The prefix of every synthetic instrument key: `INST:`.
pub open spec fn instrument_prefix() -> Seq<char> {
    seq!['I', 'N', 'S', 'T', ':']
}

/// The decimal digit for `d < 10`.
pub open spec fn digit_char(d: nat) -> char {
    if d == 0 {
        '0'
    } else if d == 1 {
        '1'
    } else if d == 2 {
        '2'
    } else if d == 3 {
        '3'
    } else if d == 4 {
        '4'
    } else if d == 5 {
        '5'
    } else if d == 6 {
        '6'
    } else if d == 7 {
        '7'
    } else if d == 8 {
        '8'
    } else {
        '9'
    }
}

/// `n` in decimal, without leading zeros.
pub open spec fn decimal(n: nat) -> Seq<char>
    decreases n,
{
    if n < 10 {
        seq![digit_char(n)]
    } else {
        decimal(n / 10).push(digit_char(n % 10))
    }
}

/// The synthetic cache key of instrument `id`.
pub open spec fn instrument_key_of(id: u32) -> Seq<char> {
    instrument_prefix() + decimal(id as nat)
}

/// Whether `key` begins with the prefix of the synthetic keys.
pub open spec fn has_instrument_prefix(key: Seq<char>) -> bool {
    key.len() >= 5 && key.take(5) == instrument_prefix()
}

fn digit_text(d: u32) -> (r: &'static str)
    requires
        d < 10,
    ensures
        r@ == seq![digit_char(d as nat)],
{
    proof {
        reveal_strlit("0");
        reveal_strlit("1");
        reveal_strlit("2");
        reveal_strlit("3");
        reveal_strlit("4");
        reveal_strlit("5");
        reveal_strlit("6");
        reveal_strlit("7");
        reveal_strlit("8");
        reveal_strlit("9");
    }
    let r = if d == 0 {
        "0"
    } else if d == 1 {
        "1"
    } else if d == 2 {
        "2"
    } else if d == 3 {
        "3"
    } else if d == 4 {
        "4"
    } else if d == 5 {
        "5"
    } else if d == 6 {
        "6"
    } else if d == 7 {
        "7"
    } else if d == 8 {
        "8"
    } else {
        "9"
    };
    assert(r@ =~= seq![digit_char(d as nat)]);
    r
}

fn push_decimal(out: &mut String, n: u32)
    ensures
        final(out)@ == old(out)@ + decimal(n as nat),
    decreases n,
{
    if n >= 10 {
        push_decimal(out, n / 10);
    }
    out.append(digit_text(n % 10));
    assert(final(out)@ =~= old(out)@ + decimal(n as nat));
}

/// The synthetic cache key of instrument `id`: `INST:` and the id in decimal.
pub fn instrument_key(id: u32) -> (r: String)
    ensures
        r@ == instrument_key_of(id),
        has_instrument_prefix(r@),
{
    proof {
        reveal_strlit("INST:");
    }
    let mut key = "INST:".to_string();
    assert(key@ =~= instrument_prefix());
    push_decimal(&mut key, id);
    assert(key@.take(5) =~= instrument_prefix());
    key
}

/// Whether `key` is a synthetic instrument key, that is, begins with `INST:`.
pub fn is_instrument_key(key: &str) -> (b: bool)
    ensures
        b == has_instrument_prefix(key@),
{
    let chars = chars_of(key);
    if chars.len() < 5 {
        return false;
    }
    let b = chars[0] == 'I' && chars[1] == 'N' && chars[2] == 'S' && chars[3] == 'T' && chars[4]
        == ':';
    assert(b == (key@.take(5) =~= instrument_prefix()));
    b
}

/// The number of bytes of `field` before its first zero byte, or its whole
/// length where it holds none.
pub open spec fn terminator_index(field: Seq<u8>) -> int
    decreases field.len(),
{
    if field.len() == 0 || field.first() == 0 {
        0
    } else {
        1 + terminator_index(field.drop_first())
    }
}

/// The text of a fixed-width, zero-terminated symbol field: the bytes before
/// the terminator, read as UTF-8. A field whose bytes are not UTF-8 has none.
pub open spec fn raw_symbol_of(field: Seq<u8>) -> Option<Seq<char>> {
    let text = field.take(terminator_index(field));
    if valid_utf8(text) {
        Some(decode_utf8(text))
    } else {
        None
    }
}

/// Calls `std::str::from_utf8`: the bytes are accepted exactly when they are
/// valid UTF-8, and the string slice that comes back is those bytes.
#[verifier::external_body]
fn utf8_str(bytes: &[u8]) -> (r: Option<&str>)
    ensures
        r is Some <==> valid_utf8(bytes@),
        r matches Some(s) ==> s.spec_bytes() == bytes@,
{
    match std::str::from_utf8(bytes) {
        Ok(s) => Some(s),
        Err(_) => None,
    }
}

/// Decodes a fixed-width symbol field. The text ends at the first zero byte,
/// or at the end of the field where there is none; every index is checked
/// against the field's length. A field that is not UTF-8 is rejected.
pub fn decode_raw_symbol(field: &[u8]) -> (r: Option<String>)
    ensures
        r is Some <==> raw_symbol_of(field@) is Some,
        r matches Some(s) ==> raw_symbol_of(field@) == Some(s@),
{
    let n = field.len();
    let mut end: usize = 0;
    assert(field@.subrange(0, n as int) =~= field@);
    while end < n && field[end] != 0
        invariant
            end <= n,
            n == field@.len(),
            terminator_index(field@) == end + terminator_index(field@.subrange(end as int, n as int)),
        decreases n - end,
    {
        assert(field@.subrange(end as int, n as int).drop_first() =~= field@.subrange(
            end + 1,
            n as int,
        ));
        end = end + 1;
    }
    assert(terminator_index(field@) == end);
    let text = slice_subrange(field, 0, end);
    assert(text@ =~= field@.take(end as int));
    match utf8_str(text) {
        Some(s) => {
            proof {
                encode_utf8_decode_utf8(s@);
            }
            Some(s.to_owned())
        },
        None => None,
    }
}

} // verus!
