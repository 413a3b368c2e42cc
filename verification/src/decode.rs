//! Decoding the canonical JSON encoding back into a record.
//!
//! The grammar accepted is exactly the output of the encoder in
//! [`crate::json`]: fields in their fixed order, numbers in canonical decimal
//! form (no leading zeros, no `-0`), strings with the five backslash escapes,
//! and the cause either the explicit `null` or a nested object. Anything else
//! is rejected with [`DecodeError::MalformedRecord`]; a number in a
//! classification field that lies outside the enum's closed set is rejected
//! with [`DecodeError::UnknownEnumDiscriminant`], never coerced to a default.

use vstd::prelude::*;
use vstd::string::StrSliceExecFns;

use crate::codes::{kind_from_code, pass_from_code, retry_from_code, scope_from_code};
use crate::codes::{Kind, PassThroughMode, RetryMode, Scope};
use crate::record::{CoreView, Message, MsgView, WidError};
use crate::textfmt::{chars_to_string, dec_digits, dec_int, digit_val, escape, is_digit, str_to_chars};

verus! {

/// Why a JSON text was rejected.
#[derive(Clone, Copy, Debug, PartialEq, Eq, Structural)]
pub enum DecodeError {
    /// The text is not the canonical encoding of any record.
    MalformedRecord,
    /// A classification field held an integer outside its enum's closed set.
    UnknownEnumDiscriminant,
}

/// The rest of `s` after the prefix `p`, if `s` starts with `p`.
pub open spec fn strip_prefix(s: Seq<char>, p: Seq<char>) -> Option<Seq<char>> {
    if p.len() <= s.len() && s.subrange(0, p.len() as int) == p {
        Some(s.skip(p.len() as int))
    } else {
        None
    }
}

/// The length of the longest digit prefix of `s`.
pub open spec fn digit_count(s: Seq<char>) -> nat
    decreases s.len(),
{
    if s.len() > 0 && is_digit(s[0]) { 1 + digit_count(s.skip(1)) } else { 0 }
}

/// The numeric value of a digit sequence, most significant digit first.
pub open spec fn digits_val(d: Seq<char>) -> int
    decreases d.len(),
{
    if d.len() == 0 { 0 } else { digits_val(d.drop_last()) * 10 + digit_val(d.last()) }
}

/// Parse a canonical unsigned decimal number of value at most `max`: the
/// digit prefix must be nonempty, carry no leading zero, and fit the bound.
pub open spec fn parse_nat(s: Seq<char>, max: int) -> Option<(int, Seq<char>)> {
    let n = digit_count(s);
    if n == 0 {
        None
    } else if s[0] == '0' && n > 1 {
        None
    } else if digits_val(s.take(n as int)) > max {
        None
    } else {
        Some((digits_val(s.take(n as int)), s.skip(n as int)))
    }
}

/// Parse a canonical signed decimal number within `[min, max]`; a bare `-`
/// and `-0` are rejected.
pub open spec fn parse_int(s: Seq<char>, min: int, max: int) -> Option<(int, Seq<char>)> {
    if s.len() > 0 && s[0] == '-' {
        match parse_nat(s.skip(1), -min) {
            Some((v, r)) => if v >= 1 { Some((-v, r)) } else { None },
            None => None,
        }
    } else {
        parse_nat(s, max)
    }
}

/// The character an escape code stands for, if it is one of the five the
/// encoding uses.
pub open spec fn unesc_char(c: char) -> Option<char> {
    if c == '"' { Some('"') }
    else if c == '\\' { Some('\\') }
    else if c == 'n' { Some('\n') }
    else if c == 'r' { Some('\r') }
    else if c == 't' { Some('\t') }
    else { None }
}

/// Parse a string body up to and over its closing quote, undoing the
/// escaping; a backslash before anything but the five escape codes, or a
/// missing closing quote, rejects.
pub open spec fn parse_str_body(s: Seq<char>) -> Option<(Seq<char>, Seq<char>)>
    decreases s.len(),
{
    if s.len() == 0 {
        None
    } else if s[0] == '"' {
        Some((Seq::empty(), s.skip(1)))
    } else if s[0] == '\\' {
        if s.len() >= 2 {
            match unesc_char(s[1]) {
                Some(c) => match parse_str_body(s.skip(2)) {
                    Some(tr) => Some((seq![c] + tr.0, tr.1)),
                    None => None,
                },
                None => None,
            }
        } else {
            None
        }
    } else {
        match parse_str_body(s.skip(1)) {
            Some(tr) => Some((seq![s[0]] + tr.0, tr.1)),
            None => None,
        }
    }
}

/// Parse a quoted string.
pub open spec fn parse_jstring(s: Seq<char>) -> Option<(Seq<char>, Seq<char>)> {
    if s.len() > 0 && s[0] == '"' { parse_str_body(s.skip(1)) } else { None }
}

/// Parse an externally tagged message object.
pub open spec fn parse_msg(s: Seq<char>) -> Option<(MsgView, Seq<char>)> {
    match strip_prefix(s, "{\"Default\":"@) {
        Some(r1) => match parse_jstring(r1) {
            Some(tr) => match strip_prefix(tr.1, seq!['}']) {
                Some(r3) => Some((MsgView::Default(tr.0), r3)),
                None => None,
            },
            None => None,
        },
        None => match strip_prefix(s, "{\"I18n\":"@) {
            Some(r1) => match parse_jstring(r1) {
                Some(tr) => match strip_prefix(tr.1, seq!['}']) {
                    Some(r3) => Some((MsgView::I18n(tr.0), r3)),
                    None => None,
                },
                None => None,
            },
            None => None,
        },
    }
}

/// Parse a key literal followed by a bounded canonical unsigned number.
pub open spec fn parse_key_nat(s: Seq<char>, key: Seq<char>, max: int) -> Option<(int, Seq<char>)> {
    match strip_prefix(s, key) {
        Some(r) => parse_nat(r, max),
        None => None,
    }
}

/// Parse a key literal followed by a bounded canonical signed number.
pub open spec fn parse_key_int(s: Seq<char>, key: Seq<char>, min: int, max: int) -> Option<(int, Seq<char>)> {
    match strip_prefix(s, key) {
        Some(r) => parse_int(r, min, max),
        None => None,
    }
}

/// Parse a key literal followed by a quoted string.
pub open spec fn parse_key_str(s: Seq<char>, key: Seq<char>) -> Option<(Seq<char>, Seq<char>)> {
    match strip_prefix(s, key) {
        Some(r) => parse_jstring(r),
        None => None,
    }
}

/// Parse the trailing fields of a record, from the `scope` key through the
/// `"source_error":` key, with the already parsed leading fields given.
pub open spec fn parse_tail(
    s: Seq<char>,
    message: MsgView,
    code: int,
    name: Seq<char>,
    namespace: int,
    kind: crate::codes::Kind,
) -> Result<(CoreView, Seq<char>), DecodeError> {
    match parse_key_nat(s, ",\"scope\":"@, 0xFFFF_FFFF) {
        None => Err(DecodeError::MalformedRecord),
        Some((sv, s6)) => match scope_from_code(sv) {
            None => Err(DecodeError::UnknownEnumDiscriminant),
            Some(scope) => match parse_key_nat(s6, ",\"level\":"@, 255) {
                None => Err(DecodeError::MalformedRecord),
                Some((level, s7)) => match parse_key_nat(s7, ",\"retry_mode\":"@, 0xFFFF_FFFF) {
                    None => Err(DecodeError::MalformedRecord),
                    Some((rv, s8)) => match retry_from_code(rv) {
                        None => Err(DecodeError::UnknownEnumDiscriminant),
                        Some(retry_mode) => match parse_key_nat(s8, ",\"pass_through_mode\":"@, 0xFFFF_FFFF) {
                            None => Err(DecodeError::MalformedRecord),
                            Some((pv, s9)) => match pass_from_code(pv) {
                                None => Err(DecodeError::UnknownEnumDiscriminant),
                                Some(pass_through_mode) => match parse_key_int(s9, ",\"mapping_code\":"@, -0x8000_0000_0000_0000, 0x7FFF_FFFF_FFFF_FFFF) {
                                    None => Err(DecodeError::MalformedRecord),
                                    Some((mapping_code, s10)) => match strip_prefix(s10, ",\"source_error\":"@) {
                                        None => Err(DecodeError::MalformedRecord),
                                        Some(s11) => Ok((
                                            CoreView {
                                                message,
                                                code: code as u32,
                                                name,
                                                namespace: namespace as u32,
                                                kind,
                                                scope,
                                                level: level as u8,
                                                retry_mode,
                                                pass_through_mode,
                                                mapping_code: mapping_code as i64,
                                            },
                                            s11,
                                        )),
                                    },
                                },
                            },
                        },
                    },
                },
            },
        },
    }
}

/// Parse one record's fields, from the first key through the
/// `"source_error":` key, leaving the cause value unread. A classification
/// number outside its enum rejects with `UnknownEnumDiscriminant`; any other
/// deviation from the canonical form rejects with `MalformedRecord`.
pub open spec fn parse_fields(s: Seq<char>) -> Result<(CoreView, Seq<char>), DecodeError> {
    match strip_prefix(s, "\"message\":"@) {
        None => Err(DecodeError::MalformedRecord),
        Some(s0) => match parse_msg(s0) {
            None => Err(DecodeError::MalformedRecord),
            Some((message, s1)) => match parse_key_nat(s1, ",\"code\":"@, 0xFFFF_FFFF) {
                None => Err(DecodeError::MalformedRecord),
                Some((code, s2)) => match parse_key_str(s2, ",\"name\":"@) {
                    None => Err(DecodeError::MalformedRecord),
                    Some((name, s3)) => match parse_key_nat(s3, ",\"namespace\":"@, 0xFFFF_FFFF) {
                        None => Err(DecodeError::MalformedRecord),
                        Some((namespace, s4)) => match parse_key_nat(s4, ",\"kind\":"@, 0xFFFF_FFFF) {
                            None => Err(DecodeError::MalformedRecord),
                            Some((kv, s5)) => match kind_from_code(kv) {
                                None => Err(DecodeError::UnknownEnumDiscriminant),
                                Some(kind) => parse_tail(s5, message, code, name, namespace, kind),
                            },
                        },
                    },
                },
            },
        },
    }
}

/// Parse a cause chain value: the literal `null` for the empty chain, else a
/// record object whose own cause is parsed recursively. `fuel` bounds the
/// nesting depth; the decoder supplies the input length, which no well-formed
/// nesting can exceed.
pub open spec fn parse_chain(s: Seq<char>, fuel: nat) -> Result<(Seq<CoreView>, Seq<char>), DecodeError>
    decreases fuel,
{
    match strip_prefix(s, "null"@) {
        Some(r) => Ok((Seq::empty(), r)),
        None => {
            if fuel == 0 {
                Err(DecodeError::MalformedRecord)
            } else {
                match strip_prefix(s, seq!['{']) {
                    None => Err(DecodeError::MalformedRecord),
                    Some(s1) => match parse_fields(s1) {
                        Err(e) => Err(e),
                        Ok((k, s2)) => match parse_chain(s2, (fuel - 1) as nat) {
                            Err(e) => Err(e),
                            Ok((c, s3)) => match strip_prefix(s3, seq!['}']) {
                                None => Err(DecodeError::MalformedRecord),
                                Some(s4) => Ok((seq![k] + c, s4)),
                            },
                        },
                    },
                }
            }
        },
    }
}

/// Decode a whole input: one record object covering the entire text.
pub open spec fn decode_json(s: Seq<char>) -> Result<Seq<CoreView>, DecodeError> {
    match parse_chain(s, s.len()) {
        Ok((c, rest)) => if rest.len() == 0 && c.len() >= 1 {
            Ok(c)
        } else {
            Err(DecodeError::MalformedRecord)
        },
        Err(e) => Err(e),
    }
}

/// Stripping its own prefix off a concatenation leaves the tail.
pub proof fn lemma_strip_prefix_concat(p: Seq<char>, rest: Seq<char>)
    ensures
        strip_prefix(p + rest, p) == Some(rest),
{
    let s = p + rest;
    assert(s.subrange(0, p.len() as int) =~= p);
    assert(s.skip(p.len() as int) =~= rest);
}

/// The decimal digits of a nonnegative integer are digits, start with a
/// nonzero digit unless the value is zero, and evaluate back to the value.
pub proof fn lemma_dec_digits_props(n: int)
    requires
        n >= 0,
    ensures
        dec_digits(n).len() >= 1,
        forall|i: int| 0 <= i < dec_digits(n).len() ==> is_digit(#[trigger] dec_digits(n)[i]),
        digits_val(dec_digits(n)) == n,
        n >= 1 ==> dec_digits(n)[0] != '0',
        n == 0 ==> dec_digits(n) == seq!['0'],
    decreases n,
{
    let d = dec_digits(n);
    if n < 10 {
        assert(d == seq![crate::textfmt::digit_char(n)]);
        assert(d.drop_last() =~= Seq::<char>::empty());
        assert(digits_val(Seq::<char>::empty()) == 0);
        assert(digits_val(d) == digit_val(d.last()));
        assert(digit_val(d.last()) == n);
        assert(is_digit(d[0]));
    } else {
        lemma_dec_digits_props(n / 10);
        let h = dec_digits(n / 10);
        assert(d == h + seq![crate::textfmt::digit_char(n % 10)]);
        assert(d.drop_last() =~= h);
        assert(d.last() == crate::textfmt::digit_char(n % 10));
        assert(digit_val(d.last()) == n % 10);
        assert(digits_val(d) == digits_val(h) * 10 + n % 10);
        assert(n / 10 * 10 + n % 10 == n);
        assert(d[0] == h[0]);
        assert(forall|i: int| 0 <= i < d.len() ==> is_digit(#[trigger] d[i]));
    }
}

/// The digit prefix of digits followed by a non-digit is exactly the digits.
pub proof fn lemma_digit_count_boundary(d: Seq<char>, rest: Seq<char>)
    requires
        forall|i: int| 0 <= i < d.len() ==> is_digit(#[trigger] d[i]),
        rest.len() == 0 || !is_digit(rest[0]),
    ensures
        digit_count(d + rest) == d.len(),
    decreases d.len(),
{
    let s = d + rest;
    if d.len() == 0 {
        assert(s =~= rest);
    } else {
        assert(is_digit(s[0]));
        assert(s.skip(1) =~= d.skip(1) + rest);
        lemma_digit_count_boundary(d.skip(1), rest);
    }
}

/// Parsing the canonical decimal digits of `n` (within bound) followed by a
/// non-digit yields `n` and the rest.
pub proof fn lemma_parse_nat_round_trip(n: int, max: int, rest: Seq<char>)
    requires
        0 <= n <= max,
        rest.len() == 0 || !is_digit(rest[0]),
    ensures
        parse_nat(dec_digits(n) + rest, max) == Some((n, rest)),
{
    let d = dec_digits(n);
    let s = d + rest;
    lemma_dec_digits_props(n);
    lemma_digit_count_boundary(d, rest);
    assert(digit_count(s) == d.len());
    assert(s[0] == d[0]);
    assert(s.take(d.len() as int) =~= d);
    assert(s.skip(d.len() as int) =~= rest);
    if n == 0 {
        assert(d.len() == 1);
    } else {
        assert(s[0] != '0');
    }
}

/// Parsing the canonical signed decimal of `n` (within bounds) followed by a
/// non-digit yields `n` and the rest.
pub proof fn lemma_parse_int_round_trip(n: int, min: int, max: int, rest: Seq<char>)
    requires
        min <= n <= max,
        min < 0 <= max,
        rest.len() == 0 || !is_digit(rest[0]),
    ensures
        parse_int(dec_int(n) + rest, min, max) == Some((n, rest)),
{
    if n >= 0 {
        let d = dec_digits(n);
        lemma_dec_digits_props(n);
        assert(is_digit(d[0]));
        assert((d + rest)[0] == d[0]);
        assert(d[0] != '-');
        lemma_parse_nat_round_trip(n, max, rest);
        assert(dec_int(n) + rest == d + rest);
    } else {
        let d = dec_digits(-n);
        let s = dec_int(n) + rest;
        assert(dec_int(n) == seq!['-'] + d);
        assert(s[0] == '-');
        assert(s.skip(1) =~= d + rest);
        lemma_parse_nat_round_trip(-n, -min, rest);
    }
}

/// Parsing an escaped text followed by its closing quote undoes the escaping
/// exactly.
pub proof fn lemma_parse_str_body_round_trip(t: Seq<char>, rest: Seq<char>)
    ensures
        parse_str_body(escape(t) + seq!['"'] + rest) == Some((t, rest)),
    decreases t.len(),
{
    let s = escape(t) + seq!['"'] + rest;
    if t.len() == 0 {
        assert(escape(t) == Seq::<char>::empty());
        assert(s =~= seq!['"'] + rest);
        assert(s[0] == '"');
        assert(s.skip(1) =~= rest);
        assert(parse_str_body(s) == Some((Seq::<char>::empty(), rest)));
        assert(Seq::<char>::empty() =~= t);
    } else {
        let c = t[0];
        let e = crate::textfmt::esc_char(c);
        assert(escape(t) == e + escape(t.skip(1)));
        lemma_parse_str_body_round_trip(t.skip(1), rest);
        if c == '"' || c == '\\' || c == '\n' || c == '\r' || c == '\t' {
            assert(e.len() == 2 && e[0] == '\\' && unesc_char(e[1]) == Some(c));
            assert(s[0] == '\\');
            assert(s.len() >= 2);
            assert(s[1] == e[1]);
            assert(s.skip(2) =~= escape(t.skip(1)) + seq!['"'] + rest);
            assert(parse_str_body(s) == Some((seq![c] + t.skip(1), rest)));
            assert(seq![c] + t.skip(1) =~= t);
        } else {
            assert(e == seq![c]);
            assert(s[0] == c);
            assert(c != '"' && c != '\\');
            assert(s.skip(1) =~= escape(t.skip(1)) + seq!['"'] + rest);
            assert(parse_str_body(s) == Some((seq![c] + t.skip(1), rest)));
            assert(seq![c] + t.skip(1) =~= t);
        }
    }
}

/// Parsing a quoted, escaped string undoes the quoting and escaping exactly.
pub proof fn lemma_parse_jstring_round_trip(t: Seq<char>, rest: Seq<char>)
    ensures
        parse_jstring(crate::json::jstring(t) + rest) == Some((t, rest)),
{
    let s = crate::json::jstring(t) + rest;
    assert(s[0] == '"');
    assert(s.skip(1) =~= escape(t) + seq!['"'] + rest);
    lemma_parse_str_body_round_trip(t, rest);
}

/// Parsing an encoded message undoes the encoding exactly.
pub proof fn lemma_parse_msg_round_trip(m: MsgView, rest: Seq<char>)
    ensures
        parse_msg(crate::json::json_msg(m) + rest) == Some((m, rest)),
{
    let s = crate::json::json_msg(m) + rest;
    reveal_strlit("{\"Default\":");
    reveal_strlit("{\"I18n\":");
    match m {
        MsgView::Default(t) => {
            assert(s =~= "{\"Default\":"@ + (crate::json::jstring(t) + (seq!['}'] + rest)));
            lemma_strip_prefix_concat("{\"Default\":"@, crate::json::jstring(t) + (seq!['}'] + rest));
            lemma_parse_jstring_round_trip(t, seq!['}'] + rest);
            lemma_strip_prefix_concat(seq!['}'], rest);
        },
        MsgView::I18n(t) => {
            assert(s =~= "{\"I18n\":"@ + (crate::json::jstring(t) + (seq!['}'] + rest)));
            if strip_prefix(s, "{\"Default\":"@) is Some {
                assert(s.subrange(0, 11)[2] == "{\"Default\":"@[2]);
                assert(s[2] == "{\"I18n\":"@[2]);
                assert(false);
            }
            lemma_strip_prefix_concat("{\"I18n\":"@, crate::json::jstring(t) + (seq!['}'] + rest));
            lemma_parse_jstring_round_trip(t, seq!['}'] + rest);
            lemma_strip_prefix_concat(seq!['}'], rest);
        },
    }
}

/// Parsing a key literal and the canonical digits of `n` before a non-digit
/// tail yields `n` and the tail.
proof fn lemma_key_nat_round_trip(key: Seq<char>, n: int, max: int, tail: Seq<char>)
    requires
        0 <= n <= max,
        tail.len() > 0,
        !is_digit(tail[0]),
    ensures
        parse_key_nat(key + (dec_digits(n) + tail), key, max) == Some((n, tail)),
{
    lemma_strip_prefix_concat(key, dec_digits(n) + tail);
    lemma_parse_nat_round_trip(n, max, tail);
}

/// Parsing a key literal and a quoted string yields the text and the tail.
proof fn lemma_key_str_round_trip(key: Seq<char>, t: Seq<char>, tail: Seq<char>)
    ensures
        parse_key_str(key + (crate::json::jstring(t) + tail), key) == Some((t, tail)),
{
    lemma_strip_prefix_concat(key, crate::json::jstring(t) + tail);
    lemma_parse_jstring_round_trip(t, tail);
}

/// Parsing a key literal and the canonical signed digits of `n` before a
/// non-digit tail yields `n` and the tail.
proof fn lemma_key_int_round_trip(key: Seq<char>, n: int, min: int, max: int, tail: Seq<char>)
    requires
        min <= n <= max,
        min < 0 <= max,
        tail.len() > 0,
        !is_digit(tail[0]),
    ensures
        parse_key_int(key + (dec_int(n) + tail), key, min, max) == Some((n, tail)),
{
    lemma_strip_prefix_concat(key, dec_int(n) + tail);
    lemma_parse_int_round_trip(n, min, max, tail);
}

/// Parsing the encoded trailing fields of a record undoes the encoding.
#[verifier::rlimit(100)]
proof fn lemma_parse_tail_round_trip(k: CoreView, rest: Seq<char>)
    ensures
        parse_tail(crate::json::keys_from_scope(k) + rest, k.message, k.code as int, k.name,
            k.namespace as int, k.kind) == Ok::<(CoreView, Seq<char>), DecodeError>((k, rest)),
{
    reveal_strlit(",\"scope\":");
    reveal_strlit(",\"level\":");
    reveal_strlit(",\"retry_mode\":");
    reveal_strlit(",\"pass_through_mode\":");
    reveal_strlit(",\"mapping_code\":");
    reveal_strlit(",\"source_error\":");
    crate::codes::lemma_code_round_trip(k.kind, k.scope, k.retry_mode, k.pass_through_mode);
    let r5 = crate::json::keys_from_scope(k) + rest;
    let r6 = crate::json::keys_from_level(k) + rest;
    assert(r5 =~= ",\"scope\":"@ + (dec_digits(crate::codes::scope_code(k.scope)) + r6));
    assert(r6.len() > 0 && r6[0] == ',' && !is_digit(r6[0]));
    assert(0 <= crate::codes::scope_code(k.scope) <= 2);
    lemma_key_nat_round_trip(",\"scope\":"@, crate::codes::scope_code(k.scope), 0xFFFF_FFFF, r6);
    let r7 = crate::json::keys_from_retry(k) + rest;
    assert(r6 =~= ",\"level\":"@ + (dec_digits(k.level as int) + r7));
    assert(r7.len() > 0 && r7[0] == ',' && !is_digit(r7[0]));
    lemma_key_nat_round_trip(",\"level\":"@, k.level as int, 255, r7);
    let r8 = crate::json::keys_from_pass(k) + rest;
    assert(r7 =~= ",\"retry_mode\":"@ + (dec_digits(crate::codes::retry_code(k.retry_mode)) + r8));
    assert(r8.len() > 0 && r8[0] == ',' && !is_digit(r8[0]));
    assert(0 <= crate::codes::retry_code(k.retry_mode) <= 2);
    lemma_key_nat_round_trip(",\"retry_mode\":"@, crate::codes::retry_code(k.retry_mode), 0xFFFF_FFFF, r8);
    let r9 = crate::json::keys_from_mapping(k) + rest;
    assert(r8 =~= ",\"pass_through_mode\":"@ + (dec_digits(crate::codes::pass_code(k.pass_through_mode)) + r9));
    assert(r9.len() > 0 && r9[0] == ',' && !is_digit(r9[0]));
    assert(0 <= crate::codes::pass_code(k.pass_through_mode) <= 2);
    lemma_key_nat_round_trip(",\"pass_through_mode\":"@, crate::codes::pass_code(k.pass_through_mode), 0xFFFF_FFFF, r9);
    let r10 = ",\"source_error\":"@ + rest;
    assert(r9 =~= ",\"mapping_code\":"@ + (dec_int(k.mapping_code as int) + r10));
    assert(r10.len() > 0 && r10[0] == ',' && !is_digit(r10[0]));
    lemma_key_int_round_trip(",\"mapping_code\":"@, k.mapping_code as int, -0x8000_0000_0000_0000, 0x7FFF_FFFF_FFFF_FFFF, r10);
    lemma_strip_prefix_concat(",\"source_error\":"@, rest);
}

/// Parsing the encoded fields of a record undoes the encoding exactly.
#[verifier::rlimit(100)]
pub proof fn lemma_parse_fields_round_trip(k: CoreView, rest: Seq<char>)
    ensures
        parse_fields(crate::json::json_fields(k) + rest) == Ok::<(CoreView, Seq<char>), DecodeError>((k, rest)),
{
    reveal_strlit("\"message\":");
    reveal_strlit(",\"code\":");
    reveal_strlit(",\"name\":");
    reveal_strlit(",\"namespace\":");
    reveal_strlit(",\"kind\":");
    reveal_strlit(",\"scope\":");
    crate::codes::lemma_code_round_trip(k.kind, k.scope, k.retry_mode, k.pass_through_mode);
    let r1 = crate::json::keys_from_code(k) + rest;
    assert(crate::json::json_fields(k) + rest =~= "\"message\":"@ + (crate::json::json_msg(k.message) + r1));
    lemma_strip_prefix_concat("\"message\":"@, crate::json::json_msg(k.message) + r1);
    lemma_parse_msg_round_trip(k.message, r1);
    let r2 = crate::json::keys_from_name(k) + rest;
    assert(r1 =~= ",\"code\":"@ + (dec_digits(k.code as int) + r2));
    assert(r2.len() > 0 && r2[0] == ',' && !is_digit(r2[0]));
    lemma_key_nat_round_trip(",\"code\":"@, k.code as int, 0xFFFF_FFFF, r2);
    let r3 = crate::json::keys_from_namespace(k) + rest;
    assert(r2 =~= ",\"name\":"@ + (crate::json::jstring(k.name) + r3));
    lemma_key_str_round_trip(",\"name\":"@, k.name, r3);
    let r4 = crate::json::keys_from_kind(k) + rest;
    assert(r3 =~= ",\"namespace\":"@ + (dec_digits(k.namespace as int) + r4));
    assert(r4.len() > 0 && r4[0] == ',' && !is_digit(r4[0]));
    lemma_key_nat_round_trip(",\"namespace\":"@, k.namespace as int, 0xFFFF_FFFF, r4);
    let r5 = crate::json::keys_from_scope(k) + rest;
    assert(r4 =~= ",\"kind\":"@ + (dec_digits(crate::codes::kind_code(k.kind)) + r5));
    assert(r5.len() > 0 && r5[0] == ',' && !is_digit(r5[0]));
    assert(0 <= crate::codes::kind_code(k.kind) <= 16);
    lemma_key_nat_round_trip(",\"kind\":"@, crate::codes::kind_code(k.kind), 0xFFFF_FFFF, r5);
    lemma_parse_tail_round_trip(k, rest);
    assert(parse_fields(crate::json::json_fields(k) + rest) == Ok::<(CoreView, Seq<char>), DecodeError>((k, rest)));
}

/// Parsing the encoding of a chain followed by anything yields the chain and
/// leaves exactly that remainder, whenever the fuel covers the chain's depth.
#[verifier::rlimit(100)]
pub proof fn lemma_parse_chain_round_trip(c: Seq<CoreView>, rest: Seq<char>, fuel: nat)
    requires
        fuel >= c.len(),
    ensures
        parse_chain(crate::json::json_chain(c) + rest, fuel) == Ok::<(Seq<CoreView>, Seq<char>), DecodeError>((c, rest)),
    decreases c.len(),
{
    reveal_strlit("null");
    if c.len() == 0 {
        assert(crate::json::json_chain(c) == "null"@);
        lemma_strip_prefix_concat("null"@, rest);
        assert(Seq::<CoreView>::empty() =~= c);
    } else {
        let inner = crate::json::json_chain(c.skip(1));
        let t2 = seq!['}'] + rest;
        let t1 = inner + t2;
        let t0 = crate::json::json_fields(c[0]) + t1;
        let s = seq!['{'] + t0;
        assert(crate::json::json_chain(c) + rest =~= s);
        assert(s[0] == '{');
        if strip_prefix(s, "null"@) is Some {
            assert(s.subrange(0, 4)[0] == "null"@[0]);
            assert(false);
        }
        lemma_strip_prefix_concat(seq!['{'], t0);
        lemma_parse_fields_round_trip(c[0], t1);
        lemma_parse_chain_round_trip(c.skip(1), t2, (fuel - 1) as nat);
        lemma_strip_prefix_concat(seq!['}'], rest);
        assert(seq![c[0]] + c.skip(1) =~= c);
    }
}

/// Law: decoding inverts encoding. For every well-formed cause chain, the
/// canonical JSON encoding of the chain decodes back to a structurally equal
/// chain: every field of every record along the chain, and the presence and
/// depth of the cause, survive the round trip.
pub proof fn lemma_json_round_trip(c: Seq<CoreView>)
    requires
        c.len() >= 1,
    ensures
        decode_json(crate::json::json_chain(c)) == Ok::<Seq<CoreView>, DecodeError>(c),
{
    let s = crate::json::json_chain(c);
    crate::json::lemma_json_chain_len(c);
    lemma_parse_chain_round_trip(c, Seq::empty(), s.len());
    assert(s + Seq::<char>::empty() =~= s);
}

/// A parse result with `a` prepended to the parsed text, if it succeeded.
pub open spec fn prepend_parsed(a: Seq<char>, o: Option<(Seq<char>, Seq<char>)>) -> Option<(Seq<char>, Seq<char>)> {
    match o {
        Some(tr) => Some((a + tr.0, tr.1)),
        None => None,
    }
}

/// Prepending twice is prepending the concatenation.
proof fn lemma_prepend_assoc(a: Seq<char>, b: Seq<char>, o: Option<(Seq<char>, Seq<char>)>)
    ensures
        prepend_parsed(a, prepend_parsed(b, o)) == prepend_parsed(a + b, o),
{
    match o {
        Some(tr) => {
            assert(a + (b + tr.0) =~= (a + b) + tr.0);
        },
        None => {},
    }
}

/// Whether `c` is a decimal digit, executably.
fn is_digit_exec(c: char) -> (r: bool)
    ensures
        r == is_digit(c),
{
    let u = c as u32;
    48 <= u && u <= 57
}

/// Whether `pos` points past the characters of `lit` in `v`: the executable
/// form of `strip_prefix` on the suffix of `v` at `pos`.
fn eat_lit(v: &Vec<char>, pos: usize, lit: &str) -> (r: Option<usize>)
    requires
        pos <= v@.len(),
    ensures
        match r {
            Some(p2) => pos <= p2 <= v@.len()
                && strip_prefix(v@.skip(pos as int), lit@) == Some(v@.skip(p2 as int)),
            None => strip_prefix(v@.skip(pos as int), lit@) is None,
        },
{
    let n = lit.unicode_len();
    let vl = v.len();
    if n > vl - pos {
        return None;
    }
    let mut j: usize = 0;
    while j < n
        invariant
            n == lit@.len(),
            vl == v@.len(),
            pos + n <= vl,
            j <= n,
            forall|i: int| 0 <= i < j ==> v@[pos + i] == lit@[i],
        decreases n - j,
    {
        if v[pos + j] != lit.get_char(j) {
            proof {
                let s = v@.skip(pos as int);
                assert(s[j as int] == v@[pos + j]);
                if strip_prefix(s, lit@) is Some {
                    assert(s.subrange(0, n as int)[j as int] == lit@[j as int]);
                    assert(false);
                }
            }
            return None;
        }
        j = j + 1;
    }
    proof {
        let s = v@.skip(pos as int);
        assert(s.subrange(0, n as int) =~= lit@);
        assert(s.skip(n as int) =~= v@.skip(pos + n));
    }
    Some(pos + n)
}

/// The executable form of `parse_nat` on the suffix of `v` at `pos`.
#[verifier::rlimit(100)]
fn eat_nat(v: &Vec<char>, pos: usize, max: u64) -> (r: Option<(u64, usize)>)
    requires
        pos <= v@.len(),
    ensures
        match r {
            Some(xp) => pos <= xp.1 <= v@.len()
                && parse_nat(v@.skip(pos as int), max as int) == Some((xp.0 as int, v@.skip(xp.1 as int))),
            None => parse_nat(v@.skip(pos as int), max as int) is None,
        },
{
    let vl = v.len();
    let mut j: usize = pos;
    let mut val: u64 = 0;
    let mut over: bool = false;
    proof {
        assert(v@.subrange(pos as int, pos as int) =~= Seq::<char>::empty());
    }
    while j < vl && is_digit_exec(v[j])
        invariant
            vl == v@.len(),
            pos <= j <= vl,
            forall|i: int| pos <= i < j ==> is_digit(#[trigger] v@[i]),
            digit_count(v@.skip(pos as int)) == (j - pos) + digit_count(v@.skip(j as int)),
            digits_val(v@.subrange(pos as int, j as int)) >= 0,
            over <==> digits_val(v@.subrange(pos as int, j as int)) > max as int,
            !over ==> val as int == digits_val(v@.subrange(pos as int, j as int)),
        decreases v@.len() - j,
    {
        let c = v[j];
        let d: u64 = (c as u32 - 48) as u64;
        proof {
            assert(is_digit(c) && digit_val(c) == d as int);
            let ds = v@.subrange(pos as int, j as int);
            let ds2 = v@.subrange(pos as int, j + 1 as int);
            assert(ds2.drop_last() =~= ds);
            assert(ds2.last() == c);
            assert(digits_val(ds2) == digits_val(ds) * 10 + d as int);
            assert(v@.skip(j as int).skip(1) =~= v@.skip(j + 1 as int));
            assert(v@.skip(j as int)[0] == v@[j as int]);
            assert(digit_count(v@.skip(j as int)) == 1 + digit_count(v@.skip(j + 1 as int)));
        }
        if over {
            proof {
                let ds = v@.subrange(pos as int, j as int);
                assert(digits_val(ds) * 10 + d as int > max as int);
            }
        } else {
            let wide: u128 = val as u128 * 10 + d as u128;
            if wide > max as u128 {
                over = true;
            } else {
                val = wide as u64;
            }
        }
        j = j + 1;
    }
    proof {
        if j < v@.len() {
            assert(!is_digit(v@[j as int]));
        }
        assert(v@.skip(j as int).len() == v@.len() - j);
        if v@.skip(j as int).len() > 0 {
            assert(v@.skip(j as int)[0] == v@[j as int]);
        }
        assert(digit_count(v@.skip(j as int)) == 0);
        assert(digit_count(v@.skip(pos as int)) == j - pos);
        assert(v@.skip(pos as int).take((j - pos) as int) =~= v@.subrange(pos as int, j as int));
        assert(v@.skip(pos as int).skip((j - pos) as int) =~= v@.skip(j as int));
    }
    if j == pos {
        return None;
    }
    let c0 = v[pos];
    if c0 == '0' && j > pos + 1 {
        proof {
            assert(v@.skip(pos as int)[0] == v@[pos as int]);
        }
        return None;
    }
    if over {
        return None;
    }
    proof {
        assert(v@.skip(pos as int)[0] == v@[pos as int]);
    }
    Some((val, j))
}

/// The executable form of `parse_int` at the full `i64` range.
fn eat_i64(v: &Vec<char>, pos: usize) -> (r: Option<(i64, usize)>)
    requires
        pos <= v@.len(),
    ensures
        match r {
            Some(xp) => pos <= xp.1 <= v@.len()
                && parse_int(v@.skip(pos as int), -0x8000_0000_0000_0000, 0x7FFF_FFFF_FFFF_FFFF)
                    == Some((xp.0 as int, v@.skip(xp.1 as int))),
            None => parse_int(v@.skip(pos as int), -0x8000_0000_0000_0000, 0x7FFF_FFFF_FFFF_FFFF) is None,
        },
{
    if pos < v.len() && v[pos] == '-' {
        proof {
            assert(v@.skip(pos as int)[0] == v@[pos as int]);
            assert(v@.skip(pos as int).skip(1) =~= v@.skip(pos + 1 as int));
        }
        match eat_nat(v, pos + 1, 9223372036854775808u64) {
            Some((x, p2)) => {
                if x >= 1 {
                    let m: i64 = if x == 9223372036854775808u64 {
                        i64::MIN
                    } else {
                        -(x as i64)
                    };
                    assert(m as int == -(x as int));
                    Some((m, p2))
                } else {
                    None
                }
            },
            None => None,
        }
    } else {
        proof {
            if pos < v@.len() {
                assert(v@.skip(pos as int)[0] == v@[pos as int]);
            }
        }
        match eat_nat(v, pos, 9223372036854775807u64) {
            Some((x, p2)) => Some((x as i64, p2)),
            None => None,
        }
    }
}

/// The executable form of `parse_jstring` on the suffix of `v` at `pos`:
/// reads a quoted string, undoing the escaping.
fn eat_string(v: &Vec<char>, pos: usize) -> (r: Option<(String, usize)>)
    requires
        pos <= v@.len(),
    ensures
        match r {
            Some(tp) => pos <= tp.1 <= v@.len()
                && parse_jstring(v@.skip(pos as int)) == Some((tp.0@, v@.skip(tp.1 as int))),
            None => parse_jstring(v@.skip(pos as int)) is None,
        },
{
    let vl = v.len();
    if pos >= vl || v[pos] != '"' {
        proof {
            if pos < v@.len() {
                assert(v@.skip(pos as int)[0] == v@[pos as int]);
            }
        }
        return None;
    }
    proof {
        assert(v@.skip(pos as int)[0] == v@[pos as int]);
        assert(v@.skip(pos as int).skip(1) =~= v@.skip(pos + 1 as int));
    }
    let mut acc: Vec<char> = Vec::new();
    let mut j: usize = pos + 1;
    loop
        invariant
            vl == v@.len(),
            pos + 1 <= j <= vl,
            v@.len() >= 1 + pos,
            v@[pos as int] == '"',
            parse_str_body(v@.skip(pos + 1 as int)) == prepend_parsed(acc@, parse_str_body(v@.skip(j as int))),
            parse_jstring(v@.skip(pos as int)) == parse_str_body(v@.skip(pos + 1 as int)),
        decreases v@.len() - j,
    {
        if j >= vl {
            proof {
                assert(v@.skip(j as int).len() == 0);
            }
            return None;
        }
        let c = v[j];
        proof {
            assert(v@.skip(j as int)[0] == v@[j as int]);
        }
        if c == '"' {
            proof {
                assert(v@.skip(j as int).skip(1) =~= v@.skip(j + 1 as int));
                assert(parse_str_body(v@.skip(j as int)) == Some((Seq::<char>::empty(), v@.skip(j + 1 as int))));
                assert(acc@ + Seq::<char>::empty() =~= acc@);
            }
            let t = chars_to_string(&acc);
            return Some((t, j + 1));
        }
        if c == '\\' {
            if j + 1 >= vl {
                proof {
                    assert(v@.skip(j as int).len() < 2);
                }
                return None;
            }
            let e = v[j + 1];
            proof {
                assert(v@.skip(j as int)[1] == v@[j + 1 as int]);
                assert(v@.skip(j as int).skip(2) =~= v@.skip(j + 2 as int));
            }
            let u: char = if e == '"' {
                '"'
            } else if e == '\\' {
                '\\'
            } else if e == 'n' {
                '\n'
            } else if e == 'r' {
                '\r'
            } else if e == 't' {
                '\t'
            } else {
                proof {
                    assert(unesc_char(e) is None);
                }
                return None;
            };
            proof {
                assert(unesc_char(e) == Some(u));
                assert(parse_str_body(v@.skip(j as int))
                    == prepend_parsed(seq![u], parse_str_body(v@.skip(j + 2 as int))));
                lemma_prepend_assoc(acc@, seq![u], parse_str_body(v@.skip(j + 2 as int)));
                assert(acc@ + seq![u] =~= acc@.push(u));
            }
            acc.push(u);
            j = j + 2;
        } else {
            proof {
                assert(v@.skip(j as int).skip(1) =~= v@.skip(j + 1 as int));
                assert(parse_str_body(v@.skip(j as int))
                    == prepend_parsed(seq![c], parse_str_body(v@.skip(j + 1 as int))));
                lemma_prepend_assoc(acc@, seq![c], parse_str_body(v@.skip(j + 1 as int)));
                assert(acc@ + seq![c] =~= acc@.push(c));
            }
            acc.push(c);
            j = j + 1;
        }
    }
}

/// The executable form of `parse_msg` on the suffix of `v` at `pos`.
fn eat_msg(v: &Vec<char>, pos: usize) -> (r: Option<(Message, usize)>)
    requires
        pos <= v@.len(),
    ensures
        match r {
            Some(mp) => pos <= mp.1 <= v@.len()
                && parse_msg(v@.skip(pos as int)) == Some((mp.0@, v@.skip(mp.1 as int))),
            None => parse_msg(v@.skip(pos as int)) is None,
        },
{
    proof {
        reveal_strlit("}");
        assert("}"@ =~= seq!['}']);
    }
    match eat_lit(v, pos, "{\"Default\":") {
        Some(p1) => match eat_string(v, p1) {
            Some((t, p2)) => match eat_lit(v, p2, "}") {
                Some(p3) => Some((Message::Default(t), p3)),
                None => None,
            },
            None => None,
        },
        None => match eat_lit(v, pos, "{\"I18n\":") {
            Some(p1) => match eat_string(v, p1) {
                Some((t, p2)) => match eat_lit(v, p2, "}") {
                    Some(p3) => Some((Message::I18n(t), p3)),
                    None => None,
                },
                None => None,
            },
            None => None,
        },
    }
}

/// The executable form of `parse_fields`: reads one record's own fields and
/// builds the record, with no cause attached yet.
#[verifier::rlimit(100)]
fn eat_fields(v: &Vec<char>, pos: usize) -> (r: Result<(WidError, usize), DecodeError>)
    requires
        pos <= v@.len(),
    ensures
        match r {
            Ok(wp) => pos <= wp.1 <= v@.len() && wp.0@.len() == 1
                && parse_fields(v@.skip(pos as int)) == Ok::<(CoreView, Seq<char>), DecodeError>((wp.0@[0], v@.skip(wp.1 as int))),
            Err(e) => parse_fields(v@.skip(pos as int)) == Err::<(CoreView, Seq<char>), DecodeError>(e),
        },
{
    let p0 = match eat_lit(v, pos, "\"message\":") {
        Some(p) => p,
        None => {
            return Err(DecodeError::MalformedRecord);
        },
    };
    let (message, p1) = match eat_msg(v, p0) {
        Some(mp) => mp,
        None => {
            return Err(DecodeError::MalformedRecord);
        },
    };
    let (code, p2) = match eat_key_nat(v, p1, ",\"code\":", 0xFFFF_FFFF) {
        Some(xp) => xp,
        None => {
            return Err(DecodeError::MalformedRecord);
        },
    };
    let (name, p3) = match eat_key_str(v, p2, ",\"name\":") {
        Some(tp) => tp,
        None => {
            return Err(DecodeError::MalformedRecord);
        },
    };
    let (namespace, p4) = match eat_key_nat(v, p3, ",\"namespace\":", 0xFFFF_FFFF) {
        Some(xp) => xp,
        None => {
            return Err(DecodeError::MalformedRecord);
        },
    };
    let (kv, p5) = match eat_key_nat(v, p4, ",\"kind\":", 0xFFFF_FFFF) {
        Some(xp) => xp,
        None => {
            return Err(DecodeError::MalformedRecord);
        },
    };
    let kind = match Kind::from_code(kv as i64) {
        Some(k) => k,
        None => {
            return Err(DecodeError::UnknownEnumDiscriminant);
        },
    };
    let (sv, p6) = match eat_key_nat(v, p5, ",\"scope\":", 0xFFFF_FFFF) {
        Some(xp) => xp,
        None => {
            return Err(DecodeError::MalformedRecord);
        },
    };
    let scope = match Scope::from_code(sv as i64) {
        Some(k) => k,
        None => {
            return Err(DecodeError::UnknownEnumDiscriminant);
        },
    };
    let (level, p7) = match eat_key_nat(v, p6, ",\"level\":", 255) {
        Some(xp) => xp,
        None => {
            return Err(DecodeError::MalformedRecord);
        },
    };
    let (rv, p8) = match eat_key_nat(v, p7, ",\"retry_mode\":", 0xFFFF_FFFF) {
        Some(xp) => xp,
        None => {
            return Err(DecodeError::MalformedRecord);
        },
    };
    let retry_mode = match RetryMode::from_code(rv as i64) {
        Some(k) => k,
        None => {
            return Err(DecodeError::UnknownEnumDiscriminant);
        },
    };
    let (pv, p9) = match eat_key_nat(v, p8, ",\"pass_through_mode\":", 0xFFFF_FFFF) {
        Some(xp) => xp,
        None => {
            return Err(DecodeError::MalformedRecord);
        },
    };
    let pass_through_mode = match PassThroughMode::from_code(pv as i64) {
        Some(k) => k,
        None => {
            return Err(DecodeError::UnknownEnumDiscriminant);
        },
    };
    let (mapping_code, p10) = match eat_key_i64(v, p9, ",\"mapping_code\":") {
        Some(xp) => xp,
        None => {
            return Err(DecodeError::MalformedRecord);
        },
    };
    let p11 = match eat_lit(v, p10, ",\"source_error\":") {
        Some(p) => p,
        None => {
            return Err(DecodeError::MalformedRecord);
        },
    };
    let w = WidError::from_parts(
        message,
        code as u32,
        name,
        namespace as u32,
        kind,
        scope,
        level as u8,
        retry_mode,
        pass_through_mode,
        mapping_code,
        None,
    );
    proof {
        assert(w@ =~= seq![w@[0]]);
    }
    Ok((w, p11))
}

/// The executable form of `parse_key_nat`.
fn eat_key_nat(v: &Vec<char>, pos: usize, key: &str, max: u64) -> (r: Option<(u64, usize)>)
    requires
        pos <= v@.len(),
    ensures
        match r {
            Some(xp) => pos <= xp.1 <= v@.len()
                && parse_key_nat(v@.skip(pos as int), key@, max as int)
                    == Some((xp.0 as int, v@.skip(xp.1 as int))),
            None => parse_key_nat(v@.skip(pos as int), key@, max as int) is None,
        },
{
    match eat_lit(v, pos, key) {
        Some(p1) => eat_nat(v, p1, max),
        None => None,
    }
}

/// The executable form of `parse_key_int` at the full `i64` range.
fn eat_key_i64(v: &Vec<char>, pos: usize, key: &str) -> (r: Option<(i64, usize)>)
    requires
        pos <= v@.len(),
    ensures
        match r {
            Some(xp) => pos <= xp.1 <= v@.len()
                && parse_key_int(v@.skip(pos as int), key@, -0x8000_0000_0000_0000, 0x7FFF_FFFF_FFFF_FFFF)
                    == Some((xp.0 as int, v@.skip(xp.1 as int))),
            None => parse_key_int(v@.skip(pos as int), key@, -0x8000_0000_0000_0000, 0x7FFF_FFFF_FFFF_FFFF) is None,
        },
{
    match eat_lit(v, pos, key) {
        Some(p1) => eat_i64(v, p1),
        None => None,
    }
}

/// The executable form of `parse_key_str`.
fn eat_key_str(v: &Vec<char>, pos: usize, key: &str) -> (r: Option<(String, usize)>)
    requires
        pos <= v@.len(),
    ensures
        match r {
            Some(tp) => pos <= tp.1 <= v@.len()
                && parse_key_str(v@.skip(pos as int), key@) == Some((tp.0@, v@.skip(tp.1 as int))),
            None => parse_key_str(v@.skip(pos as int), key@) is None,
        },
{
    match eat_lit(v, pos, key) {
        Some(p1) => eat_string(v, p1),
        None => None,
    }
}

/// The executable form of `parse_chain`: reads `null` or a nested record.
fn eat_chain(v: &Vec<char>, pos: usize, fuel: usize) -> (r: Result<(Option<WidError>, usize), DecodeError>)
    requires
        pos <= v@.len(),
    ensures
        match r {
            Ok(wp) => pos <= wp.1 <= v@.len() && (match wp.0 {
                Some(w) => parse_chain(v@.skip(pos as int), fuel as nat)
                    == Ok::<(Seq<CoreView>, Seq<char>), DecodeError>((w@, v@.skip(wp.1 as int)))
                    && w@.len() >= 1,
                None => parse_chain(v@.skip(pos as int), fuel as nat)
                    == Ok::<(Seq<CoreView>, Seq<char>), DecodeError>((Seq::empty(), v@.skip(wp.1 as int))),
            }),
            Err(e) => parse_chain(v@.skip(pos as int), fuel as nat)
                == Err::<(Seq<CoreView>, Seq<char>), DecodeError>(e),
        },
    decreases fuel,
{
    proof {
        reveal_strlit("{");
        assert("{"@ =~= seq!['{']);
        reveal_strlit("}");
        assert("}"@ =~= seq!['}']);
    }
    match eat_lit(v, pos, "null") {
        Some(p) => Ok((None, p)),
        None => {
            if fuel == 0 {
                return Err(DecodeError::MalformedRecord);
            }
            let p1 = match eat_lit(v, pos, "{") {
                Some(p) => p,
                None => {
                    return Err(DecodeError::MalformedRecord);
                },
            };
            let (w, p2) = match eat_fields(v, p1) {
                Ok(wp) => wp,
                Err(e) => {
                    return Err(e);
                },
            };
            let (inner, p3) = match eat_chain(v, p2, fuel - 1) {
                Ok(ip) => ip,
                Err(e) => {
                    return Err(e);
                },
            };
            let p4 = match eat_lit(v, p3, "}") {
                Some(p) => p,
                None => {
                    return Err(DecodeError::MalformedRecord);
                },
            };
            let ghost k = w@[0];
            let full = match inner {
                Some(c) => w.set_source(c),
                None => w,
            };
            proof {
                assert(full@ =~= seq![k] + full@.skip(1));
                match parse_chain(v@.skip(p2 as int), (fuel - 1) as nat) {
                    Ok(cr) => {
                        assert(full@ =~= seq![k] + cr.0);
                    },
                    Err(_) => {},
                }
            }
            Ok((Some(full), p4))
        },
    }
}

impl WidError {
    /// Decode a record from its canonical JSON encoding. Returns the record
    /// whose encoding is exactly `s`; rejects anything else, with
    /// `UnknownEnumDiscriminant` for a classification integer outside its
    /// enum's closed set and `MalformedRecord` for every other deviation.
    pub fn from_json(s: &str) -> (r: Result<WidError, DecodeError>)
        ensures
            match decode_json(s@) {
                Ok(c) => r is Ok && r->Ok_0@ == c,
                Err(e) => r is Err && r->Err_0 == e,
            },
    {
        let v = str_to_chars(s);
        proof {
            assert(v@.skip(0) =~= s@);
        }
        match eat_chain(&v, 0, v.len()) {
            Err(e) => Err(e),
            Ok((opt, p)) => {
                if p != v.len() {
                    proof {
                        assert(v@.skip(p as int).len() > 0);
                    }
                    Err(DecodeError::MalformedRecord)
                } else {
                    proof {
                        assert(v@.skip(p as int).len() == 0);
                    }
                    match opt {
                        Some(w) => Ok(w),
                        None => Err(DecodeError::MalformedRecord),
                    }
                }
            },
        }
    }
}

} // verus!
