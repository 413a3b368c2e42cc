//! The canonical JSON encoding of a record.
//!
//! One object per record, fields in declaration order, no whitespace:
//! `{"message":M,"code":N,"name":S,"namespace":N,"kind":N,"scope":N,
//! "level":N,"retry_mode":N,"pass_through_mode":N,"mapping_code":N,
//! "source_error":X}` where every classification enum is its integer wire
//! value, `M` is the externally tagged message (`{"Default":S}` or
//! `{"I18n":S}`), and `X` is the explicit value `null` when there is no
//! cause, else the nested cause object. Strings escape the quote, backslash,
//! newline, carriage-return and tab characters and carry every other
//! character verbatim.

use vstd::prelude::*;

use crate::codes::{kind_code, pass_code, retry_code, scope_code};
use crate::record::{CoreView, MsgView};
use crate::textfmt::{dec_digits, dec_int, escape};

verus! {

/// A quoted, escaped JSON string.
pub open spec fn jstring(t: Seq<char>) -> Seq<char> {
    seq!['"'] + (escape(t) + seq!['"'])
}

/// The encoding of a message: an externally tagged one-field object.
pub open spec fn json_msg(m: MsgView) -> Seq<char> {
    match m {
        MsgView::Default(t) => "{\"Default\":"@ + (jstring(t) + seq!['}']),
        MsgView::I18n(t) => "{\"I18n\":"@ + (jstring(t) + seq!['}']),
    }
}

/// The encoding of one record's own fields, from the first key up to and
/// including the `"source_error":` key, between which the cause value stands.
/// The key-value pairs are grouped by the `keys_from_*` ladder below, each
/// key literal heading its own tail.
pub open spec fn json_fields(c: CoreView) -> Seq<char> {
    "\"message\":"@ + (json_msg(c.message) + keys_from_code(c))
}

/// The key-value pairs of [`json_fields`] from the `code` key on.
pub open spec fn keys_from_code(c: CoreView) -> Seq<char> {
    ",\"code\":"@ + (dec_digits(c.code as int) + keys_from_name(c))
}

/// The pairs from the `name` key on, grouped for decoding.
pub open spec fn keys_from_name(c: CoreView) -> Seq<char> {
    ",\"name\":"@ + (jstring(c.name) + keys_from_namespace(c))
}

/// The pairs from the `namespace` key on, grouped for decoding.
pub open spec fn keys_from_namespace(c: CoreView) -> Seq<char> {
    ",\"namespace\":"@ + (dec_digits(c.namespace as int) + keys_from_kind(c))
}

/// The pairs from the `kind` key on, grouped for decoding.
pub open spec fn keys_from_kind(c: CoreView) -> Seq<char> {
    ",\"kind\":"@ + (dec_digits(kind_code(c.kind)) + keys_from_scope(c))
}

/// The pairs from the `scope` key on, grouped for decoding.
pub open spec fn keys_from_scope(c: CoreView) -> Seq<char> {
    ",\"scope\":"@ + (dec_digits(scope_code(c.scope)) + keys_from_level(c))
}

/// The pairs from the `level` key on, grouped for decoding.
pub open spec fn keys_from_level(c: CoreView) -> Seq<char> {
    ",\"level\":"@ + (dec_digits(c.level as int) + keys_from_retry(c))
}

/// The pairs from the `retry_mode` key on, grouped for decoding.
pub open spec fn keys_from_retry(c: CoreView) -> Seq<char> {
    ",\"retry_mode\":"@ + (dec_digits(retry_code(c.retry_mode)) + keys_from_pass(c))
}

/// The pairs from the `pass_through_mode` key on, grouped for decoding.
pub open spec fn keys_from_pass(c: CoreView) -> Seq<char> {
    ",\"pass_through_mode\":"@ + (dec_digits(pass_code(c.pass_through_mode)) + keys_from_mapping(c))
}

/// The pairs from the `mapping_code` key through the `source_error` key.
pub open spec fn keys_from_mapping(c: CoreView) -> Seq<char> {
    ",\"mapping_code\":"@ + (dec_int(c.mapping_code as int) + ",\"source_error\":"@)
}

/// The encoding of a whole cause chain; the empty chain is the explicit
/// value `null`.
pub open spec fn json_chain(c: Seq<CoreView>) -> Seq<char>
    decreases c.len(),
{
    if c.len() == 0 {
        "null"@
    } else {
        seq!['{'] + (json_fields(c[0]) + (json_chain(c.skip(1)) + seq!['}']))
    }
}

/// The encoding of a chain is at least as long as the chain itself.
pub proof fn lemma_json_chain_len(c: Seq<CoreView>)
    ensures
        json_chain(c).len() >= c.len(),
    decreases c.len(),
{
    if c.len() > 0 {
        lemma_json_chain_len(c.skip(1));
    }
}

} // verus!
