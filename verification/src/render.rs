//! The single-line textual form of a record.
//!
//! Every field appears in a fixed order, classification enums as their
//! numeric wire value, and the cause chain as nested parenthesized segments:
//! one segment per cause, empty parentheses when there is none.

use vstd::prelude::*;

use crate::codes::{kind_code, pass_code, retry_code, scope_code};
use crate::record::{CoreView, MsgView};
use crate::textfmt::{dec_digits, dec_int, escape};

verus! {

/// The textual form of a message: its tag, then its escaped text in quotes.
pub open spec fn msg_text(m: MsgView) -> Seq<char> {
    match m {
        MsgView::Default(t) => "Default(\""@ + escape(t) + "\")"@,
        MsgView::I18n(t) => "I18n(\""@ + escape(t) + "\")"@,
    }
}

/// The textual form of one record's own fields, up to and including the
/// opening of its cause segment. The name appears verbatim.
pub open spec fn core_text(c: CoreView) -> Seq<char> {
    "code="@ + dec_digits(c.code as int)
        + ", name="@ + c.name
        + ", namespace="@ + dec_digits(c.namespace as int)
        + ", scope="@ + dec_digits(scope_code(c.scope))
        + ", kind="@ + dec_digits(kind_code(c.kind))
        + ", level="@ + dec_digits(c.level as int)
        + ", message="@ + msg_text(c.message)
        + ", retry_mode="@ + dec_digits(retry_code(c.retry_mode))
        + ", pass_through_mode="@ + dec_digits(pass_code(c.pass_through_mode))
        + ", mapping_code="@ + dec_int(c.mapping_code as int)
        + ", source_error=("@
}

/// The textual form of a whole cause chain: each record's fields, the next
/// record nested in its parenthesized cause segment, and a closing
/// parenthesis per record.
pub open spec fn render_chain(c: Seq<CoreView>) -> Seq<char>
    decreases c.len(),
{
    if c.len() == 0 {
        Seq::empty()
    } else {
        core_text(c[0]) + render_chain(c.skip(1)) + seq![')']
    }
}

/// A run of `n` closing parentheses.
pub open spec fn closes(n: nat) -> Seq<char>
    decreases n,
{
    if n == 0 { Seq::empty() } else { closes((n - 1) as nat) + seq![')'] }
}

/// Law: the rendering of a chain of `n` records ends in exactly `n` closing
/// parentheses, one per nested cause segment.
pub proof fn lemma_render_closes(c: Seq<CoreView>)
    ensures
        exists|p: Seq<char>| render_chain(c) == p + closes(c.len()),
    decreases c.len(),
{
    if c.len() == 0 {
        assert(render_chain(c) =~= Seq::<char>::empty() + closes(0));
    } else {
        lemma_render_closes(c.skip(1));
        let p0 = choose|p: Seq<char>| render_chain(c.skip(1)) == p + closes(c.skip(1).len());
        let p = core_text(c[0]) + p0;
        assert(c.skip(1).len() == c.len() - 1);
        assert(render_chain(c) =~= p + closes(c.len()));
    }
}

/// Law: attaching a cause chain `e` under an outer record deepens the chain
/// by exactly one traversal step, and the rendering of the result is the
/// outer record's own fields with the cause chain's full rendering nested in
/// exactly one additional parenthesized segment.
pub proof fn lemma_attach_nests(r: Seq<CoreView>, e: Seq<CoreView>)
    requires
        r.len() >= 1,
    ensures
        (seq![r[0]] + e).len() == e.len() + 1,
        render_chain(seq![r[0]] + e) == core_text(r[0]) + render_chain(e) + seq![')'],
{
    let c = seq![r[0]] + e;
    assert(c[0] == r[0]);
    assert(c.skip(1) =~= e);
}

} // verus!
