//! The error record itself and its mathematical model.
//!
//! A `WidError` owns at most one cause record, so a record is a finite,
//! acyclic, singly-linked chain. Its view is the `Seq<CoreView>` of the
//! per-record fields along that chain, outermost record first; the view of a
//! record without a cause has length 1.

use vstd::prelude::*;

use crate::codes::{Kind, PassThroughMode, RetryMode, Scope};
use crate::codes::{kind_code, scope_code};
use crate::json::{json_chain, json_fields, json_msg};
use crate::render::{core_text, msg_text, render_chain};
use crate::textfmt::{append_str, chars_to_string, dec_digits, push_escaped, push_i64, push_u64};

verus! {

/// A human-readable or localization-keyed description.
///
/// `Default` carries ready-to-display text; `I18n` carries an opaque key that
/// an external localization resolver turns into text.
#[derive(Clone, Debug, PartialEq)]
pub enum Message {
    Default(String),
    I18n(String),
}

/// The model of a `Message`: the same tag over the text's characters.
pub enum MsgView {
    Default(Seq<char>),
    I18n(Seq<char>),
}

impl View for Message {
    type V = MsgView;

    open spec fn view(&self) -> MsgView {
        match self {
            Message::Default(t) => MsgView::Default(t@),
            Message::I18n(t) => MsgView::I18n(t@),
        }
    }
}

impl Default for Message {
    /// The default message is empty ready-to-display text.
    fn default() -> (r: Self)
        ensures
            r@ == MsgView::Default(Seq::<char>::empty()),
    {
        Message::Default(String::new())
    }
}

/// The per-record fields of one link of a cause chain, with strings as
/// character sequences: everything a record holds except its cause.
pub struct CoreView {
    pub message: MsgView,
    pub code: u32,
    pub name: Seq<char>,
    pub namespace: u32,
    pub kind: Kind,
    pub scope: Scope,
    pub level: u8,
    pub retry_mode: RetryMode,
    pub pass_through_mode: PassThroughMode,
    pub mapping_code: i64,
}

/// One failure occurrence: a self-contained, serializable error record.
///
/// The numeric `code` conventionally has 9 digits, composed as
/// `namespace * 10000 + sub_code` from a 5-digit `namespace`; the ranges are a
/// documented convention, not validated at construction. `source_error` is the
/// exclusively owned cause: it is attached once, through [`WidError::set_source`],
/// and can never form a cycle.
#[derive(Debug, PartialEq)]
pub struct WidError {
    /// Human-readable or localization-keyed description.
    pub message: Message,
    /// Stable numeric identifier; suggested range [100000000, 999999999].
    pub code: u32,
    /// Stable symbolic identifier, for log search independent of `code`.
    pub name: String,
    /// Identifier of the owning component; suggested range [10000, 99999],
    /// recoverable from `code` by truncating the last four digits.
    pub namespace: u32,
    /// Canonical failure category.
    pub kind: Kind,
    /// Where along the request path the error originated.
    pub scope: Scope,
    /// Severity as an opaque ordinal in [0, 255].
    pub level: u8,
    /// Whether retrying the triggering operation is safe.
    pub retry_mode: RetryMode,
    /// Whether the error may be forwarded verbatim upstream.
    pub pass_through_mode: PassThroughMode,
    /// Optional mapping into an external system's error-code space.
    pub mapping_code: i64,
    source_error: Option<Box<WidError>>,
}

/// The per-record fields of one record, as a model value.
pub closed spec fn core_of(e: WidError) -> CoreView {
    CoreView {
        message: e.message@,
        code: e.code,
        name: e.name@,
        namespace: e.namespace,
        kind: e.kind,
        scope: e.scope,
        level: e.level,
        retry_mode: e.retry_mode,
        pass_through_mode: e.pass_through_mode,
        mapping_code: e.mapping_code,
    }
}

/// The whole cause chain of a record, outermost first: the record's own
/// fields, then those of its cause chain. Always of length at least 1.
pub closed spec fn chain_of(e: WidError) -> Seq<CoreView>
    decreases e,
{
    match e.source_error {
        Some(b) => seq![core_of(e)] + chain_of(*b),
        None => seq![core_of(e)],
    }
}

impl View for WidError {
    type V = Seq<CoreView>;

    open spec fn view(&self) -> Seq<CoreView> {
        chain_of(*self)
    }
}

/// Every record's chain holds at least the record itself.
pub proof fn lemma_chain_nonempty(e: WidError)
    ensures
        e@.len() >= 1,
{
    match e.source_error {
        Some(b) => {
            assert(e@ == seq![core_of(e)] + chain_of(*b));
        },
        None => {
            assert(e@ == seq![core_of(e)]);
        },
    }
}

/// The model of a freshly constructed record: the given code and message, and
/// every other field at its type's default.
pub open spec fn fresh_core(code: u32, message: MsgView) -> CoreView {
    CoreView {
        message: message,
        code: code,
        name: Seq::<char>::empty(),
        namespace: 0,
        kind: Kind::Okay,
        scope: Scope::Internal,
        level: 0,
        retry_mode: RetryMode::Unknown,
        pass_through_mode: PassThroughMode::Auto,
        mapping_code: 0,
    }
}

impl WidError {
    /// Build a record with the given code and message and all other fields at
    /// their type's default: kind `Okay`, scope `Internal`, retry mode
    /// `Unknown`, pass-through mode `Auto`, level 0, mapping code 0, empty
    /// name, and no cause. Never fails.
    pub fn new(code: u32, message: Message) -> (r: WidError)
        ensures
            r@ == seq![fresh_core(code, message@)],
    {
        let r = WidError {
            message,
            code,
            name: String::new(),
            namespace: 0,
            kind: Kind::Okay,
            scope: Scope::Internal,
            level: 0,
            retry_mode: RetryMode::Unknown,
            pass_through_mode: PassThroughMode::Auto,
            mapping_code: 0,
            source_error: None,
        };
        proof {
            assert(r@ =~= seq![fresh_core(code, message@)]);
        }
        r
    }

    /// Attach `e` as this record's cause, consuming both: the returned
    /// record keeps every field of `self` and owns `e` as its cause chain.
    /// One-shot, builder-style attachment: the chain below `e` comes along
    /// unchanged, and a previously attached cause (if any) is replaced whole,
    /// never spliced, so no cycle can arise.
    pub fn set_source(self, e: WidError) -> (r: WidError)
        ensures
            r@ == seq![self@[0]] + e@,
    {
        let ghost s = self;
        let r = WidError { source_error: Some(Box::new(e)), ..self };
        proof {
            assert(core_of(r) == core_of(s));
            assert(s@[0] == core_of(s));
            assert(r@ =~= seq![s@[0]] + e@);
        }
        r
    }

    /// The attached cause, if any: one step along the cause chain, in the
    /// style of the standard error-chaining accessor.
    pub fn source(&self) -> (r: Option<&WidError>)
        ensures
            match r {
                Some(c) => self@.len() > 1 && c@ == self@.skip(1),
                None => self@.len() == 1,
            },
    {
        match &self.source_error {
            Some(b) => {
                proof {
                    assert(self@ == seq![core_of(*self)] + chain_of(**b));
                    assert((seq![core_of(*self)] + chain_of(**b)).skip(1) =~= chain_of(**b));
                }
                Some(&**b)
            },
            None => None,
        }
    }
}

/// A `CoreView` assembled from plain field values.
pub open spec fn mk_core(
    message: MsgView,
    code: u32,
    name: Seq<char>,
    namespace: u32,
    kind: Kind,
    scope: Scope,
    level: u8,
    retry_mode: RetryMode,
    pass_through_mode: PassThroughMode,
    mapping_code: i64,
) -> CoreView {
    CoreView { message, code, name, namespace, kind, scope, level, retry_mode, pass_through_mode, mapping_code }
}

impl WidError {
    /// Assemble a record from every field value and an optional, already
    /// built cause record. This is the struct literal as a function, so that
    /// a decoder can rebuild exactly the record it read.
    pub fn from_parts(
        message: Message,
        code: u32,
        name: String,
        namespace: u32,
        kind: Kind,
        scope: Scope,
        level: u8,
        retry_mode: RetryMode,
        pass_through_mode: PassThroughMode,
        mapping_code: i64,
        source: Option<WidError>,
    ) -> (r: WidError)
        ensures
            r@ == seq![
                mk_core(message@, code, name@, namespace, kind, scope, level, retry_mode,
                    pass_through_mode, mapping_code),
            ] + (match source {
                Some(s) => s@,
                None => Seq::<CoreView>::empty(),
            }),
    {
        let ghost msgv = message@;
        let ghost namev = name@;
        let ghost gsrc = source;
        let r = WidError {
            message,
            code,
            name,
            namespace,
            kind,
            scope,
            level,
            retry_mode,
            pass_through_mode,
            mapping_code,
            source_error: match source {
                Some(s) => Some(Box::new(s)),
                None => None,
            },
        };
        proof {
            let k = mk_core(msgv, code, namev, namespace, kind, scope, level, retry_mode,
                pass_through_mode, mapping_code);
            assert(core_of(r) == k);
            match gsrc {
                Some(s) => {
                    assert(r@ =~= seq![k] + s@);
                },
                None => {
                    assert(r@ =~= seq![k] + Seq::<CoreView>::empty());
                },
            }
        }
        r
    }

    /// Append the textual form of this record's fields through the message.
    #[verifier::rlimit(100)]
    fn push_core_head(&self, out: &mut Vec<char>)
        ensures
            final(out)@ == old(out)@ + "code="@ + dec_digits(self.code as int) + ", name="@
                + self.name@ + ", namespace="@ + dec_digits(self.namespace as int) + ", scope="@
                + dec_digits(scope_code(self.scope)) + ", kind="@ + dec_digits(kind_code(self.kind))
                + ", level="@ + dec_digits(self.level as int) + ", message="@
                + msg_text(self.message@),
    {
        append_str(out, "code=");
        push_u64(out, self.code as u64);
        append_str(out, ", name=");
        append_str(out, self.name.as_str());
        append_str(out, ", namespace=");
        push_u64(out, self.namespace as u64);
        append_str(out, ", scope=");
        push_u64(out, self.scope.code() as u64);
        append_str(out, ", kind=");
        push_u64(out, self.kind.code() as u64);
        append_str(out, ", level=");
        push_u64(out, self.level as u64);
        append_str(out, ", message=");
        match &self.message {
            Message::Default(t) => {
                append_str(out, "Default(\"");
                push_escaped(out, t.as_str());
                append_str(out, "\")");
            },
            Message::I18n(t) => {
                append_str(out, "I18n(\"");
                push_escaped(out, t.as_str());
                append_str(out, "\")");
            },
        }
        proof {
            assert(out@ =~= old(out)@ + "code="@ + dec_digits(self.code as int) + ", name="@
                + self.name@ + ", namespace="@ + dec_digits(self.namespace as int) + ", scope="@
                + dec_digits(scope_code(self.scope)) + ", kind="@ + dec_digits(kind_code(self.kind))
                + ", level="@ + dec_digits(self.level as int) + ", message="@
                + msg_text(self.message@));
        }
    }

    /// Append the textual form of this record's own fields to `out`.
    #[verifier::rlimit(100)]
    fn push_core_text(&self, out: &mut Vec<char>)
        ensures
            final(out)@ == old(out)@ + core_text(core_of(*self)),
    {
        self.push_core_head(out);
        append_str(out, ", retry_mode=");
        push_u64(out, self.retry_mode.code() as u64);
        append_str(out, ", pass_through_mode=");
        push_u64(out, self.pass_through_mode.code() as u64);
        append_str(out, ", mapping_code=");
        push_i64(out, self.mapping_code);
        append_str(out, ", source_error=(");
        proof {
            assert(out@ =~= old(out)@ + core_text(core_of(*self)));
        }
    }

    /// Append this record's single-line rendering to `out`.
    fn push_render(&self, out: &mut Vec<char>)
        ensures
            final(out)@ == old(out)@ + render_chain(self@),
        decreases *self,
    {
        self.push_core_text(out);
        match &self.source_error {
            Some(b) => {
                b.push_render(out);
                proof {
                    assert(self@ =~= seq![core_of(*self)] + chain_of(**b));
                    assert(self@.skip(1) =~= chain_of(**b));
                }
            },
            None => {
                proof {
                    assert(self@ =~= seq![core_of(*self)]);
                    assert(self@.skip(1) =~= Seq::<CoreView>::empty());
                    assert(render_chain(Seq::<CoreView>::empty()) == Seq::<char>::empty());
                }
            },
        }
        out.push(')');
        proof {
            assert(self@[0] == core_of(*self));
            assert(out@ =~= old(out)@ + render_chain(self@));
        }
    }

    /// The single-line human-readable form of this record, every field in a
    /// fixed order, enums as their numeric wire values, and the cause chain
    /// as nested parenthesized segments.
    pub fn render(&self) -> (r: String)
        ensures
            r@ == render_chain(self@),
    {
        let mut out: Vec<char> = Vec::new();
        self.push_render(&mut out);
        chars_to_string(&out)
    }

    /// Append the JSON key-value pairs from the `mapping_code` key through
    /// the `"source_error":` key to `out`.
    fn push_keys_from_mapping(&self, out: &mut Vec<char>)
        ensures
            final(out)@ == old(out)@ + crate::json::keys_from_mapping(core_of(*self)),
    {
        append_str(out, ",\"mapping_code\":");
        push_i64(out, self.mapping_code);
        append_str(out, ",\"source_error\":");
        proof {
            assert(out@ =~= old(out)@ + crate::json::keys_from_mapping(core_of(*self)));
        }
    }

    /// Append the JSON key-value pairs from the `pass_through_mode` key on.
    fn push_keys_from_pass(&self, out: &mut Vec<char>)
        ensures
            final(out)@ == old(out)@ + crate::json::keys_from_pass(core_of(*self)),
    {
        append_str(out, ",\"pass_through_mode\":");
        push_u64(out, self.pass_through_mode.code() as u64);
        self.push_keys_from_mapping(out);
        proof {
            assert(out@ =~= old(out)@ + crate::json::keys_from_pass(core_of(*self)));
        }
    }

    /// Append the JSON key-value pairs from the `retry_mode` key on.
    fn push_keys_from_retry(&self, out: &mut Vec<char>)
        ensures
            final(out)@ == old(out)@ + crate::json::keys_from_retry(core_of(*self)),
    {
        append_str(out, ",\"retry_mode\":");
        push_u64(out, self.retry_mode.code() as u64);
        self.push_keys_from_pass(out);
        proof {
            assert(out@ =~= old(out)@ + crate::json::keys_from_retry(core_of(*self)));
        }
    }

    /// Append the JSON key-value pairs from the `level` key on.
    fn push_keys_from_level(&self, out: &mut Vec<char>)
        ensures
            final(out)@ == old(out)@ + crate::json::keys_from_level(core_of(*self)),
    {
        append_str(out, ",\"level\":");
        push_u64(out, self.level as u64);
        self.push_keys_from_retry(out);
        proof {
            assert(out@ =~= old(out)@ + crate::json::keys_from_level(core_of(*self)));
        }
    }

    /// Append the JSON key-value pairs from the `scope` key on.
    fn push_keys_from_scope(&self, out: &mut Vec<char>)
        ensures
            final(out)@ == old(out)@ + crate::json::keys_from_scope(core_of(*self)),
    {
        append_str(out, ",\"scope\":");
        push_u64(out, self.scope.code() as u64);
        self.push_keys_from_level(out);
        proof {
            assert(out@ =~= old(out)@ + crate::json::keys_from_scope(core_of(*self)));
        }
    }

    /// Append the JSON key-value pairs from the `kind` key on.
    fn push_keys_from_kind(&self, out: &mut Vec<char>)
        ensures
            final(out)@ == old(out)@ + crate::json::keys_from_kind(core_of(*self)),
    {
        append_str(out, ",\"kind\":");
        push_u64(out, self.kind.code() as u64);
        self.push_keys_from_scope(out);
        proof {
            assert(out@ =~= old(out)@ + crate::json::keys_from_kind(core_of(*self)));
        }
    }

    /// Append the JSON key-value pairs from the `namespace` key on.
    fn push_keys_from_namespace(&self, out: &mut Vec<char>)
        ensures
            final(out)@ == old(out)@ + crate::json::keys_from_namespace(core_of(*self)),
    {
        append_str(out, ",\"namespace\":");
        push_u64(out, self.namespace as u64);
        self.push_keys_from_kind(out);
        proof {
            assert(out@ =~= old(out)@ + crate::json::keys_from_namespace(core_of(*self)));
        }
    }

    /// Append the JSON key-value pairs from the `name` key on.
    fn push_keys_from_name(&self, out: &mut Vec<char>)
        ensures
            final(out)@ == old(out)@ + crate::json::keys_from_name(core_of(*self)),
    {
        append_str(out, ",\"name\":");
        out.push('"');
        push_escaped(out, self.name.as_str());
        out.push('"');
        self.push_keys_from_namespace(out);
        proof {
            assert(out@ =~= old(out)@ + crate::json::keys_from_name(core_of(*self)));
        }
    }

    /// Append the JSON key-value pairs from the `code` key on.
    fn push_keys_from_code(&self, out: &mut Vec<char>)
        ensures
            final(out)@ == old(out)@ + crate::json::keys_from_code(core_of(*self)),
    {
        append_str(out, ",\"code\":");
        push_u64(out, self.code as u64);
        self.push_keys_from_name(out);
        proof {
            assert(out@ =~= old(out)@ + crate::json::keys_from_code(core_of(*self)));
        }
    }

    /// Append the JSON encoding of this record's own fields to `out`, from
    /// the first key through the `"source_error":` key.
    fn push_json_fields(&self, out: &mut Vec<char>)
        ensures
            final(out)@ == old(out)@ + json_fields(core_of(*self)),
    {
        append_str(out, "\"message\":");
        match &self.message {
            Message::Default(t) => {
                append_str(out, "{\"Default\":");
                out.push('"');
                push_escaped(out, t.as_str());
                out.push('"');
                out.push('}');
            },
            Message::I18n(t) => {
                append_str(out, "{\"I18n\":");
                out.push('"');
                push_escaped(out, t.as_str());
                out.push('"');
                out.push('}');
            },
        }
        proof {
            assert(out@ =~= old(out)@ + "\"message\":"@ + json_msg(self.message@));
        }
        self.push_keys_from_code(out);
        proof {
            assert(out@ =~= old(out)@ + json_fields(core_of(*self)));
        }
    }

    /// Append this record's canonical JSON encoding to `out`.
    fn push_json(&self, out: &mut Vec<char>)
        ensures
            final(out)@ == old(out)@ + json_chain(self@),
        decreases *self,
    {
        out.push('{');
        self.push_json_fields(out);
        proof {
            assert(out@ =~= old(out)@ + seq!['{'] + json_fields(core_of(*self)));
        }
        match &self.source_error {
            Some(b) => {
                b.push_json(out);
                proof {
                    assert(self@ =~= seq![core_of(*self)] + chain_of(**b));
                    assert(self@.skip(1) =~= chain_of(**b));
                }
            },
            None => {
                append_str(out, "null");
                proof {
                    assert(self@ =~= seq![core_of(*self)]);
                    assert(self@.skip(1) =~= Seq::<CoreView>::empty());
                    assert(json_chain(Seq::<CoreView>::empty()) == "null"@);
                }
            },
        }
        out.push('}');
        proof {
            assert(self@[0] == core_of(*self));
            assert(out@ =~= old(out)@ + json_chain(self@));
        }
    }

    /// The canonical JSON encoding of this record, as [`crate::json`]
    /// documents it: every field present, enums as integers, the absent cause
    /// as the explicit value `null`.
    pub fn to_json(&self) -> (r: String)
        ensures
            r@ == json_chain(self@),
    {
        let mut out: Vec<char> = Vec::new();
        self.push_json(&mut out);
        chars_to_string(&out)
    }
}

impl Default for WidError {
    /// The all-default record: code 0, empty name and message, every
    /// classification at its default, and no cause.
    fn default() -> (r: Self)
        ensures
            r@ == seq![fresh_core(0, MsgView::Default(Seq::<char>::empty()))],
    {
        WidError::new(0, Message::default())
    }
}

} // verus!
